//! Single-document compilation bridge.
//!
//! One string of markup, an immutable environment prepared once at startup,
//! and a small set of rendering options go in; a rendered image or a list of
//! diagnostics comes out.  This crate holds the verified core of that
//! pipeline: the input transformer that prepends configuration directives to
//! the user's text, the diagnostic translator that maps engine-reported byte
//! ranges back into the user's coordinate space, the single-document resource
//! resolution policy, and the assembly of the final result.  The typesetting
//! engine, the rasterizer and the image encoder are outside collaborators; a
//! thin host layer drives them and hands their plain-value outcomes back to
//! the functions here.

use vstd::prelude::*;
use vstd::string::*;

use crate::iface::CompileResult;
use crate::iface::Diagnostic;
use crate::iface::EngineDiagnostic;
use crate::iface::Severity;
use crate::iface::is_translation;
use vstd::utf8::encode_scalar;
use vstd::utf8::encode_utf8;

pub mod iface;
pub mod unit;

verus! {

/// Saturating subtraction over mathematical integers: the floor at zero that
/// every range translation applies.
pub open spec fn sat_sub(a: int, b: int) -> int {
    if a >= b {
        a - b
    } else {
        0
    }
}

/// Subtracts `b` from `a`, saturating at zero.
pub fn saturating_sub(a: usize, b: usize) -> (r: usize)
    ensures
        r == sat_sub(a as int, b as int),
{
    if a >= b {
        a - b
    } else {
        0
    }
}

/// The page-sizing directive injected ahead of the user's text when
/// `autosize` is set: page width and height fit the content, with a small
/// fixed margin.
pub open spec fn autosize_directive() -> Seq<char> {
    "#set page(width: auto, height: auto, margin: 0.5cm)\n"@
}

/// The background directive injected ahead of the user's text when
/// `transparent` is set: page fill disabled, so the rasterizer can produce an
/// alpha-transparent image.
pub open spec fn transparent_directive() -> Seq<char> {
    "#set page(fill: none)\n"@
}

/// Everything prepended ahead of the user's text, in the fixed order: the
/// autosize directive, if any, before the transparency directive, if any.
pub open spec fn injected_prefix(autosize: bool, transparent: bool) -> Seq<char> {
    (if autosize {
        autosize_directive()
    } else {
        Seq::<char>::empty()
    }) + (if transparent {
        transparent_directive()
    } else {
        Seq::<char>::empty()
    })
}

/// The length in bytes of the injected prefix under UTF-8, the encoding all
/// engine-reported offsets and all range arithmetic are carried out in.
pub open spec fn injected_prefix_byte_len(autosize: bool, transparent: bool) -> int {
    encode_utf8(injected_prefix(autosize, transparent)).len() as int
}

/// Builds the text actually sent to the engine by prepending the configured
/// directives ahead of `source`, and returns it together with the exact byte
/// length of everything prepended.
pub fn build_source(source: &str, autosize: bool, transparent: bool) -> (r: (String, usize))
    ensures
        r.0@ == injected_prefix(autosize, transparent) + source@,
        r.1 == injected_prefix_byte_len(autosize, transparent),
{
    let mut prefix = String::new();
    if autosize {
        prefix.append("#set page(width: auto, height: auto, margin: 0.5cm)\n");
    }
    if transparent {
        prefix.append("#set page(fill: none)\n");
    }
    proof {
        reveal_strlit("#set page(width: auto, height: auto, margin: 0.5cm)\n");
        reveal_strlit("#set page(fill: none)\n");
        assert(prefix@ =~= injected_prefix(autosize, transparent));
        lemma_encode_utf8_len_bound(prefix@);
    }
    let prefix_len = prefix.as_str().len();
    let final_text = prefix.concat(source);
    (final_text, prefix_len)
}

/// `text` and `len` are what building the engine's input from `source` under
/// the two flags yields: the prefix-augmented text and the prefix's byte
/// length.
pub open spec fn built_source(
    source: Seq<char>,
    autosize: bool,
    transparent: bool,
    text: Seq<char>,
    len: int,
) -> bool {
    &&& text == injected_prefix(autosize, transparent) + source
    &&& len == injected_prefix_byte_len(autosize, transparent)
}

/// Building the engine's input is deterministic: the same user text and flags
/// always yield the same final text and the same prefix length.
pub proof fn lemma_build_source_deterministic(
    source: Seq<char>,
    autosize: bool,
    transparent: bool,
    t1: Seq<char>,
    l1: int,
    t2: Seq<char>,
    l2: int,
)
    requires
        built_source(source, autosize, transparent, t1, l1),
        built_source(source, autosize, transparent, t2, l2),
    ensures
        t1 == t2,
        l1 == l2,
{
}

/// The UTF-8 encoding of a character sequence takes at most four bytes per
/// character.
pub proof fn lemma_encode_utf8_len_bound(chars: Seq<char>)
    ensures
        encode_utf8(chars).len() <= 4 * chars.len(),
    decreases chars.len(),
{
    if chars.len() != 0 {
        lemma_encode_utf8_len_bound(chars.drop_first());
        assert(encode_scalar(chars[0] as u32).len() <= 4);
    }
}

/// UTF-8 encoding distributes over concatenation of character sequences.
pub proof fn lemma_encode_utf8_concat(a: Seq<char>, b: Seq<char>)
    ensures
        encode_utf8(a + b) == encode_utf8(a) + encode_utf8(b),
    decreases a.len(),
{
    if a.len() == 0 {
        assert(a + b =~= b);
        assert(encode_utf8(a) + encode_utf8(b) =~= encode_utf8(b));
    } else {
        assert((a + b).drop_first() =~= a.drop_first() + b);
        lemma_encode_utf8_concat(a.drop_first(), b);
        assert((a + b).len() != 0);
        assert((a + b)[0] == a[0]);
        assert(encode_utf8(a + b) =~= encode_utf8(a) + encode_utf8(b));
    }
}

/// With neither flag set nothing is prepended: the prefix is empty, its byte
/// length is zero, and the final text is the user's text unchanged.
pub proof fn lemma_no_flags_no_prefix(source: Seq<char>)
    ensures
        injected_prefix(false, false) == Seq::<char>::empty(),
        injected_prefix_byte_len(false, false) == 0,
        injected_prefix(false, false) + source == source,
{
    assert(injected_prefix(false, false) =~= Seq::<char>::empty());
    assert(injected_prefix(false, false) + source =~= source);
}

/// With both flags set the prefix is the two directives in their fixed
/// order, and its byte length is exactly the sum of the byte lengths of the
/// two injected directives.
pub proof fn lemma_prefix_both_directives()
    ensures
        injected_prefix(true, true) == autosize_directive() + transparent_directive(),
        injected_prefix_byte_len(true, true) == encode_utf8(autosize_directive()).len()
            + encode_utf8(transparent_directive()).len(),
{
    lemma_encode_utf8_concat(autosize_directive(), transparent_directive());
}

/// What came back from the engine and, on success, from the renderer and
/// encoder: the encoded image bytes, or the engine's error diagnostics.
pub enum EngineOutcome {
    /// Compilation succeeded; the document was rendered and encoded.
    Rendered(Vec<u8>),
    /// Compilation failed with the engine's error diagnostics, in the order
    /// the engine produced them.
    Rejected(Vec<EngineDiagnostic>),
}

/// `out` is exactly `input` translated element by element under the given
/// prefix length, in order.
pub open spec fn seq_translated(
    input: Seq<EngineDiagnostic>,
    prefix_len: int,
    out: Seq<Diagnostic>,
) -> bool {
    &&& out.len() == input.len()
    &&& forall|i: int|
        0 <= i < input.len() ==> is_translation(input[i], prefix_len, #[trigger] out[i])
}

/// Some entry of `diags` has error severity.
pub open spec fn has_error(diags: Seq<Diagnostic>) -> bool {
    exists|i: int| 0 <= i < diags.len() && (#[trigger] diags[i]).severity == Severity::Error
}

/// Every entry of `diags` has warning severity.
pub open spec fn all_warning_severity(diags: Seq<EngineDiagnostic>) -> bool {
    forall|i: int| 0 <= i < diags.len() ==> (#[trigger] diags[i]).severity == Severity::Warning
}

/// Every entry of `diags` has error severity.
pub open spec fn all_error_severity(diags: Seq<EngineDiagnostic>) -> bool {
    forall|i: int| 0 <= i < diags.len() ==> (#[trigger] diags[i]).severity == Severity::Error
}

/// The full relation between one engine outcome and the assembled result:
/// the translated warnings come first, in order; on failure the translated
/// error diagnostics follow them, in order, and the image is absent; on
/// success the image bytes are exactly the encoded bytes and nothing follows
/// the warnings.
pub open spec fn assembled(
    warnings: Seq<EngineDiagnostic>,
    outcome: EngineOutcome,
    prefix_len: int,
    r: CompileResult,
) -> bool {
    match outcome {
        EngineOutcome::Rendered(png) => {
            &&& r.output matches Some(p) && p@ == png@
            &&& seq_translated(warnings, prefix_len, r.diagnostics@)
        },
        EngineOutcome::Rejected(errors) => {
            &&& r.output is None
            &&& r.diagnostics@.len() == warnings.len() + errors@.len()
            &&& seq_translated(warnings, prefix_len, r.diagnostics@.take(warnings.len() as int))
            &&& seq_translated(errors@, prefix_len, r.diagnostics@.skip(warnings.len() as int))
        },
    }
}

/// Translates every diagnostic of `input`, in order, and appends the results
/// to `out`, leaving what was already there untouched.
fn translate_all(input: Vec<EngineDiagnostic>, prefix_len: usize, out: &mut Vec<Diagnostic>)
    ensures
        final(out)@.len() == old(out)@.len() + input@.len(),
        forall|i: int| 0 <= i < old(out)@.len() ==> final(out)@[i] == old(out)@[i],
        seq_translated(input@, prefix_len as int, final(out)@.skip(old(out)@.len() as int)),
{
    let ghost base = out@.len() as int;
    let ghost input0 = input@;
    let mut rest = input;
    while rest.len() > 0
        invariant
            out@.len() == base + input0.len() - rest@.len(),
            0 <= base <= out@.len(),
            rest@ == input0.skip(out@.len() - base),
            forall|i: int| 0 <= i < base ==> out@[i] == old(out)@[i],
            seq_translated(
                input0.take(out@.len() - base),
                prefix_len as int,
                out@.skip(base),
            ),
        decreases rest@.len(),
    {
        let ghost k = out@.len() - base;
        let d = rest.remove(0);
        proof {
            assert(d == input0[k]);
            assert(input0.skip(k).remove(0) =~= input0.skip(k + 1));
        }
        let t = Diagnostic::from_source_diagnostic(d, prefix_len);
        let ghost prev = out@;
        out.push(t);
        proof {
            assert(out@.skip(base) =~= prev.skip(base).push(t));
            assert forall|i: int|
                0 <= i < k + 1 implies is_translation(
                input0.take(k + 1)[i],
                prefix_len as int,
                #[trigger] out@.skip(base)[i],
            ) by {
                assert(out@.skip(base)[i] == prev.skip(base).push(t)[i]);
                if i < k {
                    assert(input0.take(k + 1)[i] == input0.take(k)[i]);
                    assert(prev.skip(base).push(t)[i] == prev.skip(base)[i]);
                    assert(is_translation(
                        input0.take(k)[i],
                        prefix_len as int,
                        prev.skip(base)[i],
                    ));
                } else {
                    assert(input0.take(k + 1)[i] == input0[k]);
                    assert(prev.skip(base).push(t)[i] == t);
                }
            }
        }
    }
    proof {
        assert(input0.take(out@.len() - base) =~= input0);
    }
}

/// Assembles the one `CompileResult` of a call from the engine's warnings
/// and its outcome: every diagnostic is translated into the caller's
/// coordinate space, warnings stand first in their original order, error
/// diagnostics follow only on failure, and the image bytes are attached
/// exactly when the engine succeeded.
pub fn finish_compile(
    warnings: Vec<EngineDiagnostic>,
    outcome: EngineOutcome,
    prefix_len: usize,
) -> (r: CompileResult)
    ensures
        assembled(warnings@, outcome, prefix_len as int, r),
{
    let ghost nwarn = warnings@.len() as int;
    let mut diagnostics: Vec<Diagnostic> = Vec::new();
    translate_all(warnings, prefix_len, &mut diagnostics);
    proof {
        assert(diagnostics@.skip(0) =~= diagnostics@);
    }
    match outcome {
        EngineOutcome::Rendered(png) => CompileResult { output: Some(png), diagnostics },
        EngineOutcome::Rejected(errors) => {
            let ghost before = diagnostics@;
            translate_all(errors, prefix_len, &mut diagnostics);
            proof {
                assert(diagnostics@.take(nwarn) =~= before);
            }
            CompileResult { output: None, diagnostics }
        },
    }
}

/// Image presence is the exact negation of "the diagnostics contain an
/// error-severity entry", whenever the engine's warning channel carries only
/// warning-severity issues and a failed compile reports at least one issue,
/// all of error severity — the shape the engine guarantees.
pub proof fn lemma_image_iff_no_error(
    warnings: Seq<EngineDiagnostic>,
    outcome: EngineOutcome,
    prefix_len: int,
    r: CompileResult,
)
    requires
        assembled(warnings, outcome, prefix_len, r),
        all_warning_severity(warnings),
        outcome matches EngineOutcome::Rejected(errors) ==> errors@.len() > 0 && all_error_severity(
            errors@,
        ),
    ensures
        r.output is Some <==> !has_error(r.diagnostics@),
{
    match outcome {
        EngineOutcome::Rendered(png) => {
            assert forall|i: int| 0 <= i < r.diagnostics@.len() implies (#[trigger] r.diagnostics@[i]).severity
                == Severity::Warning by {
                assert(is_translation(warnings[i], prefix_len, r.diagnostics@[i]));
            }
        },
        EngineOutcome::Rejected(errors) => {
            let n = warnings.len() as int;
            assert(is_translation(
                errors@[0],
                prefix_len,
                r.diagnostics@.skip(n)[0],
            ));
            assert(r.diagnostics@[n].severity == Severity::Error);
        },
    }
}

/// Two diagnostics agree in everything observable: range, message text and
/// severity.
pub open spec fn same_diagnostic(a: Diagnostic, b: Diagnostic) -> bool {
    &&& a.range == b.range
    &&& a.message@ == b.message@
    &&& a.severity == b.severity
}

/// Assembly is deterministic: two results assembled from the same warnings,
/// the same outcome and the same prefix length agree in image presence, in
/// the image bytes, and diagnostic by diagnostic in range, message text and
/// severity — no hidden state can tell them apart.
pub proof fn lemma_assembly_deterministic(
    warnings: Seq<EngineDiagnostic>,
    outcome: EngineOutcome,
    prefix_len: int,
    r1: CompileResult,
    r2: CompileResult,
)
    requires
        assembled(warnings, outcome, prefix_len, r1),
        assembled(warnings, outcome, prefix_len, r2),
    ensures
        r1.output is Some <==> r2.output is Some,
        r1.output matches Some(p1) ==> (r2.output matches Some(p2) && p1@ == p2@),
        r1.diagnostics@.len() == r2.diagnostics@.len(),
        forall|i: int|
            0 <= i < r1.diagnostics@.len() ==> same_diagnostic(
                #[trigger] r1.diagnostics@[i],
                r2.diagnostics@[i],
            ),
{
    match outcome {
        EngineOutcome::Rendered(png) => {
            assert forall|i: int| 0 <= i < r1.diagnostics@.len() implies same_diagnostic(
                #[trigger] r1.diagnostics@[i],
                r2.diagnostics@[i],
            ) by {
                assert(is_translation(warnings[i], prefix_len, r1.diagnostics@[i]));
                assert(is_translation(warnings[i], prefix_len, r2.diagnostics@[i]));
            }
        },
        EngineOutcome::Rejected(errors) => {
            let n = warnings.len() as int;
            assert forall|i: int| 0 <= i < r1.diagnostics@.len() implies same_diagnostic(
                #[trigger] r1.diagnostics@[i],
                r2.diagnostics@[i],
            ) by {
                if i < n {
                    assert(is_translation(
                        warnings[i],
                        prefix_len,
                        r1.diagnostics@.take(n)[i],
                    ));
                    assert(is_translation(
                        warnings[i],
                        prefix_len,
                        r2.diagnostics@.take(n)[i],
                    ));
                } else {
                    assert(is_translation(
                        errors@[i - n],
                        prefix_len,
                        r1.diagnostics@.skip(n)[i - n],
                    ));
                    assert(is_translation(
                        errors@[i - n],
                        prefix_len,
                        r2.diagnostics@.skip(n)[i - n],
                    ));
                }
            }
        },
    }
}

} // verus!
