//! The types crossing the bridge's boundary, and the diagnostic translator.
//!
//! The engine reports issues in the coordinate space of the text it actually
//! compiled, which begins with the injected prefix.  The translator carries
//! each issue back into the caller's coordinate space by subtracting the
//! prefix's byte length from both range boundaries, saturating at zero, so
//! that an issue inside the prefix collapses to the start of the user's text
//! instead of wrapping around.

use vstd::prelude::*;

verus! {

/// Half-open byte range `[start, end)` into a piece of text.
#[derive(Clone, Copy, PartialEq, Eq, Structural)]
pub struct WarningRange {
    pub start: usize,
    pub end: usize,
}

/// Severity of one reported issue.
#[derive(Clone, Copy, PartialEq, Eq, Structural)]
pub enum Severity {
    Warning,
    Error,
}

/// One engine-reported issue, still in the coordinate space of the compiled
/// text (prefix included).  The host resolves the engine's span to a byte
/// range before handing the issue over; an issue the engine attached no span
/// to carries no range.
pub struct EngineDiagnostic {
    pub range: Option<WarningRange>,
    pub message: String,
    pub severity: Severity,
}

/// One reported issue in the caller's coordinate space: an optional half-open
/// byte range into the original (pre-prefix) text, a message passed through
/// unmodified, and a severity.
pub struct Diagnostic {
    pub range: Option<WarningRange>,
    pub message: String,
    pub severity: Severity,
}

/// The outcome of one compile call: encoded image bytes, present exactly when
/// compilation succeeded, and the ordered list of diagnostics.
pub struct CompileResult {
    pub output: Option<Vec<u8>>,
    pub diagnostics: Vec<Diagnostic>,
}

/// The range `r` shifted back by `prefix_len` bytes, each boundary saturating
/// at zero.
pub open spec fn translated_range(r: WarningRange, prefix_len: int) -> WarningRange {
    WarningRange {
        start: crate::sat_sub(r.start as int, prefix_len) as usize,
        end: crate::sat_sub(r.end as int, prefix_len) as usize,
    }
}

/// `out` is `d` carried into the caller's coordinate space: severity and
/// message unchanged, each range boundary moved back by `prefix_len` with a
/// floor at zero, and a range present exactly when the engine attached one.
pub open spec fn is_translation(d: EngineDiagnostic, prefix_len: int, out: Diagnostic) -> bool {
    &&& out.severity == d.severity
    &&& out.message@ == d.message@
    &&& match d.range {
        Some(r) => out.range == Some(translated_range(r, prefix_len)),
        None => out.range is None,
    }
}

impl Diagnostic {
    /// Translates one engine-reported issue into the caller's coordinate
    /// space by subtracting the injected prefix length from both range
    /// boundaries, saturating at zero.
    pub fn from_source_diagnostic(diag: EngineDiagnostic, prefix_len: usize) -> (r: Diagnostic)
        ensures
            is_translation(diag, prefix_len as int, r),
            (diag.range matches Some(x) && x.start <= x.end) ==> (r.range matches Some(y)
                && y.start <= y.end),
    {
        Diagnostic {
            range: match diag.range {
                Some(x) => Some(
                    WarningRange {
                        start: crate::saturating_sub(x.start, prefix_len),
                        end: crate::saturating_sub(x.end, prefix_len),
                    },
                ),
                None => None,
            },
            message: diag.message,
            severity: diag.severity,
        }
    }
}

/// Translated ranges are well-formed: no boundary is ever negative, order is
/// preserved, a span lying entirely inside the injected prefix collapses to
/// `(0, 0)`, a span whose start alone lies in the prefix keeps only its tail,
/// and a span entirely inside the user's text keeps its width.
pub proof fn lemma_translated_range_ordered(r: WarningRange, prefix_len: int)
    requires
        r.start <= r.end,
        0 <= prefix_len,
    ensures
        0 <= translated_range(r, prefix_len).start,
        translated_range(r, prefix_len).start <= translated_range(r, prefix_len).end,
        r.end <= prefix_len ==> translated_range(r, prefix_len) == (WarningRange {
            start: 0,
            end: 0,
        }),
        r.start <= prefix_len ==> translated_range(r, prefix_len).start == 0,
        prefix_len <= r.start ==> translated_range(r, prefix_len).end - translated_range(
            r,
            prefix_len,
        ).start == r.end - r.start,
{
}

/// With no injected prefix the translation is the identity: range, message
/// text and severity all come through exactly as the engine reported them.
pub proof fn lemma_zero_prefix_identity(d: EngineDiagnostic, out: Diagnostic)
    requires
        is_translation(d, 0, out),
    ensures
        out.range == d.range,
        out.message@ == d.message@,
        out.severity == d.severity,
{
    match d.range {
        Some(r) => {
            assert(translated_range(r, 0) == r);
        },
        None => {},
    }
}

} // verus!
