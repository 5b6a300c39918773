use typst_bridge::build_source;
use typst_bridge::finish_compile;
use typst_bridge::iface::CompileResult;
use typst_bridge::iface::Diagnostic;
use typst_bridge::iface::EngineDiagnostic;
use typst_bridge::iface::Severity;
use typst_bridge::iface::WarningRange;
use typst_bridge::saturating_sub;
use typst_bridge::EngineOutcome;

const AUTOSIZE: &str = "#set page(width: auto, height: auto, margin: 0.5cm)\n";
const TRANSPARENT: &str = "#set page(fill: none)\n";

fn diag(range: Option<(usize, usize)>, message: &str, severity: Severity) -> EngineDiagnostic {
    EngineDiagnostic {
        range: range.map(|(start, end)| WarningRange { start, end }),
        message: message.to_string(),
        severity,
    }
}

fn has_error(r: &CompileResult) -> bool {
    r.diagnostics.iter().any(|d| matches!(d.severity, Severity::Error))
}

#[test]
fn saturating_sub_floors_at_zero() {
    assert_eq!(saturating_sub(10, 3), 7);
    assert_eq!(saturating_sub(3, 10), 0);
    assert_eq!(saturating_sub(5, 5), 0);
    assert_eq!(saturating_sub(0, 0), 0);
    assert_eq!(saturating_sub(usize::MAX, 0), usize::MAX);
}

#[test]
fn build_source_no_flags_is_identity() {
    let (text, prefix_len) = build_source("= Hello\nworld", false, false);
    assert_eq!(text, "= Hello\nworld");
    assert_eq!(prefix_len, 0);
}

#[test]
fn build_source_autosize_only() {
    let (text, prefix_len) = build_source("body", true, false);
    assert_eq!(text, format!("{AUTOSIZE}body"));
    assert_eq!(prefix_len, 52);
    assert_eq!(prefix_len, AUTOSIZE.len());
}

#[test]
fn build_source_transparent_only() {
    let (text, prefix_len) = build_source("body", false, true);
    assert_eq!(text, format!("{TRANSPARENT}body"));
    assert_eq!(prefix_len, 22);
    assert_eq!(prefix_len, TRANSPARENT.len());
}

#[test]
fn build_source_both_flags_fixed_order() {
    let (text, prefix_len) = build_source("body", true, true);
    assert_eq!(text, format!("{AUTOSIZE}{TRANSPARENT}body"));
    assert_eq!(prefix_len, 74);
    assert_eq!(prefix_len, AUTOSIZE.len() + TRANSPARENT.len());
}

#[test]
fn build_source_empty_source_both_flags() {
    // Both directives, nothing else: the prefix length is the combined byte
    // length of the two injected directives.
    let (text, prefix_len) = build_source("", true, true);
    assert_eq!(text, format!("{AUTOSIZE}{TRANSPARENT}"));
    assert_eq!(prefix_len, AUTOSIZE.len() + TRANSPARENT.len());
}

#[test]
fn build_source_multibyte_source_kept_verbatim() {
    let (text, prefix_len) = build_source("héllo — ★", true, false);
    assert_eq!(text, format!("{AUTOSIZE}héllo — ★"));
    assert_eq!(prefix_len, 52);
}

#[test]
fn translate_shifts_range_back() {
    let d = Diagnostic::from_source_diagnostic(
        diag(Some((62, 70)), "unknown variable", Severity::Error),
        52,
    );
    let r = d.range.expect("range kept");
    assert_eq!((r.start, r.end), (10, 18));
    assert_eq!(d.message, "unknown variable");
    assert!(matches!(d.severity, Severity::Error));
}

#[test]
fn translate_zero_prefix_is_identity() {
    let d = Diagnostic::from_source_diagnostic(
        diag(Some((3, 9)), "unclosed delimiter", Severity::Error),
        0,
    );
    let r = d.range.expect("range kept");
    assert_eq!((r.start, r.end), (3, 9));
}

#[test]
fn translate_span_inside_prefix_collapses_to_start() {
    let d = Diagnostic::from_source_diagnostic(
        diag(Some((5, 30)), "prefix-only issue", Severity::Warning),
        52,
    );
    let r = d.range.expect("range kept");
    assert_eq!((r.start, r.end), (0, 0));
}

#[test]
fn translate_span_straddling_prefix_keeps_tail() {
    let d = Diagnostic::from_source_diagnostic(
        diag(Some((40, 60)), "straddles the prefix", Severity::Warning),
        52,
    );
    let r = d.range.expect("range kept");
    assert_eq!((r.start, r.end), (0, 8));
}

#[test]
fn translate_keeps_missing_range_missing() {
    let d = Diagnostic::from_source_diagnostic(diag(None, "no location", Severity::Warning), 52);
    assert!(d.range.is_none());
    assert_eq!(d.message, "no location");
}

#[test]
fn success_without_warnings_has_image_and_no_diagnostics() {
    // A valid document: image present, diagnostics empty.
    let png = vec![0x89u8, 0x50, 0x4e, 0x47];
    let r = finish_compile(Vec::new(), EngineOutcome::Rendered(png.clone()), 52);
    assert_eq!(r.output.as_deref(), Some(&png[..]));
    assert!(r.diagnostics.is_empty());
    assert!(!has_error(&r));
}

#[test]
fn failure_has_no_image_and_error_diagnostics() {
    // One unterminated construct: image absent, one error whose translated
    // range falls inside the user's text.
    let errors = vec![diag(Some((54, 58)), "unclosed delimiter", Severity::Error)];
    let r = finish_compile(Vec::new(), EngineOutcome::Rejected(errors), 52);
    assert!(r.output.is_none());
    assert_eq!(r.diagnostics.len(), 1);
    assert!(has_error(&r));
    let range = r.diagnostics[0].range.expect("range kept");
    assert_eq!((range.start, range.end), (2, 6));
}

#[test]
fn warning_with_success_keeps_image_and_one_warning() {
    // One engine warning on an otherwise compiling document: image present
    // and exactly the one warning entry.
    let warnings = vec![diag(Some((52, 56)), "unused import", Severity::Warning)];
    let png = vec![1u8, 2, 3];
    let r = finish_compile(warnings, EngineOutcome::Rendered(png.clone()), 52);
    assert_eq!(r.output.as_deref(), Some(&png[..]));
    assert_eq!(r.diagnostics.len(), 1);
    assert!(matches!(r.diagnostics[0].severity, Severity::Warning));
    assert_eq!(r.diagnostics[0].message, "unused import");
    assert!(!has_error(&r));
}

#[test]
fn warnings_precede_errors_in_original_order() {
    let warnings = vec![
        diag(Some((0, 1)), "first warning", Severity::Warning),
        diag(None, "second warning", Severity::Warning),
    ];
    let errors = vec![
        diag(Some((10, 12)), "first error", Severity::Error),
        diag(Some((2, 3)), "second error", Severity::Error),
    ];
    let r = finish_compile(warnings, EngineOutcome::Rejected(errors), 0);
    assert!(r.output.is_none());
    let messages: Vec<&str> = r.diagnostics.iter().map(|d| d.message.as_str()).collect();
    assert_eq!(
        messages,
        ["first warning", "second warning", "first error", "second error"]
    );
    assert!(has_error(&r));
}

#[test]
fn image_presence_negates_error_presence() {
    let ok = finish_compile(
        vec![diag(None, "just a warning", Severity::Warning)],
        EngineOutcome::Rendered(vec![7u8]),
        0,
    );
    assert_eq!(ok.output.is_some(), !has_error(&ok));

    let bad = finish_compile(
        vec![diag(None, "a warning first", Severity::Warning)],
        EngineOutcome::Rejected(vec![diag(None, "then an error", Severity::Error)]),
        0,
    );
    assert_eq!(bad.output.is_some(), !has_error(&bad));
    assert!(bad.output.is_none());
}

#[test]
fn compile_pipeline_is_deterministic() {
    // The same inputs assemble to the same result, run twice.
    let make = || {
        let (text, prefix_len) = build_source("= Title", true, true);
        let warnings = vec![diag(Some((74, 76)), "hint", Severity::Warning)];
        let r = finish_compile(warnings, EngineOutcome::Rendered(text.into_bytes()), prefix_len);
        r
    };
    let r1 = make();
    let r2 = make();
    assert_eq!(r1.output, r2.output);
    assert_eq!(r1.diagnostics.len(), r2.diagnostics.len());
    for (a, b) in r1.diagnostics.iter().zip(r2.diagnostics.iter()) {
        assert_eq!(a.message, b.message);
        assert_eq!(a.range.map(|r| (r.start, r.end)), b.range.map(|r| (r.start, r.end)));
        assert!(matches!(
            (a.severity, b.severity),
            (Severity::Warning, Severity::Warning) | (Severity::Error, Severity::Error)
        ));
    }
}
