use typst_bridge::unit::CompilationUnit;
use typst_bridge::unit::FileFailure;

#[test]
fn root_identity_resolves_to_final_text() {
    let unit = CompilationUnit::new(0, "#set page(fill: none)\nhello".to_string());
    let resolved = unit.resolve_source(0);
    assert_eq!(resolved.ok().as_deref(), Some("#set page(fill: none)\nhello"));
}

#[test]
fn other_identities_are_denied() {
    let unit = CompilationUnit::new(0, "hello".to_string());
    for id in [1u64, 2, 7, u64::MAX] {
        let resolved = unit.resolve_source(id);
        assert!(matches!(resolved, Err(FileFailure::AccessDenied)));
    }
}

#[test]
fn raw_file_access_is_always_denied() {
    let unit = CompilationUnit::new(3, "hello".to_string());
    assert!(matches!(unit.resolve_file(3), Err(FileFailure::AccessDenied)));
    assert!(matches!(unit.resolve_file(4), Err(FileFailure::AccessDenied)));
}

#[test]
fn today_is_never_available() {
    let unit = CompilationUnit::new(0, String::new());
    assert_eq!(unit.resolve_today(None), None);
    assert_eq!(unit.resolve_today(Some(0)), None);
    assert_eq!(unit.resolve_today(Some(-120)), None);
}
