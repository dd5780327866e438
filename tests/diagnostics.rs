use candy::diagnostics::{Diagnostic, DiagnosticReport, Severity, Span};

#[test]
fn report_is_ok_only_without_errors() {
    let sp = Span {
        file: "main.candy".to_string(),
        start_line: 12,
        start_col: 8,
        end_line: 12,
        end_col: 18,
    };
    let mut r = DiagnosticReport::new();
    assert!(r.is_ok());
    r.push(
        Diagnostic::error("type-mismatch", "Expected Int, got Bool.", sp).with_fix(
            "let x: Int = true;".to_string(),
            "let x: Int = 1;".to_string(),
        ),
    );
    assert!(!r.is_ok());
    let d0 = &r.diagnostics[0];
    assert_eq!(d0.code, "type-mismatch");
    assert_eq!(d0.severity, Severity::Error);
    assert_eq!(d0.span.start_line, 12);
    assert_eq!(d0.fix.as_ref().unwrap().replace, "let x: Int = true;");
    assert_eq!(d0.fix.as_ref().unwrap().with, "let x: Int = 1;");

    let mut w = DiagnosticReport::new();
    w.push(Diagnostic {
        code: "unused-var".into(),
        severity: Severity::Warning,
        message: "Variable `x` is never used.".into(),
        span: Span::single_point("main.candy", 1, 1),
        fix: None,
    });
    assert!(w.is_ok());
    w.push(Diagnostic::warning("w", "m", Span::unknown("f")));
    assert!(w.is_ok());
    assert_eq!(w.diagnostics.len(), 2);
}

#[test]
fn span_constructors() {
    let u = Span::unknown("a.candy");
    assert_eq!((u.file.as_str(), u.start_line, u.start_col, u.end_line, u.end_col), ("a.candy", 0, 0, 0, 0));
    let p = Span::single_point("b", 3, 7);
    assert_eq!((p.start_line, p.start_col, p.end_line, p.end_col), (3, 7, 3, 7));
    let d = Diagnostic::warning("main-duplicate", "m", p.clone());
    assert_eq!(d.severity, Severity::Warning);
    assert!(d.fix.is_none());
    assert_eq!(d.span, p);
}
