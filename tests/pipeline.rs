use candy::diagnostics::{Diagnostic, Severity};
use candy::parser::parse_file;
use candy::typecheck::typecheck;

/// Parses and checks a source the way the command line does: a parse
/// failure stops there, otherwise the checker's diagnostics follow.
fn run(src: &str) -> Vec<Diagnostic> {
    match parse_file("main.candy", src) {
        Err(r) => r.diagnostics,
        Ok(p) => match typecheck(&p) {
            Ok(()) => vec![],
            Err(r) => r.diagnostics,
        },
    }
}

fn codes(src: &str) -> Vec<String> {
    run(src).into_iter().map(|d| d.code).collect()
}

#[test]
fn agent_reports_secret_copy() {
    let c = codes(
        r#"
fn main() -> Unit {
  let a: secret Int = 1;
  let b: secret Int = a;
  return;
}
"#,
    );
    assert!(c.contains(&"secret-copy".to_string()), "expected secret-copy. got codes={:?}", c);
}

#[test]
fn agent_reports_use_after_move() {
    let c = codes(
        r#"
fn main() -> Unit {
  let a: secret Int = 1;
  let b: secret Int = move(a);
  a;
  return;
}
"#,
    );
    assert!(c.contains(&"use-after-move".to_string()), "expected use-after-move. got codes={:?}", c);
}

#[test]
fn agent_reports_secret_branch() {
    let c = codes(
        r#"
fn main() -> Unit {
  let s: secret Bool = true;
  if (s) { return; } else { return; }
}
"#,
    );
    assert!(c.contains(&"secret-branch".to_string()), "expected secret-branch. got codes={:?}", c);
}

#[test]
fn scenario_clean_main() {
    assert!(run("fn main() -> Unit { return; }").is_empty());
}

#[test]
fn scenario_missing_fn_keyword() {
    let ds = run("main() -> Unit { return; }");
    assert_eq!(ds[0].code, "parse-expected-fn");
    assert_eq!(ds[0].severity, Severity::Error);
    assert_eq!((ds[0].span.start_line, ds[0].span.start_col), (1, 1));
}

#[test]
fn scenario_main_returning_int() {
    let ds = run("fn main() -> Int { return 1; }");
    assert_eq!(ds.len(), 1);
    assert_eq!(ds[0].code, "main-invalid-signature");
    assert_eq!(ds[0].message, "main must return Unit.");
    assert_eq!((ds[0].span.start_line, ds[0].span.start_col), (1, 14));
}

#[test]
fn scenario_secret_copy_fix() {
    let ds = run("fn main() -> Unit { let a: secret Int = 1; let b: secret Int = a; return; }");
    assert_eq!(ds.len(), 1);
    let d = &ds[0];
    assert_eq!(d.code, "secret-copy");
    assert_eq!(
        d.message,
        "Secret value `a` cannot be copied. Use move(a) to transfer ownership."
    );
    let fix = d.fix.as_ref().unwrap();
    assert_eq!(fix.replace, "let b = a;");
    assert_eq!(fix.with, "let b = move(a);");
}

#[test]
fn scenario_use_after_move_on_bare_name() {
    let src = "fn main() -> Unit { let a: secret Int = 1; let b: secret Int = move(a); a; return; }";
    let ds = run(src);
    assert_eq!(ds.len(), 1);
    assert_eq!(ds[0].code, "use-after-move");
    assert_eq!(ds[0].message, "Use of `a` after it was moved.");
    assert_eq!(ds[0].span.start_col, 73);
}

#[test]
fn scenario_secret_branch() {
    let ds = run("fn main() -> Unit { let s: secret Bool = true; if (s) { return; } else { return; } }");
    assert_eq!(ds.len(), 1);
    assert_eq!(ds[0].code, "secret-branch");
    assert_eq!(ds[0].message, "Branching on secret data is forbidden.");
}

#[test]
fn scenario_undeclared_effect_fix() {
    let ds = run("fn main() -> Unit { log(\"x\"); return; }");
    assert_eq!(ds.len(), 1);
    assert_eq!(ds[0].code, "undeclared-effect");
    assert_eq!(ds[0].message, "Operation requires effect `io`; add it to function `main`.");
    let fix = ds[0].fix.as_ref().unwrap();
    assert_eq!(fix.replace, "fn main(...) -> Unit {");
    assert_eq!(fix.with, "fn main(...) -> Unit effects(io) {");
}

#[test]
fn scenario_effect_leak_at_call() {
    let ds = run("fn g() -> Unit effects(io) { log(\"x\"); return; } fn main() -> Unit { g(); return; }");
    assert_eq!(ds.len(), 1);
    assert_eq!(ds[0].code, "effect-leak");
    assert_eq!(ds[0].message, "Calling `g` requires effects (io) in `main`.");
    assert_eq!(ds[0].span.start_col, 70);
    assert_eq!(ds[0].fix.as_ref().unwrap().with, "fn main(...) -> Unit effects(io) {");
}

#[test]
fn scenario_missing_init_and_unknown_state() {
    let c = codes("protocol P { state A; transition A -> B; } fn main() -> Unit { return; }");
    assert!(c.contains(&"protocol-missing-init".to_string()));
    assert!(c.contains(&"protocol-unknown-state".to_string()));
}

#[test]
fn scenario_nondeterministic_protocol() {
    let c = codes(
        "protocol P { state Init; state A; state B; transition Init -> A; transition Init -> B; } fn main() -> Unit { return; }",
    );
    assert!(c.contains(&"protocol-nondeterministic".to_string()));
}

#[test]
fn scenario_clean_protocol() {
    let src = "protocol P { state Init; final state Done; transition Init -> Done; } fn main() -> Unit { return; }";
    assert!(run(src).is_empty());
}

#[test]
fn running_twice_gives_the_same_report() {
    let src = "protocol P { state Init; state A; } fn g() -> Int effects(net, rand) { return rand(); } fn main() -> Unit { g(); x; return 1; }";
    assert_eq!(run(src), run(src));
    assert!(!run(src).is_empty());
}
