use candy::parser::parse_file;
use candy::typecheck::typecheck;

fn codes(src: &str) -> Vec<String> {
    let p = parse_file("t.candy", src).expect("parse ok");
    match typecheck(&p) {
        Ok(()) => vec![],
        Err(r) => r.diagnostics.into_iter().map(|d| d.code).collect(),
    }
}

fn effect_codes(src: &str) -> usize {
    codes(src)
        .iter()
        .filter(|c| *c == "undeclared-effect" || *c == "effect-leak")
        .count()
}

#[test]
fn effects_pass_iff_every_call_site_is_covered() {
    let base = "fn g() -> Unit effects(net) { return; } fn main() -> Unit";
    assert_eq!(effect_codes(&format!("{} effects(net, time) {{ g(); let t: Int = now(); return; }}", base)), 0);
    assert_eq!(effect_codes(&format!("{} effects(net) {{ g(); let t: Int = now(); return; }}", base)), 1);
    assert_eq!(effect_codes(&format!("{} effects(time) {{ g(); let t: Int = now(); return; }}", base)), 1);
    assert_eq!(effect_codes(&format!("{} {{ if (true) {{ g(); }} else {{ return log(\"x\"); }} }}", base)), 2);
}

#[test]
fn secret_values_move_but_do_not_copy() {
    assert!(codes("fn main() -> Unit { let a: secret Int = 1; let b: secret Int = move(a); return; }").is_empty());
    assert_eq!(codes("fn main() -> Unit { let a: secret Int = 1; let b = a; return; }"), vec!["secret-copy"]);
    assert_eq!(codes("fn main() -> Unit { let a: secret Int = 1; let b = move(a); let c = a; return; }"), vec!["use-after-move"]);
}

#[test]
fn protocol_is_deterministic_iff_single_successor() {
    let det = "protocol P { state Init; state A; final state D; transition Init -> A; transition A -> D; } fn main() -> Unit { return; }";
    assert!(!codes(det).contains(&"protocol-nondeterministic".to_string()));
    let nondet = "protocol P { state Init; state A; final state D; transition Init -> A; transition A -> D; transition A -> Init; } fn main() -> Unit { return; }";
    assert_eq!(codes(nondet), vec!["protocol-nondeterministic"]);
}

#[test]
fn parse_spans_stay_within_the_text() {
    let src = "fn main() -> Unit {\n  let x: Int = 1;\n  return;\n}\n";
    let p = parse_file("t.candy", src).unwrap();
    let f = &p.funcs[0];
    assert_eq!(f.span.start_line, 1);
    assert_eq!(f.body.span.start_line, 1);
    let last = f.body.stmts.last().unwrap();
    match last {
        candy::ast::Stmt::Return { span, .. } => assert_eq!((span.start_line, span.start_col), (3, 3)),
        _ => panic!("expected return"),
    }
}
