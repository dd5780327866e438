use candy::ast::{Expr, Stmt, Type};
use candy::parser::{parse_file, parse_with_recovery};

fn codes_of(src: &str) -> Vec<String> {
    match parse_file("t.candy", src) {
        Ok(_) => vec![],
        Err(r) => r.diagnostics.into_iter().map(|d| d.code).collect(),
    }
}

#[test]
fn missing_fn_reports_expected_fn_at_first_column() {
    let err = parse_file("main.candy", "main() -> Unit { return; }").unwrap_err();
    let d0 = &err.diagnostics[0];
    assert_eq!(d0.code, "parse-expected-fn");
    assert_eq!((d0.span.start_line, d0.span.start_col), (1, 1));
}

#[test]
fn recovery_still_returns_a_tree() {
    let (p, r) = parse_with_recovery("t.candy", "fn main( -> { let = ; }\n}}}");
    assert!(!r.is_ok());
    assert_eq!(p.funcs.len(), 1);
    let (p, r) = parse_with_recovery("t.candy", "");
    assert!(r.is_ok());
    assert!(p.funcs.is_empty() && p.protocols.is_empty());
}

#[test]
fn parse_error_codes() {
    assert_eq!(codes_of("; fn main() -> Unit { return; }")[0], "parse-expected-top-level");
    assert_eq!(codes_of("fn main) -> Unit { return; }")[0], "parse-expected-lparen");
    assert_eq!(codes_of("fn main(x: Int -> Unit { return; }")[0], "parse-expected-rparen");
    assert_eq!(codes_of("fn main() Unit { return; }")[0], "parse-expected-arrow");
    assert_eq!(codes_of("fn main() -> Unit return; }")[0], "parse-expected-lbrace");
    assert_eq!(codes_of("fn main() -> Unit { return;")[0], "parse-expected-rbrace");
    assert_eq!(codes_of("fn main() -> Unit { return 1 }")[0], "parse-expected-semi");
    assert_eq!(codes_of("fn f(x Int) -> Unit { return; }")[0], "parse-expected-colon");
    assert_eq!(codes_of("fn main() -> Unit { let x 1; return; }")[0], "parse-expected-eq");
    assert_eq!(codes_of("fn main() -> ; { return; }")[0], "parse-expected-type");
    assert_eq!(codes_of("fn main() -> Unit effects(disk) { return; }")[0], "parse-unknown-effect");
    assert_eq!(codes_of("fn main() -> Unit effects(1) { return; }")[0], "parse-expected-effect");
    assert_eq!(codes_of("fn main() -> Unit { let x = ); return; }")[0], "parse-unexpected-token");
    assert_eq!(codes_of("fn () -> Unit { return; }")[0], "parse-expected-ident");
    assert_eq!(codes_of("protocol P { final Done; }")[0], "parse-expected-state");
}

#[test]
fn types_and_expressions_are_read() {
    let src = "fn f(k: secret Int) -> Bool { let m = move(k); if (true) { return false; } else { return g(1, \"s\"); } }";
    let p = parse_file("t.candy", src).unwrap();
    let f = &p.funcs[0];
    assert!(matches!(&f.params[0].ty, Type::Secret { inner, .. } if matches!(**inner, Type::Int { .. })));
    assert!(matches!(f.ret, Type::Bool { .. }));
    assert!(matches!(&f.body.stmts[0], Stmt::Let { expr: Expr::Move { name, .. }, .. } if name.name == "k"));
    let Stmt::If { cond, else_blk, .. } = &f.body.stmts[1] else {
        panic!("expected if");
    };
    assert!(matches!(cond, Expr::BoolLit { value: true, .. }));
    let eb = else_blk.as_ref().unwrap();
    assert!(matches!(&eb.stmts[0], Stmt::Return { expr: Some(Expr::Call { args, .. }), .. } if args.len() == 2));
}

#[test]
fn protocols_are_read() {
    let src = "protocol P { state Init; final state Done; transition Init -> Done; }";
    let p = parse_file("t.candy", src).unwrap();
    let pr = &p.protocols[0];
    assert_eq!(pr.name.name, "P");
    assert_eq!(pr.states.len(), 2);
    assert!(!pr.states[0].is_final && pr.states[1].is_final);
    assert_eq!(pr.transitions[0].from.name, "Init");
    assert_eq!(pr.transitions[0].to.name, "Done");
}
