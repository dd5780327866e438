use candy::ast::{Effect, Expr, Stmt};
use candy::parser::{parse_file, parse_program};

#[test]
fn parse_fn_with_effects_clause() {
    let src = r#"
fn main() -> Unit effects(io, time) {
  return;
}
"#;

    let p = parse_program(src).expect("parse ok");
    let main = p.funcs.iter().find(|f| f.name.name == "main").unwrap();

    assert_eq!(main.effects.len(), 2);
    assert_eq!(main.effects[0].effect, Effect::Io);
    assert_eq!(main.effects[1].effect, Effect::Time);
}

#[test]
fn parse_call_and_string_literal() {
    let src = r#"
fn main() -> Unit {
  log("hi");
  return;
}
"#;

    let p = parse_program(src).expect("parse ok");
    let main = p.funcs.iter().find(|f| f.name.name == "main").unwrap();

    let s0 = &main.body.stmts[0];
    let Stmt::Expr { expr, .. } = s0 else {
        panic!("expected expr stmt");
    };

    match expr {
        Expr::Call { callee, args, .. } => {
            assert_eq!(callee.name, "log");
            assert_eq!(args.len(), 1);
            match &args[0] {
                Expr::StrLit { value, .. } => assert_eq!(value, "hi"),
                _ => panic!("expected string literal arg"),
            }
        }
        _ => panic!("expected call expr"),
    }
}

#[test]
fn parse_call_with_two_args() {
    let src = r#"
fn main() -> Unit {
  f(1, true);
  return;
}
"#;

    let p = parse_program(src).expect("parse ok");
    let main = p.funcs.iter().find(|f| f.name.name == "main").unwrap();

    let Stmt::Expr { expr, .. } = &main.body.stmts[0] else {
        panic!("expected expr stmt");
    };

    match expr {
        Expr::Call { callee, args, .. } => {
            assert_eq!(callee.name, "f");
            assert_eq!(args.len(), 2);
        }
        _ => panic!("expected call expr"),
    }
}

#[test]
fn parse_smoke_valid_program() {
    let src = "fn main() -> Unit { return; }";
    let p = parse_file("main.candy", src).unwrap();
    assert_eq!(p.funcs.len(), 1);
    assert_eq!(p.funcs[0].name.name, "main");
}

#[test]
fn parse_reports_error_with_span() {
    let src = "main() -> Unit { return; }";
    let err = parse_file("main.candy", src).unwrap_err();
    assert!(!err.diagnostics.is_empty());

    let d0 = &err.diagnostics[0];
    assert_eq!(d0.code, "parse-expected-fn");
    assert_eq!(d0.span.file, "main.candy");
    assert!(d0.span.start_line >= 1);
    assert!(d0.span.start_col >= 1);
}

#[test]
fn parse_secret_type_in_let() {
    let src = "fn main() -> Unit { let x: secret Int = 1; return; }";
    let p = parse_file("main.candy", src).unwrap();
    assert_eq!(p.funcs.len(), 1);
}
