use candy::ast::ty_int;
use candy::diagnostics::{Severity, Span};
use candy::parser::parse_file;
use candy::typecheck::typecheck;

fn report(src: &str) -> Vec<candy::diagnostics::Diagnostic> {
    let p = parse_file("t.candy", src).expect("parse ok");
    match typecheck(&p) {
        Ok(()) => vec![],
        Err(r) => r.diagnostics,
    }
}

fn codes(src: &str) -> Vec<String> {
    report(src).into_iter().map(|d| d.code).collect()
}

#[test]
fn missing_and_duplicate_main() {
    let ds = report("fn not_main() -> Unit { return; }");
    assert_eq!(ds.len(), 1);
    assert_eq!(ds[0].code, "main-missing");
    let p = parse_file("t.candy", "fn main() -> Unit { return; } fn main() -> Unit { return; }").unwrap();
    assert!(typecheck(&p).is_ok());
    let ds = report("fn main() -> Unit { return; } fn main() -> Unit { return; } fn f() -> Int { return true; }");
    assert_eq!(ds[0].code, "main-duplicate");
    assert_eq!(ds[0].severity, Severity::Warning);
    assert_eq!(ds[0].span.start_col, 31);
    assert_eq!(ds.len(), 2);
}

#[test]
fn main_with_parameter_is_invalid() {
    let ds = report("fn main(x: Int) -> Unit { return; }");
    assert_eq!(ds[0].code, "main-invalid-signature");
    assert_eq!(ds[0].message, "main must have zero parameters.");
}

#[test]
fn typing_rules() {
    let ds = report("fn main() -> Unit { let x: Int = true; return; }");
    assert_eq!(ds[0].code, "type-mismatch");
    assert_eq!(ds[0].message, "Type mismatch: expected Int, got Bool.");
    assert_eq!(codes("fn main() -> Unit { let x: Foo = 1; return; }"), vec!["type-unknown"]);
    assert_eq!(codes("fn f(x: Foo) -> Unit { return; } fn main() -> Unit { return; }"), vec!["type-unknown"]);
    assert!(codes("fn main() -> Unit { let s: Int = \"x\"; return; }").is_empty());
    let ds = report("fn f() -> Int { return true; } fn main() -> Unit { return; }");
    assert_eq!(ds[0].message, "Return type mismatch: expected Int, got Bool.");
    let ds = report("fn f() -> Int { return; } fn main() -> Unit { return; }");
    assert_eq!(ds[0].message, "Missing return value; expected Int.");
    let ds = report("fn main() -> Unit { return 1; }");
    assert_eq!(ds[0].code, "return-mismatch");
    assert_eq!(ds[0].message, "Return value provided but function returns Unit.");
    let ds = report("fn main() -> Unit { if (1) { return; } }");
    assert_eq!(ds[0].code, "if-cond-not-bool");
    assert_eq!(ds[0].message, "If condition must be Bool, got Int.");
}

#[test]
fn intrinsic_arity() {
    let c = codes("fn main() -> Unit effects(io, time) { log(); let t: Int = now(1); return; }");
    assert_eq!(c, vec!["call-arity", "call-arity"]);
}

#[test]
fn effects_flow_through_calls() {
    assert!(codes("fn g() -> Unit effects(io) { return; } fn main() -> Unit effects(io, net) { g(); return; }").is_empty());
    let ds = report("fn g() -> Int effects(time, net) { return 1; } fn main() -> Unit effects(rand) { let x: Int = g(); return; }");
    assert_eq!(ds.len(), 1);
    assert_eq!(ds[0].message, "Calling `g` requires effects (net, time) in `main`.");
    assert_eq!(ds[0].fix.as_ref().unwrap().with, "fn main(...) -> Unit effects(net, rand, time) {");
    assert_eq!(codes("fn main() -> Unit { h(); return; }"), vec!["name-unknown"]);
    let c = codes("fn main() -> Unit { log(now()); return; }");
    assert_eq!(c, vec!["undeclared-effect", "undeclared-effect"]);
}

#[test]
fn secret_rules() {
    assert_eq!(codes("fn main() -> Unit { let a: secret Int = 1; let b = move(a); let c = move(a); return; }"), vec!["use-after-move"]);
    assert_eq!(codes("fn f(k: secret Int) -> Unit { let j = k; return; } fn main() -> Unit { return; }"), vec!["secret-copy"]);
    assert!(codes("fn main() -> Unit { let a: Int = 1; let b = a; let c = a; return; }").is_empty());
    assert_eq!(codes("fn main() -> Unit { let a: secret Bool = true; let b = move(a); if (b) { return; } return; }"), vec!["secret-branch"]);
}

#[test]
fn protocol_rules_report_each_state() {
    let ds = report("protocol Q { state Init; state A; state A; final state Z; transition Init -> A; transition Init -> A; transition Z -> Q; } fn main() -> Unit { return; }");
    let c: Vec<&str> = ds.iter().map(|d| d.code.as_str()).collect();
    assert_eq!(
        c,
        vec![
            "protocol-duplicate-state",
            "protocol-duplicate-transition",
            "protocol-unknown-state",
            "protocol-nondeterministic",
            "protocol-unreachable-state",
            "protocol-dead-end-state",
            "protocol-no-final-reachable",
        ]
    );
    assert_eq!(ds[0].message, "Duplicate state `A` in protocol `Q`.");
    assert_eq!(ds[3].message, "State `Init` has more than one outgoing transition in protocol `Q`.");
    assert_eq!(ds[4].message, "State `Z` is unreachable from `Init` in protocol `Q`.");
}

#[test]
fn ast_type_helpers() {
    let t = ty_int(Span::single_point("f", 2, 3));
    assert_eq!(t.span().start_col, 3);
}
