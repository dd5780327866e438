use candy::parser::{parse_file, parse_program};
use candy::typecheck::typecheck;

fn codes_file(src: &str) -> Vec<String> {
    let p = parse_file("test.candy", src).expect("parse ok");
    let err = typecheck(&p).expect_err("typecheck must fail");
    err.diagnostics.into_iter().map(|d| d.code).collect()
}

fn codes_memory(src: &str) -> Vec<String> {
    let p = parse_program(src).expect("parse ok");
    match typecheck(&p) {
        Ok(()) => vec![],
        Err(r) => r.diagnostics.into_iter().map(|d| d.code).collect(),
    }
}

#[test]
fn missing_effect_for_log_is_error() {
    let src = r#"
fn main() -> Unit {
  log("x");
  return;
}
"#;
    let p = parse_program(src).expect("parse ok");
    let err = typecheck(&p).expect_err("should fail");
    assert!(err
        .diagnostics
        .iter()
        .any(|d| d.code == "undeclared-effect"));
}

#[test]
fn missing_effect_for_now_is_error() {
    let src = r#"
fn main() -> Unit {
  let t: Int = now();
  return;
}
"#;
    let p = parse_program(src).expect("parse ok");
    let err = typecheck(&p).expect_err("should fail");
    assert!(err
        .diagnostics
        .iter()
        .any(|d| d.code == "undeclared-effect"));
}

#[test]
fn missing_effect_for_rand_is_error() {
    let src = r#"
fn main() -> Unit {
  let r: Int = rand();
  return;
}
"#;
    let p = parse_program(src).expect("parse ok");
    let err = typecheck(&p).expect_err("should fail");
    assert!(err
        .diagnostics
        .iter()
        .any(|d| d.code == "undeclared-effect"));
}

#[test]
fn effect_leak_through_call_is_error() {
    let src = r#"
fn g() -> Unit effects(io) {
  log("x");
  return;
}

fn main() -> Unit {
  g();
  return;
}
"#;
    let p = parse_program(src).expect("parse ok");
    let err = typecheck(&p).expect_err("should fail");
    assert!(err.diagnostics.iter().any(|d| d.code == "effect-leak"));
}

#[test]
fn effect_declared_allows_intrinsic() {
    let src = r#"
fn main() -> Unit effects(io, time, rand) {
  log("x");
  let t: Int = now();
  let r: Int = rand();
  return;
}
"#;
    let p = parse_program(src).expect("parse ok");
    typecheck(&p).expect("should pass");
}

#[test]
fn protocol_duplicate_state_is_error() {
    let src = r#"
protocol P {
  state Init;
  state Init;
}
fn main() -> Unit { return; }
"#;

    let c = codes_file(src);
    assert!(c.contains(&"protocol-duplicate-state".to_string()));
}

#[test]
fn protocol_unknown_state_in_transition_is_error() {
    let src = r#"
protocol P {
  state Init;
  transition Init -> Missing;
}
fn main() -> Unit { return; }
"#;

    let c = codes_file(src);
    assert!(c.contains(&"protocol-unknown-state".to_string()));
}

#[test]
fn protocol_empty_is_error() {
    let codes = codes_memory("protocol P { } fn main() -> Unit { return; }");
    assert!(codes.contains(&"protocol-empty".to_string()));
}

#[test]
fn protocol_duplicate_transition_is_error() {
    let codes = codes_memory(
        "protocol P { state A; transition A -> A; transition A -> A; } fn main() -> Unit { return; }",
    );
    assert!(codes.contains(&"protocol-duplicate-transition".to_string()));
}

#[test]
fn protocol_missing_init_is_error() {
    let src = r#"
protocol P {
  state A;
  transition A -> A;
}

fn main() -> Unit { return; }
"#;
    let c = codes_file(src);
    assert!(c.contains(&"protocol-missing-init".to_string()));
}

#[test]
fn protocol_unreachable_state_is_error() {
    let src = r#"
protocol P {
  state Init;
  state A;
  transition Init -> Init;
}

fn main() -> Unit { return; }
"#;
    let c = codes_file(src);
    assert!(c.contains(&"protocol-unreachable-state".to_string()));
}

#[test]
fn protocol_dead_end_state_is_error() {
    let src = r#"
protocol P {
  state Init;
  state A;
  transition Init -> A;
}

fn main() -> Unit { return; }
"#;
    let c = codes_file(src);
    assert!(c.contains(&"protocol-dead-end-state".to_string()));
}

#[test]
fn final_state_allows_dead_end() {
    let src = r#"
protocol P {
  state Init;
  final state Done;
  transition Init -> Done;
}
fn main() -> Unit { return; }
"#;
    let p = parse_file("test.candy", src).unwrap();
    let ok = typecheck(&p);
    assert!(ok.is_ok());
}

#[test]
fn dead_end_non_final_is_error() {
    let src = r#"
protocol P {
  state Init;
  state A;
  transition Init -> A;
}
fn main() -> Unit { return; }
"#;
    let c = codes_file(src);
    assert!(c.contains(&"protocol-dead-end-state".to_string()));
}

#[test]
fn final_with_outgoing_is_error() {
    let src = r#"
protocol P {
  state Init;
  final state Done;
  transition Init -> Done;
  transition Done -> Done;
}
fn main() -> Unit { return; }
"#;
    let c = codes_file(src);
    assert!(c.contains(&"protocol-final-has-outgoing".to_string()));
}

#[test]
fn nondeterministic_outgoing_is_error() {
    let src = r#"
protocol P {
  state Init;
  state A;
  state B;
  transition Init -> A;
  transition Init -> B;
}
fn main() -> Unit { return; }
"#;
    let c = codes_file(src);
    assert!(c.contains(&"protocol-nondeterministic".to_string()));
}

#[test]
fn unreachable_state_is_error() {
    let src = r#"
protocol P {
  state Init;
  state A;
  state Unused;
  transition Init -> A;
}
fn main() -> Unit { return; }
"#;
    let c = codes_file(src);
    assert!(c.contains(&"protocol-unreachable-state".to_string()));
}

#[test]
fn no_final_reachable_is_error() {
    let src = r#"
protocol P {
  state Init;
  state A;
  transition Init -> A;
  transition A -> Init;
}
fn main() -> Unit { return; }
"#;
    let c = codes_file(src);
    assert!(c.contains(&"protocol-no-final-reachable".to_string()));
}

#[test]
fn ok_when_final_reachable() {
    let src = r#"
protocol P {
  state Init;
  final state Done;
  transition Init -> Done;
}
fn main() -> Unit { return; }
"#;
    let p = parse_file("test.candy", src).expect("parse ok");
    let ok = typecheck(&p);
    assert!(ok.is_ok());
}

#[test]
fn branching_on_secret_is_error() {
    let src = r#"
fn main() -> Unit {
  let s: secret Bool = true;
  if (s) { return; } else { return; }
}
"#;
    let p = parse_file("main.candy", src).unwrap();
    let err = typecheck(&p).unwrap_err();
    assert!(err.diagnostics.iter().any(|d| d.code == "secret-branch"));
}

#[test]
fn secret_copy_is_error() {
    let src = r#"
fn main() -> Unit {
  let a: secret Int = 1;
  let b: secret Int = a;
  return;
}
"#;
    let p = parse_file("main.candy", src).unwrap();
    let err = typecheck(&p).unwrap_err();
    assert!(err.diagnostics.iter().any(|d| d.code == "secret-copy"));
}

#[test]
fn move_then_use_is_error() {
    let src = r#"
fn main() -> Unit {
  let a: secret Int = 1;
  let b: secret Int = move(a);
  a;
  return;
}
"#;
    let p = parse_file("main.candy", src).unwrap();
    let err = typecheck(&p).unwrap_err();
    assert!(err.diagnostics.iter().any(|d| d.code == "use-after-move"));
}

#[test]
fn move_ok_compiles() {
    let src = r#"
fn main() -> Unit {
  let a: secret Int = 1;
  let b: secret Int = move(a);
  b;
  return;
}
"#;
    let p = parse_file("main.candy", src).unwrap();
    typecheck(&p).unwrap();
}

#[test]
fn main_ok_unit_return() {
    let src = "fn main() -> Unit { return; }";
    let p = parse_file("main.candy", src).unwrap();
    typecheck(&p).unwrap();
}

#[test]
fn main_invalid_return_type() {
    let src = "fn main() -> Int { return 1; }";
    let p = parse_file("main.candy", src).unwrap();
    let err = typecheck(&p).unwrap_err();
    assert!(err
        .diagnostics
        .iter()
        .any(|d| d.code == "main-invalid-signature"));
}

#[test]
fn unknown_name_is_error() {
    let src = "fn main() -> Unit { x; return; }";
    let p = parse_file("main.candy", src).unwrap();
    let err = typecheck(&p).unwrap_err();
    assert!(err.diagnostics.iter().any(|d| d.code == "name-unknown"));
}
