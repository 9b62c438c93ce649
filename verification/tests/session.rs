//! Whole-session behaviour with the real interpreter: seeding order, time
//! limits, configuration errors, and plain-mode capture.

use uiua_embed::session::{eval, ExecConfig, InputValue, SessionFailure};

fn config() -> ExecConfig {
    ExecConfig { timeout_ms: None, experimental: false, inputs: Vec::new() }
}

#[test]
fn plain_stdout_coalesces() {
    let r = eval("&pf \"ab\"\n&pf \"c\"", config()).unwrap();
    assert!(r.error.is_none());
    assert_eq!(r.stdout, b"abc");
    assert!(r.stderr.is_empty());
}

#[test]
fn plain_print_with_newline() {
    let r = eval("&p \"hi\"", config()).unwrap();
    assert!(r.error.is_none());
    assert_eq!(r.stdout, b"hi\n");
}

#[test]
fn plain_stderr_captured() {
    let r = eval("&epf \"oops\"", config()).unwrap();
    assert!(r.error.is_none());
    assert!(r.stdout.is_empty());
    assert_eq!(r.stderr, b"oops");
}

#[test]
fn remaining_stack_values_are_shown() {
    let r = eval("+ 1 2", config()).unwrap();
    assert!(r.error.is_none());
    assert_eq!(r.stdout, b"3\n");
}

#[test]
fn first_listed_input_consumed_first() {
    let mut cfg = config();
    cfg.inputs = vec![
        InputValue::Text(String::from("A")),
        InputValue::Text(String::from("B")),
        InputValue::Text(String::from("C")),
    ];
    let r = eval("&pf\n&pf\n&pf", cfg).unwrap();
    assert!(r.error.is_none());
    assert_eq!(r.stdout, b"ABC");
}

#[test]
fn number_and_byte_inputs_seed() {
    let mut cfg = config();
    cfg.inputs = vec![
        InputValue::Number(uiua::Value::from(5.0_f64)),
        InputValue::Bytes(vec![1, 2, 3]),
    ];
    let r = eval("&pf\n&pf /+", cfg).unwrap();
    assert!(r.error.is_none());
    assert_eq!(r.stdout, b"56");
}

#[test]
fn compile_error_is_reported() {
    let r = eval("+ 1", config()).unwrap();
    let msg = r.error.expect("a program taking an absent argument must fail");
    assert!(!msg.is_empty());
}

#[test]
fn time_limit_aborts_and_keeps_partial_output() {
    let mut cfg = config();
    cfg.timeout_ms = Some(1);
    let r = eval("&pf \"x\"\nrepeat(+1)1e9 0", cfg).unwrap();
    let msg = r.error.expect("the run must abort once the limit is exceeded");
    assert!(!msg.is_empty());
    assert_eq!(r.stdout, b"x");
}

#[test]
fn unsupported_input_stops_before_running() {
    let mut cfg = config();
    cfg.inputs = vec![InputValue::Text(String::from("a")), InputValue::Unsupported];
    match eval("&pf \"never\"", cfg) {
        Err(SessionFailure::UnsupportedInput(i)) => {
            assert_eq!(i, 1);
            assert_eq!(
                SessionFailure::UnsupportedInput(i).message(),
                "Input must be a string, number, or buffer"
            );
        }
        _ => panic!("an unsupported input must stop the session at setup"),
    }
}

#[test]
fn experimental_flag_accepted() {
    let mut cfg = config();
    cfg.experimental = true;
    let r = eval("&pf \"e\"", cfg).unwrap();
    assert!(r.error.is_none());
    assert_eq!(r.stdout, b"e");
}
