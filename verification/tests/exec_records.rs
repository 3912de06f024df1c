use pc_telemetry::utils::{cmd_result_from_output, cmd_result_to_json, command_tokens, CmdResult, ExecMode};

#[test]
fn normalizes_echo_style_output() {
    let r = cmd_result_from_output("hello\n".to_string(), String::new(), Some(0));
    assert_eq!(r.stdout, "hello\n");
    assert_eq!(r.stderr, "");
    assert_eq!(r.exit_code, 0);
    assert!(r.success);
}

#[test]
fn normalizes_nonzero_exit() {
    let r = cmd_result_from_output(String::new(), String::new(), Some(3));
    assert_eq!(r.stdout, "");
    assert_eq!(r.stderr, "");
    assert_eq!(r.exit_code, 3);
    assert!(!r.success);
}

#[test]
fn normalizes_signal_death_to_sentinel() {
    let r = cmd_result_from_output(String::new(), "killed".to_string(), None);
    assert_eq!(r.exit_code, -1);
    assert!(!r.success);
}

#[test]
fn shell_mode_tokens() {
    let (program, args) = command_tokens(ExecMode::Shell { cmd: "exit 3".to_string() });
    assert_eq!(program, "bash");
    assert_eq!(args, vec!["-lc".to_string(), "exit 3".to_string()]);
}

#[test]
fn exec_mode_tokens_pass_through_verbatim() {
    let (program, args) = command_tokens(ExecMode::Exec {
        program: "echo".to_string(),
        args: vec!["hello".to_string(), "a b;c".to_string()],
    });
    assert_eq!(program, "echo");
    assert_eq!(args, vec!["hello".to_string(), "a b;c".to_string()]);
}

#[test]
fn compact_json_exact_text() {
    let r = cmd_result_from_output("hello\n".to_string(), String::new(), Some(0));
    let s = cmd_result_to_json(&r, false);
    assert_eq!(
        s,
        "{\"stdout\":\"hello\\n\",\"stderr\":\"\",\"exit_code\":0,\"success\":true}"
    );
}

#[test]
fn pretty_json_exact_text() {
    let r = cmd_result_from_output(String::new(), String::new(), Some(3));
    let s = cmd_result_to_json(&r, true);
    assert_eq!(
        s,
        "{\n  \"stdout\": \"\",\n  \"stderr\": \"\",\n  \"exit_code\": 3,\n  \"success\": false\n}"
    );
}

#[test]
fn negative_exit_code_renders_with_sign() {
    let r = cmd_result_from_output(String::new(), String::new(), None);
    let s = cmd_result_to_json(&r, false);
    assert_eq!(
        s,
        "{\"stdout\":\"\",\"stderr\":\"\",\"exit_code\":-1,\"success\":false}"
    );
}

#[test]
fn json_round_trips_through_serde() {
    let r = CmdResult {
        stdout: "a\"b\\c\td\ne\u{1}f".to_string(),
        stderr: "warn: x\r\n".to_string(),
        exit_code: 42,
        success: false,
    };
    let s = cmd_result_to_json(&r, false);
    let v: serde_json::Value = serde_json::from_str(&s).unwrap();
    assert_eq!(v["stdout"].as_str().unwrap(), "a\"b\\c\td\ne\u{1}f");
    assert_eq!(v["stderr"].as_str().unwrap(), "warn: x\r\n");
    assert_eq!(v["exit_code"].as_i64().unwrap(), 42);
    assert_eq!(v["success"].as_bool().unwrap(), false);
}

#[test]
fn compact_and_pretty_parse_to_identical_values() {
    let r = CmdResult {
        stdout: "out \u{7f} text".to_string(),
        stderr: String::new(),
        exit_code: -7,
        success: false,
    };
    let compact: serde_json::Value = serde_json::from_str(&cmd_result_to_json(&r, false)).unwrap();
    let pretty: serde_json::Value = serde_json::from_str(&cmd_result_to_json(&r, true)).unwrap();
    assert_eq!(compact, pretty);
}
