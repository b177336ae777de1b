use otk::execution::{
    exec_filtered, execute_error, exit_code_of, final_output, hard_failure, merge_output,
    proxy_output, raw_tail, with_hint,
};

fn numbered(from: usize, to: usize) -> String {
    let all: Vec<String> = (from..=to).map(|n| format!("line {}", n)).collect();
    all.join("\n")
}

#[test]
fn outputs_are_merged() {
    assert_eq!(merge_output("", ""), "");
    assert_eq!(merge_output("out", ""), "out");
    assert_eq!(merge_output("", "err"), "err");
    assert_eq!(merge_output("out\n", "err"), "out\n\nerr");
}

#[test]
fn exit_codes() {
    assert_eq!(exit_code_of(Some(0)), 0);
    assert_eq!(exit_code_of(Some(42)), 42);
    assert_eq!(exit_code_of(None), 1);
}

#[test]
fn launch_failure_is_always_hard() {
    for leave in [true, false] {
        assert!(hard_failure(126, leave));
        assert!(hard_failure(127, leave));
        assert!(!hard_failure(0, leave));
    }
    assert!(hard_failure(1, false));
    assert!(hard_failure(-1, false));
    assert!(!hard_failure(1, true));
    assert!(!hard_failure(125, true));
    assert!(!hard_failure(128, true));
}

#[test]
fn tail_is_short() {
    assert_eq!(raw_tail(""), "");
    assert_eq!(raw_tail(&numbered(1, 20)), numbered(1, 20));
    assert_eq!(raw_tail(&numbered(1, 21)), numbered(2, 21));
    assert_eq!(raw_tail(&numbered(1, 100)), numbered(81, 100));
    assert_eq!(raw_tail(&numbered(1, 100)).lines().count(), 20);
    assert_eq!(raw_tail("a\r\nb\n"), "a\nb");
    assert_eq!(raw_tail("a\n\n"), "a\n");
}

#[test]
fn filter_cannot_mask_hard_failure() {
    let shown = final_output("fatal: not a repository\n", 128, false, "Clean working tree.");
    assert_eq!(shown, "Command failed (exit code 128):\nfatal: not a repository");
    assert_eq!(final_output("fatal: not a repository\n", 128, false, ""), shown);
    assert_eq!(
        final_output("sh: invoke: not found", 127, true, "All tests passed"),
        "Command failed (exit code 127):\nsh: invoke: not found"
    );
    assert_eq!(final_output(" \n", 2, false, "x"), "Command failed (exit code 2).");
    assert_eq!(final_output("", -1, false, "x"), "Command failed (exit code -1).");
}

#[test]
fn filtered_output_is_shown_unchanged() {
    assert_eq!(final_output("raw", 0, false, " short\n"), " short\n");
    assert_eq!(final_output("raw", 1, true, "short"), "short");
}

#[test]
fn report_is_not_blank() {
    assert_eq!(final_output("raw", 0, false, ""), "ok");
    assert_eq!(final_output("", 0, true, " \t\n"), "ok");
    assert_eq!(final_output("a\nb\n", 1, true, "  "), "a\nb");
}

#[test]
fn hints_stand_below() {
    assert_eq!(with_hint("text", None), "text");
    assert_eq!(with_hint("text", Some("[full: /tmp/x]".to_string())), "text\n[full: /tmp/x]");
}

#[test]
fn exec_filtered_applies_the_filter() {
    let execution = exec_filtered(
        "git_log",
        |raw: &str| raw.to_uppercase(),
        false,
        b"out",
        b"err",
        Some(0),
    );
    assert_eq!(execution.raw, "out\nerr");
    assert_eq!(execution.exit_code, 0);
    assert_eq!(execution.output, "OUT\nERR");
    assert_eq!(execution.recorded_as, "otk git_log");
}

#[test]
fn exec_filtered_spares_the_filter_on_hard_failure() {
    let execution = exec_filtered(
        "git_status",
        |_: &str| -> String { panic!("the filter ran") },
        false,
        b"",
        b"fatal",
        None,
    );
    assert_eq!(execution.exit_code, 1);
    assert_eq!(execution.output, "Command failed (exit code 1):\nfatal");
}

#[test]
fn invalid_bytes_are_replaced() {
    let output = proxy_output(b"a\xffb", "caf\u{e9}".as_bytes(), Some(3));
    assert_eq!(output.stdout, "a\u{fffd}b");
    assert_eq!(output.stderr, "caf\u{e9}");
    assert_eq!(output.exit_code, 3);
    let execution = exec_filtered("x", |raw: &str| raw.to_string(), true, b"\xf0\x9f", b"", Some(0));
    assert_eq!(execution.raw, "\u{fffd}");
    assert_eq!(proxy_output(b"", b"", None).exit_code, 1);
}

#[test]
fn execute_error_message() {
    assert_eq!(execute_error("ls", "no such file"), "Failed to execute 'ls': no such file");
}

#[test]
fn exec_filtered_spares_the_filter_on_launch_failure() {
    for code in [126, 127] {
        let execution = exec_filtered(
            "invoke_test",
            |_: &str| -> String { panic!("the filter ran") },
            true,
            b"",
            b"",
            Some(code),
        );
        assert_eq!(execution.exit_code, code);
        assert_eq!(execution.output, format!("Command failed (exit code {}).", code));
    }
}
