use codexify::exec_command::{
    completed_output, decode_and_truncate, exec_response, format_exec_output, plan_exec_command,
    spawn_failure_message, timed_out_output, with_truncation_note, ExecCommandArgs,
    ExecCommandOutput,
};
use codexify::shell_command::{to_exec_args, ShellCommandArgs};

fn args(cmd: &str) -> ExecCommandArgs {
    ExecCommandArgs { cmd: cmd.to_string(), workdir: None, shell: None, timeout_ms: Some(1_000), max_output_bytes: None }
}

#[test]
fn exec_plan_uses_shell_and_defaults() {
    let plan = plan_exec_command(&args("printf hello"), false).unwrap();
    assert_eq!(plan.program, "sh");
    assert_eq!(plan.args, vec!["-c".to_string(), "printf hello".to_string()]);
    assert_eq!(plan.timeout_ms, 1_000);
    assert_eq!(plan.max_output_bytes, 65536);
    let win = plan_exec_command(&ExecCommandArgs { timeout_ms: None, shell: Some("bash".to_string()), ..args("dir") }, true).unwrap();
    assert_eq!(win.program, "bash");
    assert_eq!(win.args, vec!["/C".to_string(), "dir".to_string()]);
    assert_eq!(win.timeout_ms, 30_000);
    let win2 = plan_exec_command(&args("dir"), true).unwrap();
    assert_eq!(win2.program, "cmd.exe");
    assert_eq!(plan_exec_command(&args(" \t\n"), false).unwrap_err(), "cmd must not be empty");
}

#[test]
fn exec_output_of_finished_command() {
    let out = completed_output("printf hello".to_string(), Some(0), true, 5, b"hello", b"", 65536);
    assert_eq!(out.stdout, "hello");
    assert!(out.success);
    assert!(!out.timed_out);
    let reply = exec_response(&out);
    assert!(!reply.is_error);
    assert_eq!(reply.text, "Exit code: 0\nTimed out: false\nDuration: 5 ms\nStdout:\nhello\nStderr:\n");
}

#[test]
fn exec_output_of_timeout_and_failure() {
    let out = timed_out_output("sleep 9".to_string(), 1001, 1000);
    assert_eq!(out.stderr, "command timed out after 1000 ms");
    assert_eq!(out.exit_code, None);
    assert!(!out.success && out.timed_out);
    assert_eq!(format_exec_output(&out), "Exit code: none\nTimed out: true\nDuration: 1001 ms\nStdout:\n\nStderr:\ncommand timed out after 1000 ms");
    assert!(exec_response(&out).is_error);
    let failed = ExecCommandOutput { exit_code: Some(-2), success: false, ..completed_output("x".to_string(), None, false, 0, b"", b"oops", 10) };
    assert!(format_exec_output(&failed).starts_with("Exit code: -2\n"));
    assert_eq!(spawn_failure_message("no such file"), "failed to execute command: no such file");
}

#[test]
fn output_is_decoded_and_cut() {
    assert_eq!(decode_and_truncate(b"hello", 5), "hello");
    assert_eq!(decode_and_truncate(b"hello", 3), "hel\n[output truncated: kept 3 of 5 bytes]");
    assert_eq!(decode_and_truncate(&[0x61, 0xff, 0x62], 10), "a\u{fffd}b");
    assert_eq!(decode_and_truncate("é".as_bytes(), 1), "\u{fffd}\n[output truncated: kept 1 of 2 bytes]");
}

#[test]
fn shell_arguments_map_to_exec_arguments() {
    let e = to_exec_args(ShellCommandArgs {
        command: "printf legacy".to_string(),
        workdir: Some("/tmp".to_string()),
        shell: None,
        timeout_ms: Some(1_000),
        max_output_bytes: Some(7),
    });
    assert_eq!(e.cmd, "printf legacy");
    assert_eq!(e.workdir.as_deref(), Some("/tmp"));
    assert_eq!(e.shell, None);
    assert_eq!(e.timeout_ms, Some(1_000));
    assert_eq!(e.max_output_bytes, Some(7));
    let out = completed_output(e.cmd.clone(), Some(0), true, 1, b"legacy", b"", 65536);
    assert_eq!(out.stdout, "legacy");
}

#[test]
fn truncation_note_follows_decoded_text() {
    assert_eq!(
        with_truncation_note("ab".to_string(), 2, 70000),
        "ab\n[output truncated: kept 2 of 70000 bytes]"
    );
}
