use pocketdevos::shell::{
    plan_run, response_from_output, response_from_spawn_error, response_from_text,
    response_timed_out, DEFAULT_TIMEOUT_MS, MAX_OUTPUT_BYTES, MAX_TIMEOUT_MS,
};

#[test]
fn blank_command_is_refused() {
    assert!(plan_run("", None, None, None, None).is_none());
    assert!(plan_run("  \t\n", None, None, None, None).is_none());
}

#[test]
fn command_is_trimmed_and_defaults_apply() {
    let p = plan_run("  ls -la  ", None, None, Some("/home/u".to_string()), None).unwrap();
    assert_eq!(p.command, "ls -la");
    assert_eq!(p.timeout_ms, DEFAULT_TIMEOUT_MS);
    assert_eq!(p.cwd, "/home/u");
    assert_eq!(p.shell, "/bin/sh");
    let p = plan_run("pwd", None, None, None, Some("/bin/zsh".to_string())).unwrap();
    assert_eq!(p.cwd, "/");
    assert_eq!(p.shell, "/bin/zsh");
    let p = plan_run("pwd", Some("/tmp".to_string()), None, Some("/h".to_string()), None).unwrap();
    assert_eq!(p.cwd, "/tmp");
}

#[test]
fn timeout_is_capped() {
    assert_eq!(plan_run("x", None, Some(5), None, None).unwrap().timeout_ms, 5);
    assert_eq!(plan_run("x", None, Some(300_000), None, None).unwrap().timeout_ms, 300_000);
    assert_eq!(plan_run("x", None, Some(300_001), None, None).unwrap().timeout_ms, MAX_TIMEOUT_MS);
    assert_eq!(plan_run("x", None, Some(u64::MAX), None, None).unwrap().timeout_ms, MAX_TIMEOUT_MS);
}

#[test]
fn output_is_decoded_and_kept() {
    let r = response_from_output(b"hello\n", &[0xff], Some(0));
    assert_eq!(r.stdout, "hello\n");
    assert_eq!(r.stderr, "\u{fffd}");
    assert_eq!(r.exit_code, Some(0));
    assert!(!r.timed_out);
    assert!(!r.truncated);
}

#[test]
fn long_output_is_cut_by_characters() {
    let long = "a".repeat(MAX_OUTPUT_BYTES + 10);
    let r = response_from_text(&long, "", Some(2));
    assert_eq!(r.stdout.len(), MAX_OUTPUT_BYTES);
    assert!(r.truncated);
    assert_eq!(r.exit_code, Some(2));
    // Multi-byte text over the byte limit but under the character limit:
    // flagged, yet nothing is cut.
    let wide = "\u{e9}".repeat(MAX_OUTPUT_BYTES / 2 + 1);
    let r = response_from_text("", &wide, None);
    assert!(r.truncated);
    assert_eq!(r.stderr, wide);
    let exact = "b".repeat(MAX_OUTPUT_BYTES);
    let r = response_from_text(&exact, "", None);
    assert!(!r.truncated);
}

#[test]
fn failure_responses() {
    let r = response_from_spawn_error("No such file or directory (os error 2)".to_string());
    assert_eq!(r.stdout, "");
    assert_eq!(r.stderr, "No such file or directory (os error 2)");
    assert_eq!(r.exit_code, Some(1));
    assert!(!r.timed_out && !r.truncated);
    let r = response_timed_out(1500);
    assert_eq!(r.stderr, "Command timed out after 1500ms");
    assert_eq!(r.exit_code, None);
    assert!(r.timed_out && !r.truncated);
}
