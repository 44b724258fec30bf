use pocketdevos::pty::{
    default_home, detect_shell, exit_code_of, open_error_message, plan_session, read_step,
    session_env, spawn_error_message, PtyManager, PtyRead, PtyReadStep, SessionHandle,
    SessionInfo,
};

fn info(id: &str, cols: u16) -> SessionInfo {
    SessionInfo { id: id.to_string(), cols, rows: 24, created_at: 1000 }
}

fn handle(id: &str, cols: u16, io: u32) -> SessionHandle<u32> {
    SessionHandle { info: info(id, cols), io }
}

fn is_uuid_v4(s: &str) -> bool {
    let b: Vec<char> = s.chars().collect();
    b.len() == 36
        && b.iter().enumerate().all(|(i, c)| {
            if i == 8 || i == 13 || i == 18 || i == 23 {
                *c == '-'
            } else {
                c.is_ascii_digit() || ('a'..='f').contains(c)
            }
        })
        && b[14] == '4'
        && "89ab".contains(b[19])
}

#[test]
fn register_then_lookup() {
    let mut m: PtyManager<u32> = PtyManager::new();
    assert_eq!(m.len(), 0);
    m.register(handle("a", 80, 1));
    m.register(handle("b", 100, 2));
    assert_eq!(m.len(), 2);
    assert_eq!(*m.handle("a").unwrap(), 1);
    assert_eq!(*m.handle("b").unwrap(), 2);
    assert_eq!(m.handle("c").err(), Some("Session not found".to_string()));
    let i = m.get_info("b").unwrap();
    assert_eq!((i.id.as_str(), i.cols, i.rows, i.created_at), ("b", 100, 24, 1000));
    assert!(m.get_info("zz").is_none());
}

#[test]
fn register_same_id_replaces() {
    let mut m: PtyManager<u32> = PtyManager::new();
    m.register(handle("a", 80, 1));
    m.register(handle("b", 80, 2));
    m.register(handle("a", 120, 3));
    assert_eq!(m.len(), 2);
    assert_eq!(*m.handle("a").unwrap(), 3);
    let ids: Vec<String> = m.list().into_iter().map(|i| i.id).collect();
    assert_eq!(ids, vec!["a".to_string(), "b".to_string()]);
    assert_eq!(m.get_info("a").unwrap().cols, 120);
}

#[test]
fn kill_removes_only_that_session() {
    let mut m: PtyManager<u32> = PtyManager::new();
    m.register(handle("a", 80, 1));
    m.register(handle("b", 80, 2));
    m.register(handle("c", 80, 3));
    assert_eq!(m.kill("b"), Ok(()));
    assert_eq!(m.kill("b"), Err("Session not found".to_string()));
    assert_eq!(m.len(), 2);
    assert!(m.get_info("b").is_none());
    assert_eq!(*m.handle("c").unwrap(), 3);
    let ids: Vec<String> = m.list().into_iter().map(|i| i.id).collect();
    assert_eq!(ids, vec!["a".to_string(), "c".to_string()]);
}

#[test]
fn default_table_is_empty() {
    let m: PtyManager<u8> = Default::default();
    assert_eq!(m.len(), 0);
    assert!(m.list().is_empty());
}

#[test]
fn kill_on_empty_table() {
    let mut m: PtyManager<()> = PtyManager::new();
    assert_eq!(m.kill("x"), Err("Session not found".to_string()));
    assert!(m.list().is_empty());
}

#[test]
fn session_defaults() {
    let p = plan_session(None, None, None, Some("/home/u".to_string()), None);
    assert_eq!((p.cols, p.rows), (80, 24));
    assert_eq!(p.cwd, "/home/u");
    assert!(is_uuid_v4(&p.id), "{}", p.id);
    let p = plan_session(Some(132), Some(50), Some("/tmp".to_string()), None, None);
    assert_eq!((p.cols, p.rows), (132, 50));
    assert_eq!(p.cwd, "/tmp");
    let q = plan_session(None, None, None, None, None);
    assert_eq!(q.cwd, ".");
    assert_ne!(p.id, q.id);
}

#[test]
fn home_fallbacks() {
    assert_eq!(default_home(Some("/h".to_string()), Some("C:\\u".to_string())), "/h");
    assert_eq!(default_home(None, Some("C:\\u".to_string())), "C:\\u");
    assert_eq!(default_home(None, None), ".");
}

#[test]
fn shell_detection() {
    assert_eq!(detect_shell(Some("/bin/zsh".to_string()), false, None, true), "/bin/zsh");
    assert_eq!(detect_shell(None, false, None, true), "/data/data/com.termux/files/usr/bin/bash");
    assert_eq!(detect_shell(None, false, Some("x".to_string()), false), "/bin/bash");
    let comspec = Some("C:\\Windows\\system32\\cmd.exe".to_string());
    assert_eq!(detect_shell(None, true, comspec.clone(), true), comspec.unwrap());
    assert_eq!(detect_shell(None, true, None, false), "cmd.exe");
    assert_eq!(detect_shell(Some("pwsh".to_string()), true, None, false), "pwsh");
}

#[test]
fn environment_of_a_session() {
    let env = session_env(120, 40);
    let expect: Vec<(String, String)> = [
        ("TERM", "xterm-256color"),
        ("COLORTERM", "truecolor"),
        ("COLUMNS", "120"),
        ("LINES", "40"),
        ("POCKETDEVOS", "1"),
    ]
    .iter()
    .map(|(a, b)| (a.to_string(), b.to_string()))
    .collect();
    assert_eq!(env, expect);
}

#[test]
fn exit_codes() {
    assert_eq!(exit_code_of(Some(0)), 0);
    assert_eq!(exit_code_of(Some(127)), 127);
    assert_eq!(exit_code_of(Some(u32::MAX)), -1);
    assert_eq!(exit_code_of(None), 1);
}

#[test]
fn output_loop_steps() {
    match read_step(PtyRead::Bytes(b"ls\r\n".to_vec())) {
        PtyReadStep::Forward(t) => assert_eq!(t, "ls\r\n"),
        _ => panic!("expected forwarding"),
    }
    match read_step(PtyRead::Bytes(vec![0x61, 0xff])) {
        PtyReadStep::Forward(t) => assert_eq!(t, "a\u{fffd}"),
        _ => panic!("expected forwarding"),
    }
    assert!(matches!(read_step(PtyRead::Bytes(vec![])), PtyReadStep::Stop));
    assert!(matches!(read_step(PtyRead::Interrupted), PtyReadStep::Retry));
    assert!(matches!(read_step(PtyRead::Failed), PtyReadStep::Stop));
}

#[test]
fn pty_error_messages() {
    assert_eq!(open_error_message("no pty"), "Failed to open PTY: no pty");
    assert_eq!(spawn_error_message("not found"), "Failed to spawn shell: not found");
}
