use pocketdevos::security::{is_denied_path, Resolved, WorkspaceGuard};

fn unresolved(n: usize) -> Resolved {
    Resolved { target: None, roots: (0..n).map(|_| None).collect() }
}

#[test]
fn denied_paths() {
    for p in [
        "/home/u/.env",
        "/home/u/.ssh/config",
        "/home/u/.gnupg",
        "/home/u/.aws/credentials",
        "/home/u/.npmrc",
        "/home/u/.netrc",
        "/home/u/id_rsa.pub",
        "/home/u/id_ed25519",
        "/home/u/.pocketdevos/keys/k",
        "/etc/shadow",
        "/etc/passwd",
        "/srv/app/.env.local",
    ] {
        assert!(is_denied_path(p), "{}", p);
    }
    assert!(!is_denied_path("/home/u/project/main.rs"));
    assert!(!is_denied_path("/home/u/.aws/config"));
}

#[test]
fn backslashes_count_as_slashes() {
    assert!(is_denied_path("C:\\Users\\u\\.aws\\credentials"));
    assert!(is_denied_path("\\etc\\passwd"));
    assert!(!is_denied_path("C:\\Users\\u\\notes.txt"));
}

#[test]
fn guard_roots_from_environment() {
    let g = WorkspaceGuard::new(Some("/home/u".to_string()), Some("C:\\u".to_string()), None);
    assert_eq!(g.roots(), &vec!["/home/u".to_string()]);
    let g = WorkspaceGuard::new(None, Some("C:\\u".to_string()), Some("/data/usr".to_string()));
    assert_eq!(g.roots(), &vec!["C:\\u".to_string(), "/data/usr".to_string()]);
    let g = WorkspaceGuard::new(None, None, None);
    assert_eq!(g.roots(), &vec![".".to_string()]);
}

#[test]
fn authorization_compares_whole_components() {
    let mut g = WorkspaceGuard::new(Some("/home/user".to_string()), None, None);
    assert!(g.is_authorized("/home/user/src/a.rs", &unresolved(1)));
    assert!(g.is_authorized("/home/user", &unresolved(1)));
    assert!(!g.is_authorized("/home/username/a.rs", &unresolved(1)));
    assert!(!g.is_authorized("/tmp/x", &unresolved(1)));
    g.authorize("/tmp");
    assert!(g.is_authorized("/tmp/x", &unresolved(2)));
    assert!(g.is_authorized("/home/user/src/a.rs", &unresolved(2)));
}

#[test]
fn authorization_uses_resolved_paths() {
    let g = WorkspaceGuard::new(Some("/home/link".to_string()), None, None);
    let resolved = Resolved {
        target: Some("/data/real/file".to_string()),
        roots: vec![Some("/data/real".to_string())],
    };
    assert!(g.is_authorized("/home/link/file", &resolved));
    let outside = Resolved { target: Some("/etc/hosts".to_string()), roots: vec![None] };
    assert!(!g.is_authorized("/home/link/hosts", &outside));
}

#[test]
fn validate_checks_deny_list_first() {
    let g = WorkspaceGuard::new(Some("/home/u".to_string()), None, None);
    assert_eq!(g.validate("/home/u/a.txt", &unresolved(1)), Ok(()));
    assert_eq!(
        g.validate("/home/u/.env", &unresolved(1)),
        Err("Access denied: sensitive path".to_string())
    );
    assert_eq!(
        g.validate("/etc/passwd", &unresolved(1)),
        Err("Access denied: sensitive path".to_string())
    );
    assert_eq!(
        g.validate("/var/log/x", &unresolved(1)),
        Err("Access denied: outside workspace".to_string())
    );
}

#[test]
fn home_and_new_roots_admit_themselves() {
    let mut g = WorkspaceGuard::new(Some("/home/u".to_string()), None, Some("/data/usr".to_string()));
    assert!(g.is_authorized("/home/u", &unresolved(2)));
    assert!(g.is_authorized("/data/usr", &unresolved(2)));
    g.authorize("/srv/work");
    assert!(g.is_authorized("/srv/work", &unresolved(3)));
}
