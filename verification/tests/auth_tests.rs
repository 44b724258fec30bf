use pocketdevos::auth::{extract_token, query_token_of, AuthState};

#[test]
fn token_is_url_safe_and_24_chars() {
    let a = AuthState::new();
    let t = a.token();
    assert_eq!(t.chars().count(), 24);
    assert!(t.chars().all(|c| c.is_ascii_alphanumeric() || c == '_'), "{}", t);
    // Two base64 padding characters always become underscores.
    assert!(t.ends_with("__"));
}

#[test]
fn tokens_differ_between_states() {
    let a = AuthState::new();
    let b = AuthState::new();
    assert_ne!(a.token(), b.token());
}

#[test]
fn validate_compares_exactly() {
    let a = AuthState::new();
    let t = a.token().to_string();
    assert!(a.validate(&t));
    assert!(!a.validate(""));
    assert!(!a.validate(&format!("{}x", t)));
}

#[test]
fn header_token_is_taken_first() {
    assert_eq!(extract_token(Some("Bearer abc"), Some("token=def")), Some("abc".to_string()));
    assert_eq!(extract_token(Some("Bearer "), None), Some("".to_string()));
    assert_eq!(extract_token(Some("Basic abc"), Some("token=def")), Some("def".to_string()));
    assert_eq!(extract_token(Some("bearer abc"), None), None);
    assert_eq!(extract_token(None, None), None);
}

#[test]
fn query_token_takes_first_token_pair() {
    assert_eq!(query_token_of("token=abc"), Some("abc".to_string()));
    assert_eq!(query_token_of("a=1&token=x=y&token=z"), Some("x=y".to_string()));
    assert_eq!(query_token_of("token"), None);
    assert_eq!(query_token_of("tokens=1&token="), Some("".to_string()));
    assert_eq!(query_token_of(""), None);
    assert_eq!(query_token_of("a=1&&b=2"), None);
}

#[test]
fn health_check_needs_no_token() {
    let a = AuthState::new();
    let t = a.token().to_string();
    assert!(a.admits("/api/health", None, None));
    assert!(!a.admits("/api/fs/list", None, None));
    assert!(!a.admits("/api/fs/list", Some("Bearer wrong"), None));
    assert!(a.admits("/api/fs/list", Some(&format!("Bearer {}", t)), None));
    assert!(a.admits("/ws/terminal/1", None, Some(&format!("x=1&token={}", t))));
    // A wrong header token is not rescued by a right query token.
    assert!(!a.admits("/api/x", Some("Bearer wrong"), Some(&format!("token={}", t))));
}

#[test]
fn token_from_known_bytes() {
    let a = AuthState::from_bytes(&[0u8; 16]);
    assert_eq!(a.token(), "AAAAAAAAAAAAAAAAAAAAAA__");
    let bytes: Vec<u8> = vec![0xfb, 0xff, 0xbf, 1, 2, 3, 4, 5, 6, 7, 8, 9, 10, 11, 12, 13];
    let a = AuthState::from_bytes(&bytes);
    assert_eq!(a.token(), "____AQIDBAUGBwgJCgsMDQ__");
    assert!(a.admits("/api/x", Some("Bearer ____AQIDBAUGBwgJCgsMDQ__"), None));
}
