use pocketdevos::server::{listen_addr, port_from_env, DEFAULT_PORT};

#[test]
fn port_from_environment() {
    assert_eq!(port_from_env(None), DEFAULT_PORT);
    assert_eq!(port_from_env(Some("8080")), 8080);
    assert_eq!(port_from_env(Some("+8080")), 8080);
    assert_eq!(port_from_env(Some("65536")), 3000);
    assert_eq!(port_from_env(Some("abc")), 3000);
    assert_eq!(port_from_env(Some("")), 3000);
    assert_eq!(port_from_env(Some("0")), 0);
}

#[test]
fn listen_address() {
    assert_eq!(listen_addr(3000), "127.0.0.1:3000");
    assert_eq!(listen_addr(0), "127.0.0.1:0");
}

#[test]
fn written_port_reads_back() {
    for p in [0u16, 1, 80, 3000, 65535] {
        let addr = listen_addr(p);
        let written = addr.rsplit(':').next().unwrap();
        assert_eq!(port_from_env(Some(written)), p);
    }
}
