use pocketdevos::terminal::{
    classify_message, exit_notice, resize_sequence, ResizeMsg, TerminalInput, WsMessage,
};

fn resize(kind: &str, cols: u16, rows: u16) -> Option<ResizeMsg> {
    Some(ResizeMsg { kind: kind.to_string(), cols, rows })
}

#[test]
fn resize_escape_sequence() {
    assert_eq!(resize_sequence(24, 80), "\x1b[8;24;80t");
    assert_eq!(resize_sequence(0, 65535), "\x1b[8;0;65535t");
}

#[test]
fn resize_messages_write_the_sequence() {
    let text = r#"{"type":"resize","cols":120,"rows":40}"#.to_string();
    match classify_message(WsMessage::Text(text, resize("resize", 120, 40))) {
        TerminalInput::Resize(s) => assert_eq!(s, "\x1b[8;40;120t"),
        _ => panic!("expected a resize"),
    }
}

#[test]
fn other_text_is_written_as_is() {
    let text = r#"{"type":"ping","cols":1,"rows":1}"#.to_string();
    match classify_message(WsMessage::Text(text.clone(), resize("ping", 1, 1))) {
        TerminalInput::Write(s) => assert_eq!(s, text),
        _ => panic!("expected a write"),
    }
    match classify_message(WsMessage::Text("ls\r".to_string(), None)) {
        TerminalInput::Write(s) => assert_eq!(s, "ls\r"),
        _ => panic!("expected a write"),
    }
    // A parsed request counts only when the text starts with a brace.
    match classify_message(WsMessage::Text(" {}".to_string(), resize("resize", 1, 1))) {
        TerminalInput::Write(s) => assert_eq!(s, " {}"),
        _ => panic!("expected a write"),
    }
}

#[test]
fn binary_close_and_other() {
    match classify_message(WsMessage::Binary(Some("echo".to_string()))) {
        TerminalInput::Write(s) => assert_eq!(s, "echo"),
        _ => panic!("expected a write"),
    }
    assert!(matches!(classify_message(WsMessage::Binary(None)), TerminalInput::Ignore));
    assert!(matches!(classify_message(WsMessage::Close), TerminalInput::Stop));
    assert!(matches!(classify_message(WsMessage::Other), TerminalInput::Ignore));
}

#[test]
fn exit_notices() {
    assert_eq!(exit_notice(0), "\r\n[Process exited with code 0]\r\n");
    assert_eq!(exit_notice(-1), "\r\n[Process exited with code -1]\r\n");
    assert_eq!(exit_notice(130), "\r\n[Process exited with code 130]\r\n");
}
