//! The terminal socket's protocol: what each message from the browser asks
//! of the session, and the texts sent back.
use vstd::prelude::*;
use crate::text::{concat3, decimal, decimal_int, decimal_string, decimal_string_signed, has_prefix, str_eq};

verus! {

/// The escape sequence that asks a terminal for `rows` rows and `cols`
/// columns.
pub open spec fn resize_seq(rows: u16, cols: u16) -> Seq<char> {
    "\x1b[8;"@ + decimal(rows as nat) + ";"@ + decimal(cols as nat) + "t"@
}

/// The escape sequence that asks a terminal to resize.
pub fn resize_sequence(rows: u16, cols: u16) -> (r: String)
    ensures
        r@ == resize_seq(rows, cols),
{
    let r = decimal_string(rows as u64);
    let c = decimal_string(cols as u64);
    let a = concat3("\x1b[8;", r.as_str(), ";");
    concat3(a.as_str(), c.as_str(), "t")
}

/// A resize request, as the browser sends it in JSON.
pub struct ResizeMsg {
    pub kind: String,
    pub cols: u16,
    pub rows: u16,
}

/// A message from the browser's socket.
pub enum WsMessage {
    /// Text, with what it parses to as a resize request where it does.
    Text(String, Option<ResizeMsg>),
    /// Binary data, with its text where it is valid UTF-8.
    Binary(Option<String>),
    Close,
    Other,
}

/// What a message asks of the session.
pub enum TerminalInput {
    /// Write this to the shell's input; a failed write ends the forwarding.
    Write(String),
    /// Write this resize sequence to the shell's input, whatever comes of it.
    Resize(String),
    /// Stop forwarding input.
    Stop,
    /// Nothing to do.
    Ignore,
}

/// What a message asks: a text starting with `{` that parses as a request
/// of kind `resize` writes the resize sequence (and forwarding goes on even
/// if that write fails); other text is written as it is; binary data is
/// written when it is UTF-8 text; a close stops. A written text comes with
/// whether a failed write ends the forwarding.
pub open spec fn input_for(m: WsMessage) -> Option<Option<(Seq<char>, bool)>> {
    match m {
        WsMessage::Text(t, resize) => match resize {
            Some(r) if has_prefix(t@, "{"@) && r.kind@ == "resize"@ => Some(
                Some((resize_seq(r.rows, r.cols), false)),
            ),
            _ => Some(Some((t@, true))),
        },
        WsMessage::Binary(Some(t)) => Some(Some((t@, true))),
        WsMessage::Binary(None) => Some(None),
        WsMessage::Close => None,
        WsMessage::Other => Some(None),
    }
}

/// An input as a value: `None` to stop, `Some(None)` to ignore,
/// `Some(Some((text, ends_on_failure)))` to write.
pub open spec fn input_view(i: TerminalInput) -> Option<Option<(Seq<char>, bool)>> {
    match i {
        TerminalInput::Write(t) => Some(Some((t@, true))),
        TerminalInput::Resize(t) => Some(Some((t@, false))),
        TerminalInput::Ignore => Some(None),
        TerminalInput::Stop => None,
    }
}

/// Decides what a message from the browser asks (see `input_for`).
pub fn classify_message(m: WsMessage) -> (r: TerminalInput)
    ensures
        input_view(r) == input_for(m),
{
    match m {
        WsMessage::Text(t, resize) => {
            match resize {
                Some(r) => {
                    if crate::text::starts_with(t.as_str(), "{") && str_eq(r.kind.as_str(), "resize") {
                        return TerminalInput::Resize(resize_sequence(r.rows, r.cols));
                    }
                    TerminalInput::Write(t)
                },
                None => TerminalInput::Write(t),
            }
        },
        WsMessage::Binary(Some(t)) => TerminalInput::Write(t),
        WsMessage::Binary(None) => TerminalInput::Ignore,
        WsMessage::Close => TerminalInput::Stop,
        WsMessage::Other => TerminalInput::Ignore,
    }
}

/// The notice sent to the browser when the shell exits.
pub fn exit_notice(code: i32) -> (r: String)
    ensures
        r@ == "\r\n[Process exited with code "@ + decimal_int(code as int) + "]\r\n"@,
{
    let c = decimal_string_signed(code as i64);
    concat3("\r\n[Process exited with code ", c.as_str(), "]\r\n")
}

} // verus!
