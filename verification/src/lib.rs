use vstd::prelude::*;

pub mod text;
pub mod json;
pub mod fsops;
pub mod sse;
pub mod table;
pub mod pty;
pub mod security;
pub mod auth;
pub mod shell;
pub mod tools;
pub mod terminal;
pub mod chat;
pub mod server;

verus! {
}
