//! One-shot shell commands: what a request runs, with which limits, and how
//! the outcome is reported.
use vstd::prelude::*;
use crate::text::{
    byte_len, concat3, decimal, decimal_string, lossy_utf8, owned, take_chars, take_chars_string,
    trim, trim_string, utf8_lossy,
};

verus! {

/// Most characters of each output stream that a response holds.
pub const MAX_OUTPUT_BYTES: usize = 256 * 1024;

/// Time limit of a command when the request gives none, in milliseconds.
pub const DEFAULT_TIMEOUT_MS: u64 = 30000;

/// Longest time limit a request can ask for, in milliseconds.
pub const MAX_TIMEOUT_MS: u64 = 300000;

/// What a command request runs.
pub struct RunPlan {
    pub command: String,
    pub timeout_ms: u64,
    pub cwd: String,
    pub shell: String,
}

/// The value of a string option, or `dflt`.
pub open spec fn or_default(o: Option<String>, dflt: Seq<char>) -> Seq<char> {
    match o {
        Some(s) => s@,
        None => dflt,
    }
}

/// The time limit a request gets: the one it asks for, or the default,
/// capped at the maximum.
pub open spec fn effective_timeout(timeout: Option<u64>) -> u64 {
    let t = match timeout {
        Some(t) => t,
        None => DEFAULT_TIMEOUT_MS,
    };
    if t < MAX_TIMEOUT_MS {
        t
    } else {
        MAX_TIMEOUT_MS
    }
}

/// The value of a string option, or a literal.
fn or_literal(o: Option<String>, dflt: &str) -> (r: String)
    ensures
        r@ == or_default(o, dflt@),
{
    match o {
        Some(s) => s,
        None => owned(dflt),
    }
}

/// Plans a command request. A command that is empty once trimmed is refused
/// (`None`, answered with status 400); otherwise the trimmed command runs
/// under the shell from `SHELL` (else `/bin/sh`), in the requested directory
/// (else `HOME`, else `/`), with the time limit of `effective_timeout`.
pub fn plan_run(
    command: &str,
    cwd: Option<String>,
    timeout: Option<u64>,
    home: Option<String>,
    shell: Option<String>,
) -> (r: Option<RunPlan>)
    ensures
        match r {
            None => trim(command@).len() == 0,
            Some(p) => {
                &&& trim(command@).len() > 0
                &&& p.command@ == trim(command@)
                &&& p.timeout_ms == effective_timeout(timeout)
                &&& p.cwd@ == match cwd {
                    Some(c) => c@,
                    None => or_default(home, "/"@),
                }
                &&& p.shell@ == or_default(shell, "/bin/sh"@)
            },
        },
{
    let command = trim_string(command);
    if command.as_str().is_empty() {
        return None;
    }
    let t = match timeout {
        Some(t) => t,
        None => DEFAULT_TIMEOUT_MS,
    };
    let timeout_ms = if t < MAX_TIMEOUT_MS {
        t
    } else {
        MAX_TIMEOUT_MS
    };
    let cwd = match cwd {
        Some(c) => c,
        None => or_literal(home, "/"),
    };
    let shell = or_literal(shell, "/bin/sh");
    Some(RunPlan { command, timeout_ms, cwd, shell })
}

/// The response to a command request.
pub struct RunResponse {
    pub stdout: String,
    pub stderr: String,
    pub exit_code: Option<i32>,
    pub timed_out: bool,
    pub truncated: bool,
}

/// The response for a command that ran: each stream decoded as lossy UTF-8
/// and cut to `MAX_OUTPUT_BYTES` characters; `truncated` tells whether a
/// stream's text was longer than `MAX_OUTPUT_BYTES` bytes.
pub fn response_from_output(stdout: &[u8], stderr: &[u8], exit_code: Option<i32>) -> (r: RunResponse)
    ensures
        r.stdout@ == take_chars(utf8_lossy(stdout@), MAX_OUTPUT_BYTES as nat),
        r.stderr@ == take_chars(utf8_lossy(stderr@), MAX_OUTPUT_BYTES as nat),
        r.exit_code == exit_code,
        !r.timed_out,
        r.truncated == (byte_len(utf8_lossy(stdout@)) > MAX_OUTPUT_BYTES || byte_len(
            utf8_lossy(stderr@),
        ) > MAX_OUTPUT_BYTES),
{
    let out = lossy_utf8(stdout);
    let err = lossy_utf8(stderr);
    response_from_text(out.as_str(), err.as_str(), exit_code)
}

/// The response for a command that ran, from its decoded output streams:
/// each cut to `MAX_OUTPUT_BYTES` characters; `truncated` tells whether a
/// stream was longer than `MAX_OUTPUT_BYTES` bytes.
pub fn response_from_text(out: &str, err: &str, exit_code: Option<i32>) -> (r: RunResponse)
    ensures
        r.stdout@ == take_chars(out@, MAX_OUTPUT_BYTES as nat),
        r.stderr@ == take_chars(err@, MAX_OUTPUT_BYTES as nat),
        r.exit_code == exit_code,
        !r.timed_out,
        r.truncated == (byte_len(out@) > MAX_OUTPUT_BYTES || byte_len(err@) > MAX_OUTPUT_BYTES),
{
    let truncated = out.len() > MAX_OUTPUT_BYTES || err.len() > MAX_OUTPUT_BYTES;
    RunResponse {
        stdout: take_chars_string(out, MAX_OUTPUT_BYTES),
        stderr: take_chars_string(err, MAX_OUTPUT_BYTES),
        exit_code,
        timed_out: false,
        truncated,
    }
}

/// The response for a command whose shell could not be started: the error
/// as its standard error, exit code 1.
pub fn response_from_spawn_error(message: String) -> (r: RunResponse)
    ensures
        r.stdout@ == Seq::<char>::empty(),
        r.stderr@ == message@,
        r.exit_code == Some(1i32),
        !r.timed_out,
        !r.truncated,
{
    RunResponse {
        stdout: String::new(),
        stderr: message,
        exit_code: Some(1),
        timed_out: false,
        truncated: false,
    }
}

/// The response for a command that ran out of time.
pub fn response_timed_out(timeout_ms: u64) -> (r: RunResponse)
    ensures
        r.stdout@ == Seq::<char>::empty(),
        r.stderr@ == "Command timed out after "@ + decimal(timeout_ms as nat) + "ms"@,
        r.exit_code == None::<i32>,
        r.timed_out,
        !r.truncated,
{
    let n = decimal_string(timeout_ms);
    RunResponse {
        stdout: String::new(),
        stderr: concat3("Command timed out after ", n.as_str(), "ms"),
        exit_code: None,
        timed_out: true,
        truncated: false,
    }
}

/// No request waits longer than the maximum time limit, and a request that
/// asks for no more than that gets what it asks for.
pub proof fn lemma_timeout_capped(timeout: Option<u64>)
    ensures
        effective_timeout(timeout) <= MAX_TIMEOUT_MS,
        timeout is Some && timeout->0 <= MAX_TIMEOUT_MS ==> effective_timeout(timeout)
            == timeout->0,
        timeout is None ==> effective_timeout(timeout) == DEFAULT_TIMEOUT_MS,
{
}

} // verus!
