//! The tools the assistant may call: which action a call asks for, whether the
//! workspace guard admits it, and how each tool's outcome is reported back.
use vstd::prelude::*;
use std::sync::Arc;
use crate::security::{Resolved, WorkspaceGuard, guard_verdict};
use crate::json::{json_string_at, string_at};
use crate::text::{
    concat2, concat3, decimal, decimal_string, join_prefix, join_with, lossy_utf8, owned,
    split_at_char, split_chars, trim, trim_string, utf8_lossy, byte_len,
};

verus! {

/// The assistant's tools, bound to the workspace guard.
pub struct AiTools {
    guard: Arc<WorkspaceGuard>,
}

/// The arguments of a tool call: the string fields it may carry.
pub struct ToolArgs {
    pub path: Option<String>,
    pub content: Option<String>,
    pub command: Option<String>,
    pub cwd: Option<String>,
    pub pattern: Option<String>,
    pub file_glob: Option<String>,
}

/// The arguments of a tool call, read out of its JSON arguments object:
/// each field is the string under its key, where there is one (the file
/// glob is read from the key `incl` + `ude`).
pub fn tool_args_of(json: &str) -> (a: ToolArgs)
    ensures
        opt_view(a.path) == json_string_at(json@, "/path"@),
        opt_view(a.content) == json_string_at(json@, "/content"@),
        opt_view(a.command) == json_string_at(json@, "/command"@),
        opt_view(a.cwd) == json_string_at(json@, "/cwd"@),
        opt_view(a.pattern) == json_string_at(json@, "/pattern"@),
        opt_view(a.file_glob) == json_string_at(json@, "/incl"@ + "ude"@),
{
    let glob_key = concat2("/incl", "ude");
    ToolArgs {
        path: string_at(json, "/path"),
        content: string_at(json, "/content"),
        command: string_at(json, "/command"),
        cwd: string_at(json, "/cwd"),
        pattern: string_at(json, "/pattern"),
        file_glob: string_at(json, glob_key.as_str()),
    }
}

/// The tools.
#[derive(PartialEq, Eq, Structural, Clone, Copy)]
pub enum ToolKind {
    ReadFile,
    WriteFile,
    ListDirectory,
    RunCommand,
    Grep,
}

/// What a tool call asks to be done.
pub enum ToolAction {
    ReadFile { path: String },
    WriteFile { path: String, content: String },
    ListDirectory { path: String },
    RunCommand { command: String, cwd: String },
    Grep { pattern: String, path: String, file_glob: Option<String> },
}

/// An action as a value: its tool and up to three strings (path; path and
/// content; path; command and directory; pattern, path and file glob).
pub open spec fn action_view(a: ToolAction) -> (ToolKind, Seq<char>, Seq<char>, Option<Seq<char>>) {
    match a {
        ToolAction::ReadFile { path } => (ToolKind::ReadFile, path@, Seq::empty(), None),
        ToolAction::WriteFile { path, content } => (ToolKind::WriteFile, path@, content@, None),
        ToolAction::ListDirectory { path } => (ToolKind::ListDirectory, path@, Seq::empty(), None),
        ToolAction::RunCommand { command, cwd } => (ToolKind::RunCommand, command@, cwd@, None),
        ToolAction::Grep { pattern, path, file_glob } => (
            ToolKind::Grep,
            pattern@,
            path@,
            match file_glob {
                Some(i) => Some(i@),
                None => None,
            },
        ),
    }
}

/// A string option as a value.
pub open spec fn opt_view(o: Option<String>) -> Option<Seq<char>> {
    match o {
        Some(s) => Some(s@),
        None => None,
    }
}

/// A path-taking tool: the error for a missing path, else the guard's
/// verdict on it, else the action built from it.
pub open spec fn path_action(
    roots: Seq<Seq<char>>,
    resolved: Resolved,
    path: Option<Seq<char>>,
    action: (ToolKind, Seq<char>, Seq<char>, Option<Seq<char>>),
) -> Result<(ToolKind, Seq<char>, Seq<char>, Option<Seq<char>>), Seq<char>> {
    match path {
        None => Err("path required"@),
        Some(p) => match guard_verdict(roots, resolved, p) {
            Some(e) => Err(e),
            None => Ok(action),
        },
    }
}

/// What a call of tool `name` with `args` comes to: an action, or the error
/// returned to the assistant. Missing required arguments are reported first,
/// then the guard's verdict on the path; `run_command` is not guarded.
pub open spec fn planned(
    roots: Seq<Seq<char>>,
    name: Seq<char>,
    args: ToolArgs,
    resolved: Resolved,
    home: Option<Seq<char>>,
) -> Result<(ToolKind, Seq<char>, Seq<char>, Option<Seq<char>>), Seq<char>> {
    let path = opt_view(args.path);
    if name == "read_file"@ {
        path_action(roots, resolved, path, (ToolKind::ReadFile, path.unwrap(), Seq::empty(), None))
    } else if name == "write_file"@ {
        let content = match opt_view(args.content) {
            Some(c) => c,
            None => Seq::empty(),
        };
        path_action(roots, resolved, path, (ToolKind::WriteFile, path.unwrap(), content, None))
    } else if name == "list_directory"@ {
        path_action(
            roots,
            resolved,
            path,
            (ToolKind::ListDirectory, path.unwrap(), Seq::empty(), None),
        )
    } else if name == "run_command"@ {
        match opt_view(args.command) {
            None => Err("command required"@),
            Some(c) => {
                let cwd = match opt_view(args.cwd) {
                    Some(d) => d,
                    None => match home {
                        Some(h) => h,
                        None => "/"@,
                    },
                };
                Ok((ToolKind::RunCommand, c, cwd, None))
            },
        }
    } else if name == "grep"@ {
        match opt_view(args.pattern) {
            None => Err("pattern required"@),
            Some(pat) => path_action(
                roots,
                resolved,
                path,
                (ToolKind::Grep, pat, path.unwrap(), opt_view(args.file_glob)),
            ),
        }
    } else {
        Err("Unknown tool: "@ + name)
    }
}

/// Result of a plan, as a value.
pub open spec fn plan_view(r: Result<ToolAction, String>) -> Result<
    (ToolKind, Seq<char>, Seq<char>, Option<Seq<char>>),
    Seq<char>,
> {
    match r {
        Ok(a) => Ok(action_view(a)),
        Err(e) => Err(e@),
    }
}

impl AiTools {
    /// Tools bound to `guard`.
    pub fn new(guard: Arc<WorkspaceGuard>) -> (t: Self)
        ensures
            t.guard_view() == guard@,
    {
        AiTools { guard }
    }

    /// The workspace roots the tools are bound to.
    pub closed spec fn guard_view(&self) -> Seq<Seq<char>> {
        self.guard@
    }

    /// The workspace guard the tools are bound to.
    pub fn guard(&self) -> (g: &WorkspaceGuard)
        ensures
            g@ == self.guard_view(),
    {
        &*self.guard
    }

    /// The guard's check of a path, as a plan step.
    fn checked(&self, path: &str, resolved: &Resolved) -> (r: Result<(), String>)
        ensures
            match r {
                Ok(_) => guard_verdict(self.guard_view(), *resolved, path@) == None::<Seq<char>>,
                Err(e) => guard_verdict(self.guard_view(), *resolved, path@) == Some(e@),
            },
    {
        self.guard().validate(path, resolved)
    }

    /// Decides what a call of tool `name` asks for (see `planned`). `resolved`
    /// holds what the file system resolves the call's `path` and the roots to,
    /// and `home` the value of `HOME`.
    pub fn plan(&self, name: &str, args: ToolArgs, resolved: &Resolved, home: Option<String>) -> (r:
        Result<ToolAction, String>)
        ensures
            plan_view(r) == planned(self.guard_view(), name@, args, *resolved, opt_view(home)),
    {
        let ghost a0 = args;
        if crate::text::str_eq(name, "read_file") {
            match args.path {
                None => Err(owned("path required")),
                Some(path) => match self.checked(path.as_str(), resolved) {
                    Err(e) => Err(e),
                    Ok(_) => Ok(ToolAction::ReadFile { path }),
                },
            }
        } else if crate::text::str_eq(name, "write_file") {
            let content = match args.content {
                Some(c) => c,
                None => String::new(),
            };
            match args.path {
                None => Err(owned("path required")),
                Some(path) => match self.checked(path.as_str(), resolved) {
                    Err(e) => Err(e),
                    Ok(_) => Ok(ToolAction::WriteFile { path, content }),
                },
            }
        } else if crate::text::str_eq(name, "list_directory") {
            match args.path {
                None => Err(owned("path required")),
                Some(path) => match self.checked(path.as_str(), resolved) {
                    Err(e) => Err(e),
                    Ok(_) => Ok(ToolAction::ListDirectory { path }),
                },
            }
        } else if crate::text::str_eq(name, "run_command") {
            match args.command {
                None => Err(owned("command required")),
                Some(command) => {
                    let cwd = match args.cwd {
                        Some(d) => d,
                        None => match home {
                            Some(h) => h,
                            None => owned("/"),
                        },
                    };
                    Ok(ToolAction::RunCommand { command, cwd })
                },
            }
        } else if crate::text::str_eq(name, "grep") {
            match args.pattern {
                None => Err(owned("pattern required")),
                Some(pattern) => match args.path {
                    None => Err(owned("path required")),
                    Some(path) => match self.checked(path.as_str(), resolved) {
                        Err(e) => Err(e),
                        Ok(_) => Ok(ToolAction::Grep { pattern, path, file_glob: args.file_glob }),
                    },
                },
            }
        } else {
            Err(concat2("Unknown tool: ", name))
        }
    }
}

/// A command call runs the command it carries in the directory it asks for;
/// only when it asks for none does it run in the home directory, and without
/// one in `/`. The workspace guard does not apply to it.
pub proof fn lemma_run_command_directory(
    roots: Seq<Seq<char>>,
    args: ToolArgs,
    resolved: Resolved,
    home: Option<Seq<char>>,
)
    requires
        args.command is Some,
    ensures
        args.cwd is Some ==> planned(roots, "run_command"@, args, resolved, home) == Ok::<
            (ToolKind, Seq<char>, Seq<char>, Option<Seq<char>>),
            Seq<char>,
        >((ToolKind::RunCommand, args.command->0@, args.cwd->0@, None)),
        args.cwd is None && home is Some ==> planned(roots, "run_command"@, args, resolved, home)
            == Ok::<(ToolKind, Seq<char>, Seq<char>, Option<Seq<char>>), Seq<char>>(
            (ToolKind::RunCommand, args.command->0@, home->0, None),
        ),
        args.cwd is None && home is None ==> planned(roots, "run_command"@, args, resolved, home)
            == Ok::<(ToolKind, Seq<char>, Seq<char>, Option<Seq<char>>), Seq<char>>(
            (ToolKind::RunCommand, args.command->0@, "/"@, None),
        ),
{
    reveal_strlit("run_command");
    reveal_strlit("read_file");
    reveal_strlit("write_file");
    reveal_strlit("list_directory");
    assert("run_command"@[1] != "read_file"@[1]);
    assert("run_command"@[0] != "write_file"@[0]);
    assert("run_command"@[0] != "list_directory"@[0]);
}

/// A path-taking call that the guard admits acts on the path it carries,
/// unchanged; a write writes the content it carries, and a search searches
/// for its pattern with its file glob.
pub proof fn lemma_admitted_calls_keep_their_arguments(
    roots: Seq<Seq<char>>,
    args: ToolArgs,
    resolved: Resolved,
    home: Option<Seq<char>>,
)
    requires
        args.path is Some,
        guard_verdict(roots, resolved, args.path->0@) is None,
    ensures
        planned(roots, "read_file"@, args, resolved, home) == Ok::<
            (ToolKind, Seq<char>, Seq<char>, Option<Seq<char>>),
            Seq<char>,
        >((ToolKind::ReadFile, args.path->0@, Seq::empty(), None)),
        args.content is Some ==> planned(roots, "write_file"@, args, resolved, home) == Ok::<
            (ToolKind, Seq<char>, Seq<char>, Option<Seq<char>>),
            Seq<char>,
        >((ToolKind::WriteFile, args.path->0@, args.content->0@, None)),
        planned(roots, "list_directory"@, args, resolved, home) == Ok::<
            (ToolKind, Seq<char>, Seq<char>, Option<Seq<char>>),
            Seq<char>,
        >((ToolKind::ListDirectory, args.path->0@, Seq::empty(), None)),
        args.pattern is Some ==> planned(roots, "grep"@, args, resolved, home) == Ok::<
            (ToolKind, Seq<char>, Seq<char>, Option<Seq<char>>),
            Seq<char>,
        >((ToolKind::Grep, args.pattern->0@, args.path->0@, opt_view(args.file_glob))),
{
    reveal_strlit("run_command");
    reveal_strlit("read_file");
    reveal_strlit("write_file");
    reveal_strlit("list_directory");
    reveal_strlit("grep");
    assert("write_file"@[0] != "read_file"@[0]);
    assert("list_directory"@[0] != "read_file"@[0]);
    assert("list_directory"@[0] != "write_file"@[0]);
    assert("grep"@[0] != "read_file"@[0]);
    assert("grep"@[0] != "write_file"@[0]);
    assert("grep"@[0] != "list_directory"@[0]);
    assert("grep"@[0] != "run_command"@[0]);
}

// ---------------------------------------------------------------------------
// Reporting outcomes
// ---------------------------------------------------------------------------

/// Largest file the assistant may read, in bytes.
pub const MAX_READ_BYTES: u64 = 5 * 1024 * 1024;

/// A file of `len` bytes may be read; a larger one is refused.
pub fn check_read_size(len: u64) -> (r: Result<(), String>)
    ensures
        match r {
            Ok(_) => len <= MAX_READ_BYTES,
            Err(e) => len > MAX_READ_BYTES && e@ == "File too large (max 5MB)"@,
        },
{
    if len > MAX_READ_BYTES {
        Err(owned("File too large (max 5MB)"))
    } else {
        Ok(())
    }
}

/// The report of a completed write: the content's length in bytes and the
/// path.
pub fn write_report(content: &str, path: &str) -> (r: String)
    ensures
        r@ == "Successfully wrote "@ + decimal(byte_len(content@) as nat) + " bytes to "@ + path@,
{
    let n = decimal_string(content.len() as u64);
    let a = concat3("Successfully wrote ", n.as_str(), " bytes to ");
    concat2(a.as_str(), path)
}

/// The icon of a directory listing line.
pub open spec fn entry_icon(is_dir: bool) -> Seq<char> {
    if is_dir {
        "\u{1F4C1}"@
    } else {
        "\u{1F4C4}"@
    }
}

/// The lines of a directory listing: an icon, a space, the name.
pub open spec fn listing_lines(entries: Seq<(String, bool)>) -> Seq<Seq<char>> {
    entries.map_values(|e: (String, bool)| entry_icon(e.1) + " "@ + e.0@)
}

/// The listing reported for a directory: one line per entry, or a note that
/// the directory is empty.
pub open spec fn listing_report(entries: Seq<(String, bool)>) -> Seq<char> {
    if entries.len() == 0 {
        "(empty directory)"@
    } else {
        join_with(listing_lines(entries), "\n"@)
    }
}

/// Reports a directory listing, given each entry's name and whether it is a
/// directory, in the order they were read.
pub fn format_listing(entries: &Vec<(String, bool)>) -> (r: String)
    ensures
        r@ == listing_report(entries@),
{
    if entries.len() == 0 {
        return owned("(empty directory)");
    }
    let mut lines: Vec<String> = Vec::new();
    for i in 0..entries.len()
        invariant
            lines@.map_values(|x: String| x@) == listing_lines(entries@).take(i as int),
    {
        let icon = if entries[i].1 {
            "\u{1F4C1}"
        } else {
            "\u{1F4C4}"
        };
        let line = concat3(icon, " ", entries[i].0.as_str());
        let ghost before = lines@.map_values(|x: String| x@);
        lines.push(line);
        assert(lines@.map_values(|x: String| x@) =~= before.push(line@));
        assert(listing_lines(entries@).take(i + 1) =~= listing_lines(entries@).take(i as int).push(
            line@,
        ));
    }
    assert(listing_lines(entries@).take(entries@.len() as int) =~= listing_lines(entries@));
    join_prefix(&lines, lines.len(), "\n")
}

/// A directory listing has one line per entry, in order: a single entry is
/// reported as its line (icon, space, name), and one more entry adds a line
/// break and its line to the report; only no entry at all is reported as an
/// empty directory.
pub proof fn lemma_listing_grows_by_lines(entries: Seq<(String, bool)>, e: (String, bool))
    ensures
        listing_report(Seq::<(String, bool)>::empty()) == "(empty directory)"@,
        listing_report(seq![e]) == entry_icon(e.1) + " "@ + e.0@,
        entries.len() > 0 ==> listing_report(entries.push(e)) == listing_report(entries) + "\n"@
            + (entry_icon(e.1) + " "@ + e.0@),
{
    assert(listing_lines(seq![e]) =~= seq![entry_icon(e.1) + " "@ + e.0@]);
    let line = entry_icon(e.1) + " "@ + e.0@;
    let l = listing_lines(entries.push(e));
    assert(l =~= listing_lines(entries).push(line));
    if entries.len() > 0 {
        assert(l.drop_last() =~= listing_lines(entries));
        assert(l.last() == line);
    }
}

/// The report of a command that ran: its output, then its error output
/// marked `[stderr] ` (on a line of its own after any output), or a note
/// that there was neither.
pub open spec fn command_report(out: Seq<char>, err: Seq<char>) -> Seq<char> {
    let r = if err.len() == 0 {
        out
    } else if out.len() == 0 {
        "[stderr] "@ + err
    } else {
        out + "\n"@ + "[stderr] "@ + err
    };
    if r.len() == 0 {
        "(no output)"@
    } else {
        r
    }
}

/// A command's report is its output when it wrote nothing to its error
/// stream; its error output after `[stderr] ` when it wrote nothing else; the
/// output, a line break, `[stderr] ` and the error output when it wrote both;
/// and `(no output)` when it wrote neither.
pub proof fn lemma_command_report_parts(out: Seq<char>, err: Seq<char>)
    ensures
        out.len() > 0 && err.len() == 0 ==> command_report(out, err) == out,
        out.len() == 0 && err.len() > 0 ==> command_report(out, err) == "[stderr] "@ + err,
        out.len() > 0 && err.len() > 0 ==> command_report(out, err) == out + "\n[stderr] "@
            + err,
        out.len() == 0 && err.len() == 0 ==> command_report(out, err) == "(no output)"@,
{
    reveal_strlit("\n[stderr] ");
    reveal_strlit("\n");
    reveal_strlit("[stderr] ");
    assert("\n[stderr] "@ =~= "\n"@ + "[stderr] "@);
    assert(out + "\n"@ + "[stderr] "@ + err =~= out + ("\n"@ + "[stderr] "@) + err);
    if err.len() > 0 {
        assert(("[stderr] "@ + err).len() > 0);
        assert((out + "\n"@ + "[stderr] "@ + err).len() > 0);
    }
}

/// Reports a command that ran, from its raw output streams.
pub fn format_command_output(stdout: &[u8], stderr: &[u8]) -> (r: String)
    ensures
        r@ == command_report(utf8_lossy(stdout@), utf8_lossy(stderr@)),
{
    let out = lossy_utf8(stdout);
    let err = lossy_utf8(stderr);
    command_output_report(out.as_str(), err.as_str())
}

/// Reports a command that ran, from its decoded output streams.
pub fn command_output_report(out: &str, err: &str) -> (r: String)
    ensures
        r@ == command_report(out@, err@),
{
    let mut result = String::new();
    if !out.is_empty() {
        result.append(out);
    }
    if !err.is_empty() {
        if !result.as_str().is_empty() {
            result.append("\n");
        }
        result.append("[stderr] ");
        result.append(err);
    }
    proof {
        reveal_strlit("[stderr] ");
    }
    if result.as_str().is_empty() {
        owned("(no output)")
    } else {
        result
    }
}

/// Reports a command whose shell could not be started.
pub fn command_error_report(error: &str) -> (r: String)
    ensures
        r@ == "Command error: "@ + error@,
{
    concat2("Command error: ", error)
}

/// Reports a command that ran out of time.
pub fn command_timeout_report() -> (r: String)
    ensures
        r@ == "Command timed out after 30s"@,
{
    owned("Command timed out after 30s")
}

/// The arguments `grep` is run with: recursive with line numbers and no
/// colors, restricted to files matching `glob` when given, then the
/// pattern and the path.
pub fn grep_arguments(pattern: &str, path: &str, glob: Option<&str>) -> (r: Vec<String>)
    ensures
        r@.map_values(|x: String| x@) == match glob {
            Some(g) => seq!["-rn"@, "--color=never"@, "--incl"@ + "ude="@ + g@, pattern@, path@],
            None => seq!["-rn"@, "--color=never"@, pattern@, path@],
        },
{
    let mut r: Vec<String> = Vec::new();
    r.push(owned("-rn"));
    r.push(owned("--color=never"));
    match glob {
        Some(g) => r.push(concat3("--incl", "ude=", g)),
        None => {},
    }
    r.push(owned(pattern));
    r.push(owned(path));
    assert(r@.map_values(|x: String| x@) =~= match glob {
        Some(g) => seq!["-rn"@, "--color=never"@, "--incl"@ + "ude="@ + g@, pattern@, path@],
        None => seq!["-rn"@, "--color=never"@, pattern@, path@],
    });
    r
}

/// Most matching lines reported from one search.
pub const GREP_MAX_LINES: usize = 50;

/// The report of a search: its trimmed output, cut after 50 lines with a note
/// of how many more there were.
pub open spec fn grep_report(out: Seq<char>) -> Seq<char> {
    let t = trim(out);
    let lines = split_at_char(t, '\n');
    if lines.len() > GREP_MAX_LINES {
        join_with(lines.take(GREP_MAX_LINES as int), "\n"@) + "\n... ("@ + decimal(
            (lines.len() - GREP_MAX_LINES) as nat,
        ) + " more matches)"@
    } else {
        t
    }
}

/// Reports a search from `grep`'s raw output.
pub fn format_grep_output(stdout: &[u8]) -> (r: String)
    ensures
        r@ == grep_report(utf8_lossy(stdout@)),
{
    let out = lossy_utf8(stdout);
    grep_output_report(out.as_str())
}

/// Reports a search from `grep`'s decoded output.
pub fn grep_output_report(out: &str) -> (r: String)
    ensures
        r@ == grep_report(out@),
{
    let t = trim_string(out);
    let lines = split_chars(t.as_str(), '\n');
    if lines.len() > GREP_MAX_LINES {
        let head = join_prefix(&lines, GREP_MAX_LINES, "\n");
        let more = decimal_string((lines.len() - GREP_MAX_LINES) as u64);
        let a = concat3(head.as_str(), "\n... (", more.as_str());
        concat2(a.as_str(), " more matches)")
    } else {
        t
    }
}

/// Reports a search that could not run or ran out of time.
pub fn grep_failure_report() -> (r: String)
    ensures
        r@ == "No matches found"@,
{
    owned("No matches found")
}

/// A search reports the whole trimmed output when it has at most 50 lines.
pub proof fn lemma_short_grep_report_is_output(out: Seq<char>)
    requires
        split_at_char(trim(out), '\n').len() <= GREP_MAX_LINES,
    ensures
        grep_report(out) == join_with(split_at_char(trim(out), '\n'), "\n"@),
        grep_report(out) == trim(out),
{
    crate::text::lemma_join_split(trim(out), '\n');
    assert("\n"@ =~= seq!['\n']) by {
        reveal_strlit("\n");
    }
}

// ---------------------------------------------------------------------------
// The tools' schema
// ---------------------------------------------------------------------------

/// One string parameter of a tool.
pub struct ToolParam {
    pub name: String,
    pub description: Option<String>,
}

/// A tool as it is offered to the model: name, description, string
/// parameters, and which of them are required.
pub struct ToolSpec {
    pub name: String,
    pub description: String,
    pub params: Vec<ToolParam>,
    pub required: Vec<String>,
}

fn param(name: &str, description: Option<&str>) -> (p: ToolParam)
    ensures
        p.name@ == name@,
        opt_view(p.description) == match description {
            Some(d) => Some(d@),
            None => None,
        },
{
    ToolParam {
        name: owned(name),
        description: match description {
            Some(d) => Some(owned(d)),
            None => None,
        },
    }
}

/// A parameter whose name is given in two pieces.
fn param_joined(a: &str, b: &str, description: Option<&str>) -> (p: ToolParam)
    ensures
        p.name@ == a@ + b@,
        opt_view(p.description) == match description {
            Some(d) => Some(d@),
            None => None,
        },
{
    ToolParam {
        name: concat2(a, b),
        description: match description {
            Some(d) => Some(owned(d)),
            None => None,
        },
    }
}

/// The parameter names of a tool.
pub open spec fn param_names(t: ToolSpec) -> Seq<Seq<char>> {
    t.params@.map_values(|p: ToolParam| p.name@)
}

/// The required parameter names of a tool.
pub open spec fn required_names(t: ToolSpec) -> Seq<Seq<char>> {
    t.required@.map_values(|s: String| s@)
}

impl AiTools {
    /// The five tools, in the order they are offered to the model: each with
    /// its parameters and required parameters.
    pub fn to_openai_schema(&self) -> (r: Vec<ToolSpec>)
        ensures
            r@.len() == 5,
            r@[0].name@ == "read_file"@,
            r@[0].description@ == "Read the contents of a file at the given path."@,
            param_names(r@[0]) == seq!["path"@],
            required_names(r@[0]) == seq!["path"@],
            r@[1].name@ == "write_file"@,
            r@[1].description@
                == "Write content to a file. Creates if it doesn't exist, overwrites if it does."@,
            param_names(r@[1]) == seq!["path"@, "content"@],
            required_names(r@[1]) == seq!["path"@, "content"@],
            r@[2].name@ == "list_directory"@,
            r@[2].description@ == "List the contents of a directory."@,
            param_names(r@[2]) == seq!["path"@],
            required_names(r@[2]) == seq!["path"@],
            r@[3].name@ == "run_command"@,
            r@[3].description@ == "Execute a shell command. 30s timeout."@,
            param_names(r@[3]) == seq!["command"@, "cwd"@],
            required_names(r@[3]) == seq!["command"@],
            r@[4].name@ == "grep"@,
            r@[4].description@ == "Search for a pattern in files within a directory."@,
            param_names(r@[4]) == seq!["pattern"@, "path"@, ("incl"@ + "ude"@)],
            required_names(r@[4]) == seq!["pattern"@, "path"@],
            opt_view(r@[0].params@[0].description) == Some("Absolute path to the file to read"@),
            opt_view(r@[1].params@[0].description) == Some("Absolute path to the file to write"@),
            opt_view(r@[1].params@[1].description) == Some("Content to write to the file"@),
            opt_view(r@[2].params@[0].description) == Some(
                "Absolute path to the directory to list"@,
            ),
            opt_view(r@[3].params@[0].description) == Some("The shell command to execute"@),
            opt_view(r@[3].params@[1].description) == Some("Working directory for the command"@),
            opt_view(r@[4].params@[0].description) == None::<Seq<char>>,
            opt_view(r@[4].params@[1].description) == None::<Seq<char>>,
            opt_view(r@[4].params@[2].description) == Some("File glob pattern (e.g. '*.ts')"@),
    {
        let mut r: Vec<ToolSpec> = Vec::new();
        r.push(
            ToolSpec {
                name: owned("read_file"),
                description: owned("Read the contents of a file at the given path."),
                params: vec![param("path", Some("Absolute path to the file to read"))],
                required: vec![owned("path")],
            },
        );
        r.push(
            ToolSpec {
                name: owned("write_file"),
                description: owned(
                    "Write content to a file. Creates if it doesn't exist, overwrites if it does.",
                ),
                params: vec![
                    param("path", Some("Absolute path to the file to write")),
                    param("content", Some("Content to write to the file")),
                ],
                required: vec![owned("path"), owned("content")],
            },
        );
        r.push(
            ToolSpec {
                name: owned("list_directory"),
                description: owned("List the contents of a directory."),
                params: vec![param("path", Some("Absolute path to the directory to list"))],
                required: vec![owned("path")],
            },
        );
        r.push(
            ToolSpec {
                name: owned("run_command"),
                description: owned("Execute a shell command. 30s timeout."),
                params: vec![
                    param("command", Some("The shell command to execute")),
                    param("cwd", Some("Working directory for the command")),
                ],
                required: vec![owned("command")],
            },
        );
        r.push(
            ToolSpec {
                name: owned("grep"),
                description: owned("Search for a pattern in files within a directory."),
                params: vec![
                    param("pattern", None),
                    param("path", None),
                    param_joined("incl", "ude", Some("File glob pattern (e.g. '*.ts')")),
                ],
                required: vec![owned("pattern"), owned("path")],
            },
        );
        proof {
            assert(param_names(r@[0]) =~= seq!["path"@]);
            assert(required_names(r@[0]) =~= seq!["path"@]);
            assert(param_names(r@[1]) =~= seq!["path"@, "content"@]);
            assert(required_names(r@[1]) =~= seq!["path"@, "content"@]);
            assert(param_names(r@[2]) =~= seq!["path"@]);
            assert(required_names(r@[2]) =~= seq!["path"@]);
            assert(param_names(r@[3]) =~= seq!["command"@, "cwd"@]);
            assert(required_names(r@[3]) =~= seq!["command"@]);
            assert(param_names(r@[4]) =~= seq!["pattern"@, "path"@, ("incl"@ + "ude"@)]);
            assert(required_names(r@[4]) =~= seq!["pattern"@, "path"@]);
        }
        r
    }
}

} // verus!
