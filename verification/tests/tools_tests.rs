use std::sync::Arc;

use pocketdevos::security::{Resolved, WorkspaceGuard};
use pocketdevos::tools::{
    check_read_size, command_error_report, command_output_report, command_timeout_report,
    format_command_output, format_grep_output, format_listing, grep_arguments,
    grep_failure_report, grep_output_report, tool_args_of, write_report, AiTools, ToolAction,
    ToolArgs,
};

fn tools() -> AiTools {
    AiTools::new(Arc::new(WorkspaceGuard::new(Some("/home/u".to_string()), None, None)))
}

fn unresolved() -> Resolved {
    Resolved { target: None, roots: vec![None] }
}

fn args(path: Option<&str>) -> ToolArgs {
    ToolArgs {
        path: path.map(|p| p.to_string()),
        content: None,
        command: None,
        cwd: None,
        pattern: None,
        file_glob: None,
    }
}

#[test]
fn tools_keep_their_guard() {
    let t = tools();
    assert_eq!(t.guard().roots(), &vec!["/home/u".to_string()]);
}

#[test]
fn read_file_needs_an_admitted_path() {
    let t = tools();
    match t.plan("read_file", args(Some("/home/u/a.txt")), &unresolved(), None) {
        Ok(ToolAction::ReadFile { path }) => assert_eq!(path, "/home/u/a.txt"),
        _ => panic!("expected a read"),
    }
    assert_eq!(
        t.plan("read_file", args(None), &unresolved(), None).err(),
        Some("path required".to_string())
    );
    assert_eq!(
        t.plan("read_file", args(Some("/home/u/.ssh/id")), &unresolved(), None).err(),
        Some("Access denied: sensitive path".to_string())
    );
    assert_eq!(
        t.plan("list_directory", args(Some("/etc")), &unresolved(), None).err(),
        Some("Access denied: outside workspace".to_string())
    );
}

#[test]
fn write_file_defaults_to_empty_content() {
    let t = tools();
    match t.plan("write_file", args(Some("/home/u/n.txt")), &unresolved(), None) {
        Ok(ToolAction::WriteFile { path, content }) => {
            assert_eq!(path, "/home/u/n.txt");
            assert_eq!(content, "");
        }
        _ => panic!("expected a write"),
    }
    let mut a = args(Some("/home/u/n.txt"));
    a.content = Some("hi".to_string());
    match t.plan("write_file", a, &unresolved(), None) {
        Ok(ToolAction::WriteFile { content, .. }) => assert_eq!(content, "hi"),
        _ => panic!("expected a write"),
    }
}

#[test]
fn run_command_is_not_guarded() {
    let t = tools();
    let mut a = args(None);
    a.command = Some("ls /etc".to_string());
    match t.plan("run_command", a, &unresolved(), Some("/home/u".to_string())) {
        Ok(ToolAction::RunCommand { command, cwd }) => {
            assert_eq!(command, "ls /etc");
            assert_eq!(cwd, "/home/u");
        }
        _ => panic!("expected a command"),
    }
    let mut a = args(None);
    a.command = Some("pwd".to_string());
    match t.plan("run_command", a, &unresolved(), None) {
        Ok(ToolAction::RunCommand { cwd, .. }) => assert_eq!(cwd, "/"),
        _ => panic!("expected a command"),
    }
    assert_eq!(
        t.plan("run_command", args(None), &unresolved(), None).err(),
        Some("command required".to_string())
    );
}

#[test]
fn grep_checks_pattern_then_path() {
    let t = tools();
    assert_eq!(
        t.plan("grep", args(Some("/home/u")), &unresolved(), None).err(),
        Some("pattern required".to_string())
    );
    let mut a = args(None);
    a.pattern = Some("fn".to_string());
    assert_eq!(t.plan("grep", a, &unresolved(), None).err(), Some("path required".to_string()));
    let mut a = args(Some("/home/u/src"));
    a.pattern = Some("fn main".to_string());
    a.file_glob = Some("*.rs".to_string());
    match t.plan("grep", a, &unresolved(), None) {
        Ok(ToolAction::Grep { pattern, path, file_glob }) => {
            assert_eq!(pattern, "fn main");
            assert_eq!(path, "/home/u/src");
            assert_eq!(file_glob, Some("*.rs".to_string()));
        }
        _ => panic!("expected a search"),
    }
}

#[test]
fn unknown_tool() {
    assert_eq!(
        tools().plan("delete_all", args(None), &unresolved(), None).err(),
        Some("Unknown tool: delete_all".to_string())
    );
}

#[test]
fn read_size_limit() {
    assert_eq!(check_read_size(0), Ok(()));
    assert_eq!(check_read_size(5 * 1024 * 1024), Ok(()));
    assert_eq!(check_read_size(5 * 1024 * 1024 + 1), Err("File too large (max 5MB)".to_string()));
}

#[test]
fn write_report_counts_bytes() {
    assert_eq!(write_report("h\u{e9}", "/home/u/a"), "Successfully wrote 3 bytes to /home/u/a");
    assert_eq!(write_report("", "/x"), "Successfully wrote 0 bytes to /x");
}

#[test]
fn listing_format() {
    assert_eq!(format_listing(&vec![]), "(empty directory)");
    let entries = vec![("src".to_string(), true), ("main.rs".to_string(), false)];
    assert_eq!(format_listing(&entries), "\u{1F4C1} src\n\u{1F4C4} main.rs");
}

#[test]
fn command_output_format() {
    assert_eq!(command_output_report("", ""), "(no output)");
    assert_eq!(command_output_report("a\n", ""), "a\n");
    assert_eq!(command_output_report("", "bad"), "[stderr] bad");
    assert_eq!(command_output_report("a", "bad"), "a\n[stderr] bad");
    assert_eq!(format_command_output(b"ok", &[0xff]), "ok\n[stderr] \u{fffd}");
    assert_eq!(command_error_report("denied"), "Command error: denied");
    assert_eq!(command_timeout_report(), "Command timed out after 30s");
}

#[test]
fn grep_argument_list() {
    let with = grep_arguments("fn", "/src", Some("*.rs"));
    let flag = format!("--{}{}=*.rs", "incl", "ude");
    assert_eq!(with, vec!["-rn".to_string(), "--color=never".to_string(), flag, "fn".to_string(), "/src".to_string()]);
    assert_eq!(grep_arguments("x", "/p", None), vec!["-rn", "--color=never", "x", "/p"]);
}

#[test]
fn grep_output_is_trimmed_and_cut() {
    assert_eq!(grep_output_report("  a:1:x\nb:2:y\n\n"), "a:1:x\nb:2:y");
    assert_eq!(grep_output_report(""), "");
    let many: String = (0..53).map(|i| format!("f:{}:m\n", i)).collect();
    let head: Vec<String> = (0..50).map(|i| format!("f:{}:m", i)).collect();
    assert_eq!(grep_output_report(&many), format!("{}\n... (3 more matches)", head.join("\n")));
    let fifty: String = (0..50).map(|i| format!("f:{}:m\n", i)).collect();
    assert_eq!(grep_output_report(&fifty), fifty.trim());
    assert_eq!(format_grep_output(b"a:1:x\n"), "a:1:x");
    assert_eq!(grep_failure_report(), "No matches found");
}

#[test]
fn schema_of_the_tools() {
    let specs = tools().to_openai_schema();
    let names: Vec<&str> = specs.iter().map(|s| s.name.as_str()).collect();
    assert_eq!(names, vec!["read_file", "write_file", "list_directory", "run_command", "grep"]);
    assert_eq!(specs[3].description, "Execute a shell command. 30s timeout.");
    assert_eq!(specs[1].required, vec!["path".to_string(), "content".to_string()]);
    let grep_params: Vec<&str> = specs[4].params.iter().map(|p| p.name.as_str()).collect();
    assert_eq!(grep_params, vec!["pattern", "path", &format!("{}{}", "incl", "ude")]);
    assert_eq!(specs[4].params[0].description, None);
    assert_eq!(
        specs[4].params[2].description,
        Some("File glob pattern (e.g. '*.ts')".to_string())
    );
    assert_eq!(specs[4].required, vec!["pattern".to_string(), "path".to_string()]);
}

#[test]
fn arguments_from_json() {
    let json = format!(
        r#"{{"path":"/home/u/a","content":"x","command":"ls","cwd":"/tmp","pattern":"fn","{}":"*.rs"}}"#,
        format!("{}{}", "incl", "ude")
    );
    let a = tool_args_of(&json);
    assert_eq!(a.path.as_deref(), Some("/home/u/a"));
    assert_eq!(a.content.as_deref(), Some("x"));
    assert_eq!(a.command.as_deref(), Some("ls"));
    assert_eq!(a.cwd.as_deref(), Some("/tmp"));
    assert_eq!(a.pattern.as_deref(), Some("fn"));
    assert_eq!(a.file_glob.as_deref(), Some("*.rs"));
    let b = tool_args_of(r#"{"path":3,"command":null}"#);
    assert!(b.path.is_none() && b.command.is_none() && b.content.is_none());
    assert!(tool_args_of("[1,2]").path.is_none());
    assert!(tool_args_of("oops").path.is_none());
}
