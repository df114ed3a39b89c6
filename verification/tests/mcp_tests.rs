use hal::mcp::code::CodeError;
use hal::mcp::executor::exit_code_of;
use hal::mcp::file_utils::{
    check_command, check_read_access, check_write_access, check_write_target, depth_limit_line, edit_content,
    search_content, search_literal, select_lines, split_lines, tree_level, TreeEntry,
};
use hal::mcp::permissions::{basic_path_validation, program_name, PathResolution, SessionPermissions};
use hal::mcp::shell_utils::{dscl_shell, passwd_shell, passwd_shells, split_at_char};
use hal::mcp::tool_core::{
    check_summary, check_thought, init_project, parse_operation, plan_input, request_permission, tree_stats,
    PermissionOperation, RequestedDir,
};
use hal::mcp::tools::{tools, ParamKind};

fn canonical(p: &str) -> PathResolution {
    PathResolution::Canonical(p.to_string())
}

#[test]
fn new_session_permissions() {
    let p = SessionPermissions::new();
    assert!(p.can_execute_command("ls -la"));
    assert!(p.can_execute_command("  grep x y"));
    assert!(!p.can_execute_command("rm -rf /"));
    assert!(!p.can_read(&canonical("/home/user/project/a.txt")));
    assert!(!p.can_write(&canonical("/home/user/project/a.txt")));
}

#[test]
fn granted_directories_cover_their_contents() {
    let mut p = SessionPermissions::new();
    p.allow_read("/home/user/project".to_string());
    assert!(p.can_read(&canonical("/home/user/project/src/main.rs")));
    assert!(p.can_read(&PathResolution::ParentCanonical("/home/user/project".to_string())));
    assert!(!p.can_read(&canonical("/home/user/projectx/a")));
    assert!(!p.can_write(&canonical("/home/user/project/src/main.rs")));
    p.allow_write("/tmp/out".to_string());
    assert!(p.can_write(&canonical("/tmp/out/file")));
    assert!(p.can_read(&canonical("/tmp/out/file")));
    assert!(!p.can_read(&PathResolution::Unresolved));
    p.allow_command("cargo".to_string());
    assert!(p.can_execute_command("cargo build"));
}

#[test]
fn system_directories_are_refused() {
    assert_eq!(basic_path_validation("/etc/passwd"), Err("Cannot access system directory: /etc".to_string()));
    assert_eq!(basic_path_validation("/usr/bin/env"), Err("Cannot access system directory: /usr/bin".to_string()));
    assert_eq!(basic_path_validation("/home/user"), Ok(()));
    assert_eq!(basic_path_validation("/etcetera"), Ok(()));
}

#[test]
fn program_is_first_word() {
    assert_eq!(program_name("  ls -la /tmp"), "ls");
    assert_eq!(program_name("   "), "");
}

#[test]
fn access_checks() {
    let mut p = SessionPermissions::new();
    p.allow_read("/work".to_string());
    assert_eq!(check_read_access(&p, "/work/a", "/work/a", &canonical("/work/a")), Ok(()));
    assert_eq!(
        check_write_access(&p, "/work/a", "/work/a", &canonical("/work/a")),
        Err("Write permission not granted for path: /work/a. Request permission first.".to_string())
    );
    assert_eq!(
        check_read_access(&p, "/proc/1", "/proc/1", &canonical("/proc/1")),
        Err("Cannot access system directory: /proc".to_string())
    );
    assert_eq!(
        check_write_target(&p, "/work/new.txt", None, &PathResolution::Unresolved),
        Err("Invalid path: no parent directory".to_string())
    );
    assert_eq!(
        check_write_target(&p, "/work/new.txt", Some("/work"), &canonical("/work")),
        Err("Write permission not granted for directory: /work. Request permission first.".to_string())
    );
    assert_eq!(check_command(&p, "ls", Some(("/work", &canonical("/work")))), Ok(()));
    assert_eq!(
        check_command(&p, "rm x", None),
        Err("Command not in allowlist: rm x. Only safe, read-only commands are permitted.".to_string())
    );
    assert_eq!(
        check_command(&p, "ls", Some(("/else", &canonical("/else")))),
        Err("Read permission not granted for directory: /else. Request permission first.".to_string())
    );
}

#[test]
fn lines_follow_str_lines() {
    for s in ["", "a", "a\n", "a\r\nb", "a\n\nb\r", "\n", "x\ny\n\n"] {
        let expected: Vec<String> = s.lines().map(String::from).collect();
        assert_eq!(split_lines(s), expected, "for {:?}", s);
    }
}

#[test]
fn show_file_ranges() {
    let content = "one\ntwo\nthree\nfour";
    assert_eq!(select_lines(content, None, None).unwrap(), content);
    assert_eq!(select_lines(content, Some(2), Some(3)).unwrap(), "two\nthree");
    assert_eq!(select_lines(content, Some(3), None).unwrap(), "three\nfour");
    assert_eq!(select_lines(content, None, Some(9)).unwrap(), content);
    assert_eq!(select_lines(content, Some(0), Some(1)).unwrap(), "one");
    assert_eq!(select_lines(content, Some(5), None), Err("Invalid line range: 5 to 4".to_string()));
    assert_eq!(select_lines(content, Some(3), Some(2)), Err("Invalid line range: 3 to 2".to_string()));
}

#[test]
fn literal_and_regex_search() {
    let content = "fn main() {\n    let x = 1;\n}\nfn other() {}";
    let hits = search_literal(content, "fn ");
    assert_eq!(hits, vec![(1, "fn main() {".to_string()), (4, "fn other() {}".to_string())]);
    let r = search_content(content, r"let \w+ = \d", true).unwrap();
    assert_eq!(r, vec![(2, "    let x = 1;".to_string())]);
    let bad = search_content(content, "(", true).unwrap_err();
    assert!(bad.starts_with("Invalid regex pattern: "));
    assert_eq!(search_content(content, "zzz", false).unwrap(), vec![]);
}

#[test]
fn edit_replaces_single_occurrence() {
    assert_eq!(edit_content("hello world", "world", "there", "f.txt").unwrap(), "hello there");
    assert_eq!(
        edit_content("hello world", "moon", "x", "f.txt"),
        Err("String not found in file: f.txt".to_string())
    );
    assert_eq!(
        edit_content("a-a-a", "a", "b", "f.txt"),
        Err("Found 3 occurrences of the string in file. Please provide more context to make the match unique.".to_string())
    );
    // Matches do not overlap: "aaa" holds "aa" once.
    assert_eq!(edit_content("aaa", "aa", "b", "f").unwrap(), "ba");
    assert_eq!(edit_content("", "", "new", "f").unwrap(), "new");
    assert_eq!(
        edit_content("ab", "", "x", "f"),
        Err("Found 3 occurrences of the string in file. Please provide more context to make the match unique.".to_string())
    );
}

fn entry(name: &str, is_dir: bool) -> TreeEntry {
    TreeEntry { name: name.to_string(), is_dir }
}

#[test]
fn tree_levels_sort_directories_first() {
    let entries = vec![entry("b.txt", false), entry(".git", true), entry("src", true), entry("a.txt", false), entry("docs", true)];
    let lines = tree_level("  ", &entries);
    let texts: Vec<&str> = lines.iter().map(|l| l.line.as_str()).collect();
    assert_eq!(texts, vec!["  ├── docs", "  ├── src", "  ├── a.txt", "  └── b.txt"]);
    assert_eq!(lines[0].child_prefix.as_deref(), Some("  │   "));
    assert_eq!(lines[2].child_prefix, None);
    let last_dir = tree_level("", &vec![entry("only", true)]);
    assert_eq!(last_dir[0].line, "└── only");
    assert_eq!(last_dir[0].child_prefix.as_deref(), Some("    "));
    assert_eq!(depth_limit_line("    "), "    ... (max depth reached)");
}

#[test]
fn passwd_and_dscl_parsing() {
    assert_eq!(split_at_char("a::b", ':'), vec!["a".to_string(), String::new(), "b".to_string()]);
    let line = "alice:x:1000:1000:Alice:/home/alice:/bin/zsh";
    assert_eq!(passwd_shell(line, "alice").as_deref(), Some("/bin/zsh"));
    assert_eq!(passwd_shell(line, "bob"), None);
    assert_eq!(passwd_shell("alice:x:1", "alice"), None);
    let db = "root:x:0:0:root:/root:/bin/bash\nalice:x:1000:1000::/home/alice:/bin/fish\n";
    assert_eq!(passwd_shells(db, "alice"), vec!["/bin/fish".to_string()]);
    assert_eq!(dscl_shell("dsAttrTypeNative:x\nUserShell: /bin/zsh\n").as_deref(), Some("/bin/zsh"));
    assert_eq!(dscl_shell("nothing here"), None);
}

#[test]
fn permission_requests() {
    let mut p = SessionPermissions::new();
    let dir = || Some(RequestedDir { shown: "/work".to_string(), resolved: "/work".to_string(), exists: true });
    assert_eq!(
        request_permission(&mut p, "read", "/work", "/work", dir()),
        Ok("Read permission granted for existing directory: /work".to_string())
    );
    assert!(p.can_read(&canonical("/work/x")));
    assert_eq!(
        request_permission(&mut p, "delete", "/work", "/work", dir()),
        Err("Unknown operation: 'delete'. Must be 'read', 'write', or 'execute'".to_string())
    );
    assert_eq!(
        request_permission(&mut p, "execute", "cargo test", "cargo test", dir()),
        Ok("Execute permission granted for command: cargo".to_string())
    );
    assert!(p.can_execute_command("cargo build"));
    assert_eq!(
        request_permission(&mut p, "write", "/etc/x", "/etc/x", dir()),
        Err("Cannot access system directory: /etc".to_string())
    );
    let new_dir = Some(RequestedDir { shown: "/new".to_string(), resolved: "/new".to_string(), exists: false });
    assert_eq!(
        request_permission(&mut p, "write", "/new/file", "/new/file", new_dir),
        Ok("Write permission granted for specified directory: /new".to_string())
    );
    assert_eq!(parse_operation("write"), Some(PermissionOperation::Write));
    assert_eq!(parse_operation("Write"), None);
}

#[test]
fn project_init() {
    let mut p = SessionPermissions::new();
    let mut project: Option<String> = None;
    assert_eq!(
        init_project(&mut p, &mut project, "/nope", "/nope", "/nope".to_string(), false, false),
        Err("Path does not exist: /nope. Please specify an existing directory.".to_string())
    );
    assert_eq!(
        init_project(&mut p, &mut project, "/f.txt", "/f.txt", "/f.txt".to_string(), true, false),
        Err("Path is not a directory: /f.txt. Please specify a directory, not a file.".to_string())
    );
    assert_eq!(project, None);
    assert_eq!(init_project(&mut p, &mut project, "/proj", "/proj", "/proj".to_string(), true, true), Ok(()));
    assert_eq!(project, Some("/proj".to_string()));
    assert!(p.can_write(&canonical("/proj/a")));
    assert!(p.can_read(&canonical("/proj/a")));
}

#[test]
fn tree_statistics() {
    let tree = vec!["proj".to_string(), "  ├── src/".to_string(), "  └── a.txt".to_string()];
    let s = tree_stats(&tree);
    assert_eq!(s.total_entries, 2);
    assert_eq!(s.directories, 1);
    assert_eq!(s.files, 1);
    assert_eq!(s.skipped_entries, 0);
}

#[test]
fn tool_argument_checks() {
    assert_eq!(check_thought("  "), Err("Thought cannot be empty".to_string()));
    assert_eq!(check_thought("idea"), Ok(()));
    assert!(check_summary("\n").is_err());
    assert_eq!(plan_input("s", " ", "a"), Err("Reasoning cannot be empty".to_string()));
    assert_eq!(plan_input("s", "r", "a").unwrap(), "Steps: s\nReasoning: r\nApproach: a");
}

#[test]
fn tool_catalog() {
    let ts = tools();
    let names: Vec<&str> = ts.iter().map(|t| t.name.as_str()).collect();
    assert_eq!(
        names,
        vec!["request_permission", "show_file", "search_in_file", "edit_file", "write_file", "execute_shell_command", "search"]
    );
    assert_eq!(ts[0].params[0].choices, vec!["read".to_string(), "write".to_string(), "execute".to_string()]);
    assert_eq!(ts[1].params[1].kind, ParamKind::Integer);
    assert!(ts[2].params[2].defaults_to_false);
    assert_eq!(ts[3].required, vec!["path".to_string(), "old_string".to_string(), "new_string".to_string()]);
}

#[test]
fn small_helpers() {
    assert_eq!(exit_code_of(Some(3)), 3);
    assert_eq!(exit_code_of(None), -1);
    assert_eq!(CodeError::SerializeRepoError("x".to_string()).message(), "Serialize repo error: x");
}

struct EchoExecutor;

impl hal::mcp::executor::Executor for EchoExecutor {
    fn execute(&self, command: String, _working_dir: Option<String>) -> Result<hal::mcp::executor::CommandResult, String> {
        Ok(hal::mcp::executor::CommandResult { stdout: command, stderr: String::new(), exit_code: hal::mcp::executor::exit_code_of(Some(0)) })
    }
}

#[test]
fn test_executor_trait_object() {
    let executor: Box<dyn hal::mcp::executor::Executor> = Box::new(EchoExecutor);
    let result = executor.execute("echo hi".to_string(), None).unwrap();
    assert_eq!(result.stdout, "echo hi");
    assert_eq!(result.exit_code, 0);
}

fn dir(name: &str, children: Vec<hal::mcp::file_utils::DirNode>) -> hal::mcp::file_utils::DirNode {
    hal::mcp::file_utils::DirNode { name: name.to_string(), is_dir: true, children }
}

fn file(name: &str) -> hal::mcp::file_utils::DirNode {
    hal::mcp::file_utils::DirNode { name: name.to_string(), is_dir: false, children: vec![] }
}

#[test]
fn directory_tree_nests_subtrees_after_their_directory() {
    let nodes = vec![file("b.txt"), dir("src", vec![file("main.rs"), file("lib.rs")]), dir(".git", vec![file("HEAD")]), file("a.md")];
    let lines = hal::mcp::file_utils::directory_tree_lines("proj", &nodes);
    assert_eq!(
        lines,
        vec![
            "proj".to_string(),
            "  ├── src".to_string(),
            "  │   ├── lib.rs".to_string(),
            "  │   └── main.rs".to_string(),
            "  ├── a.md".to_string(),
            "  └── b.txt".to_string(),
        ]
    );
}

#[test]
fn directory_tree_stops_past_max_depth() {
    let mut node = dir("d10", vec![file("deep.txt")]);
    for i in (1..10).rev() {
        node = dir(&format!("d{}", i), vec![node]);
    }
    let lines = hal::mcp::file_utils::directory_tree_lines("root", &vec![node]);
    assert_eq!(lines.len(), 12);
    assert_eq!(lines[10], format!("  {}└── d10", "    ".repeat(9)));
    assert_eq!(lines[11], format!("  {}... (max depth reached)", "    ".repeat(10)));
}

#[test]
fn path_components_follow_unix_splitting() {
    assert_eq!(hal::paths::path_components("/a//./b/"), vec!["/", "a", "b"]);
    assert_eq!(hal::paths::path_components("./x/../y"), vec![".", "x", "..", "y"]);
    assert_eq!(hal::paths::path_components(""), Vec::<String>::new());
    assert!(hal::paths::path_starts_with("/home/u/proj/src", "/home/u/proj"));
    assert!(!hal::paths::path_starts_with("/home/u/project", "/home/u/proj"));
}
