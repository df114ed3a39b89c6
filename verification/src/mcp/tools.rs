//! The catalog of the tool server: each tool with its description and the
//! parameters of its input.

use crate::text::views;
use vstd::prelude::*;

verus! {

/// The JSON type of a parameter.
#[derive(Debug, Clone, Copy, PartialEq, Eq)]
pub enum ParamKind {
    String,
    Integer,
    Boolean,
}

/// A parameter of a tool.
#[derive(Debug, Clone)]
pub struct ParamSpec {
    pub name: String,
    pub kind: ParamKind,
    pub description: String,
    /// The values the parameter may take, when they are listed.
    pub choices: Vec<String>,
    /// Whether the parameter is documented to default to `false`.
    pub defaults_to_false: bool,
}

/// A tool: its name, description, parameters and the names of the
/// parameters it requires.
#[derive(Debug, Clone)]
pub struct ToolSpec {
    pub name: String,
    pub description: String,
    pub params: Vec<ParamSpec>,
    pub required: Vec<String>,
}

/// A parameter as the contracts see it.
pub struct ParamView {
    pub name: Seq<char>,
    pub kind: ParamKind,
    pub description: Seq<char>,
    pub choices: Seq<Seq<char>>,
    pub defaults_to_false: bool,
}

/// A tool as the contracts see it.
pub struct ToolView {
    pub name: Seq<char>,
    pub description: Seq<char>,
    pub params: Seq<ParamView>,
    pub required: Seq<Seq<char>>,
}

pub open spec fn param_view(p: ParamSpec) -> ParamView {
    ParamView {
        name: p.name@,
        kind: p.kind,
        description: p.description@,
        choices: views(p.choices@),
        defaults_to_false: p.defaults_to_false,
    }
}

pub open spec fn tool_view(t: ToolSpec) -> ToolView {
    ToolView {
        name: t.name@,
        description: t.description@,
        params: t.params@.map_values(|p: ParamSpec| param_view(p)),
        required: views(t.required@),
    }
}

/// A parameter without listed values or default.
pub open spec fn plain_param(name: Seq<char>, kind: ParamKind, description: Seq<char>) -> ParamView {
    ParamView { name, kind, description, choices: Seq::empty(), defaults_to_false: false }
}

/// The catalog of the tool server, in order.
pub open spec fn catalog() -> Seq<ToolView> {
    seq![
        ToolView {
            name: "request_permission"@,
            description: "Request permission before performing operations - use 'read' or 'write' for file access with directory path, or 'execute' with command name as path. Must be called before using other tools."@,
            params: seq![
                ParamView {
                    name: "operation"@,
                    kind: ParamKind::String,
                    description: "Type of permission to request"@,
                    choices: seq!["read"@, "write"@, "execute"@],
                    defaults_to_false: false,
                },
                plain_param("path"@, ParamKind::String, "Path to the directory or file, or in the case of a command: the command to run"@),
            ],
            required: seq!["operation"@, "path"@],
        },
        ToolView {
            name: "show_file"@,
            description: "View file contents with optional line range - returns text content. Requires prior read permission via request_permission tool."@,
            params: seq![
                plain_param("path"@, ParamKind::String, "Path to the file"@),
                plain_param("start_line"@, ParamKind::Integer, "Starting line number (1-based, optional)"@),
                plain_param("end_line"@, ParamKind::Integer, "Ending line number (inclusive, optional)"@),
            ],
            required: seq!["path"@],
        },
        ToolView {
            name: "search_in_file"@,
            description: "Search for text patterns or regex in files - returns matching lines with line numbers. Set is_regex=true for regex mode. Requires read permission."@,
            params: seq![
                plain_param("path"@, ParamKind::String, "Path to the file"@),
                plain_param("pattern"@, ParamKind::String, "Search pattern (string or regex)"@),
                ParamView {
                    name: "is_regex"@,
                    kind: ParamKind::Boolean,
                    description: "Whether to treat pattern as regex (default: false)"@,
                    choices: Seq::empty(),
                    defaults_to_false: true,
                },
            ],
            required: seq!["path"@, "pattern"@],
        },
        ToolView {
            name: "edit_file"@,
            description: "Replace text in files - the old_string must match exactly once in the file. Requires write permission. Use search_in_file first to verify uniqueness."@,
            params: seq![
                plain_param("path"@, ParamKind::String, "Path to the file"@),
                plain_param("old_string"@, ParamKind::String, "Text to be replaced (must be unique in the file)"@),
                plain_param("new_string"@, ParamKind::String, "Text to replace with"@),
            ],
            required: seq!["path"@, "old_string"@, "new_string"@],
        },
        ToolView {
            name: "write_file"@,
            description: "Create new files or update existing ones - use append=true to add to file instead of overwriting. Creates files if they don't exist. Requires write permission for the directory."@,
            params: seq![
                plain_param("path"@, ParamKind::String, "Path to the file"@),
                plain_param("content"@, ParamKind::String, "Content to write to the file"@),
                ParamView {
                    name: "append"@,
                    kind: ParamKind::Boolean,
                    description: "Whether to append to the file instead of overwriting (default: false)"@,
                    choices: Seq::empty(),
                    defaults_to_false: true,
                },
            ],
            required: seq!["path"@, "content"@],
        },
        ToolView {
            name: "execute_shell_command"@,
            description: "Run simple shell commands - returns stdout, stderr, and exit code. No pipes, redirects, or special characters allowed. Limited to safe commands. Requires execute permission first."@,
            params: seq![
                plain_param("command"@, ParamKind::String, "Command to execute"@),
                plain_param("working_directory"@, ParamKind::String, "Working directory for the command (optional)"@),
            ],
            required: seq!["command"@],
        },
        ToolView {
            name: "search"@,
            description: "Search indexed website content using semantic search - returns relevant text chunks with their sources. Used for retrieving information from previously crawled websites."@,
            params: seq![plain_param("query"@, ParamKind::String, "The search query"@)],
            required: seq!["query"@],
        },
    ]
}

fn param(name: &str, kind: ParamKind, description: &str) -> (p: ParamSpec)
    ensures
        param_view(p) == plain_param(name@, kind, description@),
{
    let p = ParamSpec {
        name: String::from_str(name),
        kind,
        description: String::from_str(description),
        choices: Vec::new(),
        defaults_to_false: false,
    };
    assert(views(p.choices@) =~= Seq::<Seq<char>>::empty());
    p
}

fn flag(name: &str, description: &str) -> (p: ParamSpec)
    ensures
        param_view(p) == (ParamView {
            name: name@,
            kind: ParamKind::Boolean,
            description: description@,
            choices: Seq::empty(),
            defaults_to_false: true,
        }),
{
    let p = ParamSpec {
        name: String::from_str(name),
        kind: ParamKind::Boolean,
        description: String::from_str(description),
        choices: Vec::new(),
        defaults_to_false: true,
    };
    assert(views(p.choices@) =~= Seq::<Seq<char>>::empty());
    p
}

fn strings(a: &str, b: Option<&str>, c: Option<&str>) -> (v: Vec<String>)
    ensures
        views(v@) == match (b, c) {
            (Some(x), Some(y)) => seq![a@, x@, y@],
            (Some(x), None) => seq![a@, x@],
            _ => seq![a@],
        },
{
    let mut v: Vec<String> = Vec::new();
    v.push(String::from_str(a));
    match b {
        Some(x) => {
            v.push(String::from_str(x));
            match c {
                Some(y) => v.push(String::from_str(y)),
                None => {},
            }
        },
        None => {},
    }
    assert(views(v@) =~= match (b, c) {
        (Some(x), Some(y)) => seq![a@, x@, y@],
        (Some(x), None) => seq![a@, x@],
        _ => seq![a@],
    });
    v
}

fn tool(name: &str, description: &str, params: Vec<ParamSpec>, required: Vec<String>) -> (t: ToolSpec)
    ensures
        tool_view(t) == (ToolView {
            name: name@,
            description: description@,
            params: params@.map_values(|p: ParamSpec| param_view(p)),
            required: views(required@),
        }),
{
    ToolSpec { name: String::from_str(name), description: String::from_str(description), params, required }
}

/// The catalog of the tool server (see `catalog`).
pub fn tools() -> (ts: Vec<ToolSpec>)
    ensures
        ts@.map_values(|t: ToolSpec| tool_view(t)) == catalog(),
{
    let mut ts: Vec<ToolSpec> = Vec::new();

    let mut operation = param("operation", ParamKind::String, "Type of permission to request");
    operation.choices = strings("read", Some("write"), Some("execute"));
    let p0 = vec![operation, param("path", ParamKind::String, "Path to the directory or file, or in the case of a command: the command to run")];
    assert(p0@.map_values(|p: ParamSpec| param_view(p)) =~= catalog()[0].params);
    ts.push(tool(
        "request_permission",
        "Request permission before performing operations - use 'read' or 'write' for file access with directory path, or 'execute' with command name as path. Must be called before using other tools.",
        p0,
        strings("operation", Some("path"), None),
    ));

    let p1 = vec![
        param("path", ParamKind::String, "Path to the file"),
        param("start_line", ParamKind::Integer, "Starting line number (1-based, optional)"),
        param("end_line", ParamKind::Integer, "Ending line number (inclusive, optional)"),
    ];
    assert(p1@.map_values(|p: ParamSpec| param_view(p)) =~= catalog()[1].params);
    ts.push(tool(
        "show_file",
        "View file contents with optional line range - returns text content. Requires prior read permission via request_permission tool.",
        p1,
        strings("path", None, None),
    ));

    let p2 = vec![
        param("path", ParamKind::String, "Path to the file"),
        param("pattern", ParamKind::String, "Search pattern (string or regex)"),
        flag("is_regex", "Whether to treat pattern as regex (default: false)"),
    ];
    assert(p2@.map_values(|p: ParamSpec| param_view(p)) =~= catalog()[2].params);
    ts.push(tool(
        "search_in_file",
        "Search for text patterns or regex in files - returns matching lines with line numbers. Set is_regex=true for regex mode. Requires read permission.",
        p2,
        strings("path", Some("pattern"), None),
    ));

    let p3 = vec![
        param("path", ParamKind::String, "Path to the file"),
        param("old_string", ParamKind::String, "Text to be replaced (must be unique in the file)"),
        param("new_string", ParamKind::String, "Text to replace with"),
    ];
    assert(p3@.map_values(|p: ParamSpec| param_view(p)) =~= catalog()[3].params);
    ts.push(tool(
        "edit_file",
        "Replace text in files - the old_string must match exactly once in the file. Requires write permission. Use search_in_file first to verify uniqueness.",
        p3,
        strings("path", Some("old_string"), Some("new_string")),
    ));

    let p4 = vec![
        param("path", ParamKind::String, "Path to the file"),
        param("content", ParamKind::String, "Content to write to the file"),
        flag("append", "Whether to append to the file instead of overwriting (default: false)"),
    ];
    assert(p4@.map_values(|p: ParamSpec| param_view(p)) =~= catalog()[4].params);
    ts.push(tool(
        "write_file",
        "Create new files or update existing ones - use append=true to add to file instead of overwriting. Creates files if they don't exist. Requires write permission for the directory.",
        p4,
        strings("path", Some("content"), None),
    ));

    let p5 = vec![
        param("command", ParamKind::String, "Command to execute"),
        param("working_directory", ParamKind::String, "Working directory for the command (optional)"),
    ];
    assert(p5@.map_values(|p: ParamSpec| param_view(p)) =~= catalog()[5].params);
    ts.push(tool(
        "execute_shell_command",
        "Run simple shell commands - returns stdout, stderr, and exit code. No pipes, redirects, or special characters allowed. Limited to safe commands. Requires execute permission first.",
        p5,
        strings("command", None, None),
    ));

    let p6 = vec![param("query", ParamKind::String, "The search query")];
    assert(p6@.map_values(|p: ParamSpec| param_view(p)) =~= catalog()[6].params);
    ts.push(tool(
        "search",
        "Search indexed website content using semantic search - returns relevant text chunks with their sources. Used for retrieving information from previously crawled websites.",
        p6,
        strings("query", None, None),
    ));

    assert forall|k: int| 0 <= k < 7 implies tool_view(#[trigger] ts@[k]) == catalog()[k] by {
        assert(tool_view(ts@[k]).required =~= catalog()[k].required);
    }
    assert(ts@.map_values(|t: ToolSpec| tool_view(t)) =~= catalog());
    ts
}

} // verus!
