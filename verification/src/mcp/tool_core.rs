//! The decisions of the core tools of the tool server: granting
//! permissions, opening a project, and checking the arguments of the
//! thinking, planning and finishing tools.

use crate::mcp::file_utils::{contains_text, contains_text_exec};
use crate::mcp::permissions::{
    basic_path_validation, dangerous_paths, first_dangerous, program_name, program_of, system_dir_message,
    PermissionsView, SessionPermissions,
};
use crate::text::{chars_of, same_text, trim_seq, trim_string, views};
use vstd::prelude::*;

verus! {

/// What a permission request asks for.
#[derive(Debug, Clone, Copy, PartialEq, Eq)]
pub enum PermissionOperation {
    Read,
    Write,
    Execute,
}

/// The directory that a permission request names, as the caller found it
/// on disk: the path itself when it is a directory, else its parent.
#[derive(Debug, Clone)]
pub struct RequestedDir {
    /// The directory as shown to the user.
    pub shown: String,
    /// The directory as resolved on disk, or as given when it does not
    /// resolve; this is what the permission is granted on.
    pub resolved: String,
    /// Whether the directory exists.
    pub exists: bool,
}

/// The operation named `op`, if it is one.
pub open spec fn operation_of(op: Seq<char>) -> Option<PermissionOperation> {
    if op == "read"@ {
        Some(PermissionOperation::Read)
    } else if op == "write"@ {
        Some(PermissionOperation::Write)
    } else if op == "execute"@ {
        Some(PermissionOperation::Execute)
    } else {
        None
    }
}

/// `existing` or `specified`.
pub open spec fn dir_status(exists: bool) -> Seq<char> {
    if exists { "existing"@ } else { "specified"@ }
}

/// What a permission request gives, and the permissions after it: the
/// system-directory refusal for `checked` first, then a missing directory,
/// then an unknown operation; otherwise the grant and its message.
pub open spec fn permission_outcome(
    before: PermissionsView,
    operation: Seq<char>,
    path: Seq<char>,
    checked: Seq<char>,
    dir: Option<(Seq<char>, Seq<char>, bool)>,
    after: PermissionsView,
    r: Result<String, String>,
) -> bool {
    match first_dangerous(checked, dangerous_paths().len() as int) {
        Some(d) => after == before && (r matches Err(m) && m@ == system_dir_message(d)),
        None => match dir {
            None => after == before && (r matches Err(m) && m@ == "Invalid path: no parent directory"@),
            Some((shown, resolved, exists)) => match operation_of(operation) {
                None => after == before && (r matches Err(m) && m@ == "Unknown operation: '"@ + operation
                    + "'. Must be 'read', 'write', or 'execute'"@),
                Some(PermissionOperation::Read) => {
                    &&& after == PermissionsView { read_dirs: before.read_dirs.insert(resolved), ..before }
                    &&& r matches Ok(m) && m@ == "Read permission granted for "@ + dir_status(exists)
                        + " directory: "@ + shown
                },
                Some(PermissionOperation::Write) => {
                    &&& after == PermissionsView {
                        read_dirs: before.read_dirs.insert(resolved),
                        write_dirs: before.write_dirs.insert(resolved),
                        ..before
                    }
                    &&& r matches Ok(m) && m@ == "Write permission granted for "@ + dir_status(exists)
                        + " directory: "@ + shown
                },
                Some(PermissionOperation::Execute) => if program_of(path).len() == 0 {
                    after == before && (r matches Err(m) && m@ == "Empty command"@)
                } else {
                    &&& after == PermissionsView { commands: before.commands.insert(program_of(path)), ..before }
                    &&& r matches Ok(m) && m@ == "Execute permission granted for command: "@ + program_of(path)
                },
            },
        },
    }
}

/// The operation named `op` (see `operation_of`).
pub fn parse_operation(op: &str) -> (r: Option<PermissionOperation>)
    ensures
        r == operation_of(op@),
{
    if same_text(op, "read") {
        Some(PermissionOperation::Read)
    } else if same_text(op, "write") {
        Some(PermissionOperation::Write)
    } else if same_text(op, "execute") {
        Some(PermissionOperation::Execute)
    } else {
        None
    }
}

/// Handles a permission request for `operation` on `path` (a directory or
/// a file, or a command for `execute`): see `permission_outcome`. `checked`
/// is the path as resolved on disk, or as given; `dir` is the directory the
/// path names, or nothing when the path has no parent.
pub fn request_permission(
    perms: &mut SessionPermissions,
    operation: &str,
    path: &str,
    checked: &str,
    dir: Option<RequestedDir>,
) -> (r: Result<String, String>)
    requires
        old(perms).wf(),
    ensures
        final(perms).wf(),
        permission_outcome(
            old(perms)@,
            operation@,
            path@,
            checked@,
            match dir {
                Some(d) => Some((d.shown@, d.resolved@, d.exists)),
                None => None,
            },
            final(perms)@,
            r,
        ),
{
    basic_path_validation(checked)?;
    let dir = match dir {
        Some(d) => d,
        None => return Err(String::from_str("Invalid path: no parent directory")),
    };
    let op = match parse_operation(operation) {
        Some(op) => op,
        None => {
            let mut m = String::from_str("Unknown operation: '");
            m.append(operation);
            m.append("'. Must be 'read', 'write', or 'execute'");
            return Err(m);
        },
    };
    match op {
        PermissionOperation::Read => {
            let mut m = String::from_str("Read permission granted for ");
            m.append(if dir.exists { "existing" } else { "specified" });
            m.append(" directory: ");
            m.append(dir.shown.as_str());
            perms.allow_read(dir.resolved);
            Ok(m)
        },
        PermissionOperation::Write => {
            let mut m = String::from_str("Write permission granted for ");
            m.append(if dir.exists { "existing" } else { "specified" });
            m.append(" directory: ");
            m.append(dir.shown.as_str());
            perms.allow_write(dir.resolved);
            Ok(m)
        },
        PermissionOperation::Execute => {
            let program = program_name(path);
            if program.as_str().is_empty() {
                return Err(String::from_str("Empty command"));
            }
            let mut m = String::from_str("Execute permission granted for command: ");
            m.append(program.as_str());
            perms.allow_command(program);
            Ok(m)
        },
    }
}

/// What opening the project at `path` gives, and the permissions after it:
/// the system-directory refusal for `checked`, then a missing path, then a
/// path that is no directory; otherwise read and write permission on the
/// directory (as resolved).
pub open spec fn init_outcome(
    before: PermissionsView,
    shown: Seq<char>,
    checked: Seq<char>,
    resolved: Seq<char>,
    exists: bool,
    is_dir: bool,
    after: PermissionsView,
    r: Result<(), String>,
) -> bool {
    match first_dangerous(checked, dangerous_paths().len() as int) {
        Some(d) => after == before && (r matches Err(m) && m@ == system_dir_message(d)),
        None => if !exists {
            after == before && (r matches Err(m) && m@ == "Path does not exist: "@ + shown
                + ". Please specify an existing directory."@)
        } else if !is_dir {
            after == before && (r matches Err(m) && m@ == "Path is not a directory: "@ + shown
                + ". Please specify a directory, not a file."@)
        } else {
            &&& r is Ok
            &&& after == PermissionsView {
                read_dirs: before.read_dirs.insert(resolved),
                write_dirs: before.write_dirs.insert(resolved),
                ..before
            }
        },
    }
}

/// Opens the project at `path` (shown as `shown`, checked against the
/// system directories as `checked`, granted as `resolved`; `exists` and
/// `is_dir` as found on disk): see `init_outcome`. A project that opens
/// becomes the session's project: `project_path` then holds `shown`; on an
/// error it is left as it was.
pub fn init_project(
    perms: &mut SessionPermissions,
    project_path: &mut Option<String>,
    shown: &str,
    checked: &str,
    resolved: String,
    exists: bool,
    is_dir: bool,
) -> (r: Result<(), String>)
    requires
        old(perms).wf(),
    ensures
        final(perms).wf(),
        init_outcome(old(perms)@, shown@, checked@, resolved@, exists, is_dir, final(perms)@, r),
        r is Ok ==> (*final(project_path) matches Some(p) && p@ == shown@),
        r is Err ==> *final(project_path) == *old(project_path),
{
    basic_path_validation(checked)?;
    if !exists {
        let mut m = String::from_str("Path does not exist: ");
        m.append(shown);
        m.append(". Please specify an existing directory.");
        return Err(m);
    }
    if !is_dir {
        let mut m = String::from_str("Path is not a directory: ");
        m.append(shown);
        m.append(". Please specify a directory, not a file.");
        return Err(m);
    }
    perms.allow_read(resolved.clone());
    perms.allow_write(resolved);
    assert(final(perms)@.read_dirs =~= old(perms)@.read_dirs.insert(resolved@));
    *project_path = Some(String::from_str(shown));
    Ok(())
}

/// The number of the first `n` lines of a tree that contain `/` or `\`.
pub open spec fn dir_lines(tree: Seq<Seq<char>>, n: int) -> nat
    decreases n,
{
    if n <= 0 {
        0
    } else {
        dir_lines(tree, n - 1) + if contains_text(tree[n - 1], "/"@) || contains_text(tree[n - 1], "\\"@) {
            1nat
        } else {
            0nat
        }
    }
}

/// The number of the first `n` lines of a tree that contain `[Skipped]`.
pub open spec fn skipped_lines(tree: Seq<Seq<char>>, n: int) -> nat
    decreases n,
{
    if n <= 0 {
        0
    } else {
        skipped_lines(tree, n - 1) + if contains_text(tree[n - 1], "[Skipped]"@) {
            1nat
        } else {
            0nat
        }
    }
}

/// Counts of a directory tree.
#[derive(Debug, Clone, Copy, PartialEq, Eq)]
pub struct TreeStats {
    /// Entries below the root.
    pub total_entries: usize,
    /// Lines that hold a path separator.
    pub directories: usize,
    /// The other entries.
    pub files: usize,
    /// Lines marked as skipped.
    pub skipped_entries: usize,
}

proof fn lemma_counts_bounded(tree: Seq<Seq<char>>, n: int)
    requires
        0 <= n <= tree.len(),
    ensures
        dir_lines(tree, n) <= n,
        skipped_lines(tree, n) <= n,
    decreases n,
{
    if n > 0 {
        lemma_counts_bounded(tree, n - 1);
    }
}

/// The counts of a directory tree whose first line is its root: the
/// entries below it, the lines with a path separator, the rest of the
/// entries, and the lines marked `[Skipped]`. The tree must have its root
/// line, and no more separator lines than entries.
pub fn tree_stats(tree: &Vec<String>) -> (s: TreeStats)
    requires
        tree@.len() >= 1,
        dir_lines(views(tree@), tree@.len() as int) <= tree@.len() - 1,
    ensures
        s.total_entries == tree@.len() - 1,
        s.directories == dir_lines(views(tree@), tree@.len() as int),
        s.files == s.total_entries - s.directories,
        s.skipped_entries == skipped_lines(views(tree@), tree@.len() as int),
{
    let slash = chars_of("/");
    let backslash = chars_of("\\");
    let skipped = chars_of("[Skipped]");
    let mut dirs: usize = 0;
    let mut skips: usize = 0;
    let mut i: usize = 0;
    while i < tree.len()
        invariant
            i <= tree@.len(),
            slash@ == "/"@,
            backslash@ == "\\"@,
            skipped@ == "[Skipped]"@,
            dirs == dir_lines(views(tree@), i as int),
            skips == skipped_lines(views(tree@), i as int),
            dirs <= i,
            skips <= i,
        decreases tree@.len() - i,
    {
        assert(views(tree@)[i as int] == tree@[i as int]@);
        let cs = chars_of(tree[i].as_str());
        if contains_text_exec(&cs, &slash) || contains_text_exec(&cs, &backslash) {
            dirs = dirs + 1;
        }
        if contains_text_exec(&cs, &skipped) {
            skips = skips + 1;
        }
        i += 1;
    }
    let total = tree.len() - 1;
    TreeStats { total_entries: total, directories: dirs, files: total - dirs, skipped_entries: skips }
}

/// `arg` has something besides white space; otherwise the error `message`.
pub fn require_text(arg: &str, message: &str) -> (r: Result<(), String>)
    ensures
        trim_seq(arg@).len() > 0 ==> r is Ok,
        trim_seq(arg@).len() == 0 ==> (r matches Err(m) && m@ == message@),
{
    let t = trim_string(arg);
    if t.as_str().is_empty() {
        return Err(String::from_str(message));
    }
    Ok(())
}

/// Checks the argument of the thinking tool.
pub fn check_thought(thought: &str) -> (r: Result<(), String>)
    ensures
        trim_seq(thought@).len() > 0 ==> r is Ok,
        trim_seq(thought@).len() == 0 ==> (r matches Err(m) && m@ == "Thought cannot be empty"@),
{
    require_text(thought, "Thought cannot be empty")
}

/// Checks the argument of the finishing tool.
pub fn check_summary(summary: &str) -> (r: Result<(), String>)
    ensures
        trim_seq(summary@).len() > 0 ==> r is Ok,
        trim_seq(summary@).len() == 0 ==> (r matches Err(m)
            && m@ == "Summary cannot be empty. Please provide a brief description of the task results."@),
{
    require_text(summary, "Summary cannot be empty. Please provide a brief description of the task results.")
}

/// Checks the arguments of the planning tool, in order, and gives the text
/// sent to the peer who checks the plan: `Steps: ...\nReasoning: ...\nApproach: ...`.
pub fn plan_input(steps: &str, reasoning: &str, approach: &str) -> (r: Result<String, String>)
    ensures
        trim_seq(steps@).len() == 0 ==> (r matches Err(m) && m@ == "Plan cannot be empty"@),
        trim_seq(steps@).len() > 0 && trim_seq(reasoning@).len() == 0 ==> (r matches Err(m)
            && m@ == "Reasoning cannot be empty"@),
        trim_seq(steps@).len() > 0 && trim_seq(reasoning@).len() > 0 && trim_seq(approach@).len() == 0
            ==> (r matches Err(m) && m@ == "Approach cannot be empty"@),
        trim_seq(steps@).len() > 0 && trim_seq(reasoning@).len() > 0 && trim_seq(approach@).len() > 0
            ==> (r matches Ok(s) && s@ == "Steps: "@ + steps@ + "\nReasoning: "@ + reasoning@
            + "\nApproach: "@ + approach@),
{
    require_text(steps, "Plan cannot be empty")?;
    require_text(reasoning, "Reasoning cannot be empty")?;
    require_text(approach, "Approach cannot be empty")?;
    let mut s = String::from_str("Steps: ");
    s.append(steps);
    s.append("\nReasoning: ");
    s.append(reasoning);
    s.append("\nApproach: ");
    s.append(approach);
    Ok(s)
}

} // verus!
