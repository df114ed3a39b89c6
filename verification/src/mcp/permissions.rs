//! Session permissions of the file and shell tools: which directories may
//! be read or written, and which shell programs may run.
//!
//! Paths are resolved (made absolute, with links followed) by the caller,
//! which hands the result in as a `PathResolution` or as a plain path.

use crate::paths::{path_starts_with, path_under};
use crate::text::{chars_of, is_whitespace, is_ws, trim_start_seq, views};
use vstd::prelude::*;

verus! {

/// What resolving a path on disk gave.
#[derive(Debug, Clone, PartialEq, Eq)]
pub enum PathResolution {
    /// The path itself resolved to this canonical path.
    Canonical(String),
    /// The path did not resolve (it may not exist yet), but its parent
    /// directory resolved to this canonical path.
    ParentCanonical(String),
    /// Neither the path nor its parent resolved, or it has no parent.
    Unresolved,
}

/// The canonical path that a resolution is checked against, if any.
pub open spec fn resolved_path(r: PathResolution) -> Option<Seq<char>> {
    match r {
        PathResolution::Canonical(p) => Some(p@),
        PathResolution::ParentCanonical(p) => Some(p@),
        PathResolution::Unresolved => None,
    }
}

/// Whether a resolution falls under one of `dirs`.
pub open spec fn permitted(dirs: Set<Seq<char>>, r: PathResolution) -> bool {
    match resolved_path(r) {
        Some(p) => exists|d: Seq<char>| dirs.contains(d) && path_under(p, d),
        None => false,
    }
}

/// The index of the first white-space character of `s`, or its length.
pub open spec fn first_ws(s: Seq<char>) -> int
    decreases s.len(),
{
    if s.len() == 0 {
        0
    } else if is_ws(s[0]) {
        0
    } else {
        1 + first_ws(s.drop_first())
    }
}

/// The program a shell command runs: its first white-space separated word,
/// or the empty string when it has none (`split_whitespace().next()`).
pub open spec fn program_of(command: Seq<char>) -> Seq<char> {
    let t = trim_start_seq(command);
    t.take(first_ws(t))
}

/// The programs allowed in every new session.
pub open spec fn default_commands() -> Set<Seq<char>> {
    set!["ls"@, "cat"@, "grep"@, "find"@, "echo"@, "pwd"@, "wc"@, "head"@, "tail"@, "which"@]
}

/// The system directories no tool may touch.
pub open spec fn dangerous_paths() -> Seq<Seq<char>> {
    seq![
        "/etc"@, "/bin"@, "/sbin"@, "/usr/bin"@, "/usr/sbin"@, "/boot"@, "/lib"@, "/lib64"@,
        "/dev"@, "/proc"@, "/sys"@, "/var/run"@, "/var/log"@, "/var/lib"@, "/var/tmp"@,
    ]
}

/// The permissions of a session, as sets.
pub struct PermissionsView {
    pub read_dirs: Set<Seq<char>>,
    pub write_dirs: Set<Seq<char>>,
    pub commands: Set<Seq<char>>,
}

/// The directories and programs a session may use. Each is held once;
/// every directory that may be written may also be read.
#[derive(Debug)]
pub struct SessionPermissions {
    read_allowed_dirs: Vec<String>,
    write_allowed_dirs: Vec<String>,
    allowed_commands: Vec<String>,
}

/// No string occurs twice.
pub open spec fn distinct(v: Seq<String>) -> bool {
    forall|i: int, j: int| 0 <= i < j < v.len() ==> v[i]@ != v[j]@
}

impl View for SessionPermissions {
    type V = PermissionsView;

    closed spec fn view(&self) -> PermissionsView {
        PermissionsView {
            read_dirs: views(self.read_allowed_dirs@).to_set(),
            write_dirs: views(self.write_allowed_dirs@).to_set(),
            commands: views(self.allowed_commands@).to_set(),
        }
    }
}

/// Whether `v` holds a string equal to `s`.
fn contains_string(v: &Vec<String>, s: &str) -> (r: bool)
    ensures
        r == views(v@).to_set().contains(s@),
{
    let target = String::from_str(s);
    let mut i: usize = 0;
    while i < v.len()
        invariant
            i <= v@.len(),
            target@ == s@,
            forall|k: int| 0 <= k < i ==> v@[k]@ != s@,
        decreases v@.len() - i,
    {
        if v[i] == target {
            assert(views(v@)[i as int] == s@);
            return true;
        }
        i += 1;
    }
    assert forall|k: int| 0 <= k < views(v@).len() implies views(v@)[k] != s@ by {
        assert(views(v@)[k] == v@[k]@);
    }
    false
}

/// Adds `s` to `v` unless it is there already.
fn insert_string(v: &mut Vec<String>, s: String)
    requires
        distinct(old(v)@),
    ensures
        distinct(final(v)@),
        views(final(v)@).to_set() == views(old(v)@).to_set().insert(s@),
{
    if !contains_string(v, s.as_str()) {
        let ghost before = v@;
        let ghost sv = s@;
        v.push(s);
        assert(views(v@) =~= views(before).push(sv));
        assert(views(v@).to_set() =~= views(before).to_set().insert(sv)) by {
            assert forall|x: Seq<char>| views(v@).to_set().contains(x) <==> views(before).to_set().insert(sv).contains(x) by {
                if views(v@).to_set().contains(x) {
                    let k = choose|k: int| 0 <= k < views(v@).len() && views(v@)[k] == x;
                    if k < before.len() {
                        assert(views(before)[k] == x);
                    }
                }
                if views(before).to_set().contains(x) {
                    let k = choose|k: int| 0 <= k < views(before).len() && views(before)[k] == x;
                    assert(views(v@)[k] == x);
                }
                if x == sv {
                    assert(views(v@)[before.len() as int] == x);
                }
            }
        }
        assert(distinct(v@)) by {
            assert forall|i: int, j: int| 0 <= i < j < v@.len() implies v@[i]@ != v@[j]@ by {
                if j == before.len() {
                    assert(views(before)[i] == v@[i]@);
                }
            }
        }
    } else {
        assert(views(v@).to_set() =~= views(v@).to_set().insert(s@));
    }
}

impl SessionPermissions {
    /// The permissions keep each entry once, and every writable directory
    /// is readable.
    pub closed spec fn wf(&self) -> bool {
        &&& distinct(self.read_allowed_dirs@)
        &&& distinct(self.write_allowed_dirs@)
        &&& distinct(self.allowed_commands@)
        &&& views(self.write_allowed_dirs@).to_set().subset_of(views(self.read_allowed_dirs@).to_set())
    }

    /// Every writable directory is readable.
    pub proof fn lemma_write_dirs_readable(&self)
        requires
            self.wf(),
        ensures
            self@.write_dirs.subset_of(self@.read_dirs),
    {
    }

    /// A session with no directory and the default programs.
    pub fn new() -> (p: Self)
        ensures
            p.wf(),
            p@.read_dirs == Set::<Seq<char>>::empty(),
            p@.write_dirs == Set::<Seq<char>>::empty(),
            p@.commands == default_commands(),
    {
        let names = ["ls", "cat", "grep", "find", "echo", "pwd", "wc", "head", "tail", "which"];
        let mut commands: Vec<String> = Vec::new();
        let mut i: usize = 0;
        while i < 10
            invariant
                i <= 10,
                names@ == seq!["ls", "cat", "grep", "find", "echo", "pwd", "wc", "head", "tail", "which"],
                distinct(commands@),
                views(commands@).to_set() == seq![
                    "ls"@, "cat"@, "grep"@, "find"@, "echo"@, "pwd"@, "wc"@, "head"@, "tail"@, "which"@,
                ].take(i as int).to_set(),
            decreases 10 - i,
        {
            let ghost all = seq![
                "ls"@, "cat"@, "grep"@, "find"@, "echo"@, "pwd"@, "wc"@, "head"@, "tail"@, "which"@,
            ];
            insert_string(&mut commands, String::from_str(names[i]));
            assert(all.take(i + 1) =~= all.take(i as int).push(all[i as int]));
            assert(all.take(i as int).push(all[i as int]).to_set() =~= all.take(i as int).to_set().insert(all[i as int])) by {
                vstd::seq_lib::lemma_seq_contains_after_push(all.take(i as int), all[i as int], all[i as int]);
                assert forall|x: Seq<char>| all.take(i as int).push(all[i as int]).to_set().contains(x) <==> all.take(i as int).to_set().insert(all[i as int]).contains(x) by {
                    let t = all.take(i as int);
                    if t.push(all[i as int]).contains(x) {
                        let k = choose|k: int| 0 <= k < t.push(all[i as int]).len() && t.push(all[i as int])[k] == x;
                        if k < t.len() {
                            assert(t[k] == x);
                        }
                    }
                    if t.contains(x) {
                        let k = choose|k: int| 0 <= k < t.len() && t[k] == x;
                        assert(t.push(all[i as int])[k] == x);
                    }
                    if x == all[i as int] {
                        assert(t.push(all[i as int])[t.len() as int] == x);
                    }
                }
            }
            i += 1;
        }
        let ghost all = seq![
            "ls"@, "cat"@, "grep"@, "find"@, "echo"@, "pwd"@, "wc"@, "head"@, "tail"@, "which"@,
        ];
        assert(all.take(10) =~= all);
        assert(all.to_set() =~= default_commands()) by {
            assert forall|x: Seq<char>| all.to_set().contains(x) <==> default_commands().contains(x) by {
                if all.contains(x) {
                    let k = choose|k: int| 0 <= k < all.len() && all[k] == x;
                }
                if default_commands().contains(x) {
                    if x == "ls"@ { assert(all[0] == x); }
                    else if x == "cat"@ { assert(all[1] == x); }
                    else if x == "grep"@ { assert(all[2] == x); }
                    else if x == "find"@ { assert(all[3] == x); }
                    else if x == "echo"@ { assert(all[4] == x); }
                    else if x == "pwd"@ { assert(all[5] == x); }
                    else if x == "wc"@ { assert(all[6] == x); }
                    else if x == "head"@ { assert(all[7] == x); }
                    else if x == "tail"@ { assert(all[8] == x); }
                    else { assert(all[9] == x); }
                }
            }
        }
        let p = SessionPermissions {
            read_allowed_dirs: Vec::new(),
            write_allowed_dirs: Vec::new(),
            allowed_commands: commands,
        };
        assert(views(p.read_allowed_dirs@).to_set() =~= Set::<Seq<char>>::empty());
        assert(views(p.write_allowed_dirs@).to_set() =~= Set::<Seq<char>>::empty());
        p
    }
}


/// Whether the resolved path falls under one of `dirs`.
fn any_dir_covers(dirs: &Vec<String>, r: &PathResolution) -> (b: bool)
    ensures
        b == permitted(views(dirs@).to_set(), *r),
{
    let p = match r {
        PathResolution::Canonical(p) => p,
        PathResolution::ParentCanonical(p) => p,
        PathResolution::Unresolved => return false,
    };
    let mut i: usize = 0;
    while i < dirs.len()
        invariant
            i <= dirs@.len(),
            resolved_path(*r) == Some(p@),
            forall|k: int| 0 <= k < i ==> !path_under(p@, #[trigger] dirs@[k]@),
        decreases dirs@.len() - i,
    {
        if path_starts_with(p.as_str(), dirs[i].as_str()) {
            assert(views(dirs@)[i as int] == dirs@[i as int]@);
            assert(views(dirs@).to_set().contains(dirs@[i as int]@));
            return true;
        }
        i += 1;
    }
    assert forall|d: Seq<char>| views(dirs@).to_set().contains(d) implies !path_under(p@, d) by {
        let k = choose|k: int| 0 <= k < views(dirs@).len() && views(dirs@)[k] == d;
        assert(views(dirs@)[k] == dirs@[k]@);
    }
    false
}

/// The first word of `command` (see `program_of`).
pub fn program_name(command: &str) -> (r: String)
    ensures
        r@ == program_of(command@),
{
    let cs = chars_of(command);
    let n = cs.len();
    let mut i: usize = 0;
    assert(cs@.skip(0) =~= cs@);
    while i < n && is_whitespace(cs[i])
        invariant
            i <= n == cs@.len(),
            cs@ == command@,
            trim_start_seq(cs@) == trim_start_seq(cs@.skip(i as int)),
        decreases n - i,
    {
        assert(cs@.skip(i as int).drop_first() =~= cs@.skip(i + 1));
        i += 1;
    }
    assert(trim_start_seq(cs@.skip(i as int)) == cs@.skip(i as int));
    let mut j: usize = i;
    while j < n && !is_whitespace(cs[j])
        invariant
            i <= j <= n == cs@.len(),
            first_ws(cs@.skip(i as int)) == (j - i) + first_ws(cs@.skip(j as int)),
        decreases n - j,
    {
        assert(cs@.skip(j as int).drop_first() =~= cs@.skip(j + 1));
        j += 1;
    }
    assert(first_ws(cs@.skip(j as int)) == 0);
    assert(cs@.skip(i as int).take(j - i) =~= cs@.subrange(i as int, j as int));
    crate::text::string_of_range(&cs, i, j)
}

/// The first of the first `n` system directories that `path` lies under,
/// if any.
pub open spec fn first_dangerous(path: Seq<char>, n: int) -> Option<Seq<char>>
    decreases n,
{
    if n <= 0 {
        None
    } else {
        match first_dangerous(path, n - 1) {
            Some(d) => Some(d),
            None => if path_under(path, dangerous_paths()[n - 1]) {
                Some(dangerous_paths()[n - 1])
            } else {
                None
            },
        }
    }
}

proof fn lemma_first_dangerous_stays(path: Seq<char>, k: int, n: int)
    requires
        1 <= k <= n,
        first_dangerous(path, k) is Some,
    ensures
        first_dangerous(path, n) == first_dangerous(path, k),
    decreases n - k,
{
    if n > k {
        lemma_first_dangerous_stays(path, k, n - 1);
    }
}

/// The message for a path under the system directory `d`.
pub open spec fn system_dir_message(d: Seq<char>) -> Seq<char> {
    "Cannot access system directory: "@ + d
}

/// Refuses paths under a system directory (`/etc`, `/bin`, `/proc`, ...):
/// `Err` names the first such directory in the list that `path` lies
/// under. `path` is the path as resolved on disk, or as given when it does
/// not resolve.
pub fn basic_path_validation(path: &str) -> (r: Result<(), String>)
    ensures
        match first_dangerous(path@, dangerous_paths().len() as int) {
            Some(d) => r matches Err(m) && m@ == system_dir_message(d),
            None => r is Ok,
        },
{
    let list = [
        "/etc", "/bin", "/sbin", "/usr/bin", "/usr/sbin", "/boot", "/lib", "/lib64", "/dev",
        "/proc", "/sys", "/var/run", "/var/log", "/var/lib", "/var/tmp",
    ];
    let mut i: usize = 0;
    while i < 15
        invariant
            i <= 15,
            list@ == seq![
                "/etc", "/bin", "/sbin", "/usr/bin", "/usr/sbin", "/boot", "/lib", "/lib64", "/dev",
                "/proc", "/sys", "/var/run", "/var/log", "/var/lib", "/var/tmp",
            ],
            first_dangerous(path@, i as int) is None,
        decreases 15 - i,
    {
        assert(list@[i as int]@ == dangerous_paths()[i as int]);
        if path_starts_with(path, list[i]) {
            let mut m = String::from_str("Cannot access system directory: ");
            m.append(list[i]);
            proof {
                lemma_first_dangerous_stays(path@, i as int + 1, 15);
            }
            return Err(m);
        }
        i += 1;
    }
    Ok(())
}

impl SessionPermissions {
    /// Whether the resolved path may be read: it lies under a readable
    /// directory.
    pub fn can_read(&self, path: &PathResolution) -> (b: bool)
        ensures
            b == permitted(self@.read_dirs, *path),
    {
        self.has_permission(path, &self.read_allowed_dirs)
    }

    /// Whether the resolved path may be written: it lies under a writable
    /// directory.
    pub fn can_write(&self, path: &PathResolution) -> (b: bool)
        ensures
            b == permitted(self@.write_dirs, *path),
    {
        self.has_permission(path, &self.write_allowed_dirs)
    }

    /// Whether the resolved path lies under one of `allowed_dirs`.
    fn has_permission(&self, path: &PathResolution, allowed_dirs: &Vec<String>) -> (b: bool)
        ensures
            b == permitted(views(allowed_dirs@).to_set(), *path),
    {
        any_dir_covers(allowed_dirs, path)
    }

    /// Whether the program of `command` (its first word) may run.
    pub fn can_execute_command(&self, command: &str) -> (b: bool)
        ensures
            b == self@.commands.contains(program_of(command@)),
    {
        let program = program_name(command);
        contains_string(&self.allowed_commands, program.as_str())
    }

    /// Lets `dir` be read. `dir` is the directory as resolved on disk, or as
    /// given when it does not resolve.
    pub fn allow_read(&mut self, dir: String)
        requires
            old(self).wf(),
        ensures
            final(self).wf(),
            final(self)@ == (PermissionsView {
                read_dirs: old(self)@.read_dirs.insert(dir@),
                ..old(self)@
            }),
    {
        let ghost w = views(self.write_allowed_dirs@).to_set();
        insert_string(&mut self.read_allowed_dirs, dir);
        assert(w.subset_of(views(self.read_allowed_dirs@).to_set()));
    }

    /// Lets `dir` be written, and so read. `dir` is the directory as
    /// resolved on disk, or as given when it does not resolve.
    pub fn allow_write(&mut self, dir: String)
        requires
            old(self).wf(),
        ensures
            final(self).wf(),
            final(self)@ == (PermissionsView {
                read_dirs: old(self)@.read_dirs.insert(dir@),
                write_dirs: old(self)@.write_dirs.insert(dir@),
                ..old(self)@
            }),
    {
        insert_string(&mut self.write_allowed_dirs, dir.clone());
        insert_string(&mut self.read_allowed_dirs, dir);
    }

    /// Lets the program `command` run.
    pub fn allow_command(&mut self, command: String)
        requires
            old(self).wf(),
        ensures
            final(self).wf(),
            final(self)@ == (PermissionsView { commands: old(self)@.commands.insert(command@), ..old(self)@ }),
    {
        insert_string(&mut self.allowed_commands, command);
    }
}

impl Default for SessionPermissions {
    fn default() -> (p: Self)
        ensures
            p.wf(),
            p@.read_dirs == Set::<Seq<char>>::empty(),
            p@.write_dirs == Set::<Seq<char>>::empty(),
            p@.commands == default_commands(),
    {
        SessionPermissions::new()
    }
}

impl Clone for SessionPermissions {
    fn clone(&self) -> (p: Self)
        ensures
            p@ == self@,
            p.wf() == self.wf(),
    {
        SessionPermissions {
            read_allowed_dirs: self.read_allowed_dirs.clone(),
            write_allowed_dirs: self.write_allowed_dirs.clone(),
            allowed_commands: self.allowed_commands.clone(),
        }
    }
}


/// A directory that may be written may also be read: whatever resolution
/// a session lets write, it lets read.
pub proof fn lemma_write_implies_read(p: &SessionPermissions, r: PathResolution)
    requires
        p.wf(),
    ensures
        permitted(p@.write_dirs, r) ==> permitted(p@.read_dirs, r),
{
    p.lemma_write_dirs_readable();
    if permitted(p@.write_dirs, r) {
        let q = resolved_path(r)->0;
        let d = choose|d: Seq<char>| p@.write_dirs.contains(d) && path_under(q, d);
        assert(p@.read_dirs.contains(d));
    }
}

/// Granting a directory never takes a permission away.
pub proof fn lemma_grant_keeps_permissions(dirs: Set<Seq<char>>, d: Seq<char>, r: PathResolution)
    ensures
        permitted(dirs, r) ==> permitted(dirs.insert(d), r),
{
    if permitted(dirs, r) {
        let q = resolved_path(r)->0;
        let e = choose|e: Seq<char>| dirs.contains(e) && path_under(q, e);
        assert(dirs.insert(d).contains(e));
    }
}

/// A granted directory is itself covered: a path that resolves to it may
/// be used.
pub proof fn lemma_granted_dir_covered(dirs: Set<Seq<char>>, d: Seq<char>, r: PathResolution)
    requires
        resolved_path(r) == Some(d),
    ensures
        permitted(dirs.insert(d), r),
{
    let c = crate::paths::path_components_of(d);
    assert(c.take(c.len() as int) =~= c);
    assert(dirs.insert(d).contains(d) && path_under(d, d));
}

/// A path that resolves to nothing is never permitted.
pub proof fn lemma_unresolved_denied(dirs: Set<Seq<char>>)
    ensures
        !permitted(dirs, PathResolution::Unresolved),
{
}

} // verus!
