//! The file tools' own logic: which accesses the session permits, the
//! lines of a file and a range of them, searching lines, replacing one
//! occurrence of a string, and the lines of a directory tree. Reading and
//! writing the files is left to the caller, which hands contents in and
//! takes contents back.

use crate::mcp::permissions::{basic_path_validation, dangerous_paths, first_dangerous, permitted, system_dir_message, PathResolution, SessionPermissions};
use crate::mcp::regex_search::{compile_regex, regex_compiles, regex_error_text, regex_is_match, regex_matches};
use crate::text::{chars_of, decimal, decimal_string, same_text, string_of, string_of_range, views};
use vstd::prelude::*;
use vstd::relations::{sorted_by, total_ordering};

verus! {

// ---------------------------------------------------------------------
// Access checks

/// `what + shown + ". Request permission first."`.
pub open spec fn denial(what: Seq<char>, shown: Seq<char>) -> Seq<char> {
    what + shown + ". Request permission first."@
}

fn denial_message(what: &str, shown: &str) -> (m: String)
    ensures
        m@ == denial(what@, shown@),
{
    let mut m = String::from_str(what);
    m.append(shown);
    m.append(". Request permission first.");
    m
}

/// What checking an access gives: the system-directory refusal for
/// `checked` first, then the permission, else `Ok`.
pub open spec fn access_outcome(checked: Seq<char>, allowed: bool, refusal: Seq<char>, r: Result<(), String>) -> bool {
    match first_dangerous(checked, dangerous_paths().len() as int) {
        Some(d) => r matches Err(m) && m@ == system_dir_message(d),
        None => if allowed {
            r is Ok
        } else {
            r matches Err(m) && m@ == refusal
        },
    }
}

/// Checks that the file `shown` may be read: it is not under a system
/// directory (`checked` is the path as resolved on disk, or as given) and
/// its resolution lies under a readable directory.
pub fn check_read_access(perms: &SessionPermissions, shown: &str, checked: &str, resolution: &PathResolution) -> (r: Result<(), String>)
    ensures
        access_outcome(
            checked@,
            permitted(perms@.read_dirs, *resolution),
            denial("Read permission not granted for path: "@, shown@),
            r,
        ),
{
    basic_path_validation(checked)?;
    if !perms.can_read(resolution) {
        return Err(denial_message("Read permission not granted for path: ", shown));
    }
    Ok(())
}

/// Checks that the file `shown` may be written (see `check_read_access`).
pub fn check_write_access(perms: &SessionPermissions, shown: &str, checked: &str, resolution: &PathResolution) -> (r: Result<(), String>)
    ensures
        access_outcome(
            checked@,
            permitted(perms@.write_dirs, *resolution),
            denial("Write permission not granted for path: "@, shown@),
            r,
        ),
{
    basic_path_validation(checked)?;
    if !perms.can_write(resolution) {
        return Err(denial_message("Write permission not granted for path: ", shown));
    }
    Ok(())
}

/// Checks that a file may be created or extended in its parent directory
/// `parent` (as shown), whose resolution is `parent_resolution`: the file
/// (`checked`, as resolved or given) is not under a system directory, it
/// has a parent, and the parent may be written.
pub fn check_write_target(
    perms: &SessionPermissions,
    checked: &str,
    parent: Option<&str>,
    parent_resolution: &PathResolution,
) -> (r: Result<(), String>)
    ensures
        match first_dangerous(checked@, dangerous_paths().len() as int) {
            Some(d) => r matches Err(m) && m@ == system_dir_message(d),
            None => match parent {
                None => r matches Err(m) && m@ == "Invalid path: no parent directory"@,
                Some(p) => if permitted(perms@.write_dirs, *parent_resolution) {
                    r is Ok
                } else {
                    r matches Err(m) && m@ == denial("Write permission not granted for directory: "@, p@)
                },
            },
        },
{
    basic_path_validation(checked)?;
    match parent {
        None => Err(String::from_str("Invalid path: no parent directory")),
        Some(p) => {
            if !perms.can_write(parent_resolution) {
                return Err(denial_message("Write permission not granted for directory: ", p));
            }
            Ok(())
        },
    }
}

/// Checks that a shell command may run, in `working_dir` (as shown, with
/// its resolution) when one is given: its program is allowed, and the
/// directory may be read.
pub fn check_command(
    perms: &SessionPermissions,
    command: &str,
    working_dir: Option<(&str, &PathResolution)>,
) -> (r: Result<(), String>)
    ensures
        !perms@.commands.contains(crate::mcp::permissions::program_of(command@)) ==> (r matches Err(m)
            && m@ == "Command not in allowlist: "@ + command@
                + ". Only safe, read-only commands are permitted."@),
        perms@.commands.contains(crate::mcp::permissions::program_of(command@)) ==> match working_dir {
            None => r is Ok,
            Some((shown, res)) => if permitted(perms@.read_dirs, *res) {
                r is Ok
            } else {
                r matches Err(m) && m@ == denial("Read permission not granted for directory: "@, shown@)
            },
        },
{
    if !perms.can_execute_command(command) {
        let mut m = String::from_str("Command not in allowlist: ");
        m.append(command);
        m.append(". Only safe, read-only commands are permitted.");
        return Err(m);
    }
    match working_dir {
        None => Ok(()),
        Some((shown, res)) => {
            if !perms.can_read(res) {
                return Err(denial_message("Read permission not granted for directory: ", shown));
            }
            Ok(())
        },
    }
}

// ---------------------------------------------------------------------
// Lines

/// `l` without one trailing carriage return.
pub open spec fn strip_cr(l: Seq<char>) -> Seq<char> {
    if l.len() > 0 && l.last() == '\r' {
        l.drop_last()
    } else {
        l
    }
}

/// The lines that `str::lines` yields for `rest`, when `cur` has already
/// been read into the line under way: a line ends at `\n`, which it loses
/// together with a `\r` before it; a last line without `\n` keeps all its
/// characters, and an empty one is not a line.
pub open spec fn lines_from(cur: Seq<char>, rest: Seq<char>) -> Seq<Seq<char>>
    decreases rest.len(),
{
    if rest.len() == 0 {
        if cur.len() == 0 {
            seq![]
        } else {
            seq![cur]
        }
    } else if rest[0] == '\n' {
        seq![strip_cr(cur)] + lines_from(seq![], rest.drop_first())
    } else {
        lines_from(cur.push(rest[0]), rest.drop_first())
    }
}

/// The lines of `s` (`str::lines`).
pub open spec fn lines_of(s: Seq<char>) -> Seq<Seq<char>> {
    lines_from(seq![], s)
}

/// The lines of `s`.
pub fn split_lines(s: &str) -> (ls: Vec<String>)
    ensures
        views(ls@) == lines_of(s@),
{
    let cs = chars_of(s);
    let n = cs.len();
    let mut ls: Vec<String> = Vec::new();
    let mut start: usize = 0;
    let mut i: usize = 0;
    assert(cs@.skip(0) =~= cs@);
    assert(cs@.subrange(0, 0) =~= Seq::<char>::empty());
    assert(views(ls@) + lines_from(seq![], cs@) =~= lines_from(seq![], cs@));
    while i < n
        invariant
            start <= i <= n == cs@.len(),
            cs@ == s@,
            views(ls@) + lines_from(cs@.subrange(start as int, i as int), cs@.skip(i as int)) == lines_of(s@),
        decreases n - i,
    {
        let c = cs[i];
        let ghost rest = cs@.skip(i as int);
        assert(rest[0] == c);
        assert(rest.drop_first() =~= cs@.skip(i + 1));
        if c == '\n' {
            let mut end = i;
            if end > start && cs[end - 1] == '\r' {
                end = end - 1;
            }
            let line = string_of_range(&cs, start, end);
            assert(line@ =~= strip_cr(cs@.subrange(start as int, i as int)));
            let ghost old_ls = ls@;
            ls.push(line);
            assert(views(ls@) =~= views(old_ls).push(line@));
            start = i + 1;
            assert(cs@.subrange(start as int, i + 1) =~= Seq::<char>::empty());
            assert(views(old_ls) + (seq![line@] + lines_from(seq![], cs@.skip(i + 1)))
                =~= views(ls@) + lines_from(seq![], cs@.skip(i + 1)));
        } else {
            assert(cs@.subrange(start as int, i as int).push(c) =~= cs@.subrange(start as int, i + 1));
        }
        i += 1;
    }
    if start < n {
        let line = string_of_range(&cs, start, n);
        let ghost old_ls = ls@;
        ls.push(line);
        assert(views(ls@) =~= views(old_ls).push(line@));
    } else {
        assert(cs@.subrange(start as int, n as int) =~= Seq::<char>::empty());
        assert(views(ls@) + seq![] =~= views(ls@));
    }
    ls
}

/// The lines `ls` joined with `\n` between them.
pub open spec fn joined(ls: Seq<Seq<char>>) -> Seq<char>
    decreases ls.len(),
{
    if ls.len() == 0 {
        Seq::empty()
    } else if ls.len() == 1 {
        ls[0]
    } else {
        joined(ls.drop_last()) + "\n"@ + ls.last()
    }
}

/// `ls[lo..hi]` joined with `\n`.
pub fn join_lines(ls: &Vec<String>, lo: usize, hi: usize) -> (s: String)
    requires
        lo <= hi <= ls@.len(),
    ensures
        s@ == joined(views(ls@).subrange(lo as int, hi as int)),
{
    let mut s = String::new();
    let mut i = lo;
    assert(views(ls@).subrange(lo as int, lo as int) =~= Seq::<Seq<char>>::empty());
    while i < hi
        invariant
            lo <= i <= hi <= ls@.len(),
            s@ == joined(views(ls@).subrange(lo as int, i as int)),
        decreases hi - i,
    {
        let ghost part = views(ls@).subrange(lo as int, i + 1);
        assert(part.drop_last() =~= views(ls@).subrange(lo as int, i as int));
        assert(part.last() == ls@[i as int]@);
        if i > lo {
            s.append("\n");
        } else {
            assert(part.len() == 1);
        }
        s.append(ls[i].as_str());
        i += 1;
    }
    s
}

/// The 0-based bounds `(start, end)` of the lines that `show_file` returns
/// from a file of `n` lines.
pub open spec fn line_bounds(n: int, start_line: Option<usize>, end_line: Option<usize>) -> (int, int) {
    let start = match start_line {
        Some(s) => if s >= 1 { s - 1 } else { 0 },
        None => 0,
    };
    let end = match end_line {
        Some(e) => if e < n { e as int } else { n },
        None => n,
    };
    (start, end)
}

/// What showing `content` with an optional line range gives: all of it
/// without a range; with one, lines `start_line..=end_line` (1-based,
/// clamped to the file) joined with `\n`, or an error for an empty range.
pub open spec fn shown_lines(content: Seq<char>, start_line: Option<usize>, end_line: Option<usize>, r: Result<String, String>) -> bool {
    if start_line is None && end_line is None {
        r matches Ok(t) && t@ == content
    } else {
        let ls = lines_of(content);
        let (start, end) = line_bounds(ls.len() as int, start_line, end_line);
        if start >= end || start >= ls.len() {
            r matches Err(m) && m@ == "Invalid line range: "@ + decimal((start + 1) as nat) + " to "@
                + decimal(end as nat)
        } else {
            r matches Ok(t) && t@ == joined(ls.subrange(start, end))
        }
    }
}

/// The part of a file's `content` that `show_file` returns (see
/// `shown_lines`).
pub fn select_lines(content: &str, start_line: Option<usize>, end_line: Option<usize>) -> (r: Result<String, String>)
    ensures
        shown_lines(content@, start_line, end_line, r),
{
    if start_line.is_none() && end_line.is_none() {
        return Ok(String::from_str(content));
    }
    let lines = split_lines(content);
    let n = lines.len();
    let start: usize = match start_line {
        Some(s) => if s >= 1 { s - 1 } else { 0 },
        None => 0,
    };
    let end: usize = match end_line {
        Some(e) => if e < n { e } else { n },
        None => n,
    };
    if start >= end || start >= n {
        let mut m = String::from_str("Invalid line range: ");
        let a = decimal_string((start + 1) as u64);
        m.append(a.as_str());
        m.append(" to ");
        let b = decimal_string(end as u64);
        m.append(b.as_str());
        return Err(m);
    }
    Ok(join_lines(&lines, start, end))
}

// ---------------------------------------------------------------------
// Searching

/// `p` occurs in `s` at `i`.
pub open spec fn occurs_at(s: Seq<char>, p: Seq<char>, i: int) -> bool {
    0 <= i && i + p.len() <= s.len() && s.subrange(i, i + p.len()) == p
}

/// `p` occurs in `s` (`str::contains`).
pub open spec fn contains_text(s: Seq<char>, p: Seq<char>) -> bool {
    exists|i: int| occurs_at(s, p, i)
}

/// Whether `p` occurs in `s` at `i`.
pub(crate) fn starts_with_at(s: &Vec<char>, p: &Vec<char>, i: usize) -> (b: bool)
    requires
        i <= s@.len(),
    ensures
        b == occurs_at(s@, p@, i as int),
{
    if p.len() > s.len() - i {
        return false;
    }
    let mut k: usize = 0;
    while k < p.len()
        invariant
            s@.len() <= usize::MAX,
            i <= s@.len(),
            i + p@.len() <= s@.len(),
            k <= p@.len(),
            forall|j: int| 0 <= j < k ==> s@[i + j] == p@[j],
        decreases p@.len() - k,
    {
        if s[i + k] != p[k] {
            assert(s@.subrange(i as int, i + p@.len())[k as int] != p@[k as int]);
            return false;
        }
        k += 1;
    }
    assert(s@.subrange(i as int, i + p@.len()) =~= p@);
    true
}

/// Whether `p` occurs in `s`.
pub(crate) fn contains_text_exec(s: &Vec<char>, p: &Vec<char>) -> (b: bool)
    ensures
        b == contains_text(s@, p@),
{
    let mut i: usize = 0;
    while i < s.len()
        invariant
            i <= s@.len(),
            forall|j: int| 0 <= j < i ==> !occurs_at(s@, p@, j),
        decreases s@.len() - i,
    {
        if starts_with_at(s, p, i) {
            return true;
        }
        i += 1;
    }
    if starts_with_at(s, p, s.len()) {
        return true;
    }
    assert forall|j: int| !occurs_at(s@, p@, j) by {
        if 0 <= j && j + p@.len() <= s@.len() && j != s@.len() {
            assert(j < i);
        }
    }
    false
}

/// The lines of `ls` (first `n` of them) that `keep` accepts, each with its
/// 1-based number.
pub open spec fn numbered_hits(ls: Seq<Seq<char>>, n: int, keep: spec_fn(Seq<char>) -> bool) -> Seq<(int, Seq<char>)>
    decreases n,
{
    if n <= 0 {
        Seq::empty()
    } else if keep(ls[n - 1]) {
        numbered_hits(ls, n - 1, keep).push((n, ls[n - 1]))
    } else {
        numbered_hits(ls, n - 1, keep)
    }
}

/// The views of search results.
pub open spec fn hit_views(v: Seq<(usize, String)>) -> Seq<(int, Seq<char>)> {
    v.map_values(|h: (usize, String)| (h.0 as int, h.1@))
}

/// The lines of `content` that contain `pattern`, with their 1-based
/// numbers.
pub fn search_literal(content: &str, pattern: &str) -> (hits: Vec<(usize, String)>)
    ensures
        hit_views(hits@) == numbered_hits(
            lines_of(content@),
            lines_of(content@).len() as int,
            |l: Seq<char>| contains_text(l, pattern@),
        ),
{
    let lines = split_lines(content);
    let p = chars_of(pattern);
    let mut hits: Vec<(usize, String)> = Vec::new();
    let mut i: usize = 0;
    let ghost keep = |l: Seq<char>| contains_text(l, pattern@);
    while i < lines.len()
        invariant
            i <= lines@.len(),
            views(lines@) == lines_of(content@),
            p@ == pattern@,
            keep == (|l: Seq<char>| contains_text(l, pattern@)),
            hit_views(hits@) == numbered_hits(views(lines@), i as int, keep),
        decreases lines@.len() - i,
    {
        let cs = chars_of(lines[i].as_str());
        assert(views(lines@)[i as int] == lines@[i as int]@);
        if contains_text_exec(&cs, &p) {
            let ghost before = hits@;
            hits.push((i + 1, lines[i].clone()));
            assert(hit_views(hits@) =~= hit_views(before).push(((i + 1) as int, lines@[i as int]@)));
        }
        i += 1;
    }
    hits
}

/// What searching `content` for `pattern` gives: with `is_regex`, the
/// lines that the regex matches, or an error when the pattern does not
/// compile; otherwise the lines that contain the pattern. Lines come with
/// their 1-based numbers.
pub open spec fn search_outcome(content: Seq<char>, pattern: Seq<char>, is_regex: bool, r: Result<Vec<(usize, String)>, String>) -> bool {
    let ls = lines_of(content);
    if is_regex {
        if regex_compiles(pattern) {
            r matches Ok(hits) && hit_views(hits@) == numbered_hits(
                ls,
                ls.len() as int,
                |l: Seq<char>| regex_matches(pattern, l),
            )
        } else {
            r matches Err(m) && m@.len() >= 23 && m@.take(23) == "Invalid regex pattern: "@
        }
    } else {
        r matches Ok(hits) && hit_views(hits@) == numbered_hits(
            ls,
            ls.len() as int,
            |l: Seq<char>| contains_text(l, pattern),
        )
    }
}

/// Searches the lines of `content` for `pattern` (see `search_outcome`).
pub fn search_content(content: &str, pattern: &str, is_regex: bool) -> (r: Result<Vec<(usize, String)>, String>)
    ensures
        search_outcome(content@, pattern@, is_regex, r),
{
    if !is_regex {
        return Ok(search_literal(content, pattern));
    }
    let matcher = match compile_regex(pattern) {
        Ok(m) => m,
        Err(e) => {
            let mut m = String::from_str("Invalid regex pattern: ");
            let text = regex_error_text(&e);
            m.append(text.as_str());
            proof {
                reveal_strlit("Invalid regex pattern: ");
            }
            assert(m@.take(23) =~= "Invalid regex pattern: "@);
            return Err(m);
        },
    };
    let lines = split_lines(content);
    let mut hits: Vec<(usize, String)> = Vec::new();
    let mut i: usize = 0;
    let ghost keep = |l: Seq<char>| regex_matches(pattern@, l);
    while i < lines.len()
        invariant
            i <= lines@.len(),
            views(lines@) == lines_of(content@),
            matcher@ == pattern@,
            keep == (|l: Seq<char>| regex_matches(pattern@, l)),
            hit_views(hits@) == numbered_hits(views(lines@), i as int, keep),
        decreases lines@.len() - i,
    {
        assert(views(lines@)[i as int] == lines@[i as int]@);
        if regex_is_match(&matcher, lines[i].as_str()) {
            let ghost before = hits@;
            hits.push((i + 1, lines[i].clone()));
            assert(hit_views(hits@) =~= hit_views(before).push(((i + 1) as int, lines@[i as int]@)));
        }
        i += 1;
    }
    Ok(hits)
}

// ---------------------------------------------------------------------
// Editing

/// The number of non-overlapping occurrences of a non-empty `p` in `s`
/// from position `i` on, taken leftmost first (as `str::matches` finds
/// them).
pub open spec fn count_from(s: Seq<char>, p: Seq<char>, i: int) -> nat
    decreases s.len() - i,
{
    if p.len() == 0 || i < 0 || i + p.len() > s.len() {
        0
    } else if occurs_at(s, p, i) {
        1 + count_from(s, p, i + p.len())
    } else {
        count_from(s, p, i + 1)
    }
}

/// The number of matches of `p` in `s` that `str::matches` yields: the
/// empty pattern matches at every character boundary.
pub open spec fn occurrences(s: Seq<char>, p: Seq<char>) -> nat {
    if p.len() == 0 {
        s.len() + 1
    } else {
        count_from(s, p, 0)
    }
}

/// `k` is the leftmost position where `p` occurs in `s`.
pub open spec fn leftmost(s: Seq<char>, p: Seq<char>, k: int) -> bool {
    occurs_at(s, p, k) && forall|j: int| 0 <= j < k ==> !occurs_at(s, p, j)
}

/// The number of matches of `p` in `s`, and where the leftmost one starts
/// when there is one.
fn count_matches(s: &Vec<char>, p: &Vec<char>) -> (r: (usize, usize))
    requires
        s@.len() < usize::MAX,
    ensures
        r.0 == occurrences(s@, p@),
        r.0 > 0 ==> leftmost(s@, p@, r.1 as int),
{
    let n = s.len();
    if p.len() == 0 {
        assert(occurs_at(s@, p@, 0)) by {
            assert(s@.subrange(0, 0) =~= p@);
        }
        return (n + 1, 0);
    }
    let m = p.len();
    let mut count: usize = 0;
    let mut first: usize = 0;
    let mut i: usize = 0;
    while m <= n - i
        invariant
            n == s@.len() < usize::MAX,
            m == p@.len() > 0,
            i <= n,
            count <= i,
            count_from(s@, p@, 0) == count + count_from(s@, p@, i as int),
            count == 0 ==> forall|j: int| 0 <= j < i ==> !occurs_at(s@, p@, j),
            count > 0 ==> leftmost(s@, p@, first as int),
        decreases n - i,
    {
        if starts_with_at(s, p, i) {
            if count == 0 {
                first = i;
            }
            count = count + 1;
            i = i + m;
        } else {
            i = i + 1;
        }
    }
    (count, first)
}

/// What editing `content` to replace `old` by `new` gives: the edited
/// content when `old` occurs exactly once (at its leftmost match), else an
/// error that tells the two failures apart.
pub open spec fn edit_outcome(content: Seq<char>, old: Seq<char>, new: Seq<char>, shown: Seq<char>, r: Result<String, String>) -> bool {
    let n = occurrences(content, old);
    if n == 0 {
        r matches Err(m) && m@ == "String not found in file: "@ + shown
    } else if n > 1 {
        r matches Err(m) && m@ == "Found "@ + decimal(n) + " occurrences of the string in file. Please provide more context to make the match unique."@
    } else {
        r matches Ok(t) && exists|k: int| leftmost(content, old, k)
            && t@ == content.take(k) + new + content.skip(k + old.len())
    }
}

/// Replaces the one occurrence of `old` in the file content `content` by
/// `new` (see `edit_outcome`); `shown` names the file in messages.
pub fn edit_content(content: &str, old: &str, new: &str, shown: &str) -> (r: Result<String, String>)
    requires
        content@.len() < usize::MAX,
    ensures
        edit_outcome(content@, old@, new@, shown@, r),
{
    let cs = chars_of(content);
    let ps = chars_of(old);
    let (n, k) = count_matches(&cs, &ps);
    if n == 0 {
        let mut m = String::from_str("String not found in file: ");
        m.append(shown);
        return Err(m);
    }
    if n > 1 {
        let mut m = String::from_str("Found ");
        let count = decimal_string(n as u64);
        m.append(count.as_str());
        m.append(" occurrences of the string in file. Please provide more context to make the match unique.");
        return Err(m);
    }
    let mut t = string_of_range(&cs, 0, k);
    t.append(new);
    let rest = string_of_range(&cs, k + ps.len(), cs.len());
    t.append(rest.as_str());
    assert(cs@.subrange(0, k as int) =~= content@.take(k as int));
    assert(cs@.subrange(k + ps@.len(), cs@.len() as int) =~= content@.skip(k + old@.len()));
    Ok(t)
}

// ---------------------------------------------------------------------
// Directory trees

/// How deep a directory tree goes before its lines stop.
pub const MAX_TREE_DEPTH: usize = 10;

/// An entry of a directory as read from disk.
#[derive(Debug, Clone)]
pub struct TreeEntry {
    pub name: String,
    pub is_dir: bool,
}

/// A line of a directory tree; for a directory, also the prefix of the
/// lines of its own entries.
#[derive(Debug, Clone)]
pub struct TreeLine {
    pub line: String,
    pub child_prefix: Option<String>,
}

/// A name that starts with `.` is hidden.
pub open spec fn is_hidden(name: Seq<char>) -> bool {
    name.len() > 0 && name[0] == '.'
}

/// `a` comes before `b` or equals it, comparing characters by code point
/// (the order of `str`).
pub open spec fn name_le(a: Seq<char>, b: Seq<char>) -> bool
    decreases a.len(),
{
    if a.len() == 0 {
        true
    } else if b.len() == 0 {
        false
    } else if a[0] != b[0] {
        (a[0] as int) < (b[0] as int)
    } else {
        name_le(a.drop_first(), b.drop_first())
    }
}

/// The order of a tree's entries: directories first, then by name.
pub open spec fn tree_order(a: (Seq<char>, bool), b: (Seq<char>, bool)) -> bool {
    (a.1 && !b.1) || (a.1 == b.1 && name_le(a.0, b.0))
}

/// The views of directory entries.
pub open spec fn entry_views(v: Seq<TreeEntry>) -> Seq<(Seq<char>, bool)> {
    v.map_values(|e: TreeEntry| (e.name@, e.is_dir))
}

/// The entries among the first `n` of `v` that are not hidden.
pub open spec fn visible(v: Seq<(Seq<char>, bool)>, n: int) -> Seq<(Seq<char>, bool)>
    decreases n,
{
    if n <= 0 {
        Seq::empty()
    } else if is_hidden(v[n - 1].0) {
        visible(v, n - 1)
    } else {
        visible(v, n - 1).push(v[n - 1])
    }
}

/// The entries of a directory in the order the tree lists them.
pub open spec fn listed(v: Seq<(Seq<char>, bool)>) -> Seq<(Seq<char>, bool)> {
    visible(v, v.len() as int).sort_by(|a: (Seq<char>, bool), b: (Seq<char>, bool)| tree_order(a, b))
}

proof fn lemma_name_le_total(a: Seq<char>, b: Seq<char>)
    ensures
        name_le(a, a),
        name_le(a, b) || name_le(b, a),
        name_le(a, b) && name_le(b, a) ==> a == b,
    decreases a.len(),
{
    if a.len() > 0 && b.len() > 0 {
        if a[0] != b[0] {
            assert((a[0] as int) != (b[0] as int));
        }
        lemma_name_le_total(a.drop_first(), b.drop_first());
        if a[0] == b[0] && a.drop_first() == b.drop_first() {
            assert(a =~= seq![a[0]] + a.drop_first());
            assert(b =~= seq![b[0]] + b.drop_first());
        }
    } else if a.len() > 0 {
        lemma_name_le_total(a.drop_first(), a.drop_first());
    }
    if a.len() == 0 && b.len() == 0 {
        assert(a =~= b);
    }
}

proof fn lemma_name_le_transitive(a: Seq<char>, b: Seq<char>, c: Seq<char>)
    requires
        name_le(a, b),
        name_le(b, c),
    ensures
        name_le(a, c),
    decreases a.len(),
{
    if a.len() > 0 && b.len() > 0 && c.len() > 0 && a[0] == b[0] && b[0] == c[0] {
        lemma_name_le_transitive(a.drop_first(), b.drop_first(), c.drop_first());
    }
}

proof fn lemma_tree_order_total()
    ensures
        total_ordering(|a: (Seq<char>, bool), b: (Seq<char>, bool)| tree_order(a, b)),
{
    let r = |a: (Seq<char>, bool), b: (Seq<char>, bool)| tree_order(a, b);
    assert forall|x: (Seq<char>, bool)| #[trigger] r(x, x) by {
        lemma_name_le_total(x.0, x.0);
    }
    assert forall|x: (Seq<char>, bool), y: (Seq<char>, bool)| #[trigger] r(x, y) && #[trigger] r(y, x) implies x == y by {
        lemma_name_le_total(x.0, y.0);
    }
    assert forall|x: (Seq<char>, bool), y: (Seq<char>, bool), z: (Seq<char>, bool)| #[trigger] r(x, y) && #[trigger] r(y, z) implies r(x, z) by {
        if x.1 == y.1 && y.1 == z.1 {
            lemma_name_le_transitive(x.0, y.0, z.0);
        }
    }
    assert forall|x: (Seq<char>, bool), y: (Seq<char>, bool)| #[trigger] r(x, y) || #[trigger] r(y, x) by {
        lemma_name_le_total(x.0, y.0);
    }
}

/// Whether `a` comes before `b` or equals it.
fn names_in_order(a: &str, b: &str) -> (r: bool)
    ensures
        r == name_le(a@, b@),
{
    let x = chars_of(a);
    let y = chars_of(b);
    let mut i: usize = 0;
    assert(x@.skip(0) =~= x@);
    assert(y@.skip(0) =~= y@);
    while i < x.len() && i < y.len()
        invariant
            i <= x@.len(),
            i <= y@.len(),
            x@ == a@,
            y@ == b@,
            name_le(a@, b@) == name_le(x@.skip(i as int), y@.skip(i as int)),
        decreases x@.len() - i,
    {
        assert(x@.skip(i as int)[0] == x@[i as int]);
        assert(y@.skip(i as int)[0] == y@[i as int]);
        if x[i] != y[i] {
            return x[i] < y[i];
        }
        assert(x@.skip(i as int).drop_first() =~= x@.skip(i + 1));
        assert(y@.skip(i as int).drop_first() =~= y@.skip(i + 1));
        i += 1;
    }
    i == x.len()
}

/// Whether entry `a` comes before entry `b` or equals it.
fn entries_in_order(a: &TreeEntry, b: &TreeEntry) -> (r: bool)
    ensures
        r == tree_order((a.name@, a.is_dir), (b.name@, b.is_dir)),
{
    if a.is_dir && !b.is_dir {
        true
    } else if a.is_dir == b.is_dir {
        names_in_order(a.name.as_str(), b.name.as_str())
    } else {
        false
    }
}

/// The visible entries of `entries` in tree order.
fn sorted_entries(entries: &Vec<TreeEntry>) -> (v: Vec<TreeEntry>)
    ensures
        entry_views(v@) == listed(entry_views(entries@)),
{
    let ghost all = entry_views(entries@);
    let ghost leq = |a: (Seq<char>, bool), b: (Seq<char>, bool)| tree_order(a, b);
    proof {
        lemma_tree_order_total();
    }
    let mut sorted: Vec<TreeEntry> = Vec::new();
    let mut i: usize = 0;
    assert(entry_views(sorted@) =~= Seq::<(Seq<char>, bool)>::empty());
    assert(visible(all, 0) =~= Seq::<(Seq<char>, bool)>::empty());
    while i < entries.len()
        invariant
            i <= entries@.len(),
            all == entry_views(entries@),
            leq == (|a: (Seq<char>, bool), b: (Seq<char>, bool)| tree_order(a, b)),
            total_ordering(leq),
            sorted_by(entry_views(sorted@), leq),
            entry_views(sorted@).to_multiset() == visible(all, i as int).to_multiset(),
        decreases entries@.len() - i,
    {
        let e = &entries[i];
        assert(all[i as int] == (e.name@, e.is_dir));
        let hidden = match e.name.as_str().chars().next() {
            Some(c) => c == '.',
            None => false,
        };
        if !hidden {
            let mut p: usize = 0;
            while p < sorted.len() && entries_in_order(&sorted[p], e)
                invariant
                    p <= sorted@.len(),
                    forall|k: int| 0 <= k < p ==> tree_order(entry_views(sorted@)[k], (e.name@, e.is_dir)),
                decreases sorted@.len() - p,
            {
                p += 1;
            }
            let ghost before = entry_views(sorted@);
            let ghost x = (e.name@, e.is_dir);
            assert(p < before.len() ==> !leq(before[p as int], x));
            sorted.insert(p, TreeEntry { name: e.name.clone(), is_dir: e.is_dir });
            assert(entry_views(sorted@) =~= before.insert(p as int, x));
            proof {
                vstd::seq_lib::to_multiset_insert(before, p as int, x);
                vstd::seq_lib::to_multiset_build(visible(all, i as int), x);
                if p < before.len() {
                    assert(leq(before[p as int], x) || leq(x, before[p as int]));
                }
                assert forall|a: int, b: int| 0 <= a < b < entry_views(sorted@).len() implies #[trigger] leq(
                    entry_views(sorted@)[a],
                    entry_views(sorted@)[b],
                ) by {
                    let sv = entry_views(sorted@);
                    if b < p {
                        assert(sv[a] == before[a] && sv[b] == before[b]);
                        assert(leq(before[a], before[b]));
                    } else if a < p && b == p {
                        assert(sv[a] == before[a] && sv[b] == x);
                        assert(tree_order(before[a], x));
                    } else if a < p && b > p {
                        assert(sv[a] == before[a] && sv[b] == before[b - 1]);
                        assert(leq(before[a], before[b - 1]));
                    } else if a == p {
                        assert(sv[a] == x && sv[b] == before[b - 1]);
                        assert(leq(x, before[p as int]));
                        if b - 1 > p {
                            assert(leq(before[p as int], before[b - 1]));
                            assert(leq(x, before[b - 1]));
                        }
                    } else {
                        assert(sv[a] == before[a - 1] && sv[b] == before[b - 1]);
                        assert(leq(before[a - 1], before[b - 1]));
                    }
                }
            }
        }
        assert(visible(all, i + 1) == if is_hidden(all[i as int].0) {
            visible(all, i as int)
        } else {
            visible(all, i as int).push(all[i as int])
        });
        i += 1;
    }
    proof {
        assert(all.len() == entries@.len());
        let target = visible(all, all.len() as int);
        target.lemma_sort_by_ensures(leq);
        vstd::seq_lib::lemma_sorted_unique(entry_views(sorted@), target.sort_by(leq), leq);
    }
    sorted
}

/// Line `i` of the `n` lines of a tree level under `prefix`.
pub open spec fn tree_line(prefix: Seq<char>, e: (Seq<char>, bool), last: bool) -> Seq<char> {
    prefix + (if last { "└── "@ } else { "├── "@ }) + e.0
}

/// The prefix of the lines under entry `e` of a tree level, for a
/// directory.
pub open spec fn child_prefix(prefix: Seq<char>, e: (Seq<char>, bool), last: bool) -> Option<Seq<char>> {
    if e.1 {
        Some(prefix + (if last { "    "@ } else { "│   "@ }))
    } else {
        None
    }
}

/// The lines of one level of a directory tree: the visible entries,
/// directories first and then by name, each after `prefix` and a branch
/// (`└── ` for the last, `├── ` for the others); directories also give the
/// prefix of their own level.
pub fn tree_level(prefix: &str, entries: &Vec<TreeEntry>) -> (lines: Vec<TreeLine>)
    ensures
        lines@.len() == listed(entry_views(entries@)).len(),
        forall|i: int| 0 <= i < lines@.len() ==> {
            let es = listed(entry_views(entries@));
            let last = i == es.len() - 1;
            &&& (#[trigger] lines@[i]).line@ == tree_line(prefix@, es[i], last)
            &&& opt_chars(lines@[i].child_prefix) == child_prefix(prefix@, es[i], last)
        },
{
    let sorted = sorted_entries(entries);
    let ghost es = listed(entry_views(entries@));
    let n = sorted.len();
    let mut lines: Vec<TreeLine> = Vec::new();
    let mut i: usize = 0;
    while i < n
        invariant
            n == sorted@.len() == es.len(),
            entry_views(sorted@) == es,
            i <= n,
            lines@.len() == i,
            forall|k: int| 0 <= k < i ==> {
                let last = k == es.len() - 1;
                &&& (#[trigger] lines@[k]).line@ == tree_line(prefix@, es[k], last)
                &&& opt_chars(lines@[k].child_prefix) == child_prefix(prefix@, es[k], last)
            },
        decreases n - i,
    {
        let e = &sorted[i];
        assert(es[i as int] == (e.name@, e.is_dir));
        let last = i == n - 1;
        let mut line = String::from_str(prefix);
        if last {
            line.append("└── ");
        } else {
            line.append("├── ");
        }
        line.append(e.name.as_str());
        let child = if e.is_dir {
            let mut c = String::from_str(prefix);
            if last {
                c.append("    ");
            } else {
                c.append("│   ");
            }
            Some(c)
        } else {
            None
        };
        lines.push(TreeLine { line, child_prefix: child });
        i += 1;
    }
    lines
}

/// The line that ends a tree where it grows too deep.
pub fn depth_limit_line(prefix: &str) -> (s: String)
    ensures
        s@ == prefix@ + "... (max depth reached)"@,
{
    let mut s = String::from_str(prefix);
    s.append("... (max depth reached)");
    s
}

/// The view of an optional string.
pub open spec fn opt_chars(o: Option<String>) -> Option<Seq<char>> {
    match o {
        Some(s) => Some(s@),
        None => None,
    }
}


/// A directory entry with, for a directory, its own entries: a directory
/// tree as read from disk.
#[derive(Debug)]
pub struct DirNode {
    pub name: String,
    pub is_dir: bool,
    pub children: Vec<DirNode>,
}

/// The names and kinds of the nodes.
pub open spec fn node_views(nodes: Seq<DirNode>) -> Seq<(Seq<char>, bool)> {
    nodes.map_values(|n: DirNode| (n.name@, n.is_dir))
}

/// The index of the first directory named `name` among the first `n`
/// nodes.
pub open spec fn first_dir(nodes: Seq<DirNode>, name: Seq<char>, n: int) -> Option<int>
    decreases n,
{
    if n <= 0 {
        None
    } else {
        match first_dir(nodes, name, n - 1) {
            Some(j) => Some(j),
            None => if nodes[n - 1].is_dir && nodes[n - 1].name@ == name {
                Some(n - 1)
            } else {
                None
            },
        }
    }
}

/// The lines of the tree of `nodes` under `prefix`, at `depth`: past
/// `MAX_TREE_DEPTH` only a line saying so; otherwise one level (see
/// `tree_level`), each directory's line followed right away by the lines of
/// its own tree, one level deeper.
pub open spec fn tree_lines_of(prefix: Seq<char>, depth: nat, nodes: Seq<DirNode>) -> Seq<Seq<char>>
    decreases nodes, 1int, 0int,
{
    if depth > MAX_TREE_DEPTH {
        seq![prefix + "... (max depth reached)"@]
    } else {
        let es = listed(node_views(nodes));
        level_lines(prefix, depth, nodes, es, es.len() as int)
    }
}

/// The lines of the first `k` entries `es` of a level of the tree of
/// `nodes` (see `tree_lines_of`).
pub open spec fn level_lines(
    prefix: Seq<char>,
    depth: nat,
    nodes: Seq<DirNode>,
    es: Seq<(Seq<char>, bool)>,
    k: int,
) -> Seq<Seq<char>>
    decreases nodes, 0int, k,
{
    if k <= 0 {
        Seq::empty()
    } else {
        let e = es[k - 1];
        let last = k - 1 == es.len() - 1;
        let head = level_lines(prefix, depth, nodes, es, k - 1).push(tree_line(prefix, e, last));
        match child_prefix(prefix, e, last) {
            Some(p) => match first_dir(nodes, e.0, nodes.len() as int) {
                Some(j) => if 0 <= j < nodes.len() {
                    head + tree_lines_of(p, depth + 1, nodes[j].children@)
                } else {
                    head
                },
                None => head,
            },
            None => head,
        }
    }
}

proof fn lemma_first_dir_found(nodes: Seq<DirNode>, name: Seq<char>, j: int, n: int)
    requires
        0 <= j < n <= nodes.len(),
        first_dir(nodes, name, j) is None,
        nodes[j].is_dir,
        nodes[j].name@ == name,
    ensures
        first_dir(nodes, name, n) == Some(j),
    decreases n,
{
    if n > j + 1 {
        lemma_first_dir_found(nodes, name, j, n - 1);
    }
}

/// Appends to `out` the lines of the tree of `nodes` under `prefix`, at
/// `depth` (see `tree_lines_of`).
pub fn tree_lines(prefix: &str, depth: usize, nodes: &Vec<DirNode>, out: &mut Vec<String>)
    ensures
        views(final(out)@) == views(old(out)@) + tree_lines_of(prefix@, depth as nat, nodes@),
    decreases nodes@,
{
    if depth > MAX_TREE_DEPTH {
        let line = depth_limit_line(prefix);
        out.push(line);
        assert(views(out@) =~= views(old(out)@) + tree_lines_of(prefix@, depth as nat, nodes@));
        return;
    }
    let mut entries: Vec<TreeEntry> = Vec::new();
    let mut m: usize = 0;
    while m < nodes.len()
        invariant
            m <= nodes@.len(),
            entries@.len() == m,
            entry_views(entries@) == node_views(nodes@).take(m as int),
        decreases nodes@.len() - m,
    {
        let ghost prev = entries@;
        let name = nodes[m].name.clone();
        entries.push(TreeEntry { name, is_dir: nodes[m].is_dir });
        assert(entries@ == prev.push(TreeEntry { name, is_dir: nodes@[m as int].is_dir }));
        assert forall|i: int| 0 <= i <= m implies #[trigger] entry_views(entries@)[i] == node_views(nodes@).take(m + 1)[i] by {
            if i < m {
                assert(entries@[i] == prev[i]);
                assert(entry_views(prev)[i] == node_views(nodes@).take(m as int)[i]);
            }
        }
        assert(entry_views(entries@) =~= node_views(nodes@).take(m + 1));
        m += 1;
    }
    assert(node_views(nodes@).take(nodes@.len() as int) =~= node_views(nodes@));
    let sorted = sorted_entries(&entries);
    let level = tree_level(prefix, &entries);
    let ghost es = listed(node_views(nodes@));
    let ghost start = views(out@);
    let n = level.len();
    let mut k: usize = 0;
    while k < n
        invariant
            n == level@.len() == es.len() == sorted@.len(),
            entry_views(sorted@) == es,
            es == listed(entry_views(entries@)),
            k <= n,
            depth <= MAX_TREE_DEPTH,
            forall|i: int| 0 <= i < level@.len() ==> {
                let last = i == es.len() - 1;
                &&& (#[trigger] level@[i]).line@ == tree_line(prefix@, es[i], last)
                &&& opt_chars(level@[i].child_prefix) == child_prefix(prefix@, es[i], last)
            },
            views(out@) == start + level_lines(prefix@, depth as nat, nodes@, es, k as int),
        decreases n - k,
    {
        let ghost before = views(out@);
        out.push(level[k].line.clone());
        assert(views(out@) =~= before.push(level@[k as int].line@));
        match &level[k].child_prefix {
            Some(p) => {
                let name = &sorted[k].name;
                assert(es[k as int] == (sorted@[k as int].name@, sorted@[k as int].is_dir));
                let mut j: usize = 0;
                let mut found = false;
                while j < nodes.len() && !found
                    invariant_except_break
                        j <= nodes@.len(),
                        first_dir(nodes@, name@, j as int) is None,
                        !found,
                    ensures
                        found ==> j < nodes@.len() && first_dir(nodes@, name@, nodes@.len() as int) == Some(j as int),
                        !found ==> first_dir(nodes@, name@, nodes@.len() as int) is None,
                    decreases nodes@.len() - j,
                {
                    if nodes[j].is_dir && same_text(nodes[j].name.as_str(), name.as_str()) {
                        proof {
                            lemma_first_dir_found(nodes@, name@, j as int, nodes@.len() as int);
                        }
                        found = true;
                        break;
                    }
                    j += 1;
                }
                if found {
                    let ghost mid = views(out@);
                    assert(decreases_to!(nodes@ => nodes@[j as int]));
                    tree_lines(p.as_str(), depth + 1, &nodes[j].children, out);
                    assert(views(out@) =~= mid + tree_lines_of(p@, (depth + 1) as nat, nodes@[j as int].children@));
                }
            },
            None => {},
        }
        assert(views(out@) =~= start + level_lines(prefix@, depth as nat, nodes@, es, k + 1));
        k += 1;
    }
}


/// The lines of the directory tree of a directory named `root` with
/// entries `nodes`: the name, then its tree under a two-space prefix at
/// depth 1.
pub fn directory_tree_lines(root: &str, nodes: &Vec<DirNode>) -> (lines: Vec<String>)
    ensures
        views(lines@) == seq![root@] + tree_lines_of("  "@, 1, nodes@),
{
    let mut lines: Vec<String> = Vec::new();
    lines.push(String::from_str(root));
    assert(views(lines@) =~= seq![root@]);
    tree_lines("  ", 1, nodes, &mut lines);
    lines
}

} // verus!
