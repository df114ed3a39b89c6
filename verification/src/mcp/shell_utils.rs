//! Finding the user's login shell in what the system reports: the entries
//! of the password database, or the output of `dscl` on macOS.

use crate::mcp::file_utils::{contains_text, lines_of, split_lines};
use crate::text::{chars_of, string_of, string_of_range, trim_seq, trim_string, views};
use vstd::prelude::*;

verus! {

/// The pieces of `rest` between `sep`s, when `cur` has already been read
/// into the piece under way (`str::split` on a character: there is always
/// one more piece than separators).
pub open spec fn pieces_from(cur: Seq<char>, rest: Seq<char>, sep: char) -> Seq<Seq<char>>
    decreases rest.len(),
{
    if rest.len() == 0 {
        seq![cur]
    } else if rest[0] == sep {
        seq![cur] + pieces_from(seq![], rest.drop_first(), sep)
    } else {
        pieces_from(cur.push(rest[0]), rest.drop_first(), sep)
    }
}

/// `s.split(sep)`.
pub open spec fn pieces(s: Seq<char>, sep: char) -> Seq<Seq<char>> {
    pieces_from(seq![], s, sep)
}

/// Splits `s` at every `sep`.
pub fn split_at_char(s: &str, sep: char) -> (ps: Vec<String>)
    ensures
        views(ps@) == pieces(s@, sep),
{
    let cs = chars_of(s);
    let n = cs.len();
    let mut ps: Vec<String> = Vec::new();
    let mut start: usize = 0;
    let mut i: usize = 0;
    assert(cs@.skip(0) =~= cs@);
    assert(cs@.subrange(0, 0) =~= Seq::<char>::empty());
    assert(views(ps@) + pieces_from(seq![], cs@, sep) =~= pieces_from(seq![], cs@, sep));
    while i < n
        invariant
            start <= i <= n == cs@.len(),
            cs@ == s@,
            views(ps@) + pieces_from(cs@.subrange(start as int, i as int), cs@.skip(i as int), sep) == pieces(s@, sep),
        decreases n - i,
    {
        let c = cs[i];
        let ghost rest = cs@.skip(i as int);
        assert(rest[0] == c);
        assert(rest.drop_first() =~= cs@.skip(i + 1));
        if c == sep {
            let piece = string_of_range(&cs, start, i);
            let ghost old_ps = ps@;
            ps.push(piece);
            assert(views(ps@) =~= views(old_ps).push(piece@));
            start = i + 1;
            assert(cs@.subrange(start as int, i + 1) =~= Seq::<char>::empty());
            assert(views(old_ps) + (seq![piece@] + pieces_from(seq![], cs@.skip(i + 1), sep))
                =~= views(ps@) + pieces_from(seq![], cs@.skip(i + 1), sep));
        } else {
            assert(cs@.subrange(start as int, i as int).push(c) =~= cs@.subrange(start as int, i + 1));
        }
        i += 1;
    }
    let piece = string_of_range(&cs, start, n);
    let ghost old_ps = ps@;
    ps.push(piece);
    assert(views(ps@) =~= views(old_ps).push(piece@));
    ps
}

/// The login shell that a password database line gives for `user`: its
/// seventh `:`-separated field, when the line has at least seven and its
/// first is `user`.
pub open spec fn passwd_entry_shell(line: Seq<char>, user: Seq<char>) -> Option<Seq<char>> {
    let fs = pieces(line, ':');
    if fs.len() >= 7 && fs[0] == user {
        Some(fs[6])
    } else {
        None
    }
}

/// The login shell of `user` in one password database line, if the line
/// is theirs.
pub fn passwd_shell(line: &str, user: &str) -> (r: Option<String>)
    ensures
        match r {
            Some(s) => passwd_entry_shell(line@, user@) == Some(s@),
            None => passwd_entry_shell(line@, user@) is None,
        },
{
    let fields = split_at_char(line, ':');
    if fields.len() >= 7 {
        assert(views(fields@)[0] == fields@[0]@);
        assert(views(fields@)[6] == fields@[6]@);
        let first = chars_of(fields[0].as_str());
        let wanted = chars_of(user);
        if seq_equal(&first, &wanted) {
            return Some(fields[6].clone());
        }
    }
    None
}

/// Whether `a` and `b` hold the same characters.
fn seq_equal(a: &Vec<char>, b: &Vec<char>) -> (r: bool)
    ensures
        r == (a@ == b@),
{
    if a.len() != b.len() {
        return false;
    }
    let mut i: usize = 0;
    while i < a.len()
        invariant
            a@.len() == b@.len(),
            i <= a@.len(),
            forall|k: int| 0 <= k < i ==> a@[k] == b@[k],
        decreases a@.len() - i,
    {
        if a[i] != b[i] {
            return false;
        }
        i += 1;
    }
    assert(a@ =~= b@);
    true
}

/// The login shells that the lines of a password database give for
/// `user`, in order; the first of them that exists on disk is the user's
/// shell.
pub open spec fn passwd_candidates(passwd: Seq<char>, user: Seq<char>, n: int) -> Seq<Seq<char>>
    decreases n,
{
    if n <= 0 {
        Seq::empty()
    } else {
        match passwd_entry_shell(lines_of(passwd)[n - 1], user) {
            Some(s) => passwd_candidates(passwd, user, n - 1).push(s),
            None => passwd_candidates(passwd, user, n - 1),
        }
    }
}

/// The login shells listed for `user` in the password database `passwd`
/// (see `passwd_candidates`).
pub fn passwd_shells(passwd: &str, user: &str) -> (shells: Vec<String>)
    ensures
        views(shells@) == passwd_candidates(passwd@, user@, lines_of(passwd@).len() as int),
{
    let lines = split_lines(passwd);
    let mut shells: Vec<String> = Vec::new();
    let mut i: usize = 0;
    while i < lines.len()
        invariant
            i <= lines@.len(),
            views(lines@) == lines_of(passwd@),
            views(shells@) == passwd_candidates(passwd@, user@, i as int),
        decreases lines@.len() - i,
    {
        assert(views(lines@)[i as int] == lines@[i as int]@);
        match passwd_shell(lines[i].as_str(), user) {
            Some(s) => {
                let ghost before = shells@;
                shells.push(s);
                assert(views(shells@) =~= views(before).push(shells@.last()@));
            },
            None => {},
        }
        i += 1;
    }
    shells
}

/// `s` without every leading copy of a non-empty `p`
/// (`str::trim_start_matches`).
pub open spec fn strip_prefixes(s: Seq<char>, p: Seq<char>) -> Seq<char>
    decreases s.len(),
{
    if p.len() > 0 && p.len() <= s.len() && s.take(p.len() as int) == p {
        strip_prefixes(s.skip(p.len() as int), p)
    } else {
        s
    }
}

/// The index of the first of the first `n` lines that contains
/// `UserShell:`, if any.
pub open spec fn first_user_shell_line(ls: Seq<Seq<char>>, n: int) -> Option<int>
    decreases n,
{
    if n <= 0 {
        None
    } else {
        match first_user_shell_line(ls, n - 1) {
            Some(k) => Some(k),
            None => if contains_text(ls[n - 1], "UserShell:"@) {
                Some(n - 1)
            } else {
                None
            },
        }
    }
}

/// The shell that `dscl . -read /Users/<user> UserShell` reports in its
/// output: the first line naming `UserShell:`, without its leading
/// `UserShell: ` labels and surrounding white space.
pub open spec fn dscl_user_shell(output: Seq<char>) -> Option<Seq<char>> {
    let ls = lines_of(output);
    match first_user_shell_line(ls, ls.len() as int) {
        Some(k) => Some(trim_seq(strip_prefixes(ls[k], "UserShell: "@))),
        None => None,
    }
}

proof fn lemma_first_line_stays(ls: Seq<Seq<char>>, k: int, n: int)
    requires
        0 <= k < n <= ls.len(),
        first_user_shell_line(ls, k) is None,
        contains_text(ls[k], "UserShell:"@),
    ensures
        first_user_shell_line(ls, n) == Some(k),
    decreases n - k,
{
    if n > k + 1 {
        lemma_first_line_stays(ls, k, n - 1);
    }
}

/// The shell named in the output of `dscl` (see `dscl_user_shell`).
pub fn dscl_shell(output: &str) -> (r: Option<String>)
    ensures
        match r {
            Some(s) => dscl_user_shell(output@) == Some(s@),
            None => dscl_user_shell(output@) is None,
        },
{
    let lines = split_lines(output);
    let label = chars_of("UserShell:");
    let prefix = chars_of("UserShell: ");
    proof {
        reveal_strlit("UserShell: ");
    }
    let mut i: usize = 0;
    while i < lines.len()
        invariant
            i <= lines@.len(),
            views(lines@) == lines_of(output@),
            label@ == "UserShell:"@,
            prefix@ == "UserShell: "@,
            prefix@.len() > 0,
            first_user_shell_line(lines_of(output@), i as int) is None,
        decreases lines@.len() - i,
    {
        assert(views(lines@)[i as int] == lines@[i as int]@);
        let cs = chars_of(lines[i].as_str());
        if crate::mcp::file_utils::contains_text_exec(&cs, &label) {
            proof {
                lemma_first_line_stays(lines_of(output@), i as int, lines@.len() as int);
            }
            let rest = strip_all_prefixes(&cs, &prefix);
            let text = string_of(&rest);
            return Some(trim_string(text.as_str()));
        }
        i += 1;
    }
    None
}

/// `s` without every leading copy of `p` (see `strip_prefixes`).
fn strip_all_prefixes(s: &Vec<char>, p: &Vec<char>) -> (r: Vec<char>)
    requires
        p@.len() > 0,
    ensures
        r@ == strip_prefixes(s@, p@),
{
    let mut i: usize = 0;
    let n = s.len();
    assert(s@.skip(0) =~= s@);
    while crate::mcp::file_utils::starts_with_at(s, p, i)
        invariant
            n == s@.len(),
            i <= s@.len(),
            p@.len() > 0,
            strip_prefixes(s@, p@) == strip_prefixes(s@.skip(i as int), p@),
        decreases s@.len() - i,
    {
        assert(s@.skip(i as int).take(p@.len() as int) =~= s@.subrange(i as int, i + p@.len()));
        assert(s@.skip(i as int).skip(p@.len() as int) =~= s@.skip(i + p@.len()));
        i = i + p.len();
    }
    proof {
        if s@.skip(i as int).len() >= p@.len() {
            assert(s@.skip(i as int).take(p@.len() as int) =~= s@.subrange(i as int, i + p@.len()));
        }
    }
    let mut r: Vec<char> = Vec::new();
    let mut k = i;
    while k < s.len()
        invariant
            i <= k <= s@.len(),
            r@ == s@.subrange(i as int, k as int),
        decreases s@.len() - k,
    {
        r.push(s[k]);
        assert(s@.subrange(i as int, k + 1) =~= s@.subrange(i as int, k as int).push(s@[k as int]));
        k += 1;
    }
    assert(s@.subrange(i as int, s@.len() as int) =~= s@.skip(i as int));
    r
}

} // verus!
