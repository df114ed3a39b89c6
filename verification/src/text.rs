//! Character-level helpers on strings, stated over `Seq<char>`.

use vstd::prelude::*;
use vstd::std_specs::iter::IteratorSpec;

verus! {

broadcast use vstd::string::group_string_axioms;

/// Unicode `White_Space`, the property that `char::is_whitespace` tests.
pub open spec fn is_ws(c: char) -> bool {
    let n = c as u32;
    ||| (0x9 <= n && n <= 0xd)
    ||| n == 0x20
    ||| n == 0x85
    ||| n == 0xa0
    ||| n == 0x1680
    ||| (0x2000 <= n && n <= 0x200a)
    ||| n == 0x2028
    ||| n == 0x2029
    ||| n == 0x202f
    ||| n == 0x205f
    ||| n == 0x3000
}

/// Whether `c` is Unicode white space.
pub fn is_whitespace(c: char) -> (b: bool)
    ensures
        b == is_ws(c),
{
    let n = c as u32;
    (0x9 <= n && n <= 0xd) || n == 0x20 || n == 0x85 || n == 0xa0 || n == 0x1680 || (0x2000 <= n
        && n <= 0x200a) || n == 0x2028 || n == 0x2029 || n == 0x202f || n == 0x205f || n == 0x3000
}

/// The characters of `s`, in order.
pub fn chars_of(s: &str) -> (v: Vec<char>)
    ensures
        v@ == s@,
{
    let mut it = s.chars();
    let mut v: Vec<char> = Vec::new();
    loop
        invariant
            v@ + it.remaining() == s@,
            it.decrease() is Some,
        decreases it.decrease()->0,
    {
        match it.next() {
            Some(c) => {
                v.push(c);
            },
            None => {
                return v;
            },
        }
    }
}

} // verus!

verus! {

/// Calls `String::push`, which appends one character to the string.
#[verifier::external_body]
pub(crate) fn push_char(s: &mut String, c: char)
    ensures
        final(s)@ == old(s)@.push(c),
{
    s.push(c);
}

/// The views of a sequence of strings.
pub open spec fn views(v: Seq<String>) -> Seq<Seq<char>> {
    v.map_values(|w: String| w@)
}

/// The string made of `cs[lo..hi]`.
pub fn string_of_range(cs: &Vec<char>, lo: usize, hi: usize) -> (s: String)
    requires
        lo <= hi <= cs@.len(),
    ensures
        s@ == cs@.subrange(lo as int, hi as int),
{
    let mut s = String::new();
    let mut i = lo;
    while i < hi
        invariant
            lo <= i <= hi <= cs@.len(),
            s@ == cs@.subrange(lo as int, i as int),
        decreases hi - i,
    {
        push_char(&mut s, cs[i]);
        assert(cs@.subrange(lo as int, i + 1) == cs@.subrange(lo as int, i as int).push(cs@[i as int]));
        i += 1;
    }
    s
}

/// The string made of all of `cs`.
pub fn string_of(cs: &Vec<char>) -> (s: String)
    ensures
        s@ == cs@,
{
    let s = string_of_range(cs, 0, cs.len());
    assert(cs@.subrange(0, cs@.len() as int) == cs@);
    s
}

/// `s` without its leading white space (`str::trim_start`).
pub open spec fn trim_start_seq(s: Seq<char>) -> Seq<char>
    decreases s.len(),
{
    if s.len() > 0 && is_ws(s[0]) {
        trim_start_seq(s.drop_first())
    } else {
        s
    }
}

/// `s` without its trailing white space (`str::trim_end`).
pub open spec fn trim_end_seq(s: Seq<char>) -> Seq<char>
    decreases s.len(),
{
    if s.len() > 0 && is_ws(s.last()) {
        trim_end_seq(s.drop_last())
    } else {
        s
    }
}

/// `s` without leading and trailing white space (`str::trim`).
pub open spec fn trim_seq(s: Seq<char>) -> Seq<char> {
    trim_end_seq(trim_start_seq(s))
}

proof fn lemma_trim_start_skip(s: Seq<char>, i: int)
    requires
        0 <= i <= s.len(),
        forall|k: int| 0 <= k < i ==> is_ws(#[trigger] s[k]),
        i == s.len() || !is_ws(s[i]),
    ensures
        trim_start_seq(s) == s.skip(i),
    decreases i,
{
    if i == 0 {
        assert(s.skip(0) =~= s);
    } else {
        let t = s.drop_first();
        assert forall|k: int| 0 <= k < i - 1 implies is_ws(#[trigger] t[k]) by {
            assert(t[k] == s[k + 1]);
        }
        lemma_trim_start_skip(t, i - 1);
        assert(t.skip(i - 1) =~= s.skip(i));
    }
}

proof fn lemma_trim_end_take(s: Seq<char>, j: int)
    requires
        0 <= j <= s.len(),
        forall|k: int| j <= k < s.len() ==> is_ws(#[trigger] s[k]),
        j == 0 || !is_ws(s[j - 1]),
    ensures
        trim_end_seq(s) == s.take(j),
    decreases s.len() - j,
{
    if j == s.len() {
        assert(s.take(j) =~= s);
    } else {
        let t = s.drop_last();
        assert forall|k: int| j <= k < t.len() implies is_ws(#[trigger] t[k]) by {
            assert(t[k] == s[k]);
        }
        if j > 0 {
            assert(t[j - 1] == s[j - 1]);
        }
        lemma_trim_end_take(t, j);
        assert(t.take(j) =~= s.take(j));
    }
}

/// The string `cs` with leading and trailing white space removed.
pub fn trim_chars(cs: &Vec<char>) -> (s: String)
    ensures
        s@ == trim_seq(cs@),
{
    let n = cs.len();
    let mut i: usize = 0;
    while i < n && is_whitespace(cs[i])
        invariant
            i <= n == cs@.len(),
            forall|k: int| 0 <= k < i ==> is_ws(#[trigger] cs@[k]),
        decreases n - i,
    {
        i += 1;
    }
    let mut j: usize = n;
    while j > i && is_whitespace(cs[j - 1])
        invariant
            i <= j <= n == cs@.len(),
            forall|k: int| j <= k < n ==> is_ws(#[trigger] cs@[k]),
        decreases j,
    {
        j -= 1;
    }
    proof {
        lemma_trim_start_skip(cs@, i as int);
        let t = cs@.skip(i as int);
        assert forall|k: int| j - i <= k < t.len() implies is_ws(#[trigger] t[k]) by {
            assert(t[k] == cs@[k + i]);
        }
        if j > i {
            assert(t[j - i - 1] == cs@[j - 1]);
        }
        lemma_trim_end_take(t, j - i);
        assert(t.take(j - i) =~= cs@.subrange(i as int, j as int));
    }
    string_of_range(cs, i, j)
}

/// `s` with leading and trailing white space removed.
pub fn trim_string(s: &str) -> (r: String)
    ensures
        r@ == trim_seq(s@),
{
    let cs = chars_of(s);
    trim_chars(&cs)
}

/// The separators of `split_inclusive([' ', '\n'])`.
pub open spec fn is_word_sep(c: char) -> bool {
    c == ' ' || c == '\n'
}

/// The pieces that `split_inclusive([' ', '\n'])` yields for `rest`, when
/// `cur` has already been read into the piece under way.
pub open spec fn words_from(cur: Seq<char>, rest: Seq<char>) -> Seq<Seq<char>>
    decreases rest.len(),
{
    if rest.len() == 0 {
        if cur.len() == 0 {
            seq![]
        } else {
            seq![cur]
        }
    } else if is_word_sep(rest[0]) {
        seq![cur.push(rest[0])] + words_from(seq![], rest.drop_first())
    } else {
        words_from(cur.push(rest[0]), rest.drop_first())
    }
}

/// `s.split_inclusive([' ', '\n'])`: the pieces of `s`, each ending after a
/// space or a newline, the last one possibly without one; none is empty.
pub open spec fn words_of(s: Seq<char>) -> Seq<Seq<char>> {
    words_from(seq![], s)
}

/// Splits `s` after every space and newline.
pub fn split_words(s: &str) -> (ws: Vec<String>)
    ensures
        views(ws@) == words_of(s@),
{
    let cs = chars_of(s);
    let n = cs.len();
    let mut ws: Vec<String> = Vec::new();
    let mut cur = String::new();
    let mut i: usize = 0;
    assert(cs@.skip(0) =~= cs@);
    assert(views(ws@) + words_from(cur@, cs@) =~= words_from(cur@, cs@));
    while i < n
        invariant
            i <= n == cs@.len(),
            cs@ == s@,
            views(ws@) + words_from(cur@, cs@.skip(i as int)) == words_of(s@),
        decreases n - i,
    {
        let c = cs[i];
        let ghost rest = cs@.skip(i as int);
        assert(rest[0] == c);
        assert(rest.drop_first() =~= cs@.skip(i + 1));
        push_char(&mut cur, c);
        if c == ' ' || c == '\n' {
            let ghost old_ws = ws@;
            ws.push(cur);
            cur = String::new();
            assert(views(ws@) =~= views(old_ws).push(ws@.last()@));
            assert(views(old_ws) + seq![ws@.last()@] + words_from(seq![], cs@.skip(i + 1))
                =~= views(ws@) + words_from(cur@, cs@.skip(i + 1)));
        }
        i += 1;
    }
    assert(cs@.skip(n as int).len() == 0);
    if cur.as_str().unicode_len() > 0 {
        let ghost old_ws = ws@;
        ws.push(cur);
        assert(views(ws@) =~= views(old_ws).push(ws@.last()@));
    } else {
        assert(views(ws@) + seq![] =~= views(ws@));
    }
    ws
}

/// The last character of `s`, if any.
pub fn last_char(s: &String) -> (c: Option<char>)
    ensures
        c == (if s@.len() == 0 { None } else { Some(s@.last()) }),
{
    let n = s.as_str().unicode_len();
    if n == 0 {
        None
    } else {
        Some(s.as_str().get_char(n - 1))
    }
}

/// Whether `s` ends with the two characters `a` then `b`.
pub fn ends_with_pair(s: &String, a: char, b: char) -> (r: bool)
    ensures
        r == (s@.len() >= 2 && s@[s@.len() - 2] == a && s@.last() == b),
{
    let n = s.as_str().unicode_len();
    if n < 2 {
        false
    } else {
        s.as_str().get_char(n - 2) == a && s.as_str().get_char(n - 1) == b
    }
}

} // verus!

verus! {

/// `s` without leading and trailing copies of `c` (`str::trim_matches(c)`).
pub open spec fn trim_char_seq(s: Seq<char>, c: char) -> Seq<char>
    decreases s.len(),
{
    if s.len() > 0 && s[0] == c {
        trim_char_seq(s.drop_first(), c)
    } else if s.len() > 0 && s.last() == c {
        trim_char_seq(s.drop_last(), c)
    } else {
        s
    }
}

proof fn lemma_trim_char_range(s: Seq<char>, c: char, i: int, j: int)
    requires
        0 <= i <= j <= s.len(),
        forall|k: int| 0 <= k < i ==> #[trigger] s[k] == c,
        forall|k: int| j <= k < s.len() ==> #[trigger] s[k] == c,
        i == j || (s[i] != c && s[j - 1] != c),
    ensures
        trim_char_seq(s, c) == s.subrange(i, j),
    decreases s.len(),
{
    if s.len() > 0 && s[0] == c {
        let t = s.drop_first();
        if i == 0 {
            // then i == j, all of s is c? no: i == j == 0 means every k >= 0 is c
            assert(forall|k: int| 0 <= k < t.len() ==> #[trigger] t[k] == s[k + 1]);
            lemma_trim_char_range(t, c, 0, 0);
            assert(s.subrange(0, 0) =~= t.subrange(0, 0));
        } else {
            assert forall|k: int| 0 <= k < i - 1 implies #[trigger] t[k] == c by {
                assert(t[k] == s[k + 1]);
            }
            assert forall|k: int| j - 1 <= k < t.len() implies #[trigger] t[k] == c by {
                assert(t[k] == s[k + 1]);
            }
            if i != j {
                assert(t[i - 1] == s[i] && t[j - 2] == s[j - 1]);
            }
            lemma_trim_char_range(t, c, i - 1, j - 1);
            assert(t.subrange(i - 1, j - 1) =~= s.subrange(i, j));
        }
    } else if s.len() > 0 && s.last() == c {
        let t = s.drop_last();
        assert(i == 0);
        if j == s.len() {
            assert(i == j);
        }
        let jj = if j == s.len() { j - 1 } else { j };
        assert forall|k: int| jj <= k < t.len() implies #[trigger] t[k] == c by {
            assert(t[k] == s[k]);
        }
        if i != jj {
            assert(t[i] == s[i] && t[jj - 1] == s[jj - 1]);
        }
        lemma_trim_char_range(t, c, i, jj);
        assert(t.subrange(i, jj) =~= s.subrange(i, j));
    } else {
        if s.len() > 0 {
            assert(i == 0);
            assert(j == s.len());
        } else {
            assert(i == 0 && j == 0);
        }
        assert(s.subrange(i, j) =~= s);
    }
}

/// The bounds of `s.trim_matches(c)` within `s`.
pub fn trim_char_bounds(s: &Vec<char>, c: char) -> (r: (usize, usize))
    ensures
        r.0 <= r.1 <= s@.len(),
        trim_char_seq(s@, c) == s@.subrange(r.0 as int, r.1 as int),
{
    let n = s.len();
    let mut i: usize = 0;
    while i < n && s[i] == c
        invariant
            i <= n == s@.len(),
            forall|k: int| 0 <= k < i ==> #[trigger] s@[k] == c,
        decreases n - i,
    {
        i += 1;
    }
    let mut j: usize = n;
    while j > i && s[j - 1] == c
        invariant
            i <= j <= n == s@.len(),
            forall|k: int| j <= k < n ==> #[trigger] s@[k] == c,
        decreases j,
    {
        j -= 1;
    }
    proof {
        if i == n {
            assert(j == i);
        }
        lemma_trim_char_range(s@, c, i as int, j as int);
    }
    (i, j)
}

/// The decimal digit for `d` (below ten).
pub open spec fn digit(d: nat) -> char {
    if d == 0 { '0' } else if d == 1 { '1' } else if d == 2 { '2' } else if d == 3 { '3' }
    else if d == 4 { '4' } else if d == 5 { '5' } else if d == 6 { '6' } else if d == 7 { '7' }
    else if d == 8 { '8' } else { '9' }
}

/// The decimal notation of `n`, without leading zeros.
pub open spec fn decimal(n: nat) -> Seq<char>
    decreases n,
{
    if n < 10 {
        seq![digit(n)]
    } else {
        decimal(n / 10).push(digit(n % 10))
    }
}

fn digit_char(d: u64) -> (c: char)
    requires
        d < 10,
    ensures
        c == digit(d as nat),
{
    if d == 0 { '0' } else if d == 1 { '1' } else if d == 2 { '2' } else if d == 3 { '3' }
    else if d == 4 { '4' } else if d == 5 { '5' } else if d == 6 { '6' } else if d == 7 { '7' }
    else if d == 8 { '8' } else { '9' }
}

/// Appends the decimal notation of `n` to `s`.
pub fn push_decimal(s: &mut String, n: u64)
    ensures
        final(s)@ == old(s)@ + decimal(n as nat),
    decreases n,
{
    if n >= 10 {
        push_decimal(s, n / 10);
    }
    let c = digit_char(n % 10);
    push_char(s, c);
    if n < 10 {
        assert(decimal(n as nat) == seq![digit(n as nat)]);
        assert(old(s)@ + decimal(n as nat) =~= old(s)@.push(c));
    } else {
        assert(old(s)@ + decimal(n as nat) =~= (old(s)@ + decimal((n / 10) as nat)).push(c));
    }
}

/// The decimal notation of `n` (what `format!("{}", n)` writes).
pub fn decimal_string(n: u64) -> (s: String)
    ensures
        s@ == decimal(n as nat),
{
    let mut s = String::new();
    push_decimal(&mut s, n);
    assert(Seq::<char>::empty() + decimal(n as nat) =~= decimal(n as nat));
    s
}

/// `n` copies of `unit` one after another.
pub open spec fn repeated(unit: Seq<char>, n: nat) -> Seq<char>
    decreases n,
{
    if n == 0 { Seq::empty() } else { repeated(unit, (n - 1) as nat) + unit }
}

/// Appends `n` copies of `unit` to `s` (what `str::repeat` gives).
pub fn push_repeated(s: &mut String, unit: &str, n: usize)
    ensures
        final(s)@ == old(s)@ + repeated(unit@, n as nat),
{
    let mut i: usize = 0;
    assert(old(s)@ + repeated(unit@, 0) =~= old(s)@);
    while i < n
        invariant
            i <= n,
            s@ == old(s)@ + repeated(unit@, i as nat),
        decreases n - i,
    {
        s.append(unit);
        assert(old(s)@ + repeated(unit@, (i + 1) as nat) =~= old(s)@ + repeated(unit@, i as nat) + unit@);
        i += 1;
    }
}

/// Whether `a` and `b` hold the same characters.
pub fn same_text(a: &str, b: &str) -> (r: bool)
    ensures
        r == (a@ == b@),
{
    let x = chars_of(a);
    let y = chars_of(b);
    if x.len() != y.len() {
        return false;
    }
    let mut i: usize = 0;
    while i < x.len()
        invariant
            x@ == a@,
            y@ == b@,
            x@.len() == y@.len(),
            i <= x@.len(),
            forall|k: int| 0 <= k < i ==> x@[k] == y@[k],
        decreases x@.len() - i,
    {
        if x[i] != y[i] {
            return false;
        }
        i += 1;
    }
    assert(x@ =~= y@);
    true
}

/// `s` begins with `prefix`.
pub open spec fn starts_with(s: Seq<char>, prefix: Seq<char>) -> bool {
    s.len() >= prefix.len() && s.take(prefix.len() as int) == prefix
}

} // verus!
