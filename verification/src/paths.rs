//! Filesystem paths as sequences of components.

use crate::text::views;
use vstd::prelude::*;

verus! {

/// The pieces of `p` between `/` separators, in order (one empty piece for
/// the empty path).
pub open spec fn slash_pieces(p: Seq<char>) -> Seq<Seq<char>>
    decreases p.len(),
{
    if p.len() == 0 {
        seq![Seq::<char>::empty()]
    } else {
        let rest = slash_pieces(p.drop_last());
        if p.last() == '/' {
            rest.push(Seq::<char>::empty())
        } else {
            rest.update(rest.len() - 1, rest.last().push(p.last()))
        }
    }
}

/// The components of path `p` on Unix, as `std::path::Path::components`
/// yields them, each written as text: the root `/` when `p` starts with a
/// separator, else `.` when its first piece is `.`; then every piece that
/// is neither empty nor `.` (repeated and trailing separators, and inner
/// `.` pieces, are normalized away; `..` is kept).
pub open spec fn path_components_of(p: Seq<char>) -> Seq<Seq<char>> {
    let pieces = slash_pieces(p);
    let lead = if p.len() > 0 && p[0] == '/' {
        seq!["/"@]
    } else if pieces[0] == "."@ {
        seq!["."@]
    } else {
        Seq::<Seq<char>>::empty()
    };
    lead + pieces.filter(|piece: Seq<char>| piece.len() > 0 && piece != "."@)
}

/// Splits `p` with `std::path::Path::components` and writes each component
/// as text. The contract states the split as the standard library
/// documents it for Unix paths (see `path_components_of`).
#[verifier::external_body]
pub fn path_components(p: &str) -> (v: Vec<String>)
    ensures
        views(v@) == path_components_of(p@),
{
    std::path::Path::new(p).components().map(|c| c.as_os_str().to_string_lossy().into_owned()).collect()
}

/// `a` is a prefix of `b`.
pub open spec fn is_prefix_of(a: Seq<Seq<char>>, b: Seq<Seq<char>>) -> bool {
    a.len() <= b.len() && b.take(a.len() as int) == a
}

/// `path` lies under `base`, as `Path::starts_with` decides: the components
/// of `base` begin the components of `path`.
pub open spec fn path_under(path: Seq<char>, base: Seq<char>) -> bool {
    is_prefix_of(path_components_of(base), path_components_of(path))
}

/// Whether `path` lies under `base` (see `path_under`).
pub fn path_starts_with(path: &str, base: &str) -> (r: bool)
    ensures
        r == path_under(path@, base@),
{
    let pc = path_components(path);
    let bc = path_components(base);
    if bc.len() > pc.len() {
        return false;
    }
    let mut i: usize = 0;
    while i < bc.len()
        invariant
            i <= bc@.len() <= pc@.len(),
            views(pc@) == path_components_of(path@),
            views(bc@) == path_components_of(base@),
            views(pc@).take(i as int) == views(bc@).take(i as int),
        decreases bc@.len() - i,
    {
        if pc[i] != bc[i] {
            assert(views(pc@).take(bc@.len() as int)[i as int] == pc@[i as int]@);
            return false;
        }
        assert(views(pc@).take(i + 1) =~= views(pc@).take(i as int).push(pc@[i as int]@));
        assert(views(bc@).take(i + 1) =~= views(bc@).take(i as int).push(bc@[i as int]@));
        i += 1;
    }
    assert(views(bc@).take(bc@.len() as int) =~= views(bc@));
    true
}

} // verus!
