//! Windows path arithmetic as `std::path` does it: whether a path has a
//! root, whether it is absolute, and joining a path onto a base.

use vstd::prelude::*;

use crate::session::{
    components, is_sep, path_components, path_prefix, prefix_len, prefix_of, seqs_view,
    verbatim_path, PrefixKind,
};
use crate::text::{chars_eq_str, copy_range, push_all};

verus! {

/// `Path::has_root`: a separator right after the prefix, or a prefix other
/// than a drive (those imply a root).
pub open spec fn has_root(p: Seq<char>) -> bool {
    match path_prefix(p) {
        Some((k, l)) => k != PrefixKind::Disk || (l < p.len() && is_sep(p[l])),
        None => p.len() > 0 && is_sep(p[0]),
    }
}

/// `Path::is_absolute`: a prefix and a root.
pub open spec fn is_absolute(p: Seq<char>) -> bool {
    path_prefix(p) is Some && has_root(p)
}

/// Whether joining onto `base` puts a separator first: `base` does not
/// end in one, and is neither empty nor a bare drive such as `C:`.
pub open spec fn needs_sep(base: Seq<char>) -> bool {
    &&& base.len() > 0
    &&& !is_sep(base.last())
    &&& path_prefix(base) != Some((PrefixKind::Disk, base.len() as int))
}

/// A root among the components that a verbatim join rebuilds.
pub open spec fn root_comp() -> Seq<char> {
    "\\"@
}

/// A component that names something (not a root, `.` or `..`).
pub open spec fn is_normal(c: Seq<char>) -> bool {
    c != root_comp() && c != "."@ && c != ".."@
}

/// The components of a verbatim base after its prefix: its root, if any,
/// then its pieces.
pub open spec fn base_comps(base: Seq<char>) -> Seq<Seq<char>> {
    (if prefix_len(base) < base.len() {
        seq![root_comp()]
    } else {
        Seq::empty()
    }) + path_components(base)
}

/// The components of a path without a prefix: its root, if any, then its
/// pieces.
pub open spec fn rel_comps(p: Seq<char>) -> Seq<Seq<char>> {
    (if p.len() > 0 && is_sep(p[0]) {
        seq![root_comp()]
    } else {
        Seq::empty()
    }) + path_components(p)
}

/// One step of joining onto a verbatim base: a root drops what came before
/// it, `.` is dropped, `..` drops a preceding named component.
pub open spec fn comp_step(buf: Seq<Seq<char>>, c: Seq<char>) -> Seq<Seq<char>> {
    if c == root_comp() {
        seq![root_comp()]
    } else if c == "."@ {
        buf
    } else if c == ".."@ {
        if buf.len() > 0 && is_normal(buf.last()) {
            buf.drop_last()
        } else {
            buf
        }
    } else {
        buf.push(c)
    }
}

/// The components after taking each of `more` in order.
pub open spec fn comps_fold(buf: Seq<Seq<char>>, more: Seq<Seq<char>>) -> Seq<Seq<char>>
    decreases more.len(),
{
    if more.len() == 0 {
        buf
    } else {
        comps_fold(comp_step(buf, more[0]), more.drop_first())
    }
}

/// Components written out after a verbatim prefix: each preceded by `\`
/// except right after a root, a root never preceded by one.
pub open spec fn render(comps: Seq<Seq<char>>, sep: bool) -> Seq<char>
    decreases comps.len(),
{
    if comps.len() == 0 {
        Seq::empty()
    } else {
        let c = comps[0];
        (if sep && c != root_comp() {
            seq!['\\']
        } else {
            Seq::empty()
        }) + c + render(comps.drop_first(), c != root_comp())
    }
}

/// `Path::join` on Windows: a path with a prefix replaces the base; onto a
/// verbatim base a non-empty path is added component by component; a path
/// with a root keeps only the base's prefix; else the path follows the
/// base, after a `\` where the base needs one.
pub open spec fn join_path(base: Seq<char>, p: Seq<char>) -> Seq<char> {
    if path_prefix(p) is Some {
        p
    } else if verbatim_path(base) && p.len() > 0 {
        base.take(prefix_len(base)) + render(comps_fold(base_comps(base), rel_comps(p)), true)
    } else if has_root(p) {
        base.take(prefix_len(base)) + p
    } else if needs_sep(base) {
        base + seq!['\\'] + p
    } else {
        base + p
    }
}

/// Whether a path has a root (see the spec function `has_root`).
pub fn path_has_root(p: &[char]) -> (r: bool)
    ensures
        r == has_root(p@),
{
    match prefix_of(p) {
        Some((k, l)) => k != PrefixKind::Disk || (l < p.len() && (p[l] == '/' || p[l] == '\\')),
        None => p.len() > 0 && (p[0] == '/' || p[0] == '\\'),
    }
}

/// Whether a path is absolute (see the spec function `is_absolute`).
pub fn path_is_absolute(p: &[char]) -> (r: bool)
    ensures
        r == is_absolute(p@),
{
    prefix_of(p).is_some() && path_has_root(p)
}

fn normal_comp(c: &[char]) -> (r: bool)
    ensures
        r == is_normal(c@),
{
    !chars_eq_str(c, "\\") && !chars_eq_str(c, ".") && !chars_eq_str(c, "..")
}

/// The root when `root`, then the pieces of a path.
fn comps_with_root(p: &[char], root: bool) -> (r: Vec<Vec<char>>)
    ensures
        seqs_view(r@) == (if root {
            seq![root_comp()]
        } else {
            Seq::empty()
        }) + path_components(p@),
{
    let mut r: Vec<Vec<char>> = Vec::new();
    if root {
        r.push(crate::text::chars_of("\\"));
    }
    let ghost front = seqs_view(r@);
    assert(front =~= if root {
        seq![root_comp()]
    } else {
        Seq::<Seq<char>>::empty()
    });
    let mut rest = components(p);
    let ghost rv = rest@;
    r.append(&mut rest);
    assert(seqs_view(r@) =~= front + seqs_view(rv));
    r
}

/// Joins `p` onto a verbatim base component by component.
fn verbatim_join(base: &[char], p: &[char], plen: usize) -> (r: Vec<char>)
    requires
        plen == prefix_len(base@),
        plen <= base@.len(),
    ensures
        r@ == base@.take(plen as int) + render(comps_fold(base_comps(base@), rel_comps(p@)), true),
{
    let mut buf = comps_with_root(base, plen < base.len());
    let more = comps_with_root(p, p.len() > 0 && (p[0] == '/' || p[0] == '\\'));
    let ghost mv = seqs_view(more@);
    assert(seqs_view(buf@) == base_comps(base@));
    assert(mv == rel_comps(p@));
    assert(mv.skip(0) =~= mv);
    let mut k: usize = 0;
    while k < more.len()
        invariant
            k <= more@.len(),
            mv == seqs_view(more@),
            comps_fold(seqs_view(buf@), mv.skip(k as int)) == comps_fold(base_comps(base@), mv),
        decreases more.len() - k,
    {
        let ghost b = seqs_view(buf@);
        let c = copy_range(more[k].as_slice(), 0, more[k].len());
        assert(c@ =~= mv[k as int]);
        assert(mv.skip(k as int)[0] == mv[k as int]);
        assert(mv.skip(k as int).drop_first() =~= mv.skip(k + 1));
        if chars_eq_str(c.as_slice(), "\\") {
            buf = Vec::new();
            buf.push(c);
            assert(seqs_view(buf@) =~= comp_step(b, mv[k as int]));
        } else if chars_eq_str(c.as_slice(), ".") {
        } else if chars_eq_str(c.as_slice(), "..") {
            if buf.len() > 0 && normal_comp(buf[buf.len() - 1].as_slice()) {
                assert(b.last() == buf@[buf.len() - 1]@);
                buf.pop();
                assert(seqs_view(buf@) =~= b.drop_last());
            }
        } else {
            buf.push(c);
            assert(seqs_view(buf@) =~= b.push(mv[k as int]));
        }
        k = k + 1;
    }
    assert(mv.skip(more@.len() as int) =~= Seq::<Seq<char>>::empty());
    let ghost fin = seqs_view(buf@);
    let mut r = copy_range(base, 0, plen);
    assert(r@ =~= base@.take(plen as int));
    let mut sep = true;
    let mut j: usize = 0;
    assert(fin.skip(0) =~= fin);
    while j < buf.len()
        invariant
            j <= buf@.len(),
            fin == seqs_view(buf@),
            r@ + render(fin.skip(j as int), sep) == base@.take(plen as int) + render(fin, true),
        decreases buf.len() - j,
    {
        let ghost before = r@;
        let ghost s0 = sep;
        let root = chars_eq_str(buf[j].as_slice(), "\\");
        proof {
            reveal_strlit("\\");
        }
        assert(fin.skip(j as int)[0] == fin[j as int]);
        assert(fin.skip(j as int).drop_first() =~= fin.skip(j + 1));
        assert(fin[j as int] == buf@[j as int]@);
        assert(root == (fin[j as int] == root_comp()));
        if sep && !root {
            r.push('\\');
        }
        push_all(&mut r, buf[j].as_slice());
        sep = !root;
        assert(r@ =~= before + (if s0 && fin[j as int] != root_comp() {
            seq!['\\']
        } else {
            Seq::empty()
        }) + fin[j as int]);
        assert(before + render(fin.skip(j as int), s0) =~= r@ + render(fin.skip(j + 1), sep));
        j = j + 1;
    }
    assert(fin.skip(buf@.len() as int) =~= Seq::<Seq<char>>::empty());
    assert(r@ + render(Seq::empty(), sep) =~= r@);
    r
}

/// Joins `p` onto `base` (see the spec function `join_path`).
pub fn join(base: &[char], p: &[char]) -> (r: Vec<char>)
    ensures
        r@ == join_path(base@, p@),
{
    if prefix_of(p).is_some() {
        return copy_range(p, 0, p.len());
    }
    let (plen, verbatim, drive_only) = match prefix_of(base) {
        Some((k, l)) => (
            l,
            k == PrefixKind::Verbatim || k == PrefixKind::VerbatimUnc || k == PrefixKind::VerbatimDisk,
            k == PrefixKind::Disk && l == base.len(),
        ),
        None => (0, false, false),
    };
    assert(verbatim == verbatim_path(base@));
    if verbatim && p.len() > 0 {
        return verbatim_join(base, p, plen);
    }
    if path_has_root(p) {
        let mut r = copy_range(base, 0, plen);
        push_all(&mut r, p);
        assert(r@ =~= base@.take(plen as int) + p@);
        return r;
    }
    let mut r = copy_range(base, 0, base.len());
    assert(r@ =~= base@);
    let n = base.len();
    if n > 0 && !(base[n - 1] == '/' || base[n - 1] == '\\') && !drive_only {
        assert(base@.last() == base@[n - 1]);
        r.push('\\');
    }
    push_all(&mut r, p);
    r
}

} // verus!
