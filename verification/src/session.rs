//! Finding a Codex session id in the path of a session log: the first
//! UUID-shaped word in the file stem, else in the nearest enclosing
//! directory name that has one. Paths are read the Windows way: a leading
//! prefix (drive `C:`, share `\\server\share`, device `\\.\name`, or
//! verbatim `\\?\...`) is not a component, and `\` and `/` both separate
//! components except after a verbatim prefix, where only `\` does.

use vstd::prelude::*;

use crate::text::{chars_of, copy_range, string_of};

verus! {

/// An ASCII hexadecimal digit.
pub open spec fn is_hex(c: char) -> bool {
    let u = c as u32;
    (0x30 <= u && u <= 0x39) || (0x41 <= u && u <= 0x46) || (0x61 <= u && u <= 0x66)
}

/// An ASCII letter.
pub open spec fn is_ascii_alpha(c: char) -> bool {
    let u = c as u32;
    (0x41 <= u && u <= 0x5a) || (0x61 <= u && u <= 0x7a)
}

/// A character that continues a word: ASCII letters and digits and `_`.
pub open spec fn is_word(c: char) -> bool {
    let u = c as u32;
    is_ascii_alpha(c) || (0x30 <= u && u <= 0x39) || c == '_'
}

fn hex_char(c: char) -> (r: bool)
    ensures
        r == is_hex(c),
{
    let u = c as u32;
    (0x30 <= u && u <= 0x39) || (0x41 <= u && u <= 0x46) || (0x61 <= u && u <= 0x66)
}

fn is_word_char(c: char) -> (r: bool)
    ensures
        r == is_word(c),
{
    let u = c as u32;
    (0x41 <= u && u <= 0x5a) || (0x61 <= u && u <= 0x7a) || (0x30 <= u && u <= 0x39) || c == '_'
}

/// Where a UUID has its dashes: groups of 8, 4, 4, 4 and 12 digits.
pub open spec fn is_dash_pos(k: int) -> bool {
    k == 8 || k == 13 || k == 18 || k == 23
}

/// Thirty-six characters in the shape `xxxxxxxx-xxxx-xxxx-xxxx-xxxxxxxxxxxx`
/// with hexadecimal digits for `x`.
pub open spec fn uuid_shaped(u: Seq<char>) -> bool {
    &&& u.len() == 36
    &&& forall|k: int|
        0 <= k < 36 ==> if is_dash_pos(k) {
            #[trigger] u[k] == '-'
        } else {
            is_hex(u[k])
        }
}

/// A UUID-shaped word starts at `i`: not preceded or followed by a word
/// character.
pub open spec fn uuid_at(s: Seq<char>, i: int) -> bool {
    &&& 0 <= i
    &&& i + 36 <= s.len()
    &&& uuid_shaped(s.subrange(i, i + 36))
    &&& (i == 0 || !is_word(s[i - 1]))
    &&& (i + 36 == s.len() || !is_word(s[i + 36]))
}

/// The first UUID-shaped word that starts at `i` or later.
pub open spec fn first_uuid_from(s: Seq<char>, i: int) -> Option<Seq<char>>
    decreases s.len() - i,
{
    if i < 0 || i >= s.len() {
        None
    } else if uuid_at(s, i) {
        Some(s.subrange(i, i + 36))
    } else {
        first_uuid_from(s, i + 1)
    }
}

/// The first UUID-shaped word of a text.
pub open spec fn first_uuid(s: Seq<char>) -> Option<Seq<char>> {
    first_uuid_from(s, 0)
}

/// Whether a UUID-shaped word starts at `i`.
fn uuid_starts_at(s: &[char], i: usize) -> (r: bool)
    requires
        i < s@.len(),
    ensures
        r == uuid_at(s@, i as int),
{
    let n = s.len();
    if n - i < 36 {
        return false;
    }
    if i > 0 && is_word_char(s[i - 1]) {
        return false;
    }
    let mut k: usize = 0;
    while k < 36
        invariant
            n == s@.len(),
            i + 36 <= n,
            k <= 36,
            forall|m: int|
                0 <= m < k ==> if is_dash_pos(m) {
                    s@[i + m] == '-'
                } else {
                    is_hex(s@[i + m])
                },
        decreases 36 - k,
    {
        let c = s[i + k];
        let ok = if k == 8 || k == 13 || k == 18 || k == 23 {
            c == '-'
        } else {
            hex_char(c)
        };
        if !ok {
            assert(!uuid_shaped(s@.subrange(i as int, i + 36))) by {
                assert(s@.subrange(i as int, i + 36)[k as int] == c);
            }
            return false;
        }
        k = k + 1;
    }
    assert(uuid_shaped(s@.subrange(i as int, i + 36))) by {
        assert forall|m: int| 0 <= m < 36 implies if is_dash_pos(m) {
            #[trigger] s@.subrange(i as int, i + 36)[m] == '-'
        } else {
            is_hex(s@.subrange(i as int, i + 36)[m])
        } by {
            assert(s@.subrange(i as int, i + 36)[m] == s@[i + m]);
        }
    }
    if i + 36 < n && is_word_char(s[i + 36]) {
        return false;
    }
    true
}

/// The first UUID-shaped word of a text (see the spec function of the same
/// name).
pub fn first_uuid_in(s: &[char]) -> (r: Option<Vec<char>>)
    ensures
        match r {
            Some(v) => first_uuid(s@) == Some(v@),
            None => first_uuid(s@) is None,
        },
{
    let n = s.len();
    let mut i: usize = 0;
    while i < n
        invariant
            n == s@.len(),
            i <= n,
            first_uuid_from(s@, i as int) == first_uuid(s@),
        decreases n - i,
    {
        if uuid_starts_at(s, i) {
            return Some(copy_range(s, i, i + 36));
        }
        i = i + 1;
    }
    None
}

/// A path separator.
pub open spec fn is_sep(c: char) -> bool {
    c == '/' || c == '\\'
}

/// A separator of components: `\`, and `/` unless the path is verbatim.
pub open spec fn splits(c: char, verbatim: bool) -> bool {
    c == '\\' || (!verbatim && c == '/')
}

/// The position of the first separator at or after `i`, or the end.
pub open spec fn next_sep(p: Seq<char>, i: int, verbatim: bool) -> int
    decreases p.len() - i,
{
    if i >= p.len() {
        p.len() as int
    } else if splits(p[i], verbatim) {
        i
    } else {
        next_sep(p, i + 1, verbatim)
    }
}

/// The kinds of Windows path prefixes.
#[derive(PartialEq, Eq, Structural, Clone, Copy, Debug)]
pub enum PrefixKind {
    /// `\\?\name`
    Verbatim,
    /// `\\?\UNC\server\share`
    VerbatimUnc,
    /// `\\?\C:`
    VerbatimDisk,
    /// `\\.\name`
    DeviceNs,
    /// `\\server\share`
    Unc,
    /// `C:`
    Disk,
}

/// Whether a prefix is verbatim.
pub open spec fn is_verbatim(k: PrefixKind) -> bool {
    k == PrefixKind::Verbatim || k == PrefixKind::VerbatimUnc || k == PrefixKind::VerbatimDisk
}

/// The prefix of a Windows path and its length, as `std::path` reads it:
/// two leading separators start a verbatim (`\\?\`, backslashes only),
/// device (`\\.\`) or share (`\\server\share`, both names non-empty)
/// prefix; otherwise a letter and `:` are a drive.
pub open spec fn path_prefix(p: Seq<char>) -> Option<(PrefixKind, int)> {
    if p.len() >= 2 && is_sep(p[0]) && is_sep(p[1]) {
        if p.len() >= 4 && p[0] == '\\' && p[1] == '\\' && p[2] == '?' && p[3] == '\\' {
            if p.len() >= 8 && p[4] == 'U' && p[5] == 'N' && p[6] == 'C' && is_sep(p[7]) {
                let e1 = next_sep(p, 8, true);
                if e1 < p.len() {
                    let e2 = next_sep(p, e1 + 1, true);
                    Some((PrefixKind::VerbatimUnc, if e2 > e1 + 1 { e2 } else { e1 }))
                } else {
                    Some((PrefixKind::VerbatimUnc, e1))
                }
            } else if p.len() >= 6 && is_ascii_alpha(p[4]) && p[5] == ':' && (p.len() == 6 || p[6]
                == '\\') {
                Some((PrefixKind::VerbatimDisk, 6))
            } else {
                Some((PrefixKind::Verbatim, next_sep(p, 4, true)))
            }
        } else if p.len() >= 4 && p[2] == '.' && is_sep(p[3]) {
            Some((PrefixKind::DeviceNs, next_sep(p, 4, false)))
        } else {
            let e1 = next_sep(p, 2, false);
            if 2 < e1 < p.len() && next_sep(p, e1 + 1, false) > e1 + 1 {
                Some((PrefixKind::Unc, next_sep(p, e1 + 1, false)))
            } else {
                None
            }
        }
    } else if p.len() >= 2 && is_ascii_alpha(p[0]) && p[1] == ':' {
        Some((PrefixKind::Disk, 2))
    } else {
        None
    }
}

/// The length of a path's prefix (0 without one).
pub open spec fn prefix_len(p: Seq<char>) -> int {
    match path_prefix(p) {
        Some((_, l)) => l,
        None => 0,
    }
}

/// Whether a path has a verbatim prefix.
pub open spec fn verbatim_path(p: Seq<char>) -> bool {
    match path_prefix(p) {
        Some((k, _)) => is_verbatim(k),
        None => false,
    }
}

/// A finished piece of a path: empty pieces are not components, nor is `.`
/// outside verbatim paths.
pub open spec fn piece(cur: Seq<char>, verbatim: bool) -> Seq<Seq<char>> {
    if cur.len() == 0 || (!verbatim && cur == seq!['.']) {
        Seq::empty()
    } else {
        seq![cur]
    }
}

/// The components of `p` from position `i` on, the current one having
/// begun with `cur`.
pub open spec fn pieces_scan(cur: Seq<char>, p: Seq<char>, i: int, verbatim: bool) -> Seq<
    Seq<char>,
>
    decreases p.len() - i,
{
    if i >= p.len() {
        piece(cur, verbatim)
    } else if splits(p[i], verbatim) {
        piece(cur, verbatim) + pieces_scan(Seq::empty(), p, i + 1, verbatim)
    } else {
        pieces_scan(cur.push(p[i]), p, i + 1, verbatim)
    }
}

/// The components of a path after its prefix and root: the pieces between
/// separators, without empty pieces (nor `.` outside verbatim paths).
pub open spec fn path_components(p: Seq<char>) -> Seq<Seq<char>> {
    pieces_scan(Seq::empty(), p, prefix_len(p), verbatim_path(p))
}

/// `Path::file_name`: the last component, unless it is `..` or `.`.
pub open spec fn file_name(p: Seq<char>) -> Option<Seq<char>> {
    let comps = path_components(p);
    if comps.len() > 0 && comps.last() != ".."@ && comps.last() != "."@ {
        Some(comps.last())
    } else {
        None
    }
}

/// The position of the last `.` before position `i`.
pub open spec fn last_dot_before(name: Seq<char>, i: int) -> Option<int>
    decreases i,
{
    if i <= 0 {
        None
    } else if name[i - 1] == '.' {
        Some(i - 1)
    } else {
        last_dot_before(name, i - 1)
    }
}

/// `Path::file_stem` of a file name: the name without its last extension;
/// a name whose only dot leads it is its own stem.
pub open spec fn file_stem(name: Seq<char>) -> Seq<char> {
    match last_dot_before(name, name.len() as int) {
        Some(k) => if k == 0 {
            name
        } else {
            name.take(k)
        },
        None => name,
    }
}

/// The first UUID-shaped word among the components before position `k`,
/// nearest first.
pub open spec fn uuid_in_parents(comps: Seq<Seq<char>>, k: int) -> Option<Seq<char>>
    decreases k,
{
    if k <= 0 {
        None
    } else {
        match first_uuid(comps[k - 1]) {
            Some(u) => Some(u),
            None => uuid_in_parents(comps, k - 1),
        }
    }
}

/// The session id of a log's path: the first UUID-shaped word of the file
/// stem, else of the nearest enclosing directory name that has one.
pub open spec fn session_id_of(p: Seq<char>) -> Option<Seq<char>> {
    let comps = path_components(p);
    let own = match file_name(p) {
        Some(name) => first_uuid(file_stem(name)),
        None => None,
    };
    if own is Some {
        own
    } else {
        uuid_in_parents(comps, comps.len() - 1)
    }
}

/// The views of character vectors.
pub open spec fn seqs_view(v: Seq<Vec<char>>) -> Seq<Seq<char>> {
    v.map_values(|x: Vec<char>| x@)
}

fn sep_char(c: char) -> (r: bool)
    ensures
        r == is_sep(c),
{
    c == '/' || c == '\\'
}

fn splits_char(c: char, verbatim: bool) -> (r: bool)
    ensures
        r == splits(c, verbatim),
{
    c == '\\' || (!verbatim && c == '/')
}

/// The position of the first separator at or after `i` (see `next_sep`).
fn next_sep_at(p: &[char], i: usize, verbatim: bool) -> (r: usize)
    requires
        i <= p.len(),
    ensures
        r == next_sep(p@, i as int, verbatim),
        i <= r <= p.len(),
{
    let mut k: usize = i;
    while k < p.len() && !splits_char(p[k], verbatim)
        invariant
            i <= k <= p@.len(),
            next_sep(p@, k as int, verbatim) == next_sep(p@, i as int, verbatim),
        decreases p.len() - k,
    {
        k = k + 1;
    }
    k
}

/// An optional prefix with its length as an integer.
pub open spec fn opt_prefix(o: Option<(PrefixKind, usize)>) -> Option<(PrefixKind, int)> {
    match o {
        Some((k, l)) => Some((k, l as int)),
        None => None,
    }
}

fn ascii_alpha(c: char) -> (r: bool)
    ensures
        r == is_ascii_alpha(c),
{
    let u = c as u32;
    (0x41 <= u && u <= 0x5a) || (0x61 <= u && u <= 0x7a)
}

/// The prefix of a path and its length (see the spec function
/// `path_prefix`).
pub fn prefix_of(p: &[char]) -> (r: Option<(PrefixKind, usize)>)
    ensures
        opt_prefix(r) == path_prefix(p@),
        r matches Some((_, l)) ==> l <= p.len(),
{
    let n = p.len();
    if n >= 2 && sep_char(p[0]) && sep_char(p[1]) {
        if n >= 4 && p[0] == '\\' && p[1] == '\\' && p[2] == '?' && p[3] == '\\' {
            if n >= 8 && p[4] == 'U' && p[5] == 'N' && p[6] == 'C' && sep_char(p[7]) {
                let e1 = next_sep_at(p, 8, true);
                if e1 < n {
                    let e2 = next_sep_at(p, e1 + 1, true);
                    Some((PrefixKind::VerbatimUnc, if e2 > e1 + 1 { e2 } else { e1 }))
                } else {
                    Some((PrefixKind::VerbatimUnc, e1))
                }
            } else if n >= 6 && ascii_alpha(p[4]) && p[5] == ':' && (n == 6 || p[6] == '\\') {
                Some((PrefixKind::VerbatimDisk, 6))
            } else {
                Some((PrefixKind::Verbatim, next_sep_at(p, 4, true)))
            }
        } else if n >= 4 && p[2] == '.' && sep_char(p[3]) {
            Some((PrefixKind::DeviceNs, next_sep_at(p, 4, false)))
        } else {
            let e1 = next_sep_at(p, 2, false);
            if 2 < e1 && e1 < n {
                let e2 = next_sep_at(p, e1 + 1, false);
                if e2 > e1 + 1 {
                    Some((PrefixKind::Unc, e2))
                } else {
                    None
                }
            } else {
                None
            }
        }
    } else if n >= 2 && ascii_alpha(p[0]) && p[1] == ':' {
        Some((PrefixKind::Disk, 2))
    } else {
        None
    }
}

/// Adds a finished piece to the components.
fn push_piece(comps: &mut Vec<Vec<char>>, cur: Vec<char>, verbatim: bool)
    ensures
        seqs_view(final(comps)@) == seqs_view(old(comps)@) + piece(cur@, verbatim),
{
    let ghost before = seqs_view(comps@);
    let dot = cur.len() == 1 && cur[0] == '.';
    if cur.len() == 0 || (!verbatim && dot) {
        assert(cur@.len() == 0 || cur@ =~= seq!['.']);
        assert(seqs_view(comps@) =~= before + piece(cur@, verbatim));
    } else {
        assert(verbatim || cur@ != seq!['.']) by {
            if cur@ == seq!['.'] {
                assert(cur@.len() == 1 && cur@[0] == '.');
            }
        }
        let ghost cv = cur@;
        comps.push(cur);
        assert(seqs_view(comps@) =~= before + seq![cv]);
    }
}

/// The components of a path (see the spec function `path_components`).
pub fn components(p: &[char]) -> (r: Vec<Vec<char>>)
    ensures
        seqs_view(r@) == path_components(p@),
{
    let n = p.len();
    let (mut i, verbatim) = match prefix_of(p) {
        Some((k, l)) => (
            l,
            k == PrefixKind::Verbatim || k == PrefixKind::VerbatimUnc || k == PrefixKind::VerbatimDisk,
        ),
        None => (0, false),
    };
    let mut comps: Vec<Vec<char>> = Vec::new();
    let mut cur: Vec<char> = Vec::new();
    assert(seqs_view(comps@) =~= Seq::<Seq<char>>::empty());
    assert(cur@ =~= Seq::<char>::empty());
    while i < n
        invariant
            n == p@.len(),
            i <= n,
            verbatim == verbatim_path(p@),
            seqs_view(comps@) + pieces_scan(cur@, p@, i as int, verbatim) == path_components(p@),
        decreases n - i,
    {
        if splits_char(p[i], verbatim) {
            let ghost c = cur@;
            let ghost before = seqs_view(comps@);
            push_piece(&mut comps, cur, verbatim);
            cur = Vec::new();
            assert(cur@ =~= Seq::<char>::empty());
            assert(before + (piece(c, verbatim) + pieces_scan(Seq::empty(), p@, i + 1, verbatim))
                =~= seqs_view(comps@) + pieces_scan(Seq::empty(), p@, i + 1, verbatim));
        } else {
            cur.push(p[i]);
        }
        i = i + 1;
    }
    push_piece(&mut comps, cur, verbatim);
    assert(seqs_view(comps@) =~= path_components(p@));
    comps
}

/// The stem of a file name (see the spec function `file_stem`).
fn stem_of(name: &[char]) -> (r: Vec<char>)
    ensures
        r@ == file_stem(name@),
{
    let n = name.len();
    let mut i: usize = n;
    while i > 0 && name[i - 1] != '.'
        invariant
            n == name@.len(),
            i <= n,
            last_dot_before(name@, i as int) == last_dot_before(name@, n as int),
        decreases i,
    {
        i = i - 1;
    }
    if i <= 1 {
        copy_range(name, 0, n)
    } else {
        copy_range(name, 0, i - 1)
    }
}

/// The session id of a log's path (see the spec function `session_id_of`).
pub fn detect_session_id(path: &str) -> (r: Option<String>)
    ensures
        opt_string_view(r) == session_id_of(path@),
{
    let p = chars_of(path);
    let comps = components(p.as_slice());
    let n = comps.len();
    if n > 0 && !is_dot_dot(comps[n - 1].as_slice()) && !is_dot(comps[n - 1].as_slice()) {
        let stem = stem_of(comps[n - 1].as_slice());
        match first_uuid_in(stem.as_slice()) {
            Some(u) => return Some(string_of(u.as_slice())),
            None => {},
        }
    }
    assert(seqs_view(comps@).len() == n);
    if n > 0 {
        assert(seqs_view(comps@).last() == comps@[n - 1]@);
    }
    assert(session_id_of(path@) == uuid_in_parents(seqs_view(comps@), n - 1));
    if n == 0 {
        return None;
    }
    let mut k: usize = n - 1;
    while k > 0
        invariant
            k < n,
            n == comps@.len(),
            seqs_view(comps@) == path_components(p@),
            p@ == path@,
            session_id_of(path@) == uuid_in_parents(seqs_view(comps@), n - 1),
            uuid_in_parents(seqs_view(comps@), k as int) == uuid_in_parents(
                seqs_view(comps@),
                n - 1,
            ),
        decreases k,
    {
        assert(seqs_view(comps@)[k - 1] == comps@[k - 1]@);
        match first_uuid_in(comps[k - 1].as_slice()) {
            Some(u) => return Some(string_of(u.as_slice())),
            None => {},
        }
        k = k - 1;
    }
    None
}

/// Whether a component is `.`.
fn is_dot(c: &[char]) -> (r: bool)
    ensures
        r == (c@ == "."@),
{
    crate::text::chars_eq_str(c, ".")
}

/// Whether a component is `..`.
fn is_dot_dot(c: &[char]) -> (r: bool)
    ensures
        r == (c@ == ".."@),
{
    crate::text::chars_eq_str(c, "..")
}

/// The view of an optional string.
pub open spec fn opt_string_view(o: Option<String>) -> Option<Seq<char>> {
    match o {
        Some(s) => Some(s@),
        None => None,
    }
}

} // verus!
