//! Where the viewer's file picker opens: the remembered directory, else the
//! Codex sessions directory, else the user's home, else a fallback; the
//! first of these that is a directory.

use vstd::prelude::*;

use crate::paths::{join, join_path};
use crate::text::{chars_of, string_of, trim, trimmed};

verus! {

/// The value when it is not empty.
pub open spec fn non_empty(v: Option<Seq<char>>) -> Option<Seq<char>> {
    match v {
        Some(x) => if x.len() > 0 {
            Some(x)
        } else {
            None
        },
        None => None,
    }
}

/// The user's home: `USERPROFILE` when it is set, else `HOME`, and none
/// when that is empty (a set but empty `USERPROFILE` hides `HOME`).
pub open spec fn user_home(user_profile: Option<Seq<char>>, home: Option<Seq<char>>) -> Option<
    Seq<char>,
> {
    non_empty(if user_profile is Some { user_profile } else { home })
}

/// The directories to try, in order: the remembered one when it is not
/// blank; `CODEX_HOME\sessions` when `CODEX_HOME` is not empty; and, with a
/// user home, its `.codex\sessions` and the home itself.
pub open spec fn candidate_dirs(
    remembered: Option<Seq<char>>,
    codex_home: Option<Seq<char>>,
    user_profile: Option<Seq<char>>,
    home: Option<Seq<char>>,
) -> Seq<Seq<char>> {
    (match remembered {
        Some(r) => if trim(r).len() > 0 {
            seq![r]
        } else {
            Seq::empty()
        },
        None => Seq::empty(),
    }) + (match non_empty(codex_home) {
        Some(c) => seq![join_path(c, "sessions"@)],
        None => Seq::empty(),
    }) + (match user_home(user_profile, home) {
        Some(h) => seq![join_path(join_path(h, ".codex"@), "sessions"@), h],
        None => Seq::empty(),
    })
}

/// The first candidate that is a directory, else the fallback.
pub open spec fn first_dir(cands: Seq<Seq<char>>, is_dir: Seq<bool>, fallback: Seq<char>) -> Seq<
    char,
>
    decreases cands.len(),
{
    if cands.len() == 0 || is_dir.len() == 0 {
        fallback
    } else if is_dir[0] {
        cands[0]
    } else {
        first_dir(cands.drop_first(), is_dir.drop_first(), fallback)
    }
}

/// The views of strings.
pub open spec fn strings_view(v: Seq<String>) -> Seq<Seq<char>> {
    v.map_values(|s: String| s@)
}

/// The view of an optional string.
pub open spec fn opt_view(o: Option<String>) -> Option<Seq<char>> {
    match o {
        Some(s) => Some(s@),
        None => None,
    }
}

/// The value of a variable when it is set and not empty.
fn non_empty_value(v: Option<String>) -> (r: Option<String>)
    ensures
        opt_view(r) == non_empty(opt_view(v)),
{
    match v {
        Some(x) => if chars_of(x.as_str()).len() > 0 {
            Some(x)
        } else {
            None
        },
        None => None,
    }
}

fn joined(base: &str, name: &str) -> (r: String)
    ensures
        r@ == join_path(base@, name@),
{
    let b = chars_of(base);
    let n = chars_of(name);
    let j = join(b.as_slice(), n.as_slice());
    string_of(j.as_slice())
}

/// The directories to try (see the spec function `candidate_dirs`).
pub fn initial_directory_candidates(
    remembered: Option<String>,
    codex_home: Option<String>,
    user_profile: Option<String>,
    home: Option<String>,
) -> (r: Vec<String>)
    ensures
        strings_view(r@) == candidate_dirs(
            opt_view(remembered),
            opt_view(codex_home),
            opt_view(user_profile),
            opt_view(home),
        ),
{
    let mut r: Vec<String> = Vec::new();
    match remembered {
        Some(x) => {
            let c = chars_of(x.as_str());
            let t = trimmed(c.as_slice());
            if t.len() > 0 {
                r.push(x);
            }
        },
        None => {},
    }
    let ghost a = strings_view(r@);
    match non_empty_value(codex_home) {
        Some(c) => {
            r.push(joined(c.as_str(), "sessions"));
        },
        None => {},
    }
    let ghost b = strings_view(r@);
    let h = if user_profile.is_some() {
        non_empty_value(user_profile)
    } else {
        non_empty_value(home)
    };
    match h {
        Some(h) => {
            let codex = joined(h.as_str(), ".codex");
            r.push(joined(codex.as_str(), "sessions"));
            r.push(h);
        },
        None => {},
    }
    assert(strings_view(r@) =~= candidate_dirs(
        opt_view(remembered),
        opt_view(codex_home),
        opt_view(user_profile),
        opt_view(home),
    ));
    r
}

/// The first candidate that is a directory, else the fallback; `is_dir`
/// says of each candidate, in order, whether it is one (a candidate without
/// an answer counts as none, and so do the ones after it).
pub fn pick_initial_directory(candidates: Vec<String>, is_dir: Vec<bool>, fallback: String) -> (r:
    String)
    ensures
        r@ == first_dir(strings_view(candidates@), is_dir@, fallback@),
{
    let ghost cv = strings_view(candidates@);
    let mut k: usize = 0;
    assert(cv.skip(0) =~= cv);
    assert(is_dir@.skip(0) =~= is_dir@);
    while k < candidates.len() && k < is_dir.len()
        invariant
            k <= candidates@.len(),
            k <= is_dir@.len(),
            cv == strings_view(candidates@),
            first_dir(cv.skip(k as int), is_dir@.skip(k as int), fallback@) == first_dir(
                cv,
                is_dir@,
                fallback@,
            ),
        decreases candidates.len() - k,
    {
        assert(cv.skip(k as int).drop_first() =~= cv.skip(k + 1));
        assert(is_dir@.skip(k as int).drop_first() =~= is_dir@.skip(k + 1));
        assert(cv.skip(k as int)[0] == candidates@[k as int]@);
        assert(is_dir@.skip(k as int)[0] == is_dir@[k as int]);
        if is_dir[k] {
            return candidates[k].clone();
        }
        k = k + 1;
    }
    assert(cv.skip(k as int).len() == 0 || is_dir@.skip(k as int).len() == 0);
    fallback
}

} // verus!
