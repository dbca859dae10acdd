//! Paths short enough for a header.

use vstd::prelude::*;
use vstd::string::*;

use crate::text::{begins, cat2, cat4, chars_of, pieces, pieces_of, starts_with, swap_char, swapped, text_between};

verus! {

broadcast use vstd::string::group_string_axioms;

/// A path with forward slashes, whatever the platform writes.
pub open spec fn slashed(p: Seq<char>, windows: bool) -> Seq<char> {
    if windows {
        swapped(p, '\\', '/')
    } else {
        p
    }
}

/// A path with forward slashes, whatever the platform writes.
pub fn slash(p: &str, windows: bool) -> (r: String)
    ensures
        r@ == slashed(p@, windows),
{
    if windows {
        swap_char(p, '\\', '/')
    } else {
        p.to_string()
    }
}

/// A directory without the slash it may end in.
pub open spec fn bare(dir: Seq<char>) -> Seq<char> {
    if dir.len() > 0 && dir.last() == '/' {
        dir.drop_last()
    } else {
        dir
    }
}

/// Whether `full` is the directory `dir` or lies inside it: whole names, so that
/// a neighbour whose name merely starts the same is outside.
pub open spec fn within(full: Seq<char>, dir: Seq<char>) -> bool {
    begins(full, dir) && (full.len() == dir.len() || full[dir.len() as int] == '/')
}

/// A path as seen from home.
pub open spec fn from_home(full: Seq<char>, home: Option<Seq<char>>) -> Seq<char> {
    match home {
        Some(h) if bare(h).len() > 0 && within(full, bare(h)) => "~"@ + full.skip(
            bare(h).len() as int,
        ),
        _ => full,
    }
}

/// Nothing outside the home directory is written as if it were inside, and what
/// is inside keeps the rest of its path.
pub proof fn law_only_home_is_a_tilde(full: Seq<char>, home: Seq<char>)
    ensures
        bare(home).len() > 0 && within(full, bare(home)) ==> from_home(full, Some(home)) == "~"@
            + full.skip(bare(home).len() as int),
        !within(full, bare(home)) ==> from_home(full, Some(home)) == full,
{
}

/// A path no deeper than the two directories that distinguish it.
pub open spec fn tail_of(shown: Seq<char>) -> Seq<char> {
    let parts = pieces(shown, '/');
    if parts.len() <= 3 {
        shown
    } else {
        "…/"@ + parts[parts.len() - 2] + "/"@ + parts[parts.len() - 1]
    }
}

/// A path home-relative, and no deeper than the two directories that
/// distinguish it.
pub open spec fn shortened(full: Seq<char>, home: Option<Seq<char>>, windows: bool) -> Seq<char> {
    tail_of(
        from_home(
            slashed(full, windows),
            match home {
                Some(h) => Some(slashed(h, windows)),
                None => None,
            },
        ),
    )
}

/// The view of an optional text.
pub open spec fn maybe(o: Option<String>) -> Option<Seq<char>> {
    match o {
        Some(s) => Some(s@),
        None => None,
    }
}

fn without_slash(dir: &str) -> (r: String)
    ensures
        r@ == bare(dir@),
{
    let v = chars_of(dir);
    let n: usize = v.len();
    if n > 0 && v[n - 1] == '/' {
        assert(v@.subrange(0, n - 1) =~= v@.drop_last());
        text_between(&v, 0, n - 1)
    } else {
        dir.to_string()
    }
}

/// A path home-relative, and no deeper than the two directories that
/// distinguish it.
pub fn shorten(full: &str, home: &Option<String>, windows: bool) -> (r: String)
    ensures
        r@ == shortened(full@, maybe(*home), windows),
{
    let full = slash(full, windows);
    let mut from: usize = 0;
    let mut tilde = false;
    if let Some(h) = home {
        let h = without_slash(&slash(h, windows));
        let n: usize = h.as_str().unicode_len();
        if n > 0 && starts_with(&full, &h) {
            let v = chars_of(&full);
            if v.len() == n || v[n] == '/' {
                from = n;
                tilde = true;
            }
        }
    }
    let shown = if tilde {
        let v = chars_of(&full);
        let rest = text_between(&v, from, v.len());
        assert(v@.subrange(from as int, v@.len() as int) =~= v@.skip(from as int));
        cat2("~", &rest)
    } else {
        full
    };
    let parts = pieces_of(&shown, '/');
    let ghost p = pieces(shown@, '/');
    assert(parts@.len() == p.len());
    if parts.len() <= 3 {
        return shown;
    }
    let n: usize = parts.len();
    assert(p[n - 2] == parts@[n - 2]@);
    assert(p[n - 1] == parts@[n - 1]@);
    cat4("…/", &parts[n - 2], "/", &parts[n - 1])
}

/// The home directory: `dirs::home_dir`, written out. Where it is, and whether
/// there is one, is up to the environment, and nothing is claimed of it.
#[verifier::external_body]
fn home_dir() -> (r: Option<String>) {
    dirs::home_dir().map(|h| h.display().to_string())
}

/// Whether this machine answers that home is here.
pub closed spec fn at_home(home: Option<Seq<char>>) -> bool {
    exists|r: Option<String>| #[trigger] call_ensures(home_dir, (), r) && home == maybe(r)
}

/// Where this machine says home is, if anywhere.
pub(crate) fn home_here() -> (r: Option<String>)
    ensures
        at_home(maybe(r)),
{
    home_dir()
}

/// A path short enough for a header: home-relative, and no deeper than the two
/// directories that distinguish it.
///
/// The full path is the same forty characters on every screen and answers a
/// question nobody asks twice; the tail is what says which checkout you are in.
pub fn short_path(full: &str, windows: bool) -> (r: String)
    ensures
        exists|home: Option<Seq<char>>|
            at_home(home) && r@ == #[trigger] shortened(full@, home, windows),
{
    let home = home_here();
    let r = shorten(full, &home, windows);
    assert(r@ == shortened(full@, maybe(home), windows));
    r
}

} // verus!
