//! Text measured in terminal columns, and text cut to fit them.
//!
//! A character is not a column: emoji take two, combining marks none. How wide
//! a character or a string is drawn is Unicode's business, and is asked of the
//! `unicode-width` crate; what is done with the answer is decided here.

use unicode_width::{UnicodeWidthChar, UnicodeWidthStr};
use vstd::prelude::*;
use vstd::string::*;

use crate::geometry::lesser;
use crate::text::{chars_of, text_between};

verus! {

broadcast use vstd::string::group_string_axioms;

/// How many columns a text occupies, as `UnicodeWidthStr::width` counts them.
pub uninterp spec fn text_columns(s: Seq<char>) -> usize;

/// How many columns one character occupies on its own, as
/// `UnicodeWidthChar::width` counts them; a control character has no width.
pub uninterp spec fn char_columns(c: char) -> Option<usize>;

/// A character that is always one column wide, whatever stands next to it:
/// printable ASCII, and the ellipsis.
pub open spec fn one_column(c: char) -> bool {
    0x20 <= c as int <= 0x7e || c == '…'
}

/// Whether every character is always one column wide.
pub open spec fn plain_text(s: Seq<char>) -> bool {
    forall|i: int| 0 <= i < s.len() ==> one_column(#[trigger] s[i])
}

/// `UnicodeWidthStr::width`: a number that depends on the text alone. A text of
/// printable ASCII and ellipses is as many columns wide as it has characters.
#[verifier::external_body]
pub(crate) fn measure_text(s: &str) -> (w: usize)
    ensures
        w == text_columns(s@),
        plain_text(s@) ==> w == s@.len(),
{
    UnicodeWidthStr::width(s)
}

/// `UnicodeWidthChar::width`: a number that depends on the character alone, or
/// nothing for a control character. Printable ASCII and the ellipsis are one
/// column wide.
#[verifier::external_body]
pub(crate) fn measure_char(c: char) -> (w: Option<usize>)
    ensures
        w == char_columns(c),
        one_column(c) ==> w == Some(1usize),
{
    UnicodeWidthChar::width(c)
}

/// How many columns a string occupies.
///
/// Not its length in characters: workflow names carry emoji, and every one of
/// them is two columns wide.
pub fn disp_width(s: &str) -> (w: usize)
    ensures
        w == text_columns(s@),
        plain_text(s@) ==> w == s@.len(),
{
    measure_text(s)
}

/// How many columns `c` takes when text is laid out a character at a time.
pub open spec fn char_cost(c: char) -> nat {
    match char_columns(c) {
        Some(w) => w as nat,
        None => 0,
    }
}

/// How many columns `s` takes laid out a character at a time.
pub open spec fn chars_cost(s: Seq<char>) -> nat
    decreases s.len(),
{
    if s.len() == 0 {
        0
    } else {
        chars_cost(s.drop_last()) + char_cost(s.last())
    }
}

/// How many characters of `s` fit in `cols` columns, laid out one at a time
/// until the next would overrun.
pub open spec fn laid_out(s: Seq<char>, cols: nat) -> nat
    decreases s.len(),
{
    if s.len() == 0 || char_cost(s[0]) > cols {
        0
    } else {
        1 + laid_out(s.drop_first(), (cols - char_cost(s[0])) as nat)
    }
}

/// How many characters of `s`, `k` at most, fit in `cols` columns together.
pub open spec fn fit_len(s: Seq<char>, cols: nat, k: int) -> int
    decreases k,
{
    if k <= 0 || text_columns(s.take(k)) <= cols {
        k
    } else {
        fit_len(s, cols, k - 1)
    }
}

/// The longest front of `s` that fits in `cols` columns.
pub open spec fn fitted(s: Seq<char>, cols: nat) -> Seq<char> {
    s.take(fit_len(s, cols, s.len() as int))
}

/// No longer front fits.
pub proof fn law_nothing_longer_fits(s: Seq<char>, cols: nat, k: int)
    requires
        fitted(s, cols).len() < k <= s.len(),
    ensures
        text_columns(s.take(k)) > cols,
{
    lemma_nothing_longer(s, cols, s.len() as int, k);
}

proof fn lemma_nothing_longer(s: Seq<char>, cols: nat, n: int, k: int)
    requires
        0 <= n <= s.len(),
    ensures
        0 <= fit_len(s, cols, n) <= n,
        fit_len(s, cols, n) < k <= n ==> text_columns(s.take(k)) > cols,
    decreases n,
{
    if n > 0 && text_columns(s.take(n)) > cols {
        lemma_nothing_longer(s, cols, n - 1, k);
    }
}

/// The longest front of `s`, of `k` characters at most, that an ellipsis can
/// follow within `max` columns.
pub open spec fn ellipsed(s: Seq<char>, max: nat, k: int) -> Seq<char>
    decreases k,
{
    let t = s.take(k).push('…');
    if k <= 0 || text_columns(t) <= max {
        t
    } else {
        ellipsed(s, max, k - 1)
    }
}

/// `s` cut to `max` columns, an ellipsis where it was cut. The ellipsis takes a
/// column of its own, so the text gets one fewer, and fewer still where the
/// characters are wider together than one at a time.
pub open spec fn cut(s: Seq<char>, max: nat) -> Seq<char> {
    if text_columns(s) <= max {
        s
    } else if max == 0 {
        Seq::empty()
    } else {
        ellipsed(s, max, laid_out(s, (max - 1) as nat) as int)
    }
}

proof fn lemma_cost_front(s: Seq<char>)
    requires
        s.len() > 0,
    ensures
        chars_cost(s) == char_cost(s[0]) + chars_cost(s.drop_first()),
    decreases s.len(),
{
    if s.len() == 1 {
        assert(s.drop_last() =~= Seq::empty());
        assert(s.drop_first() =~= Seq::empty());
    } else {
        let t = s.drop_first();
        lemma_cost_front(s.drop_last());
        assert(s.drop_last().drop_first() =~= t.drop_last());
        assert(t.last() == s.last());
    }
}

/// Laying out stops exactly where `laid_out` says: `n` characters fit and the
/// next, if there is one, does not.
proof fn lemma_laid_out(s: Seq<char>, cols: nat, n: int)
    requires
        0 <= n <= s.len(),
        forall|k: int| 0 <= k <= n ==> chars_cost(#[trigger] s.take(k)) <= cols,
        n < s.len() ==> chars_cost(s.take(n)) + char_cost(s[n]) > cols,
    ensures
        laid_out(s, cols) == n,
    decreases s.len(),
{
    if n == 0 {
        if s.len() > 0 {
            assert(s.take(0) =~= Seq::empty());
        }
    } else {
        let t = s.drop_first();
        let first = char_cost(s[0]);
        assert(chars_cost(s.take(1)) <= cols);
        lemma_cost_front(s.take(1));
        assert(s.take(1).drop_first() =~= Seq::empty());
        let left = (cols - first) as nat;
        assert forall|k: int| 0 <= k <= n - 1 implies chars_cost(#[trigger] t.take(k)) <= left by {
            assert(s.take(k + 1).drop_first() =~= t.take(k));
            assert(chars_cost(s.take(k + 1)) <= cols);
            lemma_cost_front(s.take(k + 1));
        }
        if n < s.len() {
            assert(s.take(n).drop_first() =~= t.take(n - 1));
            lemma_cost_front(s.take(n));
            assert(t[n - 1] == s[n]);
        }
        lemma_laid_out(t, left, n - 1);
    }
}

/// How many columns `c` takes when text is laid out a character at a time.
fn char_width(c: char) -> (w: usize)
    ensures
        w == char_cost(c),
        one_column(c) ==> w == 1,
{
    match measure_char(c) {
        Some(n) => n,
        None => 0,
    }
}

/// The longest front of `s` that fits in `cols` columns, and the columns it
/// takes. Cutting with an ellipsis would be wrong on an edge that moves.
pub fn fit_columns(s: &str, cols: usize) -> (r: (String, usize))
    ensures
        r.0@ == fitted(s@, cols as nat),
        r.1 == text_columns(r.0@),
        r.1 <= cols,
        plain_text(s@) ==> r.0@ == s@.take(lesser(s@.len() as int, cols as int)),
{
    let v = chars_of(s);
    let mut k: usize = v.len();
    loop
        invariant
            v@ == s@,
            k <= v@.len(),
            fitted(s@, cols as nat) == s@.take(fit_len(s@, cols as nat, k as int)),
            plain_text(s@) ==> k >= lesser(s@.len() as int, cols as int),
        decreases k,
    {
        let out = text_between(&v, 0, k);
        assert(out@ =~= s@.take(k as int));
        assert(plain_text(s@) ==> plain_text(out@));
        let w: usize = measure_text(&out);
        if k == 0 || w <= cols {
            return (out, w);
        }
        k = k - 1;
    }
}

/// How many characters of `s` fit in `cols` columns, laid out one at a time.
fn lay_out(v: &Vec<char>, cols: usize) -> (n: usize)
    ensures
        n == laid_out(v@, cols as nat),
        n <= v@.len(),
        plain_text(v@) ==> n == lesser(v@.len() as int, cols as int),
{
    let mut w: usize = 0;
    let mut i: usize = 0;
    assert(v@.take(0) =~= Seq::empty());
    while i < v.len()
        invariant
            i <= v@.len(),
            w == chars_cost(v@.take(i as int)),
            w <= cols,
            forall|k: int| 0 <= k <= i ==> chars_cost(#[trigger] v@.take(k)) <= cols,
            plain_text(v@) ==> w == i,
        ensures
            i < v@.len() ==> w + char_cost(v@[i as int]) > cols,
            i < v@.len() && plain_text(v@) ==> char_cost(v@[i as int]) == 1,
        decreases v@.len() - i,
    {
        let c = v[i];
        let cw: usize = char_width(c);
        if cw > cols - w {
            break;
        }
        proof {
            assert(v@.take(i + 1).drop_last() =~= v@.take(i as int));
            assert(v@.take(i + 1).last() == c);
        }
        w = w + cw;
        i = i + 1;
    }
    proof {
        lemma_laid_out(v@, cols as nat, i as int);
    }
    i
}

/// `s` cut to at most `max` columns, with an ellipsis where it was cut. A text
/// with room enough comes back whole.
pub fn truncate(s: &str, max: usize) -> (r: String)
    ensures
        r@ == cut(s@, max as nat),
        text_columns(r@) <= max,
        plain_text(s@) && s@.len() <= max ==> r@ == s@,
        plain_text(s@) && 0 < max < s@.len() ==> r@ == s@.take(max - 1).push('…'),
{
    if disp_width(s) <= max {
        return s.to_string();
    }
    if max == 0 {
        let empty = String::new();
        let none: usize = measure_text(&empty);
        return empty;
    }
    let v = chars_of(s);
    let mut k: usize = lay_out(&v, max - 1);
    loop
        invariant
            v@ == s@,
            k <= v@.len(),
            max > 0,
            plain_text(s@) ==> max < s@.len() && k == max - 1,
            ellipsed(s@, max as nat, k as int) == ellipsed(
                s@,
                max as nat,
                laid_out(s@, (max - 1) as nat) as int,
            ),
            cut(s@, max as nat) == ellipsed(
                s@,
                max as nat,
                laid_out(s@, (max - 1) as nat) as int,
            ),
        decreases k,
    {
        let mut out = text_between(&v, 0, k);
        out.push('…');
        assert(out@ =~= s@.take(k as int).push('…'));
        assert(plain_text(s@) ==> plain_text(out@));
        let w: usize = measure_text(&out);
        if k == 0 || w <= max {
            return out;
        }
        k = k - 1;
    }
}

} // verus!
