//! How texts are cut, set and wrapped, and what a click lands on.

use vstd::prelude::*;
use vstd::string::*;

use crate::columns::{cut, ellipsed, laid_out, text_columns};
use crate::geometry::Rect;
use crate::hits::{all_rows, clicks_upto, first_row, row_rect, table_clicks, RowKind};
use crate::keys::shown;
use crate::meaning::reading::least;
use crate::ops::{Hit, OpV};
use crate::text::{after_last, align_left, align_right, first_of, is_space, is_word, lemma_word_len, trimmed, word_len, words};
use crate::wrap::{filling, wrapped};

verus! {

broadcast use vstd::string::group_string_axioms;

// ── Cutting and setting ────────────────────────────────────────────────────

/// A text that fits is left alone. One that does not keeps its front, shorter than
/// the whole, and ends in an ellipsis; of no columns at all nothing is left.
pub proof fn law_cut_texts_keep_their_front(s: Seq<char>, max: nat)
    ensures
        text_columns(s) <= max ==> cut(s, max) == s,
        text_columns(s) > max && max == 0 ==> cut(s, max).len() == 0,
        text_columns(s) > max && max > 0 ==> {
            let t = cut(s, max);
            &&& 0 < t.len() <= s.len() + 1
            &&& t.last() == '…'
            &&& t.drop_last() == s.take(t.len() - 1)
            &&& t.len() == 1 || text_columns(t) <= max
        },
{
    if text_columns(s) > max && max > 0 {
        lemma_laid(s, (max - 1) as nat);
        lemma_ellipsed(s, max, laid_out(s, (max - 1) as nat) as int);
    }
}

/// A cut text keeps as much as it can: as far as its characters fit one after
/// another beside the ellipsis, unless they are wider together than that.
pub proof fn law_no_more_than_needed_is_cut(s: Seq<char>, max: nat)
    requires
        text_columns(s) > max,
        max > 0,
    ensures
        cut(s, max).len() - 1 <= laid_out(s, (max - 1) as nat),
        forall|k: int|
            cut(s, max).len() - 1 < k <= laid_out(s, (max - 1) as nat) ==> text_columns(
                #[trigger] s.take(k).push('…'),
            ) > max,
{
    lemma_laid(s, (max - 1) as nat);
    lemma_ellipsed(s, max, laid_out(s, (max - 1) as nat) as int);
}

proof fn lemma_laid(s: Seq<char>, cols: nat)
    ensures
        laid_out(s, cols) <= s.len(),
    decreases s.len(),
{
    if s.len() > 0 && crate::columns::char_cost(s[0]) <= cols {
        lemma_laid(s.drop_first(), (cols - crate::columns::char_cost(s[0])) as nat);
    }
}

proof fn lemma_ellipsed(s: Seq<char>, max: nat, k: int)
    requires
        0 <= k <= s.len(),
    ensures
        ({
            let t = ellipsed(s, max, k);
            &&& 0 < t.len() <= k + 1
            &&& t.last() == '…'
            &&& t.drop_last() == s.take(t.len() - 1)
            &&& t.len() == 1 || text_columns(t) <= max
            &&& forall|j: int|
                t.len() - 1 < j <= k ==> text_columns(#[trigger] s.take(j).push('…')) > max
        }),
    decreases k,
{
    let t = s.take(k).push('…');
    assert(t.drop_last() =~= s.take(k));
    if k > 0 && text_columns(t) > max {
        lemma_ellipsed(s, max, k - 1);
    }
}

/// Setting a text in a column keeps all of it: blanks fill the room behind it, or in
/// front of it, and there are none where there is no room.
pub proof fn law_setting_keeps_the_text(s: Seq<char>, w: nat)
    ensures
        align_left(s, w).len() == if s.len() > w {
            s.len()
        } else {
            w
        },
        align_left(s, w).take(s.len() as int) == s,
        forall|i: int| s.len() <= i < align_left(s, w).len() ==> #[trigger] align_left(s, w)[i] == ' ',
        align_right(s, w).len() == align_left(s, w).len(),
        align_right(s, w).skip(align_right(s, w).len() - s.len()) == s,
        forall|i: int|
            0 <= i < align_right(s, w).len() - s.len() ==> #[trigger] align_right(s, w)[i] == ' ',
{
    assert(align_left(s, w).take(s.len() as int) =~= s);
    assert(align_right(s, w).skip(align_right(s, w).len() - s.len()) =~= s);
}

/// What follows the last `c` of a text has no `c` in it, and ends the text: all of
/// it, or right behind a `c`.
pub proof fn law_what_follows_the_last(s: Seq<char>, c: char)
    ensures
        ({
            let t = after_last(s, c);
            let n = s.len() - t.len();
            &&& !t.contains(c)
            &&& n >= 0 && s.skip(n) == t
            &&& n == 0 || s[n - 1] == c
        }),
    decreases s.len(),
{
    if s.contains(c) {
        let i = first_of(s, c) as int;
        lemma_first_of(s, c);
        let rest = s.skip(i + 1);
        law_what_follows_the_last(rest, c);
        let t = after_last(rest, c);
        let n = s.len() - t.len();
        assert(s.skip(n) =~= rest.skip(rest.len() - t.len()));
        if rest.len() > t.len() {
            assert(rest[rest.len() - t.len() - 1] == s[n - 1]);
        } else {
            assert(n - 1 == i);
        }
    } else {
        assert(s.skip(0) =~= s);
    }
}

proof fn lemma_first_of(s: Seq<char>, c: char)
    requires
        s.contains(c),
    ensures
        first_of(s, c) < s.len(),
        s[first_of(s, c) as int] == c,
        forall|i: int| 0 <= i < first_of(s, c) ==> #[trigger] s[i] != c,
    decreases s.len(),
{
    if s[0] != c {
        let i = choose|i: int| 0 <= i < s.len() && s[i] == c;
        let t = s.drop_first();
        assert(t[i - 1] == c);
        lemma_first_of(t, c);
        assert forall|j: int| 0 <= j < first_of(s, c) implies #[trigger] s[j] != c by {
            if j > 0 {
                assert(s[j] == t[j - 1]);
            }
        }
    }
}

/// A trimmed text has no space at either end, and nothing but spaces was taken.
pub proof fn law_trimming_takes_only_spaces(s: Seq<char>) -> (n: (int, int))
    ensures
        0 <= n.0 <= n.1 <= s.len(),
        trimmed(s) == s.subrange(n.0, n.1),
        forall|i: int| 0 <= i < n.0 ==> is_space(#[trigger] s[i]),
        forall|i: int| n.1 <= i < s.len() ==> is_space(#[trigger] s[i]),
        trimmed(s).len() > 0 ==> !is_space(trimmed(s)[0]) && !is_space(trimmed(s).last()),
    decreases s.len(),
{
    if s.len() == 0 {
        assert(s =~= s.subrange(0, 0));
        (0, 0)
    } else if is_space(s[0]) {
        let t = s.drop_first();
        let m = law_trimming_takes_only_spaces(t);
        assert(t.subrange(m.0, m.1) =~= s.subrange(m.0 + 1, m.1 + 1));
        assert forall|i: int| 0 <= i < m.0 + 1 implies is_space(#[trigger] s[i]) by {
            if i > 0 {
                assert(s[i] == t[i - 1]);
            }
        }
        assert forall|i: int| m.1 + 1 <= i < s.len() implies is_space(#[trigger] s[i]) by {
            assert(s[i] == t[i - 1]);
        }
        (m.0 + 1, m.1 + 1)
    } else if is_space(s.last()) {
        let t = s.drop_last();
        let m = law_trimming_takes_only_spaces(t);
        assert(t.subrange(m.0, m.1) =~= s.subrange(m.0, m.1));
        assert forall|i: int| 0 <= i < m.0 implies is_space(#[trigger] s[i]) by {
            assert(s[i] == t[i]);
        }
        assert forall|i: int| m.1 <= i < s.len() implies is_space(#[trigger] s[i]) by {
            if i < s.len() - 1 {
                assert(s[i] == t[i]);
            }
        }
        m
    } else {
        assert(s =~= s.subrange(0, s.len() as int));
        (0, s.len() as int)
    }
}

/// Texts one after another.
pub open spec fn run_together(v: Seq<Seq<char>>) -> Seq<char>
    decreases v.len(),
{
    if v.len() == 0 {
        Seq::empty()
    } else {
        v[0] + run_together(v.drop_first())
    }
}

proof fn lemma_filter_add(a: Seq<char>, b: Seq<char>, p: spec_fn(char) -> bool)
    ensures
        (a + b).filter(p) == a.filter(p) + b.filter(p),
{
    Seq::filter_distributes_over_add(a, b, p);
}

proof fn lemma_filter_all(a: Seq<char>, p: spec_fn(char) -> bool)
    requires
        forall|i: int| 0 <= i < a.len() ==> p(#[trigger] a[i]),
    ensures
        a.filter(p) == a,
    decreases a.len(),
{
    reveal(Seq::filter);
    if a.len() > 0 {
        let t = a.drop_last();
        assert forall|i: int| 0 <= i < t.len() implies p(#[trigger] t[i]) by {
            assert(t[i] == a[i]);
        }
        lemma_filter_all(t, p);
        assert(t.push(a.last()) =~= a);
        assert(p(a[a.len() - 1]));
    }
    assert(a.filter(p) =~= a);
}

/// The words of a text are all that is in it but its spaces, in order, none of them
/// empty and none with a space in it.
pub proof fn law_words_are_all_but_spaces(s: Seq<char>)
    ensures
        run_together(words(s)) == s.filter(|c: char| !is_space(c)),
        forall|i: int| 0 <= i < words(s).len() ==> is_word(#[trigger] words(s)[i]),
    decreases s.len(),
{
    let p = |c: char| !is_space(c);
    reveal(Seq::filter);
    if s.len() == 0 {
        assert(s.filter(p) =~= Seq::empty());
    } else if is_space(s[0]) {
        let t = s.drop_first();
        law_words_are_all_but_spaces(t);
        assert(s =~= seq![s[0]] + t);
        lemma_filter_add(seq![s[0]], t, p);
        let one = seq![s[0]];
        assert(one.drop_last() =~= Seq::<char>::empty());
        assert(one.last() == s[0]);
        assert(Seq::<char>::empty().filter(p) =~= Seq::empty());
        assert(one.filter(p) == one.drop_last().filter(p)) by {
            reveal_with_fuel(Seq::filter, 2);
        }
        assert(s.filter(p) =~= t.filter(p));
    } else {
        lemma_word_len(s);
        lemma_word_front(s);
        let n = word_len(s) as int;
        let w = s.take(n);
        let t = s.skip(n);
        law_words_are_all_but_spaces(t);
        assert(s =~= w + t);
        lemma_filter_add(w, t, p);
        lemma_filter_all(w, p);
        let all = words(s);
        assert(all =~= seq![w] + words(t));
        assert(all.drop_first() =~= words(t));
        assert(run_together(all) =~= s.filter(p));
        assert forall|i: int| 0 <= i < all.len() implies is_word(#[trigger] all[i]) by {
            if i > 0 {
                assert(all[i] == words(t)[i - 1]);
            }
        }
    }
}

proof fn lemma_word_front(s: Seq<char>)
    ensures
        word_len(s) <= s.len(),
        s.len() > 0 && !is_space(s[0]) ==> word_len(s) > 0,
        forall|i: int| 0 <= i < word_len(s) ==> !is_space(#[trigger] s[i]),
    decreases s.len(),
{
    if s.len() > 0 && !is_space(s[0]) {
        let t = s.drop_first();
        lemma_word_front(t);
        assert forall|i: int| 0 <= i < word_len(s) implies !is_space(#[trigger] s[i]) by {
            if i > 0 {
                assert(s[i] == t[i - 1]);
            }
        }
    }
}

// ── Wrapping ───────────────────────────────────────────────────────────────

/// The first word of a line.
pub open spec fn opening(line: Seq<char>) -> Seq<char> {
    line.take(word_len(line) as int)
}

proof fn lemma_opening(w: Seq<char>, rest: Seq<char>)
    requires
        is_word(w),
        rest.len() == 0 || is_space(rest[0]),
    ensures
        opening(w + rest) == w,
    decreases w.len(),
{
    let s = w + rest;
    lemma_opening_len(w, rest);
    assert(s.take(w.len() as int) =~= w);
}

proof fn lemma_opening_len(w: Seq<char>, rest: Seq<char>)
    requires
        forall|j: int| 0 <= j < w.len() ==> !is_space(#[trigger] w[j]),
        rest.len() == 0 || is_space(rest[0]),
    ensures
        word_len(w + rest) == w.len(),
    decreases w.len(),
{
    let s = w + rest;
    if w.len() > 0 {
        let v = w.drop_first();
        assert forall|j: int| 0 <= j < v.len() implies !is_space(#[trigger] v[j]) by {
            assert(v[j] == w[j + 1]);
        }
        lemma_opening_len(v, rest);
        assert(s.drop_first() =~= v + rest);
        assert(!is_space(w[0]));
        assert(s[0] == w[0]);
    } else {
        assert(s =~= rest);
    }
}

/// Whether a line could not have taken the first word of the next.
pub open spec fn brimful(line: Seq<char>, next: Seq<char>, width: int) -> bool {
    line.len() + 1 + opening(next).len() > width
}

proof fn lemma_greedy(ws: Seq<Seq<char>>, n: int, width: int)
    requires
        0 <= n <= ws.len(),
        forall|k: int| 0 <= k < ws.len() ==> is_word(#[trigger] ws[k]),
    ensures
        ({
            let f = filling(ws, n, width);
            &&& n > 0 ==> f.cur.len() > 0
            &&& n == 0 ==> f.done.len() == 0
            &&& f.cur.len() > 0 ==> !is_space(f.cur[0])
            &&& forall|i: int|
                0 <= i < f.done.len() - 1 ==> brimful(#[trigger] f.done[i], f.done[i + 1], width)
            &&& f.done.len() > 0 ==> brimful(f.done.last(), f.cur, width)
        }),
    decreases n,
{
    if n > 0 {
        lemma_greedy(ws, n - 1, width);
        let f = filling(ws, n - 1, width);
        let g = filling(ws, n, width);
        let w = ws[n - 1];
        assert(is_word(w));
        lemma_opening(w, Seq::empty());
        assert(w + Seq::<char>::empty() =~= w);
        if f.cur.len() > 0 && f.cur.len() + 1 + w.len() > width {
            assert forall|i: int| 0 <= i < g.done.len() - 1 implies brimful(
                #[trigger] g.done[i],
                g.done[i + 1],
                width,
            ) by {
                if i < f.done.len() - 1 {
                    assert(brimful(f.done[i], f.done[i + 1], width));
                }
            }
        } else if f.cur.len() > 0 {
            let more = seq![' '] + w;
            assert(g.cur =~= f.cur + more);
            lemma_keeps_opening(f.cur, more);
            if f.done.len() > 0 {
                assert(brimful(g.done.last(), g.cur, width));
            }
        }
    }
}

proof fn lemma_keeps_opening(line: Seq<char>, more: Seq<char>)
    requires
        line.len() > 0,
        more.len() > 0,
        is_space(more[0]),
    ensures
        opening(line + more) == opening(line),
{
    lemma_word_front(line);
    lemma_word_len(line);
    let n = word_len(line) as int;
    let w = line.take(n);
    let rest = line.skip(n) + more;
    assert(line + more =~= w + rest);
    assert(rest[0] == if n < line.len() {
        line[n]
    } else {
        more[0]
    });
    lemma_stops(line);
    lemma_opening_len(w, rest);
    assert((line + more).take(n) =~= w);
}

proof fn lemma_stops(line: Seq<char>)
    ensures
        word_len(line) < line.len() ==> is_space(line[word_len(line) as int]),
    decreases line.len(),
{
    if line.len() > 0 && !is_space(line[0]) {
        lemma_stops(line.drop_first());
    }
}

/// A wrapped text breaks only where it must: the first word of a line would not have
/// fitted on the line above.
pub proof fn law_lines_break_only_where_they_must(s: Seq<char>, width: int, i: int)
    requires
        0 <= i < wrapped(s, width).len() - 1,
    ensures
        brimful(wrapped(s, width)[i], wrapped(s, width)[i + 1], width),
{
    law_words_are_all_but_spaces(s);
    let ws = words(s);
    let f = filling(ws, ws.len() as int, width);
    lemma_greedy(ws, ws.len() as int, width);
    let all = wrapped(s, width);
    if i < f.done.len() - 1 {
        assert(all[i] == f.done[i] && all[i + 1] == f.done[i + 1]);
    }
}

/// A text without a word is one empty line; any other has a line at least, and no
/// empty one.
pub proof fn law_no_line_is_empty_for_nothing(s: Seq<char>, width: int, i: int)
    requires
        0 <= i < wrapped(s, width).len(),
    ensures
        words(s).len() == 0 ==> wrapped(s, width).len() == 1 && wrapped(s, width)[0].len() == 0,
        words(s).len() > 0 ==> wrapped(s, width)[i].len() > 0,
{
    law_words_are_all_but_spaces(s);
    let ws = words(s);
    lemma_greedy(ws, ws.len() as int, width);
    lemma_done_lines(ws, ws.len() as int, width);
    let f = filling(ws, ws.len() as int, width);
    if ws.len() > 0 && i < f.done.len() {
        assert(wrapped(s, width)[i] == f.done[i]);
    }
}

proof fn lemma_done_lines(ws: Seq<Seq<char>>, n: int, width: int)
    requires
        0 <= n <= ws.len(),
    ensures
        forall|i: int|
            0 <= i < filling(ws, n, width).done.len() ==> (#[trigger] filling(
                ws,
                n,
                width,
            ).done[i]).len() > 0,
    decreases n,
{
    if n > 0 {
        lemma_done_lines(ws, n - 1, width);
        let f = filling(ws, n - 1, width);
        let g = filling(ws, n, width);
        assert forall|i: int| 0 <= i < g.done.len() implies (#[trigger] g.done[i]).len() > 0 by {
            if i < f.done.len() {
                assert(g.done[i] == f.done[i]);
            }
        }
    }
}

// ── Clicks ─────────────────────────────────────────────────────────────────

/// How many rows of a table fit under its header, one at least.
pub open spec fn room_for(inner: Rect, header_rows: u16, row_h: u16) -> int {
    let n = (inner.height - header_rows) / (row_h as int);
    if n < 1 {
        1
    } else {
        n
    }
}

/// The first row of a table on screen: the first of all while the selected one is
/// among those that fit, and otherwise so that the selected one is the last.
pub open spec fn scrolled_to(inner: Rect, header_rows: u16, row_h: u16, selected: int) -> int {
    let n = room_for(inner, header_rows, row_h);
    if selected < n {
        0
    } else {
        selected + 1 - n
    }
}

proof fn lemma_clicks(
    inner: Rect,
    header_rows: u16,
    row_h: u16,
    selected: int,
    f: spec_fn(int) -> Option<Hit>,
    to: int,
    r: int,
)
    ensures
        ({
            let v = clicks_upto(inner, header_rows, row_h, selected, f, to);
            let first = first_row(inner, header_rows, row_h, selected);
            &&& first <= r < to && f(r) is Some ==> v.contains(
                OpV::Click { area: row_rect(inner, header_rows, row_h, selected, r), hit: f(r)->0 },
            )
            &&& forall|k: int|
                0 <= k < v.len() ==> #[trigger] v[k] is Click && exists|q: int|
                    first <= q < to && f(q) == Some(v[k]->hit) && v[k]->Click_area
                        == #[trigger] row_rect(inner, header_rows, row_h, selected, q)
        }),
    decreases to - first_row(inner, header_rows, row_h, selected),
{
    let first = first_row(inner, header_rows, row_h, selected);
    let v = clicks_upto(inner, header_rows, row_h, selected, f, to);
    if to > first {
        lemma_clicks(inner, header_rows, row_h, selected, f, to - 1, r);
        let u = clicks_upto(inner, header_rows, row_h, selected, f, to - 1);
        assert forall|k: int| 0 <= k < v.len() implies #[trigger] v[k] is Click && exists|q: int|
            first <= q < to && f(q) == Some(v[k]->hit) && v[k]->Click_area == #[trigger] row_rect(
                inner,
                header_rows,
                row_h,
                selected,
                q,
            ) by {
            if k < u.len() {
                assert(v[k] == u[k]);
                let q = choose|q: int|
                    first <= q < to - 1 && f(q) == Some(u[k]->hit) && u[k]->Click_area
                        == #[trigger] row_rect(inner, header_rows, row_h, selected, q);
                assert(v[k]->Click_area == row_rect(inner, header_rows, row_h, selected, q));
            } else {
                assert(v[k]->Click_area == row_rect(inner, header_rows, row_h, selected, to - 1));
            }
        }
        if first <= r < to && f(r) is Some {
            let c = OpV::Click {
                area: row_rect(inner, header_rows, row_h, selected, r),
                hit: f(r)->0,
            };
            if r < to - 1 {
                let k = choose|k: int| 0 <= k < u.len() && u[k] == c;
                assert(v[k] == c);
            } else {
                assert(v.last() == c);
            }
        }
    }
}

/// A click on a row of a table lands on what the row stands for: the target of row
/// `r` lies where the row is drawn, as far below the header as there are rows on
/// screen above it, across the table and as tall as a row. Rows that are not on
/// screen, or stand for nothing, have none.
pub proof fn law_clicks_land_on_their_row(
    inner: Rect,
    header_rows: u16,
    row_h: u16,
    total: int,
    selected: int,
    f: spec_fn(int) -> Option<Hit>,
    r: int,
)
    requires
        inner.height > header_rows,
        row_h > 0,
        total > 0,
        selected >= 0,
    ensures
        ({
            let v = table_clicks(inner, header_rows, row_h, total, selected, f);
            let first = scrolled_to(inner, header_rows, row_h, selected);
            let end = least(total, first + room_for(inner, header_rows, row_h));
            let at = |q: int|
                Rect {
                    x: inner.x,
                    y: (inner.y + header_rows + (q - first) * row_h) as u16,
                    width: inner.width,
                    height: row_h,
                };
            &&& first <= r < end && f(r) is Some ==> v.contains(
                OpV::Click { area: at(r), hit: f(r)->0 },
            )
            &&& forall|k: int|
                0 <= k < v.len() ==> #[trigger] v[k] is Click && exists|q: int|
                    first <= q < end && f(q) == Some(v[k]->hit) && v[k]->Click_area == #[trigger] at(
                        q,
                    )
        }),
{
    let first = scrolled_to(inner, header_rows, row_h, selected);
    let end = least(total, first + room_for(inner, header_rows, row_h));
    assert(first == first_row(inner, header_rows, row_h, selected));
    lemma_clicks(inner, header_rows, row_h, selected, f, end, r);
    let v = table_clicks(inner, header_rows, row_h, total, selected, f);
    let at = |q: int|
        Rect {
            x: inner.x,
            y: (inner.y + header_rows + (q - first) * row_h) as u16,
            width: inner.width,
            height: row_h,
        };
    assert forall|q: int| #[trigger] at(q) == row_rect(
        inner,
        header_rows,
        row_h,
        selected,
        q,
    ) by {}
    assert forall|k: int| 0 <= k < v.len() implies #[trigger] v[k] is Click && exists|q: int|
        first <= q < end && f(q) == Some(v[k]->hit) && v[k]->Click_area == #[trigger] at(q) by {
        let q = choose|q: int|
            first <= q < end && f(q) == Some(v[k]->hit) && v[k]->Click_area == #[trigger] row_rect(
                inner,
                header_rows,
                row_h,
                selected,
                q,
            );
        assert(v[k]->Click_area == at(q));
    }
}

/// In a table whose rows all stand for something row `r` stands for item `r`.
pub proof fn law_rows_stand_for_their_item(r: usize)
    ensures
        all_rows(RowKind::GitEntry)(r as int) == Some(Hit::GitEntry(r)),
        all_rows(RowKind::Workflow)(r as int) == Some(Hit::Workflow(r)),
        all_rows(RowKind::Run)(r as int) == Some(Hit::Run(r)),
        all_rows(RowKind::DetailItem)(r as int) == Some(Hit::DetailItem(r)),
{
}

/// A key is written as it is bound, but for the three whose names are signs.
pub proof fn law_keys_are_written_as_bound(s: Seq<char>)
    ensures
        shown("Enter"@) == "↵"@,
        shown("Esc"@) == "Esc"@,
        shown("Escape"@) == "Esc"@,
        shown("Space"@) == "␣"@,
        s != "Enter"@ && s != "Escape"@ && s != "Space"@ ==> shown(s) == s,
{
    reveal_strlit("Enter");
    reveal_strlit("Esc");
    reveal_strlit("Escape");
    reveal_strlit("Space");
    assert("Enter"@.len() == 5 && "Space"@.len() == 5 && "Esc"@.len() == 3 && "Escape"@.len() == 6);
    assert("Enter"@[0] != "Space"@[0]);
}

} // verus!
