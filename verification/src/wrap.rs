//! Prose cut to a column, and searched.

use vstd::prelude::*;
use vstd::string::*;

use crate::list::{none, put};
use crate::ops::{say, say_of};
use crate::paint::{sp, Span, SpanV, Style};
use crate::text::{cat3, chars_of, contains, found_at, holds, holds_at, is_word, lemma_words, lower_ascii, lowered, text_between, text_of, words, words_of};

verus! {

broadcast use vstd::string::group_string_axioms;

// ── Wrapping ───────────────────────────────────────────────────────────────

/// Lines finished so far, and the one being filled.
pub struct Filling {
    pub done: Seq<Seq<char>>,
    pub cur: Seq<char>,
}

/// The first `n` words laid out greedily: a word goes on the line being filled
/// while it fits, and opens the next one when it does not.
pub open spec fn filling(ws: Seq<Seq<char>>, n: int, width: int) -> Filling
    decreases n,
{
    if n <= 0 {
        Filling { done: Seq::empty(), cur: Seq::empty() }
    } else {
        let f = filling(ws, n - 1, width);
        let w = ws[n - 1];
        if f.cur.len() > 0 && f.cur.len() + 1 + w.len() > width {
            Filling { done: f.done.push(f.cur), cur: w }
        } else if f.cur.len() > 0 {
            Filling { done: f.done, cur: f.cur.push(' ') + w }
        } else {
            Filling { done: f.done, cur: w }
        }
    }
}

/// Words laid out greedily; one empty line when there are none.
pub open spec fn laid_out(ws: Seq<Seq<char>>, width: int) -> Seq<Seq<char>> {
    let f = filling(ws, ws.len() as int, width);
    if f.cur.len() > 0 {
        f.done.push(f.cur)
    } else if f.done.len() == 0 {
        seq![Seq::empty()]
    } else {
        f.done
    }
}

/// `s` wrapped at `width` characters.
pub open spec fn wrapped(s: Seq<char>, width: int) -> Seq<Seq<char>> {
    laid_out(words(s), width)
}

/// Greedy word wrap: every line fits `width`, long single words get a line to
/// themselves rather than being split mid-word.
pub fn wrap_words(s: &str, width: usize) -> (out: Vec<String>)
    ensures
        out.deep_view() == wrapped(s@, width as int),
{
    let ws = words_of(s);
    let ghost w = words(s@);
    let mut out: Vec<String> = none();
    let mut cur: Vec<char> = Vec::new();
    let mut i: usize = 0;
    while i < ws.len()
        invariant
            i <= ws@.len(),
            w == words(s@),
            ws.deep_view() == w,
            ws@.len() == w.len(),
            out.deep_view() == filling(w, i as int, width as int).done,
            cur@ == filling(w, i as int, width as int).cur,
        decreases ws@.len() - i,
    {
        assert(w[i as int] == ws@[i as int].deep_view());
        assert(ws@[i as int].deep_view() =~= ws@[i as int]@);
        let ghost before = cur@;
        if cur.len() > 0 && cur.len() as u128 + 1 + ws[i].len() as u128 > width as u128 {
            put(&mut out, text_of(&cur));
            cur = Vec::new();
        }
        if cur.len() > 0 {
            cur.push(' ');
        }
        let ghost base = cur@;
        let mut k: usize = 0;
        assert(ws@[i as int]@.take(0) =~= Seq::empty());
        assert(base + ws@[i as int]@.take(0) =~= base);
        while k < ws[i].len()
            invariant
                i < ws@.len(),
                k <= ws@[i as int]@.len(),
                cur@ == base + ws@[i as int]@.take(k as int),
            decreases ws@[i as int]@.len() - k,
        {
            cur.push(ws[i][k]);
            assert(cur@ =~= base + ws@[i as int]@.take(k + 1));
            k = k + 1;
        }
        assert(ws@[i as int]@.take(k as int) =~= ws@[i as int]@);
        proof {
            let f = filling(w, i as int, width as int);
            if before.len() > 0 && before.len() + 1 + w[i as int].len() <= width {
                assert(base == before.push(' '));
            } else {
                assert(base =~= Seq::empty());
                assert(base + w[i as int] =~= w[i as int]);
            }
        }
        i = i + 1;
    }
    if cur.len() > 0 {
        put(&mut out, text_of(&cur));
    }
    if out.len() == 0 {
        put(&mut out, String::new());
        assert(out.deep_view() =~= seq![Seq::<char>::empty()]);
    }
    out
}

/// Whether a line fits, or is one long word by itself.
pub open spec fn fair_line(line: Seq<char>, ws: Seq<Seq<char>>, width: int) -> bool {
    line.len() <= width || exists|k: int| 0 <= k < ws.len() && line == #[trigger] ws[k]
}

proof fn lemma_fair(ws: Seq<Seq<char>>, n: int, width: int)
    requires
        0 <= n <= ws.len(),
        width >= 0,
    ensures
        ({
            let f = filling(ws, n, width);
            &&& forall|i: int|
                0 <= i < f.done.len() ==> fair_line(#[trigger] f.done[i], ws, width)
            &&& fair_line(f.cur, ws, width)
        }),
    decreases n,
{
    if n > 0 {
        lemma_fair(ws, n - 1, width);
        let f = filling(ws, n - 1, width);
        let g = filling(ws, n, width);
        assert(fair_line(ws[n - 1], ws, width));
        assert forall|i: int| 0 <= i < g.done.len() implies fair_line(#[trigger] g.done[i], ws, width) by {
            if i < f.done.len() {
                assert(g.done[i] == f.done[i]);
            }
        }
    }
}

/// Every line of a wrapped text fits the width, unless it is a single word that
/// is longer than it.
pub proof fn law_lines_fit_or_are_one_word(s: Seq<char>, width: int, i: int)
    requires
        width >= 0,
        0 <= i < wrapped(s, width).len(),
    ensures
        fair_line(wrapped(s, width)[i], words(s), width),
{
    let ws = words(s);
    lemma_fair(ws, ws.len() as int, width);
    let f = filling(ws, ws.len() as int, width);
    if i < f.done.len() {
        assert(wrapped(s, width)[i] == f.done[i]);
    }
}

/// `parts` one after another, a blank between them.
pub open spec fn spaced(parts: Seq<Seq<char>>) -> Seq<char>
    decreases parts.len(),
{
    if parts.len() == 0 {
        Seq::empty()
    } else if parts.len() == 1 {
        parts[0]
    } else {
        spaced(parts.drop_last()).push(' ') + parts.last()
    }
}

proof fn lemma_spaced(ws: Seq<Seq<char>>, n: int, width: int)
    requires
        0 <= n <= ws.len(),
        forall|i: int| 0 <= i < ws.len() ==> (#[trigger] ws[i]).len() > 0,
    ensures
        ({
            let f = filling(ws, n, width);
            &&& n == 0 ==> f.done.len() == 0 && f.cur.len() == 0
            &&& n > 0 ==> f.cur.len() > 0 && spaced(f.done.push(f.cur)) == spaced(ws.take(n))
        }),
    decreases n,
{
    if n > 0 {
        lemma_spaced(ws, n - 1, width);
        let f = filling(ws, n - 1, width);
        let g = filling(ws, n, width);
        let w = ws[n - 1];
        assert(ws.take(n).drop_last() =~= ws.take(n - 1));
        assert(ws.take(n).last() == w);
        if n == 1 {
            assert(f.done.push(w) =~= seq![w]);
            assert(ws.take(1) =~= seq![w]);
        } else if f.cur.len() + 1 + w.len() > width {
            let p = g.done.push(g.cur);
            assert(p.drop_last() =~= f.done.push(f.cur));
            assert(p.last() == w);
        } else {
            let p = f.done.push(f.cur);
            let q = g.done.push(g.cur);
            assert(p.drop_last() =~= f.done);
            assert(q.drop_last() =~= f.done);
            assert(q.last() == f.cur.push(' ') + w);
            if f.done.len() == 0 {
                assert(spaced(p) == f.cur);
                assert(spaced(q) == f.cur.push(' ') + w);
            } else {
                assert(spaced(p) == spaced(f.done).push(' ') + f.cur);
                assert(spaced(q) =~= spaced(p).push(' ') + w);
            }
        }
    }
}

/// Wrapping loses nothing and adds nothing: the lines of a wrapped text, set
/// one after another, are its words in order.
pub proof fn law_wrapping_keeps_every_word(s: Seq<char>, width: int)
    ensures
        spaced(wrapped(s, width)) == spaced(words(s)),
{
    let ws = words(s);
    lemma_words(s);
    assert forall|i: int| 0 <= i < ws.len() implies (#[trigger] ws[i]).len() > 0 by {
        assert(is_word(ws[i]));
    }
    lemma_spaced(ws, ws.len() as int, width);
    assert(ws.take(ws.len() as int) =~= ws);
    if ws.len() == 0 {
        assert(wrapped(s, width) =~= seq![Seq::<char>::empty()]);
    }
}

// ── Searching ──────────────────────────────────────────────────────────────

/// A text in lower case, as `str::to_lowercase` writes it.
pub uninterp spec fn lower_case(s: Seq<char>) -> Seq<char>;

/// Whether a text is all ASCII.
pub open spec fn ascii(s: Seq<char>) -> bool {
    forall|i: int| 0 <= i < s.len() ==> (#[trigger] s[i]) as int <= 0x7f
}

/// `str::to_lowercase`: a text that depends on `s` alone. ASCII text has its
/// capitals made small and nothing else changed.
#[verifier::external_body]
pub(crate) fn to_lower(s: &str) -> (r: String)
    ensures
        r@ == lower_case(s@),
        ascii(s@) ==> r@ == lowered(s@),
{
    s.to_lowercase()
}

/// The first character of a character's lower case, as `char::to_lowercase`
/// gives it.
pub uninterp spec fn small(c: char) -> char;

/// `char::to_lowercase`: the first character it yields, which depends on `c`
/// alone. An ASCII capital yields its small letter, any other ASCII character
/// itself.
#[verifier::external_body]
pub(crate) fn to_small(c: char) -> (r: char)
    ensures
        r == small(c),
        c as int <= 0x7f ==> r == lower_ascii(c),
{
    c.to_lowercase().next().unwrap_or(c)
}

/// Whether every term occurs in `hay`.
pub open spec fn all_held(hay: Seq<char>, terms: Seq<Seq<char>>) -> bool {
    forall|i: int| 0 <= i < terms.len() ==> holds(hay, #[trigger] terms[i])
}

/// The terms of a query, in lower case.
pub open spec fn lower_terms(query: Seq<char>) -> Seq<Seq<char>> {
    Seq::new(words(query).len(), |i: int| lower_case(words(query)[i]))
}

/// Whether one row of the reference survives a query: every term of the query
/// turns up somewhere in the key or its description, whatever the case.
pub open spec fn row_matches(key: Seq<char>, desc: Seq<char>, query: Seq<char>) -> bool {
    all_held(lower_case(key + " "@ + desc), lower_terms(query))
}

/// Whether every term occurs in `hay`.
pub fn holds_all(hay: &str, terms: &Vec<String>) -> (r: bool)
    ensures
        r == all_held(hay@, terms.deep_view()),
{
    let ghost t = terms.deep_view();
    for i in 0..terms.len()
        invariant
            t == terms.deep_view(),
            forall|j: int| 0 <= j < i ==> holds(hay@, #[trigger] t[j]),
    {
        assert(t[i as int] == terms@[i as int]@);
        if !contains(hay, &terms[i]) {
            return false;
        }
    }
    true
}

/// Whether one row of the reference survives a query. Substring, not fuzzy: on
/// prose this short a subsequence match keeps almost every row, which is the
/// one thing a filter must not do.
pub fn help_row_matches(key: &str, desc: &str, query: &str) -> (r: bool)
    ensures
        r == row_matches(key@, desc@, query@),
{
    let hay = to_lower(&cat3(key, " ", desc));
    let ws = words_of(query);
    let ghost w = words(query@);
    let mut terms: Vec<String> = none();
    let mut i: usize = 0;
    while i < ws.len()
        invariant
            i <= ws@.len(),
            w == words(query@),
            ws.deep_view() == w,
            ws@.len() == w.len(),
            terms.deep_view() == lower_terms(query@).take(i as int),
        decreases ws@.len() - i,
    {
        assert(w[i as int] == ws@[i as int].deep_view());
        assert(ws@[i as int].deep_view() =~= ws@[i as int]@);
        let t = text_of(&ws[i]);
        put(&mut terms, to_lower(&t));
        assert(terms.deep_view() =~= lower_terms(query@).take(i + 1));
        i = i + 1;
    }
    assert(lower_terms(query@).take(w.len() as int) =~= lower_terms(query@));
    holds_all(&hay, &terms)
}

/// An empty query keeps every row.
pub proof fn law_empty_queries_keep_everything(key: Seq<char>, desc: Seq<char>, query: Seq<char>)
    requires
        words(query).len() == 0,
    ensures
        row_matches(key, desc, query),
{
}

/// A text with every character made small, one for one.
pub open spec fn folded(s: Seq<char>) -> Seq<char> {
    Seq::new(s.len(), |i: int| small(s[i]))
}

/// Whether a place in `s` falls inside an occurrence of `t` that starts at `j`.
pub open spec fn covers(s: Seq<char>, t: Seq<char>, j: int, i: int) -> bool {
    holds_at(s, t, j) && j <= i < j + t.len()
}

/// Whether a place in `s` falls inside any occurrence of `t`.
pub open spec fn covered_by(s: Seq<char>, t: Seq<char>, i: int) -> bool {
    exists|j: int| #[trigger] covers(s, t, j, i)
}

/// Whether a place in `s` falls inside an occurrence of one of the first `n`
/// terms.
pub open spec fn covered(s: Seq<char>, terms: Seq<Seq<char>>, n: int, i: int) -> bool {
    exists|k: int| 0 <= k < n && covered_by(s, #[trigger] terms[k], i)
}

/// The terms of a query, folded.
pub open spec fn folded_terms(query: Seq<char>) -> Seq<Seq<char>> {
    Seq::new(words(query).len(), |i: int| folded(words(query)[i]))
}

/// The places of `s` that a query marks.
pub open spec fn marks(s: Seq<char>, query: Seq<char>) -> Seq<bool> {
    Seq::new(
        s.len(),
        |i: int| covered(folded(s), folded_terms(query), words(query).len() as int, i),
    )
}

/// How many of `m` from the front are alike.
pub open spec fn alike(m: Seq<bool>, on: bool) -> nat
    decreases m.len(),
{
    if m.len() == 0 || m[0] != on {
        0
    } else {
        1 + alike(m.drop_first(), on)
    }
}

/// `s` cut where the marks change, what is marked in one style and the rest in
/// another.
pub open spec fn cut_at(s: Seq<char>, m: Seq<bool>, base: Style, hit: Style) -> Seq<SpanV>
    decreases s.len(),
{
    if s.len() == 0 || m.len() != s.len() {
        Seq::empty()
    } else {
        let n = alike(m, m[0]) as int;
        if 0 < n <= s.len() {
            seq![
                sp(
                    s.take(n),
                    if m[0] {
                        hit
                    } else {
                        base
                    },
                ),
            ] + cut_at(s.skip(n), m.skip(n), base, hit)
        } else {
            Seq::empty()
        }
    }
}

/// `s` with every occurrence of a search term lifted; one empty span when there
/// is nothing to cut.
pub open spec fn highlighted(s: Seq<char>, query: Seq<char>, base: Style, hit: Style) -> Seq<SpanV> {
    if s.len() == 0 {
        seq![sp(""@, base)]
    } else {
        cut_at(s, marks(s, query), base, hit)
    }
}

proof fn lemma_alike(m: Seq<bool>, on: bool, n: int)
    requires
        0 <= n <= m.len(),
        forall|j: int| 0 <= j < n ==> m[j] == on,
        n < m.len() ==> m[n] != on,
    ensures
        alike(m, on) == n,
    decreases m.len(),
{
    if n > 0 {
        let t = m.drop_first();
        assert forall|j: int| 0 <= j < n - 1 implies t[j] == on by {
            assert(t[j] == m[j + 1]);
        }
        lemma_alike(t, on, n - 1);
    }
}

/// The texts of a run of spans, one after another.
pub open spec fn texts(v: Seq<SpanV>) -> Seq<char>
    decreases v.len(),
{
    if v.len() == 0 {
        Seq::empty()
    } else {
        v[0].text + texts(v.drop_first())
    }
}

proof fn lemma_cut_keeps(s: Seq<char>, m: Seq<bool>, base: Style, hit: Style)
    requires
        s.len() == m.len(),
    ensures
        texts(cut_at(s, m, base, hit)) == s,
    decreases s.len(),
{
    if s.len() > 0 {
        lemma_alike_bounds(m, m[0]);
        let n = alike(m, m[0]) as int;
        lemma_cut_keeps(s.skip(n), m.skip(n), base, hit);
        let v = cut_at(s, m, base, hit);
        assert(v.drop_first() =~= cut_at(s.skip(n), m.skip(n), base, hit));
        assert(s.take(n) + s.skip(n) =~= s);
    } else {
        assert(s =~= Seq::empty());
    }
}

proof fn lemma_alike_bounds(m: Seq<bool>, on: bool)
    ensures
        alike(m, on) <= m.len(),
        m.len() > 0 && m[0] == on ==> alike(m, on) > 0,
    decreases m.len(),
{
    if m.len() > 0 && m[0] == on {
        lemma_alike_bounds(m.drop_first(), on);
    }
}

/// Marking a text changes nothing in it: its spans, set one after another, are
/// the text.
pub proof fn law_highlighting_keeps_the_text(
    s: Seq<char>,
    query: Seq<char>,
    base: Style,
    hit: Style,
)
    ensures
        texts(highlighted(s, query, base, hit)) == s,
{
    if s.len() > 0 {
        lemma_cut_keeps(s, marks(s, query), base, hit);
    } else {
        reveal_strlit("");
        let v = highlighted(s, query, base, hit);
        assert(v.drop_first() =~= Seq::empty());
        assert(texts(Seq::<SpanV>::empty()) =~= Seq::empty());
        assert(texts(v) =~= s);
    }
}

fn fold_chars(v: &Vec<char>) -> (r: Vec<char>)
    ensures
        r@ == folded(v@),
{
    let mut out: Vec<char> = Vec::new();
    for i in 0..v.len()
        invariant
            out@ == folded(v@).take(i as int),
    {
        out.push(to_small(v[i]));
        assert(out@ =~= folded(v@).take(i + 1));
    }
    assert(folded(v@).take(v@.len() as int) =~= folded(v@));
    out
}

fn is_covered_by(lower: &Vec<char>, t: &Vec<char>, i: usize) -> (r: bool)
    requires
        i < lower@.len(),
    ensures
        r == covered_by(lower@, t@, i as int),
{
    let mut j: usize = 0;
    while j <= i
        invariant
            j <= i + 1,
            i < lower@.len(),
            forall|k: int| 0 <= k < j ==> !#[trigger] covers(lower@, t@, k, i as int),
        decreases i + 1 - j,
    {
        if i - j < t.len() && found_at(lower, t, j) {
            assert(covers(lower@, t@, j as int, i as int));
            return true;
        }
        assert(!covers(lower@, t@, j as int, i as int));
        if j == i {
            assert forall|k: int| !#[trigger] covers(lower@, t@, k, i as int) by {
                if 0 <= k <= j {
                }
            }
            return false;
        }
        j = j + 1;
    }
    false
}

fn is_covered(lower: &Vec<char>, terms: &Vec<Vec<char>>, i: usize) -> (r: bool)
    requires
        i < lower@.len(),
    ensures
        r == covered(lower@, terms.deep_view(), terms@.len() as int, i as int),
{
    let ghost ts = terms.deep_view();
    let mut k: usize = 0;
    while k < terms.len()
        invariant
            k <= terms@.len(),
            i < lower@.len(),
            ts == terms.deep_view(),
            forall|m: int|
                0 <= m < k ==> !covered_by(lower@, #[trigger] ts[m], i as int),
        decreases terms@.len() - k,
    {
        assert(ts[k as int] == terms@[k as int].deep_view());
        assert(terms@[k as int].deep_view() =~= terms@[k as int]@);
        if is_covered_by(lower, &terms[k], i) {
            assert(covered_by(lower@, ts[k as int], i as int));
            return true;
        }
        k = k + 1;
    }
    false
}

/// `s` cut into spans with every occurrence of a search term lifted into `hit`:
/// the row shows why it survived, rather than leaving the eye to run the search
/// again.
pub fn highlight_terms(s: &str, query: &str, base: Style, hit: Style) -> (out: Vec<Span>)
    ensures
        out.deep_view() == highlighted(s@, query@, base, hit),
{
    let src = chars_of(s);
    let lower = fold_chars(&src);
    let ws = words_of(query);
    let ghost w = words(query@);
    let mut terms: Vec<Vec<char>> = none();
    let mut k: usize = 0;
    while k < ws.len()
        invariant
            k <= ws@.len(),
            w == words(query@),
            ws.deep_view() == w,
            ws@.len() == w.len(),
            terms@.len() == k,
            terms.deep_view() == folded_terms(query@).take(k as int),
        decreases ws@.len() - k,
    {
        assert(w[k as int] == ws@[k as int].deep_view());
        assert(ws@[k as int].deep_view() =~= ws@[k as int]@);
        let t = fold_chars(&ws[k]);
        assert(t.deep_view() =~= t@);
        put(&mut terms, t);
        assert(terms.deep_view() =~= folded_terms(query@).take(k + 1));
        k = k + 1;
    }
    assert(folded_terms(query@).take(w.len() as int) =~= folded_terms(query@));
    let mut mark: Vec<bool> = Vec::new();
    let ghost m = marks(s@, query@);
    let mut i: usize = 0;
    while i < src.len()
        invariant
            i <= src@.len(),
            src@ == s@,
            lower@ == folded(s@),
            terms.deep_view() == folded_terms(query@),
            terms@.len() == words(query@).len(),
            m == marks(s@, query@),
            mark@ == m.take(i as int),
        decreases src@.len() - i,
    {
        mark.push(is_covered(&lower, &terms, i));
        assert(mark@ =~= m.take(i + 1));
        i = i + 1;
    }
    assert(mark@ =~= m);
    let mut out: Vec<Span> = none();
    let mut at: usize = 0;
    assert(s@.skip(0) =~= s@);
    assert(m.skip(0) =~= m);
    assert(out.deep_view() + cut_at(s@, m, base, hit) =~= cut_at(s@, m, base, hit));
    while at < src.len()
        invariant
            at <= src@.len(),
            src@ == s@,
            mark@ == m,
            m.len() == s@.len(),
            out.deep_view() + cut_at(s@.skip(at as int), m.skip(at as int), base, hit) == cut_at(
                s@,
                m,
                base,
                hit,
            ),
            at > 0 ==> out@.len() > 0,
        decreases src@.len() - at,
    {
        let on = mark[at];
        let start: usize = at;
        while at < src.len() && mark[at] == on
            invariant
                start <= at <= src@.len(),
                src@.len() == mark@.len(),
                forall|j: int| start <= j < at ==> mark@[j] == on,
            decreases src@.len() - at,
        {
            at = at + 1;
        }
        let ghost rest = s@.skip(start as int);
        let ghost mrest = m.skip(start as int);
        let text = text_between(&src, start, at);
        proof {
            let n = at - start;
            assert forall|j: int| 0 <= j < n implies mrest[j] == on by {
                assert(mrest[j] == mark@[start + j]);
            }
            if n < mrest.len() {
                assert(mrest[n] == mark@[at as int]);
            }
            assert(mrest[0] == mark@[start as int]);
            lemma_alike(mrest, on, n);
            assert(src@.subrange(start as int, at as int) =~= rest.take(n));
            assert(rest.skip(n) =~= s@.skip(at as int));
            assert(mrest.skip(n) =~= m.skip(at as int));
        }
        let ghost before = out.deep_view();
        say_of(
            &mut out,
            text,
            if on {
                hit
            } else {
                base
            },
        );
        assert(out.deep_view() + cut_at(s@.skip(at as int), m.skip(at as int), base, hit)
            =~= before + cut_at(rest, mrest, base, hit));
    }
    assert(s@.skip(at as int).len() == 0);
    assert(out.deep_view() + cut_at(s@.skip(at as int), m.skip(at as int), base, hit)
        =~= out.deep_view());
    if src.len() == 0 {
        let mut v: Vec<Span> = none();
        say(&mut v, "", base);
        return v;
    }
    out
}

} // verus!
