//! The help card: the whole reference, folded into the room there is.

use vstd::prelude::*;
use vstd::string::*;

use crate::geometry::{dialog, dialog_over, framed, inner_of, larger, less, lesser, on_screen, split, split_into, Constraint, Padding, Rect};
use crate::keys::{display_key, help_section_for, help_sections, reference, shown, Hint, HintV, Section, SectionV};
use crate::list::{each, first_where, lemma_first_where, none, push_if, put, put_all};
use crate::motion::{progress, help_reveal_at, HELP_STEP, WHOLE};
use crate::ops::{add_blank, add_frame, add_line, chip, chip_line, say, say_of, tell, Border, BorderV, Op, OpV, Reading};
use crate::paint::{aligned, align_line, bg, fg, line, line_of, ln, ln1, plain, share, sp, span, span_of, Align, Line, LineV, Paint, Role, Span, SpanV, Style};
use crate::state::App;
use crate::text::{align_right, blanks, cat2, cat3, cat5, dec, num, pad_left, run_of, same, trim, trimmed};
use crate::wrap::{help_row_matches, highlight_terms, highlighted, row_matches, wrap_words, wrapped};

verus! {

broadcast use vstd::string::group_string_axioms;

// ── What is shown ──────────────────────────────────────────────────────────

/// The first `n` rows that survive a query.
pub open spec fn kept_rows(rows: Seq<HintV>, query: Seq<char>, n: int) -> Seq<HintV>
    decreases n,
{
    if n <= 0 {
        Seq::empty()
    } else {
        push_if(
            kept_rows(rows, query, n - 1),
            row_matches(rows[n - 1].0, rows[n - 1].1, query),
            rows[n - 1],
        )
    }
}

/// The first `n` sections cut down to the rows that survive a query, those left
/// with none dropped.
pub open spec fn kept_sections(all: Seq<SectionV>, query: Seq<char>, n: int) -> Seq<SectionV>
    decreases n,
{
    if n <= 0 {
        Seq::empty()
    } else {
        let rows = kept_rows(all[n - 1].1, query, all[n - 1].1.len() as int);
        push_if(kept_sections(all, query, n - 1), rows.len() > 0, (all[n - 1].0, rows))
    }
}

/// The sections a query leaves: all of them when it is empty.
pub open spec fn filtered(all: Seq<SectionV>, query: Seq<char>) -> Seq<SectionV> {
    if query.len() == 0 {
        all
    } else {
        kept_sections(all, query, all.len() as int)
    }
}

/// Every row that is shown matches the query, and no section is shown empty.
pub proof fn law_filters_keep_only_matches(all: Seq<SectionV>, query: Seq<char>, i: int)
    requires
        query.len() > 0,
        0 <= i < filtered(all, query).len(),
    ensures
        filtered(all, query)[i].1.len() > 0,
        forall|k: int|
            0 <= k < filtered(all, query)[i].1.len() ==> row_matches(
                (#[trigger] filtered(all, query)[i].1[k]).0,
                filtered(all, query)[i].1[k].1,
                query,
            ),
{
    lemma_kept_sections(all, query, all.len() as int, i);
}

/// Every row that matches the query is shown, under its own section.
pub proof fn law_filters_keep_every_match(all: Seq<SectionV>, query: Seq<char>, j: int, r: int)
    requires
        0 <= j < all.len(),
        0 <= r < all[j].1.len(),
        row_matches(all[j].1[r].0, all[j].1[r].1, query),
    ensures
        exists|i: int, k: int|
            0 <= i < filtered(all, query).len() && 0 <= k < filtered(all, query)[i].1.len()
                && filtered(all, query)[i].0 == all[j].0 && #[trigger] filtered(all, query)[i].1[k]
                == all[j].1[r],
{
    if query.len() == 0 {
        assert(filtered(all, query)[j].1[r] == all[j].1[r]);
    } else {
        let n = all.len() as int;
        let i = lemma_section_kept(all, query, n, j, r);
        let k = lemma_row_kept(all[j].1, query, all[j].1.len() as int, r);
        assert(filtered(all, query)[i].1[k] == all[j].1[r]);
    }
}

proof fn lemma_row_kept(rows: Seq<HintV>, query: Seq<char>, n: int, r: int) -> (k: int)
    requires
        0 <= r < n <= rows.len(),
        row_matches(rows[r].0, rows[r].1, query),
    ensures
        0 <= k < kept_rows(rows, query, n).len(),
        kept_rows(rows, query, n)[k] == rows[r],
    decreases n,
{
    if r == n - 1 {
        kept_rows(rows, query, n - 1).len() as int
    } else {
        lemma_row_kept(rows, query, n - 1, r)
    }
}

proof fn lemma_section_kept(
    all: Seq<SectionV>,
    query: Seq<char>,
    n: int,
    j: int,
    r: int,
) -> (i: int)
    requires
        0 <= j < n <= all.len(),
        0 <= r < all[j].1.len(),
        row_matches(all[j].1[r].0, all[j].1[r].1, query),
    ensures
        0 <= i < kept_sections(all, query, n).len(),
        kept_sections(all, query, n)[i] == (
            all[j].0,
            kept_rows(all[j].1, query, all[j].1.len() as int),
        ),
    decreases n,
{
    if j == n - 1 {
        let k = lemma_row_kept(all[j].1, query, all[j].1.len() as int, r);
        kept_sections(all, query, n - 1).len() as int
    } else {
        lemma_section_kept(all, query, n - 1, j, r)
    }
}

proof fn lemma_kept_sections(all: Seq<SectionV>, query: Seq<char>, n: int, i: int)
    requires
        0 <= n <= all.len(),
        0 <= i < kept_sections(all, query, n).len(),
    ensures
        kept_sections(all, query, n)[i].1.len() > 0,
        forall|k: int|
            0 <= k < kept_sections(all, query, n)[i].1.len() ==> row_matches(
                (#[trigger] kept_sections(all, query, n)[i].1[k]).0,
                kept_sections(all, query, n)[i].1[k].1,
                query,
            ),
    decreases n,
{
    if n > 0 {
        let front = kept_sections(all, query, n - 1);
        if i < front.len() {
            lemma_kept_sections(all, query, n - 1, i);
        } else {
            let rows = all[n - 1].1;
            assert forall|k: int| 0 <= k < kept_sections(all, query, n)[i].1.len() implies row_matches(
                (#[trigger] kept_sections(all, query, n)[i].1[k]).0,
                kept_sections(all, query, n)[i].1[k].1,
                query,
            ) by {
                lemma_kept_rows(rows, query, rows.len() as int, k);
            }
        }
    }
}

proof fn lemma_kept_rows(rows: Seq<HintV>, query: Seq<char>, n: int, k: int)
    requires
        0 <= n <= rows.len(),
        0 <= k < kept_rows(rows, query, n).len(),
    ensures
        ({
            let row = kept_rows(rows, query, n)[k];
            row_matches(row.0, row.1, query)
        }),
    decreases n,
{
    if n > 0 && k < kept_rows(rows, query, n - 1).len() {
        lemma_kept_rows(rows, query, n - 1, k);
    }
}

/// Sections called `title`.
pub open spec fn titled(title: Seq<char>) -> spec_fn(SectionV) -> bool {
    |s: SectionV| s.0 == title
}

/// The section of the screen behind the card moved up to just below the global
/// one, or to the top when a query has taken that away.
pub open spec fn floated(all: Seq<SectionV>, current: Seq<char>) -> Seq<SectionV> {
    let i = first_where(all, titled(current)) as int;
    let dest = if all.len() > 0 && all[0].0 == "Global"@ {
        1int
    } else {
        0
    };
    if i < all.len() && i > dest {
        all.remove(i).insert(dest, all[i])
    } else {
        all
    }
}

/// What the card shows.
pub open spec fn card_sections(state: App) -> Seq<SectionV> {
    floated(
        filtered(reference(state.keymap), trimmed(state.help_search@)),
        help_section_for(state.view)@,
    )
}

fn kept_rows_of(rows: Vec<Hint>, query: &str) -> (out: Vec<Hint>)
    ensures
        out.deep_view() == kept_rows(rows.deep_view(), query@, rows@.len() as int),
{
    let ghost r = rows.deep_view();
    let mut out: Vec<Hint> = none();
    let mut i: usize = 0;
    while i < rows.len()
        invariant
            i <= rows@.len(),
            r == rows.deep_view(),
            out.deep_view() == kept_rows(r, query@, i as int),
        decreases rows@.len() - i,
    {
        assert(r[i as int] == rows@[i as int].deep_view());
        if help_row_matches(&rows[i].0, rows[i].1, query) {
            put(&mut out, (rows[i].0.as_str().to_string(), rows[i].1));
        }
        i = i + 1;
    }
    out
}

fn copy_rows(rows: &Vec<Hint>) -> (out: Vec<Hint>)
    ensures
        out.deep_view() == rows.deep_view(),
{
    let ghost r = rows.deep_view();
    let mut out: Vec<Hint> = none();
    let mut i: usize = 0;
    while i < rows.len()
        invariant
            i <= rows@.len(),
            r == rows.deep_view(),
            out.deep_view() == r.take(i as int),
        decreases rows@.len() - i,
    {
        assert(r[i as int] == rows@[i as int].deep_view());
        put(&mut out, (rows[i].0.as_str().to_string(), rows[i].1));
        assert(out.deep_view() =~= r.take(i + 1));
        i = i + 1;
    }
    assert(r.take(rows@.len() as int) =~= r);
    out
}

fn filtered_of(all: Vec<Section>, query: &str) -> (out: Vec<Section>)
    ensures
        out.deep_view() == filtered(all.deep_view(), query@),
{
    broadcast use crate::list::lemma_deep_len;

    if query.unicode_len() == 0 {
        return all;
    }
    let ghost a = all.deep_view();
    let mut out: Vec<Section> = none();
    let mut i: usize = 0;
    while i < all.len()
        invariant
            i <= all@.len(),
            a == all.deep_view(),
            out.deep_view() == kept_sections(a, query@, i as int),
        decreases all@.len() - i,
    {
        broadcast use crate::list::lemma_deep_len;

        assert(a[i as int] == all@[i as int].deep_view());
        let rows = kept_rows_of(copy_rows(&all[i].1), query);
        if rows.len() > 0 {
            put(&mut out, (all[i].0, rows));
        }
        i = i + 1;
    }
    out
}

fn floated_of(all: Vec<Section>, current: &'static str) -> (out: Vec<Section>)
    ensures
        out.deep_view() == floated(all.deep_view(), current@),
{
    let ghost a = all.deep_view();
    let mut all = all;
    let mut i: usize = 0;
    while i < all.len()
        invariant
            i <= all@.len(),
            a == all.deep_view(),
            forall|j: int| 0 <= j < i ==> !titled(current@)(#[trigger] a[j]),
        ensures
            i < all@.len() ==> a[i as int].0 == current@,
        decreases all@.len() - i,
    {
        assert(a[i as int] == all@[i as int].deep_view());
        if same(all[i].0, current) {
            break;
        }
        i = i + 1;
    }
    proof {
        lemma_first_where(a, titled(current@), i as int);
    }
    let dest: usize = if all.len() > 0 && same(all[0].0, "Global") {
        1
    } else {
        0
    };
    proof {
        if a.len() > 0 {
            assert(a[0] == all@[0].deep_view());
        }
    }
    if i < all.len() && i > dest {
        let s = all.remove(i);
        all.insert(dest, s);
        assert(all.deep_view() =~= a.remove(i as int).insert(dest as int, a[i as int]));
    }
    all
}

// ── Geometry ───────────────────────────────────────────────────────────────

/// The longest key of the first `n` rows, in characters.
pub open spec fn longest_key(rows: Seq<HintV>, n: int) -> int
    decreases n,
{
    if n <= 0 {
        0
    } else {
        larger(longest_key(rows, n - 1), rows[n - 1].0.len() as int)
    }
}

/// The longest key of the first `n` sections.
pub open spec fn longest_in(all: Seq<SectionV>, n: int) -> int
    decreases n,
{
    if n <= 0 {
        0
    } else {
        larger(longest_in(all, n - 1), longest_key(all[n - 1].1, all[n - 1].1.len() as int))
    }
}

/// The key column: as wide as the widest binding so that descriptions line up,
/// and never less than six.
pub open spec fn key_column(all: Seq<SectionV>) -> int {
    larger(longest_in(all, all.len() as int), 6)
}

fn key_column_of(all: &Vec<Section>) -> (w: usize)
    ensures
        w == key_column(all.deep_view()),
{
    let ghost a = all.deep_view();
    let mut w: usize = 0;
    let mut i: usize = 0;
    while i < all.len()
        invariant
            i <= all@.len(),
            a == all.deep_view(),
            w == longest_in(a, i as int),
        decreases all@.len() - i,
    {
        let rows = &all[i].1;
        let ghost r = rows.deep_view();
        assert(a[i as int] == all@[i as int].deep_view());
        let mut m: usize = 0;
        let mut k: usize = 0;
        while k < rows.len()
            invariant
                k <= rows@.len(),
                r == rows.deep_view(),
                m == longest_key(r, k as int),
            decreases rows@.len() - k,
        {
            assert(r[k as int] == rows@[k as int].deep_view());
            let n: usize = rows[k].0.as_str().unicode_len();
            if n > m {
                m = n;
            }
            k = k + 1;
        }
        if m > w {
            w = m;
        }
        i = i + 1;
    }
    if w > 6 {
        w
    } else {
        6
    }
}

/// How wide the card is.
pub open spec fn card_width(area: Rect) -> int {
    let w = less(area.width as int, 4);
    let least = lesser(area.width as int, 46);
    if w < least {
        least
    } else {
        lesser(w, 104)
    }
}

/// Whether the card has room for two columns.
pub open spec fn two_columns(area: Rect) -> bool {
    less(card_width(area), 2) >= 88
}

/// How wide a column of the card is.
pub open spec fn column_width(area: Rect) -> int {
    let inner = less(card_width(area), 2);
    if inner >= 88 {
        (inner - 3) / 2
    } else {
        inner
    }
}

/// How wide a description may be.
pub open spec fn desc_width(area: Rect, key_w: int) -> int {
    larger(less(column_width(area), key_w + 5), 16)
}

// ── Lines ──────────────────────────────────────────────────────────────────

/// A line of a description, the query's terms lifted when there is one.
pub open spec fn desc_spans(seg: Seq<char>, query: Seq<char>) -> Seq<SpanV> {
    if query.len() == 0 {
        seq![sp(seg, fg(Role::Text))]
    } else {
        highlighted(seg, query, fg(Role::Text), fg(Role::Accent).bold())
    }
}

/// Line `i` of a row: the key as a cap in front of the first, blanks in front
/// of the rest.
pub open spec fn row_line(
    key: Seq<char>,
    segs: Seq<Seq<char>>,
    query: Seq<char>,
    key_w: int,
    here: bool,
    i: int,
) -> LineV {
    let cap = bg(Role::Overlay).with_fg(
        Paint::Plain(
            if here {
                Role::Accent
            } else {
                Role::TextBright
            },
        ),
    ).bold();
    let lead = if i == 0 {
        seq![sp(" "@, plain())].push(sp(" "@ + align_right(key, key_w as nat) + " "@, cap)).push(
            sp("  "@, plain()),
        )
    } else {
        seq![sp(run_of(' ', (key_w + 5) as nat), plain())]
    };
    ln(lead + desc_spans(segs[i], query))
}

/// The lines of one row.
pub open spec fn row_lines(
    row: HintV,
    query: Seq<char>,
    key_w: int,
    desc_w: int,
    here: bool,
) -> Seq<LineV> {
    let segs = wrapped(row.1, desc_w);
    Seq::new(segs.len(), |i: int| row_line(row.0, segs, query, key_w, here, i))
}

/// The lines of the first `n` rows.
pub open spec fn rows_lines(
    rows: Seq<HintV>,
    query: Seq<char>,
    key_w: int,
    desc_w: int,
    here: bool,
    n: int,
) -> Seq<LineV>
    decreases n,
{
    if n <= 0 {
        Seq::empty()
    } else {
        rows_lines(rows, query, key_w, desc_w, here, n - 1) + row_lines(
            rows[n - 1],
            query,
            key_w,
            desc_w,
            here,
        )
    }
}

/// A section's heading: an inverted chip where you are, a mark rather than a
/// sentence.
pub open spec fn heading(title: Seq<char>, here: bool) -> LineV {
    if here {
        ln(
            seq![
                sp(
                    " "@ + title + " "@,
                    bg(Role::Accent).with_fg(Paint::Plain(Role::Surface)).bold(),
                ),
            ].push(sp(" ← you are here"@, fg(Role::Accent))),
        )
    } else {
        ln1(sp(" "@ + title + " "@, fg(Role::Primary).bold()))
    }
}

/// The lines of a section: its heading, its rows, and a blank one.
pub open spec fn section_lines(
    s: SectionV,
    query: Seq<char>,
    key_w: int,
    desc_w: int,
    current: Seq<char>,
) -> Seq<LineV> {
    let here = s.0 == current;
    (seq![heading(s.0, here)] + rows_lines(
        s.1,
        query,
        key_w,
        desc_w,
        here,
        s.1.len() as int,
    )).push(ln(Seq::empty()))
}

fn row_line_of(
    key: &str,
    segs: &Vec<String>,
    query: &str,
    key_w: usize,
    here: bool,
    i: usize,
) -> (l: Line)
    requires
        i < segs@.len(),
    ensures
        l.deep_view() == row_line(
            key@,
            segs.deep_view(),
            query@,
            key_w as int,
            here,
            i as int,
        ),
{
    let role = if here {
        Role::Accent
    } else {
        Role::TextBright
    };
    let cap = bg(Role::Overlay).with_fg(Paint::Plain(role)).bold();
    let mut v: Vec<Span> = none();
    if i == 0 {
        say(&mut v, " ", plain());
        let k = pad_left(key, key_w);
        say_of(&mut v, cat3(" ", &k, " "), cap);
        say(&mut v, "  ", plain());
    } else {
        let mut pad = blanks(key_w);
        let more = blanks(5);
        pad.append(&more);
        assert(pad@ =~= run_of(' ', (key_w + 5) as nat));
        say_of(&mut v, pad, plain());
    }
    assert(segs.deep_view()[i as int] == segs@[i as int]@);
    if query.unicode_len() == 0 {
        let ghost lead = v.deep_view();
        say(&mut v, &segs[i], fg(Role::Text));
        assert(v.deep_view() =~= lead + desc_spans(segs@[i as int]@, query@));
    } else {
        put_all(
            &mut v,
            highlight_terms(&segs[i], query, fg(Role::Text), fg(Role::Accent).bold()),
        );
    }
    line(v)
}

fn section_lines_of(
    s: &Section,
    query: &str,
    key_w: usize,
    desc_w: usize,
    current: &'static str,
) -> (out: Vec<Line>)
    ensures
        out.deep_view() == section_lines(
            s.deep_view(),
            query@,
            key_w as int,
            desc_w as int,
            current@,
        ),
{
    let here = same(s.0, current);
    let mut out: Vec<Line> = none();
    let title = cat3(" ", s.0, " ");
    if here {
        let mut v: Vec<Span> = none();
        say_of(&mut v, title, bg(Role::Accent).with_fg(Paint::Plain(Role::Surface)).bold());
        say(&mut v, " ← you are here", fg(Role::Accent));
        add_line(&mut out, v);
    } else {
        put(&mut out, line_of(span_of(title, fg(Role::Primary).bold())));
    }
    let ghost head = out.deep_view();
    assert(head == seq![heading(s.0@, here)]);
    let rows = &s.1;
    let ghost r = rows.deep_view();
    assert(head + rows_lines(r, query@, key_w as int, desc_w as int, here, 0) =~= head);
    let mut i: usize = 0;
    while i < rows.len()
        invariant
            i <= rows@.len(),
            r == rows.deep_view(),
            out.deep_view() == head + rows_lines(
                r,
                query@,
                key_w as int,
                desc_w as int,
                here,
                i as int,
            ),
        decreases rows@.len() - i,
    {
        let row = &rows[i];
        assert(r[i as int] == row.deep_view());
        let segs = wrap_words(row.1, desc_w);
        let ghost sv = segs.deep_view();
        let ghost g = |k: int| row_line(row.0@, sv, query@, key_w as int, here, k);
        let lines = each(
            segs.len(),
            (|k: usize| -> (l: Line)
                requires
                    k < segs@.len(),
                ensures
                    l.deep_view() == row_line(
                        row.0@,
                        segs.deep_view(),
                        query@,
                        key_w as int,
                        here,
                        k as int,
                    ),
            {
                row_line_of(&row.0, &segs, query, key_w, here, k)
            }),
            Ghost(g),
        );
        proof {
            assert(lines.deep_view() =~= row_lines(
                r[i as int],
                query@,
                key_w as int,
                desc_w as int,
                here,
            ));
        }
        let ghost before = out.deep_view();
        put_all(&mut out, lines);
        assert(out.deep_view() =~= head + rows_lines(
            r,
            query@,
            key_w as int,
            desc_w as int,
            here,
            i + 1,
        ));
        i = i + 1;
    }
    add_blank(&mut out);
    out
}

// ── The fold ───────────────────────────────────────────────────────────────

/// The two columns while they are being filled.
pub struct FoldV {
    pub left: Seq<LineV>,
    pub right: Seq<LineV>,
    pub over: bool,
}

/// How far `a` is from `b`.
pub open spec fn apart(a: int, b: int) -> int {
    if a >= b {
        a - b
    } else {
        b - a
    }
}

/// How many lines the first `n` sections have.
pub open spec fn line_count(built: Seq<Seq<LineV>>, n: int) -> int
    decreases n,
{
    if n <= 0 {
        0
    } else {
        line_count(built, n - 1) + built[n - 1].len()
    }
}

/// The first `n` sections poured into the left column until the boundary that
/// leaves the two closest to level, and into the right one from there. Level is
/// where the left column holds half of the `total` lines.
pub open spec fn poured(built: Seq<Seq<LineV>>, two: bool, total: int, n: int) -> FoldV
    decreases n,
{
    if n <= 0 {
        FoldV { left: Seq::empty(), right: Seq::empty(), over: false }
    } else {
        let f = poured(built, two, total, n - 1);
        let b = built[n - 1];
        let over = f.over || (two && apart(2 * (f.left.len() + b.len()) as int, total) > apart(
            2 * f.left.len() as int,
            total,
        ));
        if over {
            FoldV { left: f.left, right: f.right + b, over }
        } else {
            FoldV { left: f.left + b, right: f.right, over }
        }
    }
}

/// The lines of the first `n` sections, one after another.
pub open spec fn in_order(built: Seq<Seq<LineV>>, n: int) -> Seq<LineV>
    decreases n,
{
    if n <= 0 {
        Seq::empty()
    } else {
        in_order(built, n - 1) + built[n - 1]
    }
}

/// Reading order survives the fold: the left column and then the right one are
/// the sections in order, and none of them is split across the fold.
pub proof fn law_fold_keeps_reading_order(
    built: Seq<Seq<LineV>>,
    two: bool,
    total: int,
    n: int,
)
    requires
        0 <= n <= built.len(),
    ensures
        ({
            let f = poured(built, two, total, n);
            &&& f.left + f.right == in_order(built, n)
            &&& !two ==> f.right.len() == 0
            &&& exists|k: int| 0 <= k <= n && f.left == #[trigger] in_order(built, k)
        }),
    decreases n,
{
    if n > 0 {
        law_fold_keeps_reading_order(built, two, total, n - 1);
        let f = poured(built, two, total, n - 1);
        let g = poured(built, two, total, n);
        lemma_right_empty(built, two, total, n - 1);
        lemma_right_empty(built, two, total, n);
        assert(g.left + g.right =~= in_order(built, n - 1) + built[n - 1]);
        if g.over {
            let k = choose|k: int| 0 <= k <= n - 1 && f.left == #[trigger] in_order(built, k);
            assert(g.left == in_order(built, k));
        } else {
            assert(f.left =~= f.left + f.right);
            assert(g.left == in_order(built, n));
        }
    } else {
        let f = poured(built, two, total, n);
        assert(f.left + f.right =~= Seq::empty());
        assert(f.left == in_order(built, 0));
    }
}

/// The fold is at the boundary that leaves the two columns closest to level: no
/// other puts less between what the left one holds and what the right one does.
pub proof fn law_fold_is_level(built: Seq<Seq<LineV>>, k: int)
    requires
        0 <= k <= built.len(),
    ensures
        ({
            let n = built.len() as int;
            let total = line_count(built, n);
            let f = poured(built, true, total, n);
            &&& f.left.len() + f.right.len() == total
            &&& apart(f.left.len() as int, f.right.len() as int) <= apart(
                line_count(built, k),
                total - line_count(built, k),
            )
        }),
{
    let n = built.len() as int;
    let total = line_count(built, n);
    lemma_level(built, total, n, k);
    law_fold_keeps_reading_order(built, true, total, n);
    lemma_in_order_len(built, n);
    let f = poured(built, true, total, n);
    assert((f.left + f.right).len() == total);
}

proof fn lemma_in_order_len(built: Seq<Seq<LineV>>, n: int)
    ensures
        in_order(built, n).len() == line_count(built, n),
    decreases n,
{
    if n > 0 {
        lemma_in_order_len(built, n - 1);
    }
}

proof fn lemma_level(built: Seq<Seq<LineV>>, total: int, n: int, k: int)
    requires
        0 <= k <= n <= built.len(),
    ensures
        ({
            let f = poured(built, true, total, n);
            let off = apart(2 * f.left.len() as int, total);
            &&& off <= apart(2 * line_count(built, k), total)
            &&& !f.over ==> f.left.len() == line_count(built, n)
            &&& f.over ==> 2 * line_count(built, n) - total > off
        }),
    decreases n,
{
    if n > 0 {
        if k < n {
            lemma_level(built, total, n - 1, k);
        } else {
            lemma_level(built, total, n - 1, n - 1);
        }
    }
}

proof fn lemma_right_empty(built: Seq<Seq<LineV>>, two: bool, total: int, n: int)
    ensures
        !poured(built, two, total, n).over ==> poured(built, two, total, n).right.len() == 0,
        !two ==> !poured(built, two, total, n).over,
    decreases n,
{
    if n > 0 {
        lemma_right_empty(built, two, total, n - 1);
    }
}

/// Lines without the blank ones at the end.
pub open spec fn without_blanks(v: Seq<LineV>) -> Seq<LineV>
    decreases v.len(),
{
    if v.len() > 0 && v.last().spans.len() == 0 {
        without_blanks(v.drop_last())
    } else {
        v
    }
}

fn drop_blanks(v: Vec<Line>) -> (r: Vec<Line>)
    ensures
        r.deep_view() == without_blanks(v.deep_view()),
{
    broadcast use crate::list::lemma_deep_len;

    let mut v = v;
    let ghost all = v.deep_view();
    while v.len() > 0 && v[v.len() - 1].spans.len() == 0
        invariant
            without_blanks(v.deep_view()) == without_blanks(all),
        decreases v@.len(),
    {
        broadcast use crate::list::lemma_deep_len;

        let ghost before = v.deep_view();
        assert(before.last() == v@.last().deep_view());
        assert(v@.last().spans.deep_view().len() == 0);
        let gone = v.pop();
        assert(v.deep_view() =~= before.drop_last());
    }
    proof {
        if v@.len() > 0 {
            assert(v.deep_view().last() == v@.last().deep_view());
            assert(v@.last().spans.deep_view().len() == v@.last().spans@.len());
        }
    }
    v
}

/// What is said when nothing matches.
pub open spec fn no_match(query: Seq<char>) -> LineV {
    ln(
        seq![sp(" "@, plain())].push(
            sp("no binding matches “"@ + query + "”"@, fg(Role::TextFaint).italic()),
        ),
    )
}

/// The card's sections as lines.
pub open spec fn built_lines(state: App, area: Rect) -> Seq<Seq<LineV>> {
    let all = card_sections(state);
    let key_w = key_column(all);
    Seq::new(
        all.len(),
        |i: int|
            section_lines(
                all[i],
                trimmed(state.help_search@),
                key_w,
                desc_width(area, key_w),
                help_section_for(state.view)@,
            ),
    )
}

/// The card's two columns; the right one empty when there is only one. A query
/// that matches nothing says so.
pub open spec fn card_columns(state: App, area: Rect) -> (Seq<LineV>, Seq<LineV>) {
    let built = built_lines(state, area);
    let n = built.len() as int;
    let f = poured(built, two_columns(area), line_count(built, n), n);
    let left = without_blanks(f.left);
    let right = without_blanks(f.right);
    if left.len() == 0 && right.len() == 0 {
        (seq![no_match(trimmed(state.help_search@))], right)
    } else {
        (left, right)
    }
}

fn pour(built: Vec<Vec<Line>>, two: bool) -> (r: (Vec<Line>, Vec<Line>))
    ensures
        ({
            let b = built.deep_view();
            let n = b.len() as int;
            let f = poured(b, two, line_count(b, n), n);
            r.0.deep_view() == f.left && r.1.deep_view() == f.right
        }),
{
    broadcast use crate::list::lemma_deep_len;

    let ghost b = built.deep_view();
    let mut total: u128 = 0;
    let mut i: usize = 0;
    while i < built.len()
        invariant
            i <= built@.len(),
            b == built.deep_view(),
            total == line_count(b, i as int),
            total <= i * 0xffff_ffff_ffff_ffff,
        decreases built@.len() - i,
    {
        broadcast use crate::list::lemma_deep_len;

        assert(b[i as int] == built@[i as int].deep_view());
        assert(b[i as int].len() == built@[i as int]@.len());
        assert((i + 1) * 0xffff_ffff_ffff_ffff == i * 0xffff_ffff_ffff_ffff + 0xffff_ffff_ffff_ffff)
            by (nonlinear_arith);
        assert((i + 1) * 0xffff_ffff_ffff_ffff <= 0xffff_ffff_ffff_ffff * 0xffff_ffff_ffff_ffff)
            by (nonlinear_arith)
            requires
                i + 1 <= 0xffff_ffff_ffff_ffff,
        ;
        total = total + built[i].len() as u128;
        i = i + 1;
    }
    assert(total <= 0xffff_ffff_ffff_ffff * 0xffff_ffff_ffff_ffff) by (nonlinear_arith)
        requires
            total <= i * 0xffff_ffff_ffff_ffff,
            i <= 0xffff_ffff_ffff_ffff,
    ;
    let mut built = built;
    let mut left: Vec<Line> = none();
    let mut right: Vec<Line> = none();
    let mut over = false;
    let mut k: usize = 0;
    while k < built.len()
        invariant
            k <= built@.len() == b.len(),
            forall|j: int| k <= j < b.len() ==> built@[j].deep_view() == #[trigger] b[j],
            left.deep_view() == poured(b, two, total as int, k as int).left,
            right.deep_view() == poured(b, two, total as int, k as int).right,
            over == poured(b, two, total as int, k as int).over,
        decreases built@.len() - k,
    {
        broadcast use crate::list::lemma_deep_len;

        assert(built@[k as int].deep_view() == b[k as int]);
        let mut lines: Vec<Line> = Vec::new();
        std::mem::swap(&mut built[k], &mut lines);
        assert(lines.deep_view() == b[k as int]);
        let here: u128 = left.len() as u128;
        let there: u128 = here + lines.len() as u128;
        assert(left.deep_view().len() == here);
        assert(b[k as int].len() == lines@.len());
        let now: u128 = if 2 * here >= total {
            2 * here - total
        } else {
            total - 2 * here
        };
        let later: u128 = if 2 * there >= total {
            2 * there - total
        } else {
            total - 2 * there
        };
        if two && !over && later > now {
            over = true;
        }
        if over {
            put_all(&mut right, lines);
        } else {
            put_all(&mut left, lines);
        }
        k = k + 1;
    }
    (left, right)
}

// ── The entrance ───────────────────────────────────────────────────────────

/// A colour `n` sixtieths of the way up from the card's own ground.
pub open spec fn risen(p: Paint, n: int) -> Paint {
    match p {
        Paint::Plain(r) => share(Role::SurfaceAlt, r, n as u128, WHOLE as u128),
        _ => p,
    }
}

/// A style `n` sixtieths of the way up from the card's own ground.
pub open spec fn risen_style(s: Style, n: int) -> Style {
    Style {
        fg: match s.fg {
            Some(p) => Some(risen(p, n)),
            None => None,
        },
        bg: match s.bg {
            Some(p) => Some(risen(p, n)),
            None => None,
        },
        ..s
    }
}

/// Line `i` of the card mid-entrance.
pub open spec fn risen_line(state: App, l: LineV, i: int) -> LineV {
    let n = progress(state.help_opened_tick, state.tick_count, i, HELP_STEP as int);
    if n >= WHOLE {
        l
    } else {
        ln(
            Seq::new(
                l.spans.len(),
                |k: int| sp(l.spans[k].text, risen_style(l.spans[k].style, n)),
            ),
        )
    }
}

/// A column of the card mid-entrance: its rows rise out of the card's own
/// ground in one sweep.
pub open spec fn risen_lines(state: App, lines: Seq<LineV>) -> Seq<LineV> {
    Seq::new(lines.len(), |i: int| risen_line(state, lines[i], i))
}

fn risen_paint(p: Paint, n: u64) -> (r: Paint)
    ensures
        r == risen(p, n as int),
{
    match p {
        Paint::Plain(role) => share(Role::SurfaceAlt, role, n as u128, WHOLE as u128),
        _ => p,
    }
}

fn risen_style_of(s: Style, n: u64) -> (r: Style)
    ensures
        r == risen_style(s, n as int),
{
    let ink = match s.fg {
        Some(p) => Some(risen_paint(p, n)),
        None => None,
    };
    let ground = match s.bg {
        Some(p) => Some(risen_paint(p, n)),
        None => None,
    };
    Style { fg: ink, bg: ground, ..s }
}

fn risen_line_of(state: &App, l: &Line, i: usize) -> (r: Line)
    requires
        l.align == Align::Left,
        l.style == plain(),
    ensures
        r.deep_view() == risen_line(*state, l.deep_view(), i as int),
{
    let n: u64 = help_reveal_at(state, i);
    let ghost lv = l.deep_view();
    let ghost g = |k: int|
        sp(
            lv.spans[k].text,
            if n >= WHOLE {
                lv.spans[k].style
            } else {
                risen_style(lv.spans[k].style, n as int)
            },
        );
    let spans = each(
        l.spans.len(),
        (|k: usize| -> (s: Span)
            requires
                k < l.spans@.len(),
            ensures
                s.deep_view() == sp(
                    l.spans@[k as int].text@,
                    if n >= WHOLE {
                        l.spans@[k as int].style
                    } else {
                        risen_style(l.spans@[k as int].style, n as int)
                    },
                ),
        {
            let s = &l.spans[k];
            let style = if n >= WHOLE {
                s.style
            } else {
                risen_style_of(s.style, n)
            };
            span(&s.text, style)
        }),
        Ghost(g),
    );
    proof {
        if n >= WHOLE {
            assert(spans.deep_view() =~= lv.spans);
        } else {
            assert(spans.deep_view() =~= Seq::new(
                lv.spans.len(),
                |k: int| sp(lv.spans[k].text, risen_style(lv.spans[k].style, n as int)),
            ));
        }
    }
    line(spans)
}

/// Lines that keep to the left and carry no style of their own.
pub open spec fn simple(v: Seq<LineV>) -> bool {
    forall|i: int|
        0 <= i < v.len() ==> (#[trigger] v[i]).align == Align::Left && v[i].style == plain()
}

fn rise(state: &App, lines: &Vec<Line>) -> (r: Vec<Line>)
    requires
        simple(lines.deep_view()),
    ensures
        r.deep_view() == risen_lines(*state, lines.deep_view()),
{
    let ghost lv = lines.deep_view();
    let ghost g = |i: int| risen_line(*state, lv[i], i);
    assert forall|i: int| 0 <= i < lines@.len() implies (#[trigger] lines@[i]).align == Align::Left
        && lines@[i].style == plain() by {
        assert(lv[i] == lines@[i].deep_view());
        assert(lv[i].align == Align::Left);
    }
    let v = each(
        lines.len(),
        (|i: usize| -> (l: Line)
            requires
                i < lines@.len(),
                lines@[i as int].align == Align::Left,
                lines@[i as int].style == plain(),
            ensures
                l.deep_view() == risen_line(*state, lines@[i as int].deep_view(), i as int),
        {
            risen_line_of(state, &lines[i], i)
        }),
        Ghost(g),
    );
    assert(v.deep_view() =~= risen_lines(*state, lv));
    v
}

proof fn lemma_rows_simple(
    rows: Seq<HintV>,
    query: Seq<char>,
    key_w: int,
    desc_w: int,
    here: bool,
    n: int,
)
    ensures
        simple(rows_lines(rows, query, key_w, desc_w, here, n)),
    decreases n,
{
    if n > 0 {
        lemma_rows_simple(rows, query, key_w, desc_w, here, n - 1);
    }
}

proof fn lemma_poured_simple(built: Seq<Seq<LineV>>, two: bool, total: int, n: int)
    requires
        0 <= n <= built.len(),
        forall|i: int| 0 <= i < built.len() ==> simple(#[trigger] built[i]),
    ensures
        simple(poured(built, two, total, n).left),
        simple(poured(built, two, total, n).right),
    decreases n,
{
    if n > 0 {
        lemma_poured_simple(built, two, total, n - 1);
        assert(simple(built[n - 1]));
    }
}

proof fn lemma_without_blanks_simple(v: Seq<LineV>)
    requires
        simple(v),
    ensures
        simple(without_blanks(v)),
    decreases v.len(),
{
    if v.len() > 0 && v.last().spans.len() == 0 {
        lemma_without_blanks_simple(v.drop_last());
    }
}

proof fn lemma_columns_simple(state: App, area: Rect)
    ensures
        simple(card_columns(state, area).0),
        simple(card_columns(state, area).1),
{
    let built = built_lines(state, area);
    let all = card_sections(state);
    let key_w = key_column(all);
    assert forall|i: int| 0 <= i < built.len() implies simple(#[trigger] built[i]) by {
        lemma_rows_simple(
            all[i].1,
            trimmed(state.help_search@),
            key_w,
            desc_width(area, key_w),
            all[i].0 == help_section_for(state.view)@,
            all[i].1.len() as int,
        );
    }
    let n = built.len() as int;
    let total = line_count(built, n);
    lemma_poured_simple(built, two_columns(area), total, n);
    let f = poured(built, two_columns(area), total, n);
    lemma_without_blanks_simple(f.left);
    lemma_without_blanks_simple(f.right);
}

// ── The card ───────────────────────────────────────────────────────────────

/// How many lines the card has, as a terminal counts them.
pub open spec fn content_height(state: App, area: Rect) -> int {
    let (left, right) = card_columns(state, area);
    larger(left.len() as int, right.len() as int) as u16 as int
}

/// How tall the card is: its content, its borders and a row of breathing room
/// either end, within the screen.
pub open spec fn card_height(state: App, area: Rect) -> int {
    larger(lesser(content_height(state, area) + 4, less(area.height as int, 2)), 8)
}

/// How far the card can scroll.
pub open spec fn card_scroll(state: App, area: Rect) -> int {
    less(content_height(state, area), card_height(state, area) - 4)
}

/// How far the card is scrolled.
pub open spec fn card_scrolled(state: App, area: Rect) -> int {
    lesser(state.help_scroll as int, card_scroll(state, area))
}

/// The bottom rail: the search field while it is being typed in, the query that
/// is on, where the card is scrolled to, or the way out.
pub open spec fn card_rail(state: App, area: Rect) -> Seq<char> {
    let find = shown(state.keymap.search@);
    let query = trimmed(state.help_search@);
    let tall = content_height(state, area);
    let at = card_scrolled(state, area);
    if state.help_typing {
        " "@ + find + " "@ + state.help_search@ + "▏ · ↵ keeps it · Esc clears "@
    } else if query.len() > 0 {
        " filtered: "@ + query + " · "@ + find + " edits · Esc clears "@
    } else if card_scroll(state, area) > 0 {
        " "@ + shown(state.keymap.down@) + "/"@ + shown(state.keymap.up@) + " or wheel scroll · "@
            + dec((at + 1) as nat) + "–"@ + dec(
            lesser(at + card_height(state, area) - 4, tall) as nat,
        ) + " of "@ + dec(tall as nat) + " · "@ + find + " search · any other key closes "@
    } else {
        " "@ + find + " search · any other key closes "@
    }
}

/// The card's padding.
#[verifier::allow_in_spec]
pub fn card_padding() -> Padding
    returns
        (Padding { left: 0, right: 0, top: 1, bottom: 1 }),
{
    Padding { left: 0, right: 0, top: 1, bottom: 1 }
}

/// The card's border: a chip cut into an accent frame, on its own solid ground.
pub open spec fn card_border(state: App, area: Rect) -> BorderV {
    BorderV {
        style: fg(Role::Accent),
        top: seq![
            aligned(
                chip("? Help — jog v"@ + state.version@, Role::Accent, Role::Accent),
                Align::Center,
            ),
        ],
        bottom: seq![
            aligned(
                ln1(
                    sp(
                        card_rail(state, area),
                        fg(
                            if state.help_typing {
                                Role::Accent
                            } else {
                                Role::TextFaint
                            },
                        ),
                    ),
                ),
                Align::Center,
            ),
        ],
        padding: card_padding(),
        ground: bg(Role::SurfaceAlt),
    }
}

/// Where the card is.
pub open spec fn card_rect(state: App, area: Rect) -> Rect {
    dialog(area, card_width(area) as u16, card_height(state, area) as u16, 2)
}

/// A column of the card, scrolled.
pub open spec fn column_op(state: App, area: Rect, lines: Seq<LineV>, slot: Rect) -> OpV {
    OpV::Text {
        area: slot,
        lines: risen_lines(state, lines),
        wrap: false,
        scroll: card_scrolled(state, area) as u16,
        ground: plain(),
    }
}

/// How the card's two columns are cut.
pub open spec fn card_cut(area: Rect) -> Seq<Constraint> {
    seq![Constraint::Length(column_width(area) as u16)].push(Constraint::Length(3)).push(
        Constraint::Length(column_width(area) as u16),
    )
}

/// Whether these are the operations of the help card.
pub open spec fn is_help_card(ops: Seq<OpV>, state: App, area: Rect) -> bool {
    let popup = card_rect(state, area);
    let inner = framed(popup, card_padding());
    let (left, right) = card_columns(state, area);
    let card = seq![
        OpV::Tell(Reading::HelpMaxScroll(card_scroll(state, area) as u16)),
    ].push(OpV::Clear(popup)).push(OpV::Frame { area: popup, border: card_border(state, area) });
    if !state.show_help {
        ops == Seq::<OpV>::empty()
    } else if two_columns(area) {
        exists|cols: Seq<Rect>|
            #[trigger] split_into(cols, false, card_cut(area), inner) && ops == card.push(
                column_op(state, area, left, cols[0]),
            ).push(column_op(state, area, right, cols[2]))
    } else {
        ops == card.push(column_op(state, area, left, inner))
    }
}

/// The scroll never runs past the end: the last line of the card is on screen
/// when it is scrolled all the way, and the first when it is not at all.
pub proof fn law_card_scrolls_within_itself(state: App, area: Rect)
    ensures
        0 <= card_scrolled(state, area) <= card_scroll(state, area),
        card_scroll(state, area) + (card_height(state, area) - 4) >= content_height(state, area),
        card_scroll(state, area) > 0 ==> card_scroll(state, area) + (card_height(state, area) - 4)
            == content_height(state, area),
{
}

fn rail_of(
    state: &App,
    query: &str,
    max_scroll: u16,
    scroll: u16,
    inner_h: u16,
    tall: u16,
) -> (t: String)
    requires
        scroll <= max_scroll,
        max_scroll == less(tall as int, inner_h as int),
        inner_h >= 4,
    ensures
        t@ == ({
            let find = shown(state.keymap.search@);
            if state.help_typing {
                " "@ + find + " "@ + state.help_search@ + "▏ · ↵ keeps it · Esc clears "@
            } else if query@.len() > 0 {
                " filtered: "@ + query@ + " · "@ + find + " edits · Esc clears "@
            } else if max_scroll > 0 {
                " "@ + shown(state.keymap.down@) + "/"@ + shown(state.keymap.up@)
                    + " or wheel scroll · "@ + dec((scroll + 1) as nat) + "–"@ + dec(
                    lesser(scroll + inner_h, tall as int) as nat,
                ) + " of "@ + dec(tall as nat) + " · "@ + find
                    + " search · any other key closes "@
            } else {
                " "@ + find + " search · any other key closes "@
            }
        }),
{
    let find = display_key(&state.keymap.search);
    if state.help_typing {
        return cat5(" ", find, " ", &state.help_search, "▏ · ↵ keeps it · Esc clears ");
    }
    if query.unicode_len() > 0 {
        return cat5(" filtered: ", query, " · ", find, " edits · Esc clears ");
    }
    if max_scroll > 0 {
        let a = num(scroll as u128 + 1);
        let end: u128 = scroll as u128 + inner_h as u128;
        let b = num(
            if end <= tall as u128 {
                end
            } else {
                tall as u128
            },
        );
        let c = num(tall as u128);
        let mut t = cat5(
            " ",
            display_key(&state.keymap.down),
            "/",
            display_key(&state.keymap.up),
            " or wheel scroll · ",
        );
        t.append(&a);
        t.append("–");
        t.append(&b);
        t.append(" of ");
        t.append(&c);
        t.append(" · ");
        t.append(find);
        t.append(" search · any other key closes ");
        return t;
    }
    cat3(" ", find, " search · any other key closes ")
}

fn card_width_of(area: Rect) -> (w: u16)
    ensures
        w == card_width(area),
        w <= area.width,
        w <= 104,
{
    let w: u16 = area.width.saturating_sub(4);
    let least: u16 = if area.width < 46 {
        area.width
    } else {
        46
    };
    if w < least {
        least
    } else if w < 104 {
        w
    } else {
        104
    }
}

fn card_lines_of(state: &App, area: Rect, col_w: u16, query: &str) -> (r: (Vec<Line>, Vec<Line>))
    requires
        col_w == column_width(area),
        query@ == trimmed(state.help_search@),
    ensures
        (r.0.deep_view(), r.1.deep_view()) == card_columns(*state, area),
{
    broadcast use crate::list::lemma_deep_len;

    let current = help_section_for(state.view);
    let sections = floated_of(filtered_of(help_sections(&state.keymap), query), current);
    let key_w: usize = key_column_of(&sections);
    let taken: u128 = key_w as u128 + 5;
    let desc_w: usize = if col_w as u128 >= taken + 16 {
        (col_w as u128 - taken) as usize
    } else {
        16
    };
    assert(desc_w == desc_width(area, key_w as int));
    let ghost all = sections.deep_view();
    assert(all == card_sections(*state));
    let ghost g = |i: int|
        section_lines(all[i], query@, key_w as int, desc_w as int, current@);
    let built: Vec<Vec<Line>> = each(
        sections.len(),
        (|i: usize| -> (v: Vec<Line>)
            requires
                i < sections@.len(),
            ensures
                v.deep_view() == section_lines(
                    sections@[i as int].deep_view(),
                    query@,
                    key_w as int,
                    desc_w as int,
                    current@,
                ),
        {
            section_lines_of(&sections[i], query, key_w, desc_w, current)
        }),
        Ghost(g),
    );
    assert(built.deep_view() =~= built_lines(*state, area));
    let w: u16 = card_width_of(area);
    let two = w.saturating_sub(2) >= 88;
    let (left, right) = pour(built, two);
    let mut left = drop_blanks(left);
    let right = drop_blanks(right);
    assert(left.deep_view().len() == left@.len());
    assert(right.deep_view().len() == right@.len());
    if left.len() == 0 && right.len() == 0 {
        let mut v: Vec<Span> = none();
        say(&mut v, " ", plain());
        say_of(&mut v, cat3("no binding matches “", query, "”"), fg(Role::TextFaint).italic());
        add_line(&mut left, v);
        assert(left.deep_view() =~= seq![no_match(query@)]);
    }
    (left, right)
}

/// The help card: the whole reference, the screen you are on first.
///
/// Two columns when the terminal affords them: the reference then fits on one
/// screen, which is the difference between a card you glance at and a document
/// you scroll.
pub fn render_help_overlay(state: &App, area: Rect) -> (ops: Vec<Op>)
    requires
        on_screen(area),
        area.y + 8 <= 0xffff,
    ensures
        is_help_card(ops.deep_view(), *state, area),
{
    broadcast use crate::list::lemma_deep_len;

    let mut ops: Vec<Op> = none();
    if !state.show_help {
        return ops;
    }
    let query = trim(&state.help_search);
    let w: u16 = card_width_of(area);
    let inner_w: u16 = w.saturating_sub(2);
    let two = inner_w >= 88;
    let col_w: u16 = if two {
        (inner_w - 3) / 2
    } else {
        inner_w
    };
    let (left, right) = card_lines_of(state, area, col_w, &query);
    assert(left.deep_view().len() == left@.len());
    assert(right.deep_view().len() == right@.len());
    let most: usize = if left.len() >= right.len() {
        left.len()
    } else {
        right.len()
    };
    let tall: u16 = most as u16;
    assert(tall == content_height(*state, area));
    let room: u16 = area.height.saturating_sub(2);
    let fit: u16 = if tall as u32 + 4 < room as u32 {
        tall + 4
    } else {
        room
    };
    let h: u16 = if fit > 8 {
        fit
    } else {
        8
    };
    assert(h == card_height(*state, area));
    let popup = dialog_over(area, w, h, 2);
    let inner_h: u16 = h - 4;
    let max_scroll: u16 = tall.saturating_sub(inner_h);
    tell(&mut ops, Reading::HelpMaxScroll(max_scroll));
    let scroll: u16 = if state.help_scroll < max_scroll {
        state.help_scroll
    } else {
        max_scroll
    };
    let rail = rail_of(state, &query, max_scroll, scroll, inner_h, tall);
    let rail_role = if state.help_typing {
        Role::Accent
    } else {
        Role::TextFaint
    };
    let name = cat2("? Help — jog v", &state.version);
    let mut top: Vec<Line> = none();
    put(&mut top, align_line(chip_line(&name, Role::Accent, Role::Accent), Align::Center));
    let mut bottom: Vec<Line> = none();
    put(&mut bottom, align_line(line_of(span_of(rail, fg(rail_role))), Align::Center));
    put(&mut ops, Op::Clear(popup));
    add_frame(
        &mut ops,
        popup,
        Border {
            style: fg(Role::Accent),
            top,
            bottom,
            padding: card_padding(),
            ground: bg(Role::SurfaceAlt),
        },
    );
    proof {
        lemma_columns_simple(*state, area);
    }
    let left = rise(state, &left);
    let right = rise(state, &right);
    let inner = inner_of(popup, card_padding());
    if two {
        let mut cs: Vec<Constraint> = Vec::new();
        cs.push(Constraint::Length(col_w));
        cs.push(Constraint::Length(3));
        cs.push(Constraint::Length(col_w));
        assert(cs@ =~= card_cut(area));
        let cols = split(false, &cs, inner);
        put(&mut ops, Op::Text { area: cols[0], lines: left, wrap: false, scroll, ground: plain() });
        put(
            &mut ops,
            Op::Text { area: cols[2], lines: right, wrap: false, scroll, ground: plain() },
        );
        assert(split_into(cols@, false, card_cut(area), inner));
    } else {
        put(&mut ops, Op::Text { area: inner, lines: left, wrap: false, scroll, ground: plain() });
    }
    ops
}

} // verus!
