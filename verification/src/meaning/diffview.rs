//! What the diff shows, and where it starts.

use vstd::prelude::*;
use vstd::string::*;

use crate::columns::{cut, text_columns};
use crate::diffview::{band_at, band_lead, band_name, band_of_line, band_of_row, banner, comet, diff_ops, diff_position, diff_shown, diff_sides, diff_title, diff_unit, diff_units, ext_icon, file_icon, forward, gutter, icon_of, last_number, line_style, row_line, row_number, row_ok, seen_now, seen_tells, side_spans, side_text, sides, unified_line, wipe_of, Sides};
use crate::geometry::Rect;
use crate::list::{first_where, reads};
use crate::meaning::layout::law_what_follows_the_last;
use crate::meaning::reading::{given, group_texts, law_numbers_read_back, law_the_first_is_found, least, said, titled};
use crate::motion::BAND_WIPE_TICKS;
use crate::ops::{OpV, Reading};
use crate::paint::{LineV, Paint, Role};
use crate::state::{App, DiffLine, DiffRow, DiffSide, Emphasis, GitDiffView};
use crate::text::{after_last, align_right, begins, dec, lowered, run_of};
use crate::wrap::texts;

verus! {

broadcast use {vstd::string::group_string_axioms, group_texts};

/// Whether there is a diff to read: one with lines, in a pane with room for one.
pub open spec fn reads_diff(state: App, area: Rect) -> bool {
    &&& state.git_diff matches Some(dv) && dv.lines@.len() > 0
    &&& area.height >= 3
}

/// How many units there are to scroll through: rows where two columns fit, lines
/// where they do not.
pub open spec fn extent(dv: GitDiffView, area: Rect) -> int {
    match diff_sides(dv, area) {
        Some(_) => dv.rows@.len() as int,
        None => dv.lines@.len() as int,
    }
}

/// Row or line `at` of a diff, drawn.
pub open spec fn drawn_at(state: App, dv: GitDiffView, area: Rect, at: int) -> LineV {
    match diff_sides(dv, area) {
        Some(s) => {
            let band = band_of_row(dv.rows@[at]);
            row_line(dv.rows@[at], s, wipe_of(state, dv, band), icon_of(state, band))
        },
        None => {
            let band = band_of_line(dv.lines@[at]);
            let emph = if at < dv.emphasis@.len() {
                dv.emphasis@[at]
            } else {
                None
            };
            unified_line(
                dv.lines@[at],
                emph,
                if area.width >= 2 {
                    area.width - 2
                } else {
                    0
                },
                wipe_of(state, dv, band),
                icon_of(state, band),
            )
        },
    }
}

/// Whether the pane shows the diff from `first` on: line `k` of it is row or line
/// `first + k` of the diff, as many as there are or as fit, and its title says
/// which of how many when that is not all of them.
pub open spec fn shows_from(state: App, area: Rect, first: int) -> bool {
    let dv = state.git_diff->0;
    let ops = diff_ops(state, area);
    let lines = ops.last()->lines;
    let total = extent(dv, area);
    let rows = area.height - 2;
    &&& ops.len() >= 2 && ops.last() is Text && ops.last()->scroll == 0 && !ops.last()->wrap
    &&& lines.len() == least(total - first, rows)
    &&& forall|k: int|
        0 <= k < lines.len() ==> #[trigger] lines[k] == drawn_at(state, dv, area, first + k)
    &&& titled(
        ops[ops.len() - 2],
        diff_title(dv) + given(
            total > rows,
            "   ["@ + dec((first + 1) as nat) + "–"@ + dec(least(first + rows, total) as nat)
                + " of "@ + dec(total as nat) + "]"@,
        ),
    )
}

proof fn lemma_shows_from(state: App, area: Rect, first: int)
    requires
        reads_diff(state, area),
        0 <= first,
        first == crate::diffview::diff_first(state.git_diff->0, area),
        extent(state.git_diff->0, area) > 0,
    ensures
        shows_from(state, area, first),
{
    reveal(diff_ops);
    reveal_strlit("");
    let dv = state.git_diff->0;
    let ops = diff_ops(state, area);
    let total = extent(dv, area);
    let rows = area.height - 2;
    assert(diff_units(dv, area) == total);
    let lines = ops.last()->lines;
    assert forall|k: int| 0 <= k < lines.len() implies #[trigger] lines[k] == drawn_at(
        state,
        dv,
        area,
        first + k,
    ) by {
        assert(lines[k] == diff_unit(state, dv, area, k));
    }
    let place = given(
        total > rows,
        "   ["@ + dec((first + 1) as nat) + "–"@ + dec(least(first + rows, total) as nat) + " of "@
            + dec(total as nat) + "]"@,
    );
    assert(diff_position(dv, area) =~= place);
    assert(said(ops[ops.len() - 2]->border.top[0]) =~= "─┤ "@ + (diff_title(dv) + place) + " ├"@);
}

/// With no jump waiting the diff is shown from the line it is scrolled to, and
/// its title counts from there.
pub proof fn law_the_diff_starts_at_its_scroll(state: App, area: Rect)
    requires
        reads_diff(state, area),
        state.git_diff->0.pending_jump is None,
        state.git_diff->0.scroll < extent(state.git_diff->0, area),
    ensures
        shows_from(state, area, state.git_diff->0.scroll as int),
{
    lemma_shows_from(state, area, state.git_diff->0.scroll as int);
}

/// Scrolled past its end, a diff is shown from its last line.
pub proof fn law_the_diff_stops_at_its_end(state: App, area: Rect)
    requires
        reads_diff(state, area),
        state.git_diff->0.pending_jump is None,
        0 < extent(state.git_diff->0, area) <= state.git_diff->0.scroll,
    ensures
        shows_from(state, area, extent(state.git_diff->0, area) - 1),
{
    lemma_shows_from(state, area, extent(state.git_diff->0, area) - 1);
}

/// A jump that was waiting puts the first line of its file at the top, or as near
/// to it as still fills the pane, and says that it was taken and where it landed.
#[verifier::rlimit(40)]
pub proof fn law_jumps_put_their_file_on_top(state: App, area: Rect)
    requires
        reads_diff(state, area),
        state.git_diff->0.pending_jump is Some,
        ({
            let dv = state.git_diff->0;
            let starts = if diff_sides(dv, area) is Some {
                dv.file_rows@
            } else {
                dv.file_lines@
            };
            dv.pending_jump->0 < starts.len() && starts[dv.pending_jump->0 as int] < extent(
                dv,
                area,
            )
        }),
    ensures
        ({
            let dv = state.git_diff->0;
            let starts = if diff_sides(dv, area) is Some {
                dv.file_rows@
            } else {
                dv.file_lines@
            };
            let rows = area.height - 2;
            let total = extent(dv, area);
            let at = starts[dv.pending_jump->0 as int] as int;
            let top = if at + rows <= total {
                at
            } else if total > rows {
                total - rows
            } else {
                0
            };
            &&& shows_from(state, area, top)
            &&& diff_ops(state, area).contains(OpV::Tell(Reading::DiffJumpTaken))
            &&& diff_ops(state, area).contains(OpV::Tell(Reading::DiffScroll(top as usize)))
        }),
{
    let dv = state.git_diff->0;
    let starts = if diff_sides(dv, area) is Some {
        dv.file_rows@
    } else {
        dv.file_lines@
    };
    let rows = area.height - 2;
    let total = extent(dv, area);
    let at = starts[dv.pending_jump->0 as int] as int;
    let top = if at + rows <= total {
        at
    } else if total > rows {
        total - rows
    } else {
        0
    };
    lemma_shows_from(state, area, top);
    reveal(diff_ops);
    let ops = diff_ops(state, area);
    assert(ops[3] == OpV::Tell(Reading::DiffJumpTaken));
    assert(ops[4] == OpV::Tell(Reading::DiffScroll(top as usize)));
}

/// The keys are told what scrolling counts, and which of the two layouts it is.
pub proof fn law_the_keys_know_the_layout(state: App, area: Rect)
    requires
        reads_diff(state, area),
    ensures
        ({
            let dv = state.git_diff->0;
            let ops = diff_ops(state, area);
            &&& ops.len() > 2
            &&& ops[0] == OpV::Tell(Reading::DiffViewport((area.height - 2) as u16))
            &&& ops[1] == OpV::Tell(Reading::DiffUnits(extent(dv, area) as usize))
            &&& ops[2] == OpV::Tell(Reading::DiffSideBySide(diff_sides(dv, area) is Some))
        }),
{
    reveal(diff_ops);
}

/// The title says how many files there are, or which one is being read, and how
/// many lines came and went.
pub proof fn law_the_diff_is_titled(dv: GitDiffView)
    ensures
        diff_title(dv) == (if dv.loading {
            dv.file@ + "  loading…"@
        } else {
            (if dv.files@.len() == 0 {
                dv.file@
            } else {
                dec(dv.files@.len()) + " file"@ + given(dv.files@.len() != 1, "s"@)
            }) + "  +"@ + dec(dv.add as nat) + " −"@ + dec(dv.del as nat)
        }),
{
    reveal_strlit("  ");
    reveal_strlit("loading…");
    reveal_strlit("  loading…");
    reveal_strlit("+");
    reveal_strlit("  +");
    reveal_strlit("1 file  ");
    reveal_strlit(" file");
    reveal_strlit("s");
    reveal_strlit(" files  ");
    let n = dv.files@.len();
    assert("  "@ + "loading…"@ =~= "  loading…"@);
    assert("  "@ + "+"@ =~= "  +"@);
    if n == 1 {
        assert(dec(1) =~= seq!['1']);
        assert("1 file  "@ =~= dec(1) + " file"@ + "  "@);
    }
    assert(" files  "@ =~= " file"@ + "s"@ + "  "@);
    if dv.loading {
        assert(diff_title(dv) =~= dv.file@ + "  loading…"@);
    } else {
        let t = (if n == 0 {
            dv.file@
        } else {
            dec(n) + " file"@ + given(n != 1, "s"@)
        });
        assert(diff_title(dv) =~= t + "  "@ + "+"@ + dec(dv.add as nat) + " −"@ + dec(
            dv.del as nat,
        ));
        assert(diff_title(dv) =~= t + "  +"@ + dec(dv.add as nat) + " −"@ + dec(dv.del as nat));
    }
}

/// What one side of a row says: its number against the right of the gutter, its
/// text as far as it fits, and blanks to the end of its column; nothing but
/// blanks where there is no such line.
pub open spec fn side_says(s: Option<DiffSide>, gutter: int, width: int) -> Seq<char> {
    match s {
        None => run_of(' ', (gutter + 1 + width) as nat),
        Some(d) => {
            let text = cut(d.text@, width as nat);
            (match d.num {
                Some(n) => align_right(dec(n as nat), gutter as nat) + " "@,
                None => run_of(' ', (gutter + 1) as nat),
            }) + text + run_of(
                ' ',
                (if width > text_columns(text) {
                    width - text_columns(text)
                } else {
                    0
                }) as nat,
            )
        },
    }
}

proof fn lemma_side_words(s: Option<DiffSide>, gutter: int, width: int, tint: Role)
    requires
        s matches Some(d) ==> forward(d.emph),
    ensures
        texts(side_spans(s, gutter, width, tint)) == side_says(s, gutter, width),
{
    match s {
        None => {
            assert(texts(side_spans(s, gutter, width, tint)) =~= side_says(s, gutter, width));
        },
        Some(d) => {
            let t = cut(d.text@, width as nat);
            assert(texts(side_text(d, width, tint)) =~= t) by {
                if d.emph is Some && d.emph->0.to <= t.len() && t == d.text@ {
                    let e = d.emph->0;
                    assert(t.take(e.from as int) + t.subrange(e.from as int, e.to as int) + t.skip(
                        e.to as int,
                    ) =~= t);
                }
            }
            assert(texts(side_spans(s, gutter, width, tint)) =~= side_says(s, gutter, width));
        },
    }
}

/// A pair has the old line on the left and the new one on the right, with a rule
/// between them.
#[verifier::rlimit(40)]
pub proof fn law_old_is_left_and_new_is_right(
    old: Option<DiffSide>,
    new: Option<DiffSide>,
    s: Sides,
    wipe: int,
    icon: Seq<char>,
)
    requires
        row_ok(DiffRow::Pair { old, new }),
    ensures
        said(row_line(DiffRow::Pair { old, new }, s, wipe, icon)) == side_says(
            old,
            s.gutter as int,
            s.left as int,
        ) + " │ "@ + side_says(new, s.gutter as int, s.right as int),
{
    lemma_side_words(old, s.gutter as int, s.left as int, Role::Failure);
    lemma_side_words(new, s.gutter as int, s.right as int, Role::Success);
    assert(said(row_line(DiffRow::Pair { old, new }, s, wipe, icon)) =~= side_says(
        old,
        s.gutter as int,
        s.left as int,
    ) + " │ "@ + side_says(new, s.gutter as int, s.right as int));
}

/// What changed is tinted, in the colour of what was lost on the left and of what
/// was gained on the right; what did not is plain text.
pub proof fn law_changed_lines_are_tinted(
    old: DiffSide,
    new: DiffSide,
    s: Sides,
    wipe: int,
    icon: Seq<char>,
)
    requires
        old.emph is None,
        new.emph is None,
    ensures
        ({
            let v = row_line(
                DiffRow::Pair { old: Some(old), new: Some(new) },
                s,
                wipe,
                icon,
            ).spans;
            &&& v.len() == 7
            &&& v[1].style.fg == Some(
                Paint::Plain(
                    if old.changed {
                        Role::Failure
                    } else {
                        Role::Text
                    },
                ),
            )
            &&& v[5].style.fg == Some(
                Paint::Plain(
                    if new.changed {
                        Role::Success
                    } else {
                        Role::Text
                    },
                ),
            )
        }),
{
}

/// A line of a unified diff is shown whole, whatever part of it stands out.
pub proof fn law_unified_lines_are_whole(
    t: String,
    emph: Option<Emphasis>,
    width: int,
    wipe: int,
    icon: Seq<char>,
)
    requires
        forward(emph),
    ensures
        said(unified_line(DiffLine::Text(t), emph, width, wipe, icon)) == t@,
{
    match emph {
        Some(e) if e.to <= t@.len() => {
            assert(t@.take(e.from as int) + t@.subrange(e.from as int, e.to as int) + t@.skip(
                e.to as int,
            ) =~= t@);
        },
        _ => {},
    }
    assert(said(unified_line(DiffLine::Text(t), emph, width, wipe, icon)) =~= t@);
}

/// What is added is in the colour of success and what is removed in that of
/// failure; a file header is neither, though it begins like one.
pub proof fn law_added_and_removed_are_told_apart(t: Seq<char>)
    ensures
        line_style(t).fg == Some(Paint::Plain(Role::Success)) <==> t.len() > 0 && t[0] == '+'
            && !begins(t, "+++"@),
        line_style(t).fg == Some(Paint::Plain(Role::Failure)) <==> t.len() > 0 && t[0] == '-'
            && !begins(t, "---"@),
{
    reveal_strlit("+++");
    reveal_strlit("---");
    if begins(t, "+++"@) {
        assert(t.subrange(0, 3)[0] == t[0]);
    }
    if begins(t, "---"@) {
        assert(t.subrange(0, 3)[0] == t[0]);
    }
}

/// A band that has been painted names its file, as much of it as there is room
/// for, and counts what was added to it and what was taken away.
pub proof fn law_bands_name_their_file(
    path: Seq<char>,
    add: nat,
    del: nat,
    width: int,
    icon: Seq<char>,
)
    requires
        width >= 0,
    ensures
        ({
            let lead = given(icon.len() > 0, " "@ + icon) + " "@;
            let counts = "  +"@ + dec(add) + " −"@ + dec(del);
            let taken = text_columns(lead) + 1 + text_columns("  +"@ + dec(add)) + text_columns(
                " −"@ + dec(del),
            );
            let name = cut(
                path,
                (if width > taken + 1 {
                    width - taken
                } else {
                    1
                }) as nat,
            );
            let words = said(banner(path, add as int, del as int, width, BAND_WIPE_TICKS as int, icon));
            &&& words.len() >= (lead + name + counts).len()
            &&& words.take((lead + name + counts).len() as int) == lead + name + counts
        }),
{
    let lead = given(icon.len() > 0, " "@ + icon) + " "@;
    assert(band_lead(icon) =~= lead);
    let counts = "  +"@ + dec(add) + " −"@ + dec(del);
    let stats = text_columns("  +"@ + dec(add)) + text_columns(" −"@ + dec(del));
    let name = band_name(path, lead, stats as int, width);
    let l = banner(path, add as int, del as int, width, BAND_WIPE_TICKS as int, icon);
    assert(said(l) =~= lead + name + counts + l.spans[3].text);
    assert((lead + name + counts + l.spans[3].text).take((lead + name + counts).len() as int)
        =~= lead + name + counts);
}

/// The gutter holds the number of every line, up to six digits.
pub proof fn law_the_gutter_holds_every_number(rows: Seq<DiffRow>, i: int, side: DiffSide)
    requires
        0 <= i < rows.len(),
        rows[i] matches DiffRow::Pair { old, new } && (old == Some(side) || new == Some(side)),
        side.num is Some,
        side.num->0 <= 999_999,
    ensures
        dec(side.num->0 as nat).len() <= gutter(rows),
{
    let n = side.num->0 as nat;
    lemma_last_number(rows, rows.len() as int, i);
    assert(n <= row_number(rows[i]));
    let m = last_number(rows, rows.len() as int) as nat;
    lemma_longer(n, m);
    if n <= 999_999 {
        lemma_longer(n, 999_999);
        assert(dec(999_999).len() == 6) by {
            reveal_with_fuel(dec, 7);
        }
    }
}

proof fn lemma_last_number(rows: Seq<DiffRow>, n: int, i: int)
    requires
        0 <= i < n <= rows.len(),
    ensures
        row_number(rows[i]) <= last_number(rows, n),
    decreases n,
{
    if i < n - 1 {
        lemma_last_number(rows, n - 1, i);
    }
}

proof fn lemma_longer(a: nat, b: nat)
    requires
        a <= b,
    ensures
        dec(a).len() <= dec(b).len(),
    decreases b,
{
    if a >= 10 {
        lemma_longer(a / 10, b / 10);
    } else if b >= 10 {
        law_numbers_read_back(b / 10);
    }
}

/// A diff with nothing in it says why: it is still being read, or there is nothing to
/// read; and where no file is selected, that.
pub proof fn law_empty_diffs_say_why(state: App, area: Rect)
    requires
        state.git_diff matches Some(dv) ==> dv.lines@.len() == 0,
    ensures
        ({
            let ops = diff_ops(state, area);
            &&& ops.len() >= 2 && ops.last() is Text && ops.last()->lines.len() == 1
            &&& said(ops.last()->lines[0]) == (match state.git_diff {
                None => "(no file selected)"@,
                Some(dv) => if dv.loading {
                    "reading diff…"@
                } else {
                    "no textual changes (mode change, rename, or an empty file)"@
                },
            })
        }),
{
    reveal(diff_ops);
    let words = match state.git_diff {
        None => "(no file selected)"@,
        Some(dv) => if dv.loading {
            "reading diff…"@
        } else {
            "no textual changes (mode change, rename, or an empty file)"@
        },
    };
    assert(said(diff_ops(state, area).last()->lines[0]) =~= words);
}

/// Two columns are shown exactly when each has room for twenty-two columns of text
/// beside the gutters and the rule; an odd column goes to the new side.
pub proof fn law_two_columns_need_room(width: int, rows: Seq<DiffRow>)
    requires
        width <= usize::MAX,
    ensures
        ({
            let room = width - 2 * gutter(rows) - 5;
            &&& sides(width, rows) is Some <==> room >= 44
            &&& sides(width, rows) matches Some(s) ==> s.gutter == gutter(rows) && s.left + s.right
                == room && (s.right == s.left || s.right == s.left + 1)
        }),
{
}

/// What differs within a pair stands out on both sides, in its own tint and bold, as
/// long as the line is shown whole; what is around it does not.
pub proof fn law_what_differs_stands_out(s: DiffSide, width: int, tint: Role)
    requires
        s.emph is Some,
        s.emph->0.from <= s.emph->0.to <= s.text@.len(),
        text_columns(s.text@) <= width,
    ensures
        ({
            let v = side_text(s, width, tint);
            let e = s.emph->0;
            &&& v.len() == 3
            &&& v[1].text == s.text@.subrange(e.from as int, e.to as int)
            &&& v[1].style.bold && !v[0].style.bold && !v[2].style.bold
            &&& v[0].text.len() == e.from
        }),
{
}

/// The mark of a file goes by its name: two have one of their own, in any case.
/// Otherwise it goes by what follows the last dot, in any case, whatever directory the
/// file is in; a name without a dot has the mark of a plain file.
pub proof fn law_marks_go_by_name(dir: Seq<char>, name: Seq<char>)
    requires
        !name.contains('/'),
    ensures
        file_icon(dir + seq!['/'] + name) == file_icon(name),
        lowered(name) == "dockerfile"@ ==> file_icon(name) == "\u{f308}"@,
        lowered(name) == "makefile"@ ==> file_icon(name) == "\u{f489}"@,
        lowered(name) != "dockerfile"@ && lowered(name) != "makefile"@ ==> file_icon(name) == (
        if name.contains('.') {
            ext_icon(lowered(after_last(name, '.')))
        } else {
            "\u{f016}"@
        }),
{
    let path = dir + seq!['/'] + name;
    law_what_follows_the_last(path, '/');
    law_what_follows_the_last(name, '/');
    let t = after_last(path, '/');
    let n = path.len() - t.len();
    assert(path[dir.len() as int] == '/');
    assert(n == dir.len() + 1) by {
        if n <= dir.len() {
            assert(t[dir.len() - n] == path[dir.len() as int]);
            assert(t.contains('/'));
        } else if n > dir.len() + 1 {
            assert(path[n - 1] == name[n - 1 - dir.len() - 1]);
            assert(name.contains('/'));
        }
    }
    assert(t =~= name);
    let u = after_last(name, '/');
    let m = name.len() - u.len();
    assert(m == 0) by {
        if m > 0 {
            assert(name[m - 1] == '/');
            assert(name.contains('/'));
        }
    }
    assert(u =~= name);
    reveal_strlit("dockerfile");
    reveal_strlit("makefile");
    assert("dockerfile"@.len() == 10 && "makefile"@.len() == 8);
}

/// Kinds of files that are written alike share a mark, and no others do.
#[verifier::rlimit(40)]
pub proof fn law_kinds_have_their_mark(e: Seq<char>)
    ensures
        ext_icon(e) == "\u{e7a8}"@ <==> e == "rs"@,
        ext_icon(e) == "\u{e73c}"@ <==> e == "py"@,
        ext_icon(e) == "\u{e628}"@ <==> e == "ts"@ || e == "tsx"@,
        ext_icon(e) == "\u{e74e}"@ <==> e == "js"@ || e == "jsx"@ || e == "mjs"@ || e == "cjs"@,
        ext_icon(e) == "\u{e627}"@ <==> e == "go"@,
        ext_icon(e) == "\u{e738}"@ <==> e == "java"@,
        ext_icon(e) == "\u{e61e}"@ <==> e == "c"@ || e == "h"@,
        ext_icon(e) == "\u{e61d}"@ <==> e == "cpp"@ || e == "cc"@ || e == "cxx"@ || e == "hpp"@,
        ext_icon(e) == "\u{e60b}"@ <==> e == "json"@,
        ext_icon(e) == "\u{e73e}"@ <==> e == "md"@ || e == "markdown"@,
        ext_icon(e) == "\u{e615}"@ <==> e == "yml"@ || e == "yaml"@ || e == "toml"@ || e == "ini"@
            || e == "conf"@,
        ext_icon(e) == "\u{f489}"@ <==> e == "sh"@ || e == "bash"@ || e == "zsh"@ || e == "fish"@,
{
    reveal_strlit("rs");
    assert("rs"@.len() == 2 && "rs"@[0] == 'r' && "rs"@[1] == 's');
    reveal_strlit("py");
    assert("py"@.len() == 2 && "py"@[0] == 'p' && "py"@[1] == 'y');
    reveal_strlit("ts");
    assert("ts"@.len() == 2 && "ts"@[0] == 't' && "ts"@[1] == 's');
    reveal_strlit("tsx");
    assert("tsx"@.len() == 3 && "tsx"@[0] == 't' && "tsx"@[1] == 's' && "tsx"@[2] == 'x');
    reveal_strlit("js");
    assert("js"@.len() == 2 && "js"@[0] == 'j' && "js"@[1] == 's');
    reveal_strlit("jsx");
    assert("jsx"@.len() == 3 && "jsx"@[0] == 'j' && "jsx"@[1] == 's' && "jsx"@[2] == 'x');
    reveal_strlit("mjs");
    assert("mjs"@.len() == 3 && "mjs"@[0] == 'm' && "mjs"@[1] == 'j' && "mjs"@[2] == 's');
    reveal_strlit("cjs");
    assert("cjs"@.len() == 3 && "cjs"@[0] == 'c' && "cjs"@[1] == 'j' && "cjs"@[2] == 's');
    reveal_strlit("go");
    assert("go"@.len() == 2 && "go"@[0] == 'g' && "go"@[1] == 'o');
    reveal_strlit("java");
    assert("java"@.len() == 4);
    assert("java"@[0] == 'j' && "java"@[1] == 'a' && "java"@[2] == 'v' && "java"@[3] == 'a');
    reveal_strlit("c");
    assert("c"@.len() == 1 && "c"@[0] == 'c');
    reveal_strlit("h");
    assert("h"@.len() == 1 && "h"@[0] == 'h');
    reveal_strlit("cpp");
    assert("cpp"@.len() == 3 && "cpp"@[0] == 'c' && "cpp"@[1] == 'p' && "cpp"@[2] == 'p');
    reveal_strlit("cc");
    assert("cc"@.len() == 2 && "cc"@[0] == 'c' && "cc"@[1] == 'c');
    reveal_strlit("cxx");
    assert("cxx"@.len() == 3 && "cxx"@[0] == 'c' && "cxx"@[1] == 'x' && "cxx"@[2] == 'x');
    reveal_strlit("hpp");
    assert("hpp"@.len() == 3 && "hpp"@[0] == 'h' && "hpp"@[1] == 'p' && "hpp"@[2] == 'p');
    reveal_strlit("rb");
    assert("rb"@.len() == 2 && "rb"@[0] == 'r' && "rb"@[1] == 'b');
    reveal_strlit("php");
    assert("php"@.len() == 3 && "php"@[0] == 'p' && "php"@[1] == 'h' && "php"@[2] == 'p');
    reveal_strlit("lua");
    assert("lua"@.len() == 3 && "lua"@[0] == 'l' && "lua"@[1] == 'u' && "lua"@[2] == 'a');
    reveal_strlit("swift");
    assert("swift"@.len() == 5);
    assert("swift"@[0] == 's' && "swift"@[1] == 'w' && "swift"@[2] == 'i' && "swift"@[3] == 'f');
    reveal_strlit("kt");
    assert("kt"@.len() == 2 && "kt"@[0] == 'k' && "kt"@[1] == 't');
    reveal_strlit("kts");
    assert("kts"@.len() == 3 && "kts"@[0] == 'k' && "kts"@[1] == 't' && "kts"@[2] == 's');
    reveal_strlit("html");
    assert("html"@.len() == 4);
    assert("html"@[0] == 'h' && "html"@[1] == 't' && "html"@[2] == 'm' && "html"@[3] == 'l');
    reveal_strlit("htm");
    assert("htm"@.len() == 3 && "htm"@[0] == 'h' && "htm"@[1] == 't' && "htm"@[2] == 'm');
    reveal_strlit("css");
    assert("css"@.len() == 3 && "css"@[0] == 'c' && "css"@[1] == 's' && "css"@[2] == 's');
    reveal_strlit("scss");
    assert("scss"@.len() == 4);
    assert("scss"@[0] == 's' && "scss"@[1] == 'c' && "scss"@[2] == 's' && "scss"@[3] == 's');
    reveal_strlit("sass");
    assert("sass"@.len() == 4);
    assert("sass"@[0] == 's' && "sass"@[1] == 'a' && "sass"@[2] == 's' && "sass"@[3] == 's');
    reveal_strlit("less");
    assert("less"@.len() == 4);
    assert("less"@[0] == 'l' && "less"@[1] == 'e' && "less"@[2] == 's' && "less"@[3] == 's');
    reveal_strlit("json");
    assert("json"@.len() == 4);
    assert("json"@[0] == 'j' && "json"@[1] == 's' && "json"@[2] == 'o' && "json"@[3] == 'n');
    reveal_strlit("md");
    assert("md"@.len() == 2 && "md"@[0] == 'm' && "md"@[1] == 'd');
    reveal_strlit("markdown");
    assert("markdown"@.len() == 8);
    assert("markdown"@[0] == 'm' && "markdown"@[1] == 'a' && "markdown"@[2] == 'r' && "markdown"@[3] == 'k');
    reveal_strlit("yml");
    assert("yml"@.len() == 3 && "yml"@[0] == 'y' && "yml"@[1] == 'm' && "yml"@[2] == 'l');
    reveal_strlit("yaml");
    assert("yaml"@.len() == 4);
    assert("yaml"@[0] == 'y' && "yaml"@[1] == 'a' && "yaml"@[2] == 'm' && "yaml"@[3] == 'l');
    reveal_strlit("toml");
    assert("toml"@.len() == 4);
    assert("toml"@[0] == 't' && "toml"@[1] == 'o' && "toml"@[2] == 'm' && "toml"@[3] == 'l');
    reveal_strlit("ini");
    assert("ini"@.len() == 3 && "ini"@[0] == 'i' && "ini"@[1] == 'n' && "ini"@[2] == 'i');
    reveal_strlit("conf");
    assert("conf"@.len() == 4);
    assert("conf"@[0] == 'c' && "conf"@[1] == 'o' && "conf"@[2] == 'n' && "conf"@[3] == 'f');
    reveal_strlit("sh");
    assert("sh"@.len() == 2 && "sh"@[0] == 's' && "sh"@[1] == 'h');
    reveal_strlit("bash");
    assert("bash"@.len() == 4);
    assert("bash"@[0] == 'b' && "bash"@[1] == 'a' && "bash"@[2] == 's' && "bash"@[3] == 'h');
    reveal_strlit("zsh");
    assert("zsh"@.len() == 3 && "zsh"@[0] == 'z' && "zsh"@[1] == 's' && "zsh"@[2] == 'h');
    reveal_strlit("fish");
    assert("fish"@.len() == 4);
    assert("fish"@[0] == 'f' && "fish"@[1] == 'i' && "fish"@[2] == 's' && "fish"@[3] == 'h');
    reveal_strlit("lock");
    assert("lock"@.len() == 4);
    assert("lock"@[0] == 'l' && "lock"@[1] == 'o' && "lock"@[2] == 'c' && "lock"@[3] == 'k');
    reveal_strlit("\u{e7a8}");
    assert("\u{e7a8}"@[0] == '\u{e7a8}');
    reveal_strlit("\u{e73c}");
    assert("\u{e73c}"@[0] == '\u{e73c}');
    reveal_strlit("\u{e628}");
    assert("\u{e628}"@[0] == '\u{e628}');
    reveal_strlit("\u{e74e}");
    assert("\u{e74e}"@[0] == '\u{e74e}');
    reveal_strlit("\u{e627}");
    assert("\u{e627}"@[0] == '\u{e627}');
    reveal_strlit("\u{e738}");
    assert("\u{e738}"@[0] == '\u{e738}');
    reveal_strlit("\u{e61e}");
    assert("\u{e61e}"@[0] == '\u{e61e}');
    reveal_strlit("\u{e61d}");
    assert("\u{e61d}"@[0] == '\u{e61d}');
    reveal_strlit("\u{e739}");
    assert("\u{e739}"@[0] == '\u{e739}');
    reveal_strlit("\u{e73d}");
    assert("\u{e73d}"@[0] == '\u{e73d}');
    reveal_strlit("\u{e620}");
    assert("\u{e620}"@[0] == '\u{e620}');
    reveal_strlit("\u{e755}");
    assert("\u{e755}"@[0] == '\u{e755}');
    reveal_strlit("\u{e634}");
    assert("\u{e634}"@[0] == '\u{e634}');
    reveal_strlit("\u{e736}");
    assert("\u{e736}"@[0] == '\u{e736}');
    reveal_strlit("\u{e749}");
    assert("\u{e749}"@[0] == '\u{e749}');
    reveal_strlit("\u{e60b}");
    assert("\u{e60b}"@[0] == '\u{e60b}');
    reveal_strlit("\u{e73e}");
    assert("\u{e73e}"@[0] == '\u{e73e}');
    reveal_strlit("\u{e615}");
    assert("\u{e615}"@[0] == '\u{e615}');
    reveal_strlit("\u{f489}");
    assert("\u{f489}"@[0] == '\u{f489}');
    reveal_strlit("\u{f023}");
    assert("\u{f023}"@[0] == '\u{f023}');
    reveal_strlit("\u{f016}");
    assert("\u{f016}"@[0] == '\u{f016}');
}

/// A band wears the mark of its file exactly when marks are on.
pub proof fn law_marks_are_worn_when_they_are_on(state: App, path: Seq<char>)
    ensures
        icon_of(state, Some(path)) == (if state.file_icons {
            file_icon(path)
        } else {
            ""@
        }),
        icon_of(state, None) == ""@,
{
}

/// Whether `i` is the first of the files called `path`.
pub open spec fn first_called(files: Seq<String>, path: Seq<char>, i: int) -> bool {
    &&& 0 <= i < files.len() && files[i]@ == path
    &&& forall|j: int| 0 <= j < i ==> (#[trigger] files[j])@ != path
}

/// A band is painted a twelfth at a time: one on the frame it is first drawn on, and
/// one more each tick after that. It is whole in a diff that was not opened with a
/// sweep, and so is a band that no file of it has.
pub proof fn law_bands_are_painted_in_twelfths(
    state: App,
    dv: GitDiffView,
    path: Seq<char>,
    i: int,
)
    ensures
        first_called(dv.files@, path, i) && dv.opened_tick is Some && i < dv.band_seen@.len() ==> {
            let n = match dv.band_seen@[i] {
                Some(then) => 1 + (if state.tick_count > then {
                    state.tick_count - then
                } else {
                    0
                }),
                None => 1,
            };
            wipe_of(state, dv, Some(path)) == least(n, 12)
        },
        first_called(dv.files@, path, i) && (dv.opened_tick is None || i >= dv.band_seen@.len())
            ==> wipe_of(state, dv, Some(path)) == 12,
        (forall|j: int| 0 <= j < dv.files@.len() ==> (#[trigger] dv.files@[j])@ != path) ==> wipe_of(
            state,
            dv,
            Some(path),
        ) == 12,
        wipe_of(state, dv, None) == 12,
{
    law_the_first_is_found(dv.files@, reads(path));
    let n = first_where(dv.files@, reads(path)) as int;
    if n < dv.files@.len() {
        assert(dv.files@[n]@ == path);
    }
    if first_called(dv.files@, path, i) {
        assert(reads(path)(dv.files@[i]));
        if n < i {
            assert(dv.files@[n]@ != path);
        }
    }
}

/// The tail ahead of what is painted is three cells long, or as many as are left,
/// densest where it leaves it.
pub proof fn law_the_tail_thins_out(room: int)
    ensures
        comet(room).len() == if room <= 0 {
            0
        } else {
            least(room, 3)
        },
        comet(room) == "▓▒░"@.take(comet(room).len() as int),
{
    reveal_strlit("");
    reveal_strlit("▓");
    reveal_strlit("▓▒");
    reveal_strlit("▓▒░");
    assert(comet(room) =~= "▓▒░"@.take(comet(room).len() as int));
}

proof fn lemma_seen(
    state: App,
    dv: GitDiffView,
    paths: spec_fn(int) -> Option<Seq<char>>,
    n: int,
    k: int,
)
    requires
        0 <= k < n,
        seen_now(dv, paths(k)) is Some,
    ensures
        seen_tells(state, dv, paths, n).contains(
            OpV::Tell(
                Reading::BandSeen {
                    file: seen_now(dv, paths(k))->0 as usize,
                    tick: state.tick_count,
                },
            ),
        ),
    decreases n,
{
    let v = seen_tells(state, dv, paths, n);
    let op = OpV::Tell(
        Reading::BandSeen { file: seen_now(dv, paths(k))->0 as usize, tick: state.tick_count },
    );
    if k < n - 1 {
        lemma_seen(state, dv, paths, n - 1, k);
        let u = seen_tells(state, dv, paths, n - 1);
        let j = choose|j: int| 0 <= j < u.len() && u[j] == op;
        assert(v[j] == op);
    } else {
        assert(v.last() == op);
    }
}

/// A band drawn for the first time is told of, with the tick it was drawn at.
pub proof fn law_new_bands_are_told_of(state: App, area: Rect, k: int, i: int)
    requires
        reads_diff(state, area),
        state.git_diff->0.pending_jump is None,
        state.git_diff->0.scroll < extent(state.git_diff->0, area),
        0 <= k < area.height - 2,
        state.git_diff->0.scroll + k < extent(state.git_diff->0, area),
        ({
            let dv = state.git_diff->0;
            let at = dv.scroll + k;
            let path = match diff_sides(dv, area) {
                Some(_) => match dv.rows@[at] {
                    DiffRow::File { path, .. } => Some(path@),
                    _ => None,
                },
                None => match dv.lines@[at] {
                    DiffLine::File { path, .. } => Some(path@),
                    _ => None,
                },
            };
            &&& path is Some && first_called(dv.files@, path->0, i)
            &&& dv.opened_tick is Some
            &&& i < dv.band_seen@.len() && dv.band_seen@[i] is None
        }),
    ensures
        diff_ops(state, area).contains(
            OpV::Tell(Reading::BandSeen { file: i as usize, tick: state.tick_count }),
        ),
{
    reveal(diff_ops);
    let dv = state.git_diff->0;
    let path = band_at(dv, area)(k)->0;
    law_the_first_is_found(dv.files@, reads(path));
    let m = first_where(dv.files@, reads(path)) as int;
    assert(reads(path)(dv.files@[i]));
    if m < i {
        assert(dv.files@[m]@ != path);
    }
    let n = diff_shown(dv, area);
    lemma_seen(state, dv, band_at(dv, area), n, k);
    let v = seen_tells(state, dv, band_at(dv, area), n);
    let op = OpV::Tell(Reading::BandSeen { file: i as usize, tick: state.tick_count });
    let j = choose|j: int| 0 <= j < v.len() && v[j] == op;
    let ops = diff_ops(state, area);
    assert(ops[3 + j] == op);
}

/// The gutter is no wider than it has to be: two columns, or as many as the number of
/// some line takes.
pub proof fn law_the_gutter_is_no_wider_than_its_numbers(rows: Seq<DiffRow>)
    ensures
        2 <= gutter(rows) <= 6,
        gutter(rows) > 2 ==> exists|i: int|
            0 <= i < rows.len() && dec(row_number(#[trigger] rows[i]) as nat).len() >= gutter(rows),
{
    lemma_largest(rows, rows.len() as int);
    if gutter(rows) > 2 {
        if last_number(rows, rows.len() as int) > 0 {
            let i = choose|i: int|
                0 <= i < rows.len() && row_number(#[trigger] rows[i]) == last_number(
                    rows,
                    rows.len() as int,
                );
            assert(dec(row_number(rows[i]) as nat).len() >= gutter(rows));
        } else {
            assert(dec(0).len() == 1);
        }
    }
}

proof fn lemma_largest(rows: Seq<DiffRow>, n: int)
    requires
        0 <= n <= rows.len(),
    ensures
        last_number(rows, n) >= 0,
        last_number(rows, n) > 0 ==> exists|i: int|
            0 <= i < n && row_number(#[trigger] rows[i]) == last_number(rows, n),
    decreases n,
{
    if n > 0 {
        lemma_largest(rows, n - 1);
        if last_number(rows, n) == row_number(rows[n - 1]) {
            assert(row_number(rows[n - 1]) == last_number(rows, n));
        } else {
            let i = choose|i: int|
                0 <= i < n - 1 && row_number(#[trigger] rows[i]) == last_number(rows, n - 1);
            assert(row_number(rows[i]) == last_number(rows, n));
        }
    }
}

} // verus!
