//! The diff of the working tree: two columns where they fit, one where not.

use vstd::prelude::*;
use vstd::string::*;

use crate::columns::{cut, disp_width, fit_columns, fitted, text_columns, truncate};
use crate::geometry::{larger, less, lesser, on_screen, Rect};
use crate::list::{each, find_text, first_where, none, push_if, put_all, reads};
use crate::motion::{band_wipe, band_wipe_at, BAND_WIPE_TICKS};
use crate::ops::{boxed, in_a_box, just, one_line, say, say_of, tell, Op, OpV, Reading};
use crate::paint::{bg, fg, ink, line, line_of, ln, ln1, plain, share, sp, span, span_of, Line, LineV, Paint, Role, Span, SpanV, Style};
use crate::state::{App, DiffLine, DiffRow, DiffSide, Emphasis, GitDiffView};
use crate::text::{after_last, align_right, begins, blanks, cat2, cat3, cat4, cat5, chars_of, dec, find_first, lower_chars, lowered, num, pad_left, run_of, same, starts_with, tail_after, text_between, text_of};

verus! {

broadcast use vstd::string::group_string_axioms;

// ── Lines ──────────────────────────────────────────────────────────────────

/// Whether a line of diff text is about the files rather than in them.
pub open spec fn is_meta(t: Seq<char>) -> bool {
    ||| begins(t, "diff "@)
    ||| begins(t, "index "@)
    ||| begins(t, "new file"@)
    ||| begins(t, "deleted file"@)
    ||| begins(t, "old mode"@)
    ||| begins(t, "new mode"@)
    ||| begins(t, "similarity index"@)
    ||| begins(t, "rename "@)
    ||| begins(t, "Binary files"@)
}

/// The style of a line of diff text: file headers begin with the same
/// characters as content but are not additions or deletions.
pub open spec fn line_style(t: Seq<char>) -> Style {
    if begins(t, "+++"@) || begins(t, "---"@) {
        fg(Role::TextMuted)
    } else if t.len() > 0 && t[0] == '+' {
        fg(Role::Success)
    } else if t.len() > 0 && t[0] == '-' {
        fg(Role::Failure)
    } else if begins(t, "@@"@) {
        fg(Role::Accent).bold()
    } else if is_meta(t) {
        fg(Role::TextMuted)
    } else {
        fg(Role::Text)
    }
}

/// The style of a line of diff text.
pub fn diff_line_style(text: &str) -> (s: Style)
    ensures
        s == line_style(text@),
{
    if starts_with(text, "+++") || starts_with(text, "---") {
        return fg(Role::TextMuted);
    }
    let v = chars_of(text);
    if v.len() > 0 && v[0] == '+' {
        return fg(Role::Success);
    }
    if v.len() > 0 && v[0] == '-' {
        return fg(Role::Failure);
    }
    if starts_with(text, "@@") {
        return fg(Role::Accent).bold();
    }
    if starts_with(text, "diff ") || starts_with(text, "index ") || starts_with(text, "new file")
        || starts_with(text, "deleted file") || starts_with(text, "old mode") || starts_with(
        text,
        "new mode",
    ) || starts_with(text, "similarity index") || starts_with(text, "rename ") || starts_with(
        text,
        "Binary files",
    ) {
        return fg(Role::TextMuted);
    }
    fg(Role::Text)
}

/// A file header is never taken for an addition or a deletion.
pub proof fn law_headers_are_not_content(t: Seq<char>)
    requires
        begins(t, "+++"@) || begins(t, "---"@),
    ensures
        line_style(t) == fg(Role::TextMuted),
{
}

// ── Columns ────────────────────────────────────────────────────────────────

/// The narrowest a column of diff text can be and still be worth reading.
pub const DIFF_SIDE_MIN: usize = 22;

/// How many columns the rule between the columns takes.
pub const DIFF_RULE_ROOM: usize = 3;

/// The larger line number of a row.
pub open spec fn row_number(r: DiffRow) -> u64 {
    match r {
        DiffRow::Pair { old, new } => {
            let a = match old {
                Some(s) => s.num,
                None => None,
            };
            let b = match new {
                Some(s) => s.num,
                None => None,
            };
            match (a, b) {
                (Some(x), Some(y)) => if x > y {
                    x
                } else {
                    y
                },
                (Some(x), None) => x,
                (None, Some(y)) => y,
                (None, None) => 0,
            }
        },
        _ => 0,
    }
}

/// The largest line number of the first `n` rows.
pub open spec fn last_number(rows: Seq<DiffRow>, n: int) -> int
    decreases n,
{
    if n <= 0 {
        0
    } else {
        larger(last_number(rows, n - 1), row_number(rows[n - 1]) as int)
    }
}

/// How wide a line-number gutter is: room for the number, never less than two
/// columns so that it does not shift as a diff scrolls from line 9 to line 10.
pub open spec fn gutter(rows: Seq<DiffRow>) -> int {
    let n = dec(last_number(rows, rows.len() as int) as nat).len();
    if n < 2 {
        2
    } else if n > 6 {
        6
    } else {
        n as int
    }
}

/// Where the two columns fall.
#[derive(Clone, Copy, PartialEq, Eq, Debug, Structural)]
pub struct Sides {
    pub gutter: usize,
    pub left: usize,
    pub right: usize,
}

/// Where the two columns fall inside `width`: nothing when there is no room for
/// them.
pub open spec fn sides(width: int, rows: Seq<DiffRow>) -> Option<Sides> {
    let g = gutter(rows);
    let text = width - (2 * (g + 1) + DIFF_RULE_ROOM);
    if text >= 0 && text / 2 >= DIFF_SIDE_MIN {
        Some(
            Sides {
                gutter: g as usize,
                left: (text / 2) as usize,
                right: (text - text / 2) as usize,
            },
        )
    } else {
        None
    }
}

fn row_number_of(r: &DiffRow) -> (n: u64)
    ensures
        n == row_number(*r),
{
    match r {
        DiffRow::Pair { old, new } => {
            let a: Option<u64> = match old {
                Some(s) => s.num,
                None => None,
            };
            let b: Option<u64> = match new {
                Some(s) => s.num,
                None => None,
            };
            match (a, b) {
                (Some(x), Some(y)) => if x > y {
                    x
                } else {
                    y
                },
                (Some(x), None) => x,
                (None, Some(y)) => y,
                (None, None) => 0,
            }
        },
        _ => 0,
    }
}

/// Where the two columns fall inside `width`: the line-number gutter and the
/// text width each side gets. Nothing when the terminal cannot spare them.
pub fn diff_columns(width: usize, rows: &Vec<DiffRow>) -> (r: Option<Sides>)
    ensures
        r == sides(width as int, rows@),
        r matches Some(s) ==> {
            &&& 2 <= s.gutter <= 6
            &&& DIFF_SIDE_MIN <= s.left <= s.right <= s.left + 1
            &&& 2 * (s.gutter + 1) + DIFF_RULE_ROOM + s.left + s.right == width
        },
{
    let mut widest: u64 = 0;
    let mut i: usize = 0;
    while i < rows.len()
        invariant
            i <= rows@.len(),
            widest == last_number(rows@, i as int),
        decreases rows@.len() - i,
    {
        let n: u64 = row_number_of(&rows[i]);
        if n > widest {
            widest = n;
        }
        i = i + 1;
    }
    let digits: usize = num(widest as u128).as_str().unicode_len();
    let g: usize = if digits < 2 {
        2
    } else if digits > 6 {
        6
    } else {
        digits
    };
    // Two gutters, a space after each, and the rule between the columns.
    let taken: usize = 2 * (g + 1) + DIFF_RULE_ROOM;
    if width < taken {
        return None;
    }
    // An odd column of width goes to the new side: it is the half being read.
    let text: usize = width - taken;
    let left: usize = text / 2;
    if left >= DIFF_SIDE_MIN {
        Some(Sides { gutter: g, left, right: text - left })
    } else {
        None
    }
}

/// The two columns, their gutters and the rule between them take every column
/// there is.
pub proof fn law_two_columns_fill_the_width(width: int, rows: Seq<DiffRow>)
    requires
        width <= usize::MAX,
    ensures
        sides(width, rows) matches Some(s) ==> row_width(s) == width,
{
}

/// A wider terminal never goes back to one column.
pub proof fn law_wider_keeps_two_columns(width: int, wider: int, rows: Seq<DiffRow>)
    requires
        width <= wider,
        sides(width, rows) is Some,
    ensures
        sides(wider, rows) is Some,
{
}

// ── Bands ──────────────────────────────────────────────────────────────────

/// The mark of a file extension.
pub open spec fn ext_icon(e: Seq<char>) -> Seq<char> {
    if e == "rs"@ {
        "\u{e7a8}"@
    } else if e == "py"@ {
        "\u{e73c}"@
    } else if e == "ts"@ || e == "tsx"@ {
        "\u{e628}"@
    } else if e == "js"@ || e == "jsx"@ || e == "mjs"@ || e == "cjs"@ {
        "\u{e74e}"@
    } else if e == "go"@ {
        "\u{e627}"@
    } else if e == "java"@ {
        "\u{e738}"@
    } else if e == "c"@ || e == "h"@ {
        "\u{e61e}"@
    } else if e == "cpp"@ || e == "cc"@ || e == "cxx"@ || e == "hpp"@ {
        "\u{e61d}"@
    } else if e == "rb"@ {
        "\u{e739}"@
    } else if e == "php"@ {
        "\u{e73d}"@
    } else if e == "lua"@ {
        "\u{e620}"@
    } else if e == "swift"@ {
        "\u{e755}"@
    } else if e == "kt"@ || e == "kts"@ {
        "\u{e634}"@
    } else if e == "html"@ || e == "htm"@ {
        "\u{e736}"@
    } else if e == "css"@ || e == "scss"@ || e == "sass"@ || e == "less"@ {
        "\u{e749}"@
    } else if e == "json"@ {
        "\u{e60b}"@
    } else if e == "md"@ || e == "markdown"@ {
        "\u{e73e}"@
    } else if e == "yml"@ || e == "yaml"@ || e == "toml"@ || e == "ini"@ || e == "conf"@ {
        "\u{e615}"@
    } else if e == "sh"@ || e == "bash"@ || e == "zsh"@ || e == "fish"@ {
        "\u{f489}"@
    } else if e == "lock"@ {
        "\u{f023}"@
    } else {
        "\u{f016}"@
    }
}

/// The mark for a file's language, by name and then by extension. A name without
/// a dot has no extension.
pub open spec fn file_icon(path: Seq<char>) -> Seq<char> {
    let name = after_last(path, '/');
    if lowered(name) == "dockerfile"@ {
        "\u{f308}"@
    } else if lowered(name) == "makefile"@ {
        "\u{f489}"@
    } else if name.contains('.') {
        ext_icon(lowered(after_last(name, '.')))
    } else {
        "\u{f016}"@
    }
}

fn ext_icon_of(e: &str) -> (r: &'static str)
    ensures
        r@ == ext_icon(e@),
{
    if same(e, "rs") {
        "\u{e7a8}"  // rust gear
    } else if same(e, "py") {
        "\u{e73c}"  // python
    } else if same(e, "ts") || same(e, "tsx") {
        "\u{e628}"  // typescript
    } else if same(e, "js") || same(e, "jsx") || same(e, "mjs") || same(e, "cjs") {
        "\u{e74e}"  // javascript
    } else if same(e, "go") {
        "\u{e627}"  // gopher
    } else if same(e, "java") {
        "\u{e738}"
    } else if same(e, "c") || same(e, "h") {
        "\u{e61e}"
    } else if same(e, "cpp") || same(e, "cc") || same(e, "cxx") || same(e, "hpp") {
        "\u{e61d}"
    } else if same(e, "rb") {
        "\u{e739}"  // ruby
    } else if same(e, "php") {
        "\u{e73d}"
    } else if same(e, "lua") {
        "\u{e620}"
    } else if same(e, "swift") {
        "\u{e755}"
    } else if same(e, "kt") || same(e, "kts") {
        "\u{e634}"  // kotlin
    } else if same(e, "html") || same(e, "htm") {
        "\u{e736}"
    } else if same(e, "css") || same(e, "scss") || same(e, "sass") || same(e, "less") {
        "\u{e749}"
    } else if same(e, "json") {
        "\u{e60b}"
    } else if same(e, "md") || same(e, "markdown") {
        "\u{e73e}"
    } else if same(e, "yml") || same(e, "yaml") || same(e, "toml") || same(e, "ini") || same(
        e,
        "conf",
    ) {
        "\u{e615}"  // config cog
    } else if same(e, "sh") || same(e, "bash") || same(e, "zsh") || same(e, "fish") {
        "\u{f489}"  // terminal
    } else if same(e, "lock") {
        "\u{f023}"  // padlock
    } else {
        "\u{f016}"  // plain file
    }
}

/// The Nerd Font mark for a file's language, by extension. Anything
/// unrecognised gets a plain file, which is the honest mark for it.
pub fn lang_icon(path: &str) -> (r: &'static str)
    ensures
        r@ == file_icon(path@),
{
    let v = chars_of(path);
    let name = tail_after(&v, '/');
    let low = text_of(&lower_chars(&name));
    if same(&low, "dockerfile") {
        return "\u{f308}";  // docker whale
    }
    if same(&low, "makefile") {
        return "\u{f489}";  // terminal
    }
    if find_first(&name, '.') >= name.len() {
        return "\u{f016}";  // no extension: plain file
    }
    let ext = tail_after(&name, '.');
    let ext = text_of(&lower_chars(&ext));
    ext_icon_of(&ext)
}

/// A file band's ground: the highest-contrast pairing the theme owns.
#[verifier::allow_in_spec]
pub fn band() -> Style
    returns
        (bg(Role::Accent).with_fg(Paint::Plain(Role::Surface))),
{
    bg(Role::Accent).with_fg(Paint::Plain(Role::Surface))
}

/// A count on the band: its own colour, taken down toward the surface so that
/// it stands on a light ground.
#[verifier::allow_in_spec]
pub fn band_count(role: Role) -> Style
    returns
        (band().with_fg(share(role, Role::Surface, 55, 100)).bold()),
{
    band().with_fg(share(role, Role::Surface, 55, 100)).bold()
}

/// What stands in front of a band's name.
pub open spec fn band_lead(icon: Seq<char>) -> Seq<char> {
    if icon.len() == 0 {
        " "@
    } else {
        " "@ + icon + " "@
    }
}

/// The columns a band's counts take.
pub open spec fn stats_columns(plus: Seq<char>, minus: Seq<char>) -> int {
    text_columns(plus) + text_columns(minus)
}

/// A band's name, cut to leave room for the counts.
pub open spec fn band_name(path: Seq<char>, lead: Seq<char>, stats: int, width: int) -> Seq<char> {
    cut(path, larger(less(width, text_columns(lead) + 1 + stats), 1) as nat)
}

/// How many columns of a band `width` wide have been painted.
pub open spec fn swept(width: int, wipe: int) -> int {
    (2 * width * wipe + 12) / 24
}

/// The tail ahead of the solid ground, densest where it leaves it.
pub open spec fn comet(room: int) -> Seq<char> {
    if room <= 0 {
        ""@
    } else if room == 1 {
        "▓"@
    } else if room == 2 {
        "▓▒"@
    } else {
        "▓▒░"@
    }
}

/// The band naming one file: a language mark, the filename and its counts on a
/// solid run of the accent colour, as much of it painted as `wipe` says.
pub open spec fn banner(
    path: Seq<char>,
    add: int,
    del: int,
    width: int,
    wipe: int,
    icon: Seq<char>,
) -> LineV {
    let lead = band_lead(icon);
    let plus = "  +"@ + dec(add as nat);
    let minus = " −"@ + dec(del as nat);
    let stats = stats_columns(plus, minus);
    let name = band_name(path, lead, stats, width);
    if wipe >= BAND_WIPE_TICKS {
        ln(
            seq![sp(lead + name, band().bold())].push(sp(plus, band_count(Role::Success))).push(
                sp(minus, band_count(Role::Failure)),
            ).push(
                sp(
                    run_of(
                        ' ',
                        less(width, text_columns(lead) + text_columns(name) + stats) as nat,
                    ),
                    band(),
                ),
            ),
        )
    } else {
        let keep = swept(width, wipe);
        let head = fitted(lead + name, keep as nat);
        let a = text_columns(head) as int;
        let gain = fitted(plus, less(keep, a) as nat);
        let b = a + text_columns(gain);
        let loss = fitted(minus, less(keep, b) as nat);
        let c = b + text_columns(loss);
        ln(
            seq![sp(head, band().bold())].push(sp(gain, band_count(Role::Success))).push(
                sp(loss, band_count(Role::Failure)),
            ).push(sp(run_of(' ', less(keep, c) as nat), band())).push(
                sp(comet(width - keep), fg(Role::Accent)),
            ),
        )
    }
}

/// A sweep only advances, and never past the edge.
pub proof fn law_sweep_only_advances(width: int, wipe: int, later: int)
    requires
        0 <= width,
        0 <= wipe <= later <= BAND_WIPE_TICKS,
    ensures
        0 <= swept(width, wipe) <= swept(width, later) <= width,
        swept(width, BAND_WIPE_TICKS as int) == width,
{
    assert(0 <= width * wipe <= width * later <= width * 12) by (nonlinear_arith)
        requires
            0 <= width,
            0 <= wipe <= later <= 12,
    ;
    assert(2 * width * wipe == 2 * (width * wipe)) by (nonlinear_arith);
    assert(2 * width * later == 2 * (width * later)) by (nonlinear_arith);
    assert(2 * width * 12 == 2 * (width * 12)) by (nonlinear_arith);
}

fn saturated(a: usize, b: usize, c: usize) -> (r: u128)
    ensures
        r == a + b + c,
{
    a as u128 + b as u128 + c as u128
}

fn sub_to_usize(a: usize, b: u128) -> (r: usize)
    ensures
        r == less(a as int, b as int),
{
    if b >= a as u128 {
        0
    } else {
        (a as u128 - b) as usize
    }
}

/// The band naming one file.
///
/// Below the whole, only that share of it has been painted, so the colour eats
/// its way from the left edge to the right, a tail of fading blocks riding its
/// leading edge so that the motion is a thing on screen.
pub fn file_banner(path: &str, add: usize, del: usize, width: usize, wipe: u64, icon: &str) -> (l:
    Line)
    requires
        wipe <= BAND_WIPE_TICKS,
    ensures
        l.deep_view() == banner(
            path@,
            add as int,
            del as int,
            width as int,
            wipe as int,
            icon@,
        ),
{
    let lead = if icon.unicode_len() == 0 {
        " ".to_string()
    } else {
        cat3(" ", icon, " ")
    };
    let n = num(add as u128);
    let plus = cat2("  +", &n);
    let n = num(del as u128);
    let minus = cat2(" −", &n);
    let plus_w: usize = disp_width(&plus);
    let minus_w: usize = disp_width(&minus);
    let lead_w: usize = disp_width(&lead);
    let room: usize = sub_to_usize(width, saturated(lead_w, plus_w, minus_w) + 1);
    let name = truncate(
        path,
        if room > 1 {
            room
        } else {
            1
        },
    );
    let whole = cat2(&lead, &name);
    let mut v: Vec<Span> = none();
    if wipe >= BAND_WIPE_TICKS {
        let pad: usize = sub_to_usize(
            width,
            saturated(lead_w, plus_w, minus_w) + disp_width(&name) as u128,
        );
        say_of(&mut v, whole, band().bold());
        say_of(&mut v, plus, band_count(Role::Success));
        say_of(&mut v, minus, band_count(Role::Failure));
        say_of(&mut v, blanks(pad), band());
        return line(v);
    }
    // Linear on purpose: an eased edge spends most of its life nearly done, and
    // the whole point here is watching it travel.
    proof {
        law_sweep_only_advances(width as int, wipe as int, BAND_WIPE_TICKS as int);
        assert(0 <= width * wipe <= 0xffff_ffff_ffff_ffff * 12) by (nonlinear_arith)
            requires
                width <= 0xffff_ffff_ffff_ffff,
                wipe <= 12,
        ;
        assert(2 * width * wipe == 2 * (width * wipe)) by (nonlinear_arith);
    }
    let keep: usize = ((2 * (width as u128 * wipe as u128) + 12) / 24) as usize;
    let (head, head_w) = fit_columns(&whole, keep);
    let (gain, gain_w) = fit_columns(&plus, keep - head_w);
    let (loss, loss_w) = fit_columns(&minus, keep - head_w - gain_w);
    let fill: usize = keep - head_w - gain_w - loss_w;
    let ahead: usize = width - keep;
    let edge = if ahead == 0 {
        ""
    } else if ahead == 1 {
        "▓"
    } else if ahead == 2 {
        "▓▒"
    } else {
        "▓▒░"
    };
    say_of(&mut v, head, band().bold());
    say_of(&mut v, gain, band_count(Role::Success));
    say_of(&mut v, loss, band_count(Role::Failure));
    say_of(&mut v, blanks(fill), band());
    say(&mut v, edge, fg(Role::Accent));
    line(v)
}

// ── Rows ───────────────────────────────────────────────────────────────────

/// An emphasis that runs forward.
pub open spec fn forward(e: Option<Emphasis>) -> bool {
    e matches Some(x) ==> x.from <= x.to
}

/// The ground of one side of a row.
pub open spec fn side_ground(s: DiffSide, tint: Role) -> Paint {
    if s.changed {
        share(Role::Surface, tint, 16, 100)
    } else {
        Paint::Plain(Role::Surface)
    }
}

/// The text of one side of a row. The part that differs is deepened, while the
/// line is whole: a cut line's offsets no longer point at what they were
/// measured against.
pub open spec fn side_text(s: DiffSide, width: int, tint: Role) -> Seq<SpanV> {
    let text = cut(s.text@, width as nat);
    let style = fg(
        if s.changed {
            tint
        } else {
            Role::Text
        },
    ).over(side_ground(s, tint));
    match s.emph {
        Some(e) if e.to <= text.len() && text == s.text@ => seq![
            sp(text.take(e.from as int), style),
        ].push(
            sp(
                text.subrange(e.from as int, e.to as int),
                ink(share(tint, Role::White, 45, 100)).over(
                    share(Role::Surface, tint, 38, 100),
                ).bold(),
            ),
        ).push(sp(text.skip(e.to as int), style)),
        _ => seq![sp(text, style)],
    }
}

/// The number of one side of a row, in its gutter.
pub open spec fn side_number(s: DiffSide, gutter: int) -> Seq<char> {
    match s.num {
        Some(n) => align_right(dec(n as nat), gutter as nat) + " "@,
        None => run_of(' ', (gutter + 1) as nat),
    }
}

/// The blanks after the text of one side of a row.
pub open spec fn side_pad(s: DiffSide, width: int) -> Seq<char> {
    run_of(' ', less(width, text_columns(cut(s.text@, width as nat)) as int) as nat)
}

/// One side of a row: its number, its text, and the rest of its column. A side
/// with nothing on it is a gap, on a ground of its own.
pub open spec fn side_spans(s: Option<DiffSide>, gutter: int, width: int, tint: Role) -> Seq<SpanV> {
    match s {
        None => seq![
            sp(
                run_of(' ', (gutter + 1 + width) as nat),
                plain().over(share(Role::Surface, Role::Overlay, 5, 10)),
            ),
        ],
        Some(s) => {
            let ground = side_ground(s, tint);
            let style = fg(
                if s.changed {
                    tint
                } else {
                    Role::Text
                },
            ).over(ground);
            (seq![sp(side_number(s, gutter), fg(Role::TextGhost).over(ground))] + side_text(
                s,
                width,
                tint,
            )).push(sp(side_pad(s, width), style))
        },
    }
}

fn side_text_of(s: &DiffSide, width: usize, tint: Role, text: String) -> (v: Vec<Span>)
    requires
        text@ == cut(s.text@, width as nat),
        forward(s.emph),
    ensures
        v.deep_view() == side_text(*s, width as int, tint),
{
    let role = if s.changed {
        tint
    } else {
        Role::Text
    };
    let ground = if s.changed {
        share(Role::Surface, tint, 16, 100)
    } else {
        Paint::Plain(Role::Surface)
    };
    let style = fg(role).over(ground);
    let mut v: Vec<Span> = none();
    if let Some(e) = s.emph {
        let c = chars_of(&text);
        if e.to <= c.len() && same(&text, &s.text) {
            let mark = ink(share(tint, Role::White, 45, 100)).over(
                share(Role::Surface, tint, 38, 100),
            ).bold();
            let before = text_between(&c, 0, e.from);
            assert(before@ =~= text@.take(e.from as int));
            say_of(&mut v, before, style);
            say_of(&mut v, text_between(&c, e.from, e.to), mark);
            let rest = text_between(&c, e.to, c.len());
            assert(rest@ =~= text@.skip(e.to as int));
            say_of(&mut v, rest, style);
            return v;
        }
    }
    say_of(&mut v, text, style);
    v
}

fn side_spans_of(s: &Option<DiffSide>, gutter: usize, width: usize, tint: Role) -> (v: Vec<Span>)
    requires
        gutter + 1 + width <= usize::MAX,
        s matches Some(x) ==> forward(x.emph),
    ensures
        v.deep_view() == side_spans(*s, gutter as int, width as int, tint),
        number_fits(*s, gutter as int) ==> side_columns(*s, gutter as int, width as int) == gutter
            + 1 + width,
{
    proof {
        reveal_strlit(" ");
    }
    let mut v: Vec<Span> = none();
    match s {
        None => {
            say_of(
                &mut v,
                blanks(gutter + 1 + width),
                plain().over(share(Role::Surface, Role::Overlay, 5, 10)),
            );
        },
        Some(s) => {
            let role = if s.changed {
                tint
            } else {
                Role::Text
            };
            let ground = if s.changed {
                share(Role::Surface, tint, 16, 100)
            } else {
                Paint::Plain(Role::Surface)
            };
            let number = match s.num {
                Some(n) => {
                    let t = num(n as u128);
                    let t = pad_left(&t, gutter);
                    cat2(&t, " ")
                },
                None => blanks(gutter + 1),
            };
            say_of(&mut v, number, fg(Role::TextGhost).over(ground));
            let text = truncate(&s.text, width);
            let pad: usize = width.saturating_sub(disp_width(&text));
            put_all(&mut v, side_text_of(s, width, tint, text));
            say_of(&mut v, blanks(pad), fg(role).over(ground));
        },
    }
    v
}

/// Whether a row's emphases run forward.
pub open spec fn row_ok(r: DiffRow) -> bool {
    match r {
        DiffRow::Pair { old, new } => (old matches Some(s) ==> forward(s.emph)) && (
        new matches Some(s) ==> forward(s.emph)),
        _ => true,
    }
}

/// How many columns a row has between its edges.
pub open spec fn row_width(s: Sides) -> int {
    2 * (s.gutter + 1) + DIFF_RULE_ROOM + s.left + s.right
}

/// How many columns one side of a row takes: its number and its blanks a column
/// a character, its text as it is measured.
pub open spec fn side_columns(s: Option<DiffSide>, gutter: int, width: int) -> int {
    match s {
        None => gutter + 1 + width,
        Some(s) => side_number(s, gutter).len() + text_columns(cut(s.text@, width as nat))
            + side_pad(s, width).len(),
    }
}

/// How many columns a pair of sides takes, with the rule between them.
pub open spec fn pair_columns(old: Option<DiffSide>, new: Option<DiffSide>, s: Sides) -> int {
    side_columns(old, s.gutter as int, s.left as int) + " │ "@.len() + side_columns(
        new,
        s.gutter as int,
        s.right as int,
    )
}

/// Whether a side's line number fits its gutter.
pub open spec fn number_fits(s: Option<DiffSide>, gutter: int) -> bool {
    s matches Some(x) ==> (x.num matches Some(n) ==> dec(n as nat).len() <= gutter)
}

/// One side-by-side row as a drawn line.
pub open spec fn row_line(r: DiffRow, s: Sides, wipe: int, icon: Seq<char>) -> LineV {
    let width = row_width(s);
    match r {
        DiffRow::File { path, add, del } => banner(
            path@,
            add as int,
            del as int,
            width,
            wipe,
            icon,
        ),
        DiffRow::Section(label) => ln1(
            sp(cut("── "@ + label@ + " "@, width as nat), fg(Role::Accent).bold()),
        ),
        DiffRow::Meta(t) => ln1(sp(cut(t@, width as nat), line_style(t@))),
        DiffRow::Pair { old, new } => ln(
            side_spans(old, s.gutter as int, s.left as int, Role::Failure).push(
                sp(" │ "@, fg(Role::BorderDim)),
            ) + side_spans(new, s.gutter as int, s.right as int, Role::Success),
        ),
    }
}

/// One side-by-side row as a drawn line. `wipe` is the file band's entrance and
/// `icon` its language mark; every other kind of row ignores both. A pair is
/// exactly as wide as the row it was laid out for, with nothing left unpainted
/// at the edge.
pub fn diff_row_line(r: &DiffRow, s: Sides, wipe: u64, icon: &str) -> (l: Line)
    requires
        row_ok(*r),
        wipe <= BAND_WIPE_TICKS,
        row_width(s) <= usize::MAX,
    ensures
        l.deep_view() == row_line(*r, s, wipe as int, icon@),
        *r matches DiffRow::Pair { old, new } ==> number_fits(old, s.gutter as int)
            && number_fits(new, s.gutter as int) ==> pair_columns(old, new, s) == row_width(s),
{
    let width: usize = 2 * (s.gutter + 1) + DIFF_RULE_ROOM + s.left + s.right;
    match r {
        DiffRow::File { path, add, del } => file_banner(path, *add, *del, width, wipe, icon),
        DiffRow::Section(label) => {
            let t = cat3("── ", label, " ");
            line_of(span_of(truncate(&t, width), fg(Role::Accent).bold()))
        },
        DiffRow::Meta(t) => line_of(span_of(truncate(t, width), diff_line_style(t))),
        DiffRow::Pair { old, new } => {
            proof {
                reveal_strlit(" │ ");
            }
            let mut v = side_spans_of(old, s.gutter, s.left, Role::Failure);
            say(&mut v, " │ ", fg(Role::BorderDim));
            put_all(&mut v, side_spans_of(new, s.gutter, s.right, Role::Success));
            line(v)
        },
    }
}

/// One unified diff line as a drawn line.
pub open spec fn unified_line(
    l: DiffLine,
    emph: Option<Emphasis>,
    width: int,
    wipe: int,
    icon: Seq<char>,
) -> LineV {
    match l {
        DiffLine::File { path, add, del } => banner(
            path@,
            add as int,
            del as int,
            width,
            wipe,
            icon,
        ),
        DiffLine::Section(label) => ln1(sp("── "@ + label@ + " "@, fg(Role::Accent).bold())),
        DiffLine::Text(t) => match emph {
            Some(e) if e.to <= t@.len() => ln(
                seq![sp(t@.take(e.from as int), line_style(t@))].push(
                    sp(t@.subrange(e.from as int, e.to as int), line_style(t@).reversed()),
                ).push(sp(t@.skip(e.to as int), line_style(t@))),
            ),
            _ => ln1(sp(t@, line_style(t@))),
        },
    }
}

/// One unified diff line as a drawn line: the narrow-terminal layout.
///
/// The line colour says added or removed; on a paired line the reverse-video
/// span says where.
pub fn diff_unified_line(l: &DiffLine, emph: Option<Emphasis>, width: usize, wipe: u64, icon: &str) -> (r:
    Line)
    requires
        forward(emph),
        wipe <= BAND_WIPE_TICKS,
    ensures
        r.deep_view() == unified_line(*l, emph, width as int, wipe as int, icon@),
{
    match l {
        DiffLine::File { path, add, del } => file_banner(path, *add, *del, width, wipe, icon),
        DiffLine::Section(label) => line_of(
            span_of(cat3("── ", label, " "), fg(Role::Accent).bold()),
        ),
        DiffLine::Text(t) => {
            let style = diff_line_style(t);
            if let Some(e) = emph {
                let c = chars_of(t);
                if e.to <= c.len() {
                    let mut v: Vec<Span> = none();
                    let before = text_between(&c, 0, e.from);
                    assert(before@ =~= t@.take(e.from as int));
                    say_of(&mut v, before, style);
                    say_of(&mut v, text_between(&c, e.from, e.to), style.reversed());
                    let rest = text_between(&c, e.to, c.len());
                    assert(rest@ =~= t@.skip(e.to as int));
                    say_of(&mut v, rest, style);
                    return line(v);
                }
            }
            line_of(span(t, style))
        },
    }
}

// ── The view ───────────────────────────────────────────────────────────────

/// The file a row is the band of.
pub open spec fn band_of_row(r: DiffRow) -> Option<Seq<char>> {
    match r {
        DiffRow::File { path, .. } => Some(path@),
        _ => None,
    }
}

/// The file a line is the band of.
pub open spec fn band_of_line(l: DiffLine) -> Option<Seq<char>> {
    match l {
        DiffLine::File { path, .. } => Some(path@),
        _ => None,
    }
}

/// How much of a band is painted, its file looked up by name.
pub open spec fn wipe_of(state: App, dv: GitDiffView, path: Option<Seq<char>>) -> int {
    match path {
        Some(p) => {
            let i = first_where(dv.files@, reads(p)) as int;
            if i < dv.files@.len() {
                band_wipe(dv, i, state.tick_count)
            } else {
                BAND_WIPE_TICKS as int
            }
        },
        None => BAND_WIPE_TICKS as int,
    }
}

/// A band's language mark, when marks are on.
pub open spec fn icon_of(state: App, path: Option<Seq<char>>) -> Seq<char> {
    match path {
        Some(p) if state.file_icons => file_icon(p),
        _ => ""@,
    }
}

/// The band that drawing this file's row marks as seen: one that was not drawn
/// before, so that it keeps the tick it was first drawn at.
pub open spec fn seen_now(dv: GitDiffView, path: Option<Seq<char>>) -> Option<int> {
    match path {
        Some(p) => {
            let i = first_where(dv.files@, reads(p)) as int;
            if dv.opened_tick is Some && i < dv.files@.len() && i < dv.band_seen@.len()
                && dv.band_seen@[i] is None {
                Some(i)
            } else {
                None
            }
        },
        None => None,
    }
}

/// A band keeps the tick it was first drawn at: drawing it again marks nothing.
pub proof fn law_a_band_is_first_seen_once(dv: GitDiffView, path: Option<Seq<char>>)
    ensures
        seen_now(dv, path) matches Some(i) ==> dv.band_seen@[i] is None,
{
}

/// The bands that the first `n` of `paths` mark as seen.
pub open spec fn seen_tells(
    state: App,
    dv: GitDiffView,
    paths: spec_fn(int) -> Option<Seq<char>>,
    n: int,
) -> Seq<OpV>
    decreases n,
{
    if n <= 0 {
        Seq::empty()
    } else {
        let front = seen_tells(state, dv, paths, n - 1);
        match seen_now(dv, paths(n - 1)) {
            Some(i) => front.push(
                OpV::Tell(Reading::BandSeen { file: i as usize, tick: state.tick_count }),
            ),
            None => front,
        }
    }
}

/// Whether a diff can be drawn: its emphases run forward.
pub open spec fn diff_ok(dv: GitDiffView) -> bool {
    &&& forall|i: int| 0 <= i < dv.rows@.len() ==> row_ok(#[trigger] dv.rows@[i])
    &&& forall|i: int| 0 <= i < dv.emphasis@.len() ==> forward(#[trigger] dv.emphasis@[i])
}

/// The columns of this diff in this area.
pub open spec fn diff_sides(dv: GitDiffView, area: Rect) -> Option<Sides> {
    sides(less(area.width as int, 2), dv.rows@)
}

/// What the scroll offset counts: rows when there are two columns, lines when
/// there is one.
pub open spec fn diff_units(dv: GitDiffView, area: Rect) -> int {
    if diff_sides(dv, area) is Some {
        dv.rows@.len() as int
    } else {
        dv.lines@.len() as int
    }
}

/// Where a jump that was waiting on the layout lands; nothing when there is no
/// such file.
pub open spec fn jump_target(dv: GitDiffView, area: Rect) -> Option<int> {
    let starts = if diff_sides(dv, area) is Some {
        dv.file_rows@
    } else {
        dv.file_lines@
    };
    match dv.pending_jump {
        Some(fi) if fi < starts.len() => Some(
            lesser(
                starts[fi as int] as int,
                less(diff_units(dv, area), less(area.height as int, 2)),
            ),
        ),
        _ => None,
    }
}

/// The first unit on screen.
pub open spec fn diff_first(dv: GitDiffView, area: Rect) -> int {
    lesser(
        match jump_target(dv, area) {
            Some(t) => t,
            None => dv.scroll as int,
        },
        less(diff_units(dv, area), 1),
    )
}

/// The panel's title: how many files and lines, and how much is off-screen.
pub open spec fn diff_title(dv: GitDiffView) -> Seq<char> {
    (if dv.loading || dv.files@.len() == 0 {
        dv.file@ + "  "@
    } else if dv.files@.len() == 1 {
        "1 file  "@
    } else {
        dec(dv.files@.len()) + " files  "@
    }) + (if dv.loading {
        "loading…"@
    } else {
        "+"@ + dec(dv.add as nat) + " −"@ + dec(dv.del as nat)
    })
}

/// Where the viewport is, once the diff is longer than it.
pub open spec fn diff_position(dv: GitDiffView, area: Rect) -> Seq<char> {
    let total = diff_units(dv, area);
    let view = less(area.height as int, 2);
    let first = diff_first(dv, area);
    if total > view {
        "   ["@ + dec((first + 1) as nat) + "–"@ + dec(lesser(first + view, total) as nat)
            + " of "@ + dec(total as nat) + "]"@
    } else {
        ""@
    }
}

/// How many units are on screen.
pub open spec fn diff_shown(dv: GitDiffView, area: Rect) -> int {
    lesser(less(diff_units(dv, area), diff_first(dv, area)), less(area.height as int, 2))
}

/// The file that unit `k` on screen is the band of.
pub open spec fn band_at(dv: GitDiffView, area: Rect) -> spec_fn(int) -> Option<Seq<char>> {
    |k: int|
        if diff_sides(dv, area) is Some {
            band_of_row(dv.rows@[diff_first(dv, area) + k])
        } else {
            band_of_line(dv.lines@[diff_first(dv, area) + k])
        }
}

/// Unit `k` on screen.
pub open spec fn diff_unit(state: App, dv: GitDiffView, area: Rect, k: int) -> LineV {
    let at = diff_first(dv, area) + k;
    let path = band_at(dv, area)(k);
    match diff_sides(dv, area) {
        Some(s) => row_line(dv.rows@[at], s, wipe_of(state, dv, path), icon_of(state, path)),
        None => unified_line(
            dv.lines@[at],
            if at < dv.emphasis@.len() {
                dv.emphasis@[at]
            } else {
                None
            },
            less(area.width as int, 2),
            wipe_of(state, dv, path),
            icon_of(state, path),
        ),
    }
}

/// What drawing this diff tells the keys: what scrolling counts, and where a
/// jump landed.
pub open spec fn diff_tells(dv: GitDiffView, area: Rect) -> Seq<OpV> {
    let counted = seq![OpV::Tell(Reading::DiffUnits(diff_units(dv, area) as usize))].push(
        OpV::Tell(Reading::DiffSideBySide(diff_sides(dv, area) is Some)),
    );
    let taken = push_if(counted, dv.pending_jump is Some, OpV::Tell(Reading::DiffJumpTaken));
    match jump_target(dv, area) {
        Some(t) => taken.push(OpV::Tell(Reading::DiffScroll(t as usize))),
        None => taken,
    }
}

/// The diff.
#[verifier::opaque]
pub open spec fn diff_ops(state: App, area: Rect) -> Seq<OpV> {
    let view = less(area.height as int, 2);
    let first = seq![OpV::Tell(Reading::DiffViewport(view as u16))];
    match state.git_diff {
        None => first + boxed(area, "Diff"@, one_line("(no file selected)"@, plain()), false),
        Some(dv) => if dv.lines@.len() == 0 {
            first.push(OpV::Tell(Reading::DiffUnits(0))) + boxed(
                area,
                diff_title(dv),
                one_line(
                    if dv.loading {
                        "reading diff…"@
                    } else {
                        "no textual changes (mode change, rename, or an empty file)"@
                    },
                    fg(Role::TextFaint).italic(),
                ),
                false,
            )
        } else {
            let n = diff_shown(dv, area);
            first + diff_tells(dv, area) + seen_tells(state, dv, band_at(dv, area), n) + boxed(
                area,
                diff_title(dv) + diff_position(dv, area),
                Seq::new(n as nat, |k: int| diff_unit(state, dv, area, k)),
                false,
            )
        },
    }
}

/// The viewport never leaves the diff: there is always a line on screen, as
/// long as there are lines and room for one.
pub proof fn law_diff_never_scrolls_away(dv: GitDiffView, area: Rect)
    requires
        diff_units(dv, area) > 0,
        area.height >= 3,
    ensures
        0 <= diff_first(dv, area) < diff_units(dv, area),
        diff_shown(dv, area) > 0,
{
}

/// A jump shows what it jumped to: the first line of the file it was aimed at
/// is on screen.
pub proof fn law_jumps_land_on_their_file(dv: GitDiffView, area: Rect, fi: int)
    requires
        dv.pending_jump == Some(fi as usize),
        0 <= fi <= usize::MAX,
        area.height >= 3,
        ({
            let starts = if diff_sides(dv, area) is Some {
                dv.file_rows@
            } else {
                dv.file_lines@
            };
            fi < starts.len() && starts[fi] < diff_units(dv, area)
        }),
    ensures
        ({
            let starts = if diff_sides(dv, area) is Some {
                dv.file_rows@
            } else {
                dv.file_lines@
            };
            diff_first(dv, area) <= starts[fi] < diff_first(dv, area) + diff_shown(dv, area)
        }),
{
}

fn wipe_at(state: &App, dv: &GitDiffView, path: &str) -> (n: u64)
    ensures
        n == wipe_of(*state, *dv, Some(path@)),
        n <= BAND_WIPE_TICKS,
{
    let i: usize = find_text(&dv.files, path);
    if i < dv.files.len() {
        band_wipe_at(dv, i, state.tick_count)
    } else {
        BAND_WIPE_TICKS
    }
}

fn icon_at(state: &App, path: &str) -> (r: &'static str)
    ensures
        r@ == icon_of(*state, Some(path@)),
{
    if state.file_icons {
        lang_icon(path)
    } else {
        ""
    }
}

fn row_unit(state: &App, dv: &GitDiffView, s: Sides, at: usize) -> (l: Line)
    requires
        at < dv.rows@.len(),
        diff_ok(*dv),
        row_width(s) <= usize::MAX,
    ensures
        ({
            let path = band_of_row(dv.rows@[at as int]);
            l.deep_view() == row_line(
                dv.rows@[at as int],
                s,
                wipe_of(*state, *dv, path),
                icon_of(*state, path),
            )
        }),
{
    let r = &dv.rows[at];
    assert(row_ok(dv.rows@[at as int]));
    match r {
        DiffRow::File { path, .. } => {
            let w: u64 = wipe_at(state, dv, path);
            diff_row_line(r, s, w, icon_at(state, path))
        },
        _ => diff_row_line(r, s, BAND_WIPE_TICKS, ""),
    }
}

fn line_unit(state: &App, dv: &GitDiffView, width: usize, at: usize) -> (l: Line)
    requires
        at < dv.lines@.len(),
        diff_ok(*dv),
    ensures
        ({
            let path = band_of_line(dv.lines@[at as int]);
            l.deep_view() == unified_line(
                dv.lines@[at as int],
                if at < dv.emphasis@.len() {
                    dv.emphasis@[at as int]
                } else {
                    None
                },
                width as int,
                wipe_of(*state, *dv, path),
                icon_of(*state, path),
            )
        }),
{
    let l = &dv.lines[at];
    let emph: Option<Emphasis> = if at < dv.emphasis.len() {
        assert(forward(dv.emphasis@[at as int]));
        dv.emphasis[at]
    } else {
        None
    };
    match l {
        DiffLine::File { path, .. } => {
            let w: u64 = wipe_at(state, dv, path);
            diff_unified_line(l, emph, width, w, icon_at(state, path))
        },
        _ => diff_unified_line(l, emph, width, BAND_WIPE_TICKS, ""),
    }
}

fn tell_seen(ops: &mut Vec<Op>, state: &App, dv: &GitDiffView, path: &str)
    ensures
        final(ops).deep_view() == match seen_now(*dv, Some(path@)) {
            Some(i) => old(ops).deep_view().push(
                OpV::Tell(Reading::BandSeen { file: i as usize, tick: state.tick_count }),
            ),
            None => old(ops).deep_view(),
        },
{
    if dv.opened_tick.is_some() {
        let i: usize = find_text(&dv.files, path);
        if i < dv.files.len() && i < dv.band_seen.len() && dv.band_seen[i].is_none() {
            tell(ops, Reading::BandSeen { file: i, tick: state.tick_count });
        }
    }
}

fn diff_tells_of(
    ops: &mut Vec<Op>,
    dv: &GitDiffView,
    area: Rect,
    split: Option<Sides>,
    total: usize,
) -> (first: usize)
    requires
        split == diff_sides(*dv, area),
        total == diff_units(*dv, area),
    ensures
        final(ops).deep_view() == old(ops).deep_view() + diff_tells(*dv, area),
        first == diff_first(*dv, area),
{
    let ghost before = ops.deep_view();
    tell(ops, Reading::DiffUnits(total));
    tell(ops, Reading::DiffSideBySide(split.is_some()));
    let mut at: usize = dv.scroll;
    if let Some(fi) = dv.pending_jump {
        tell(ops, Reading::DiffJumpTaken);
        let starts = if split.is_some() {
            &dv.file_rows
        } else {
            &dv.file_lines
        };
        if fi < starts.len() {
            let most: usize = total.saturating_sub(area.height.saturating_sub(2) as usize);
            at = if starts[fi] < most {
                starts[fi]
            } else {
                most
            };
            tell(ops, Reading::DiffScroll(at));
        }
    }
    assert(ops.deep_view() =~= before + diff_tells(*dv, area));
    let last: usize = total.saturating_sub(1);
    if at <= last {
        at
    } else {
        last
    }
}

fn diff_title_of(dv: &GitDiffView) -> (t: String)
    ensures
        t@ == diff_title(*dv),
{
    let mut t = if dv.loading || dv.files.len() == 0 {
        cat2(&dv.file, "  ")
    } else if dv.files.len() == 1 {
        "1 file  ".to_string()
    } else {
        let n = num(dv.files.len() as u128);
        cat2(&n, " files  ")
    };
    if dv.loading {
        t.append("loading…");
    } else {
        let a = num(dv.add as u128);
        let d = num(dv.del as u128);
        let s = cat4("+", &a, " −", &d);
        t.append(&s);
    }
    t
}

fn diff_lines_of(
    state: &App,
    dv: &GitDiffView,
    area: Rect,
    split: Option<Sides>,
    first: usize,
    n: usize,
) -> (lines: Vec<Line>)
    requires
        diff_ok(*dv),
        split == diff_sides(*dv, area),
        split matches Some(s) ==> row_width(s) <= usize::MAX,
        first == diff_first(*dv, area),
        n == diff_shown(*dv, area),
        first + n <= usize::MAX,
    ensures
        lines.deep_view() == Seq::new(n as nat, |k: int| diff_unit(*state, *dv, area, k)),
{
    let width: usize = area.width.saturating_sub(2) as usize;
    let ghost g = |k: int| diff_unit(*state, *dv, area, k);
    match split {
        Some(s) => each(
            n,
            (|k: usize| -> (l: Line)
                requires
                    k < n,
                    diff_ok(*dv),
                    diff_sides(*dv, area) == Some(s),
                    row_width(s) <= usize::MAX,
                    first == diff_first(*dv, area),
                    n == diff_shown(*dv, area),
                    first + n <= usize::MAX,
                ensures
                    l.deep_view() == diff_unit(*state, *dv, area, k as int),
            {
                row_unit(state, dv, s, first + k)
            }),
            Ghost(g),
        ),
        None => each(
            n,
            (|k: usize| -> (l: Line)
                requires
                    k < n,
                    diff_ok(*dv),
                    diff_sides(*dv, area) is None,
                    width == less(area.width as int, 2),
                    first == diff_first(*dv, area),
                    n == diff_shown(*dv, area),
                    first + n <= usize::MAX,
                ensures
                    l.deep_view() == diff_unit(*state, *dv, area, k as int),
            {
                line_unit(state, dv, width, first + k)
            }),
            Ghost(g),
        ),
    }
}

fn tell_bands(
    ops: &mut Vec<Op>,
    state: &App,
    dv: &GitDiffView,
    area: Rect,
    split: Option<Sides>,
    first: usize,
    n: usize,
)
    requires
        split == diff_sides(*dv, area),
        first == diff_first(*dv, area),
        n == diff_shown(*dv, area),
        first + n <= usize::MAX,
    ensures
        final(ops).deep_view() == old(ops).deep_view() + seen_tells(
            *state,
            *dv,
            band_at(*dv, area),
            n as int,
        ),
{
    let ghost paths = band_at(*dv, area);
    let mut k: usize = 0;
    assert(ops.deep_view() =~= old(ops).deep_view() + seen_tells(*state, *dv, paths, 0));
    while k < n
        invariant
            k <= n,
            split == diff_sides(*dv, area),
            first == diff_first(*dv, area),
            n == diff_shown(*dv, area),
            first + n <= usize::MAX,
            paths == band_at(*dv, area),
            ops.deep_view() == old(ops).deep_view() + seen_tells(*state, *dv, paths, k as int),
        decreases n - k,
    {
        if split.is_some() {
            if let DiffRow::File { path, .. } = &dv.rows[first + k] {
                tell_seen(ops, state, dv, path);
            }
        } else {
            if let DiffLine::File { path, .. } = &dv.lines[first + k] {
                tell_seen(ops, state, dv, path);
            }
        }
        assert(ops.deep_view() =~= old(ops).deep_view() + seen_tells(
            *state,
            *dv,
            paths,
            k + 1,
        ));
        k = k + 1;
    }
}

fn diff_position_of(total: usize, view: usize, first: usize) -> (t: String)
    requires
        first < usize::MAX,
    ensures
        t@ == (if total > view {
            "   ["@ + dec((first + 1) as nat) + "–"@ + dec(
                lesser(first + view, total as int) as nat,
            ) + " of "@ + dec(total as nat) + "]"@
        } else {
            ""@
        }),
{
    if total <= view {
        return "".to_string();
    }
    let a = num(first as u128 + 1);
    let end: u128 = if first as u128 + view as u128 <= total as u128 {
        first as u128 + view as u128
    } else {
        total as u128
    };
    let b = num(end);
    let c = num(total as u128);
    let mut t = cat5("   [", &a, "–", &b, " of ");
    t.append(&c);
    t.append("]");
    t
}

/// The diff of the working tree.
///
/// Side by side wherever the terminal can hold two columns: a diff is a
/// comparison, and reading one as a single column asks you to hold the old line
/// in your head while you scroll to the new one.
pub fn render_git_diff(state: &App, area: Rect) -> (ops: Vec<Op>)
    requires
        on_screen(area),
        state.git_diff matches Some(dv) ==> diff_ok(dv),
    ensures
        ops.deep_view() == diff_ops(*state, area),
{
    proof {
        reveal(diff_ops);
    }
    let view: u16 = area.height.saturating_sub(2);
    let mut ops: Vec<Op> = none();
    tell(&mut ops, Reading::DiffViewport(view));
    match &state.git_diff {
        None => {
            put_all(&mut ops, in_a_box(area, "Diff", just("(no file selected)", plain()), false));
            ops
        },
        Some(dv) => {
            let mut title = diff_title_of(dv);
            if dv.lines.len() == 0 {
                // Mode changes and pure renames are real entries with no textual
                // diff at all: say so rather than showing a blank pane.
                let msg = if dv.loading {
                    "reading diff…"
                } else {
                    "no textual changes (mode change, rename, or an empty file)"
                };
                tell(&mut ops, Reading::DiffUnits(0));
                put_all(
                    &mut ops,
                    in_a_box(area, &title, just(msg, fg(Role::TextFaint).italic()), false),
                );
                return ops;
            }
            let split = diff_columns(area.width.saturating_sub(2) as usize, &dv.rows);
            let total: usize = match split {
                Some(_) => dv.rows.len(),
                None => dv.lines.len(),
            };
            let first: usize = diff_tells_of(&mut ops, dv, area, split, total);
            let left: usize = total.saturating_sub(first);
            let n: usize = if left <= view as usize {
                left
            } else {
                view as usize
            };
            tell_bands(&mut ops, state, dv, area, split, first, n);
            let at = diff_position_of(total, view as usize, first);
            title.append(&at);
            assert(at@ == diff_position(*dv, area));
            let lines = diff_lines_of(state, dv, area, split, first, n);
            put_all(&mut ops, in_a_box(area, &title, lines, false));
            ops
        },
    }
}

} // verus!
