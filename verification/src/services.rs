//! The services card: every monitor by name, and how it is doing.

use vstd::prelude::*;
use vstd::string::*;

use crate::clock::{seconds_since, secs_since};
use crate::columns::{disp_width, text_columns};
use crate::geometry::{dialog, dialog_over, framed, inner_of, less, lesser, on_screen, Padding, Rect};
use crate::list::{none, push_if, put, put_all};
use crate::motion::{progress, reveal_at, SERVICES_STEP, WHOLE};
use crate::ops::{add_blank, add_frame, add_line, add_text, chip, chip_line, columns_of, just, one_line, say, say_of, text_op, width_of, Border, BorderV, Op, OpV};
use crate::paint::{aligned, align_line, bg, fg, ink, line_of, ln, ln1, plain, share, sp, span, span_of, Align, Line, LineV, Paint, Role, Span, SpanV, Style};
use crate::state::{App, Service, ServiceState};
use crate::strip::{widest, widest_of};
use crate::text::{align_left, align_right, alnum, begins, cat2, cat3, cat4, chars_of, dec, digit, int_num, int_text, is_alnum, lower_chars, lowered, num, pad_left, pad_right, same, starts_with, text_between, trim, trimmed};

verus! {

broadcast use vstd::string::group_string_axioms;

// ── Environments ───────────────────────────────────────────────────────────

/// How many letters and digits `s` begins with.
pub open spec fn word_end(s: Seq<char>) -> nat
    decreases s.len(),
{
    if s.len() == 0 || !alnum(s[0]) {
        0
    } else {
        1 + word_end(s.drop_first())
    }
}

/// The first run of letters and digits in `s`.
pub open spec fn head_word(s: Seq<char>) -> Seq<char>
    decreases s.len(),
{
    if s.len() == 0 {
        Seq::empty()
    } else if !alnum(s[0]) {
        head_word(s.drop_first())
    } else {
        s.take(word_end(s) as int)
    }
}

/// The colour of the environment whose name begins with `head`: green is the
/// one you do not touch, amber the one you do.
pub open spec fn head_role(head: Seq<char>) -> Role {
    if begins(head, "prod"@) || head == "prd"@ || head == "live"@ {
        Role::Success
    } else if begins(head, "stag"@) || head == "stg"@ || begins(head, "pre"@) {
        Role::Warning
    } else if begins(head, "dev"@) || head == "local"@ {
        Role::Info
    } else if begins(head, "test"@) || head == "qa"@ || begins(head, "sandbox"@) {
        Role::Primary
    } else if head.len() == 0 || head == "untagged"@ {
        Role::Unknown
    } else {
        Role::Accent
    }
}

/// The chip colour for an environment's name.
pub open spec fn env_role(label: Seq<char>) -> Role {
    head_role(head_word(lowered(trimmed(label))))
}

proof fn lemma_word_end(s: Seq<char>, n: int)
    requires
        0 <= n <= s.len(),
        forall|j: int| 0 <= j < n ==> alnum(s[j]),
        n < s.len() ==> !alnum(s[n]),
    ensures
        word_end(s) == n,
    decreases s.len(),
{
    if n > 0 {
        let t = s.drop_first();
        assert forall|j: int| 0 <= j < n - 1 implies alnum(t[j]) by {
            assert(t[j] == s[j + 1]);
        }
        lemma_word_end(t, n - 1);
    }
}

fn head_word_of(v: &Vec<char>) -> (r: String)
    ensures
        r@ == head_word(v@),
{
    let mut a: usize = 0;
    assert(v@.skip(0) =~= v@);
    while a < v.len() && !is_alnum(v[a])
        invariant
            a <= v@.len(),
            head_word(v@.skip(a as int)) == head_word(v@),
        decreases v@.len() - a,
    {
        assert(v@.skip(a as int)[0] == v@[a as int]);
        assert(v@.skip(a as int).drop_first() =~= v@.skip(a + 1));
        a = a + 1;
    }
    let mut b: usize = a;
    while b < v.len() && is_alnum(v[b])
        invariant
            a <= b <= v@.len(),
            forall|j: int| a <= j < b ==> alnum(v@[j]),
        decreases v@.len() - b,
    {
        b = b + 1;
    }
    proof {
        let rest = v@.skip(a as int);
        let n = b - a;
        assert forall|j: int| 0 <= j < n implies alnum(rest[j]) by {
            assert(rest[j] == v@[a + j]);
        }
        if n < rest.len() {
            assert(rest[n] == v@[b as int]);
        }
        lemma_word_end(rest, n);
        assert(v@.subrange(a as int, b as int) =~= rest.take(n));
        if rest.len() > 0 {
            assert(rest[0] == v@[a as int]);
        } else {
            assert(v@.subrange(a as int, b as int) =~= Seq::empty());
        }
    }
    text_between(v, a, b)
}

/// The chip colour for an environment's name.
///
/// Environments are read at a glance or not at all, and the glance is the
/// colour. Names nobody has a convention for still get a chip: an unlabelled
/// section reads as a rendering failure, not as "no environment".
pub fn env_color(label: &str) -> (r: Role)
    ensures
        r == env_role(label@),
{
    let t = trim(label);
    let v = lower_chars(&chars_of(&t));
    let head = head_word_of(&v);
    if starts_with(&head, "prod") || same(&head, "prd") || same(&head, "live") {
        Role::Success
    } else if starts_with(&head, "stag") || same(&head, "stg") || starts_with(&head, "pre") {
        Role::Warning
    } else if starts_with(&head, "dev") || same(&head, "local") {
        Role::Info
    } else if starts_with(&head, "test") || same(&head, "qa") || starts_with(&head, "sandbox") {
        Role::Primary
    } else if head.as_str().unicode_len() == 0 || same(&head, "untagged") {
        Role::Unknown
    } else {
        Role::Accent
    }
}

/// One environment heading, drawn as a filled chip: half-blocks for its rounded
/// ends, its fill and its text fading up with the rows.
pub open spec fn env_spans(label: Seq<char>, n: int) -> Seq<SpanV> {
    let fill = Paint::ChipFill { env: env_role(label), num: n as u64, den: WHOLE };
    let text = Paint::ChipInk { env: env_role(label), num: n as u64, den: WHOLE };
    seq![sp("▐"@, ink(fill))].push(sp(" "@ + label + " "@, ink(text).over(fill).bold())).push(
        sp("▌"@, ink(fill)),
    )
}

/// One environment heading, drawn as a filled chip.
pub fn env_chip(label: &str, n: u64) -> (v: Vec<Span>)
    ensures
        v.deep_view() == env_spans(label@, n as int),
{
    let role = env_color(label);
    let fill = Paint::ChipFill { env: role, num: n, den: WHOLE };
    let text = Paint::ChipInk { env: role, num: n, den: WHOLE };
    let mut v: Vec<Span> = none();
    say(&mut v, "▐", ink(fill));
    say_of(&mut v, cat3(" ", label, " "), ink(text).over(fill).bold());
    say(&mut v, "▌", ink(fill));
    v
}

// ── Sections ───────────────────────────────────────────────────────────────

/// Whether the status page divides its services into more than one group.
pub open spec fn by_group(svcs: Seq<Service>) -> bool {
    exists|i: int| 0 <= i < svcs.len() && (#[trigger] svcs[i]).group@ != svcs[0].group@
}

/// Whether the services are divided by their first tags: there is only one
/// group, and any of them has a tag.
pub open spec fn by_tag(svcs: Seq<Service>) -> bool {
    !by_group(svcs) && exists|i: int| 0 <= i < svcs.len() && (#[trigger] svcs[i]).tags@.len() > 0
}

/// The section a service belongs to.
pub open spec fn section_key(svcs: Seq<Service>, i: int) -> Seq<char> {
    if by_group(svcs) {
        svcs[i].group@
    } else if by_tag(svcs) && svcs[i].tags@.len() > 0 {
        svcs[i].tags@[0]@
    } else {
        Seq::empty()
    }
}

/// A section of the card: its name, and its services by number.
pub struct GroupV {
    pub key: Seq<char>,
    pub members: Seq<int>,
}

/// A section of the card.
#[derive(Debug)]
pub struct Group {
    pub key: String,
    pub members: Vec<usize>,
}

/// The members as numbers.
pub open spec fn numbers(v: Seq<usize>) -> Seq<int> {
    Seq::new(v.len(), |i: int| v[i] as int)
}

impl DeepView for Group {
    type V = GroupV;

    open spec fn deep_view(&self) -> GroupV {
        GroupV { key: self.key@, members: numbers(self.members@) }
    }
}

/// Where the section called `key` is; the number of sections when there is
/// none.
pub open spec fn group_at(gs: Seq<GroupV>, key: Seq<char>, from: int) -> int
    decreases gs.len() - from,
{
    if 0 <= from < gs.len() && gs[from].key != key {
        group_at(gs, key, from + 1)
    } else {
        from
    }
}

/// The first `n` services sorted into sections, in the order each section is
/// first met.
pub open spec fn sorted_into(svcs: Seq<Service>, n: int) -> Seq<GroupV>
    decreases n,
{
    if n <= 0 {
        Seq::empty()
    } else {
        let gs = sorted_into(svcs, n - 1);
        let key = section_key(svcs, n - 1);
        let at = group_at(gs, key, 0);
        if 0 <= at < gs.len() {
            gs.update(
                at,
                GroupV { key: gs[at].key, members: gs[at].members.push(n - 1) },
            )
        } else {
            gs.push(GroupV { key, members: seq![n - 1] })
        }
    }
}

/// The card's sections: when they are tags, the untagged straggle in at the end
/// rather than opening the card.
pub open spec fn sections(svcs: Seq<Service>) -> Seq<GroupV> {
    let gs = sorted_into(svcs, svcs.len() as int);
    let at = group_at(gs, Seq::empty(), 0);
    if by_tag(svcs) && 0 <= at < gs.len() {
        gs.remove(at).push(gs[at])
    } else {
        gs
    }
}

/// Members that are services there are.
pub open spec fn members_ok(gs: Seq<GroupV>, n: int) -> bool {
    forall|g: int, m: int|
        #![trigger gs[g].members[m]]
        0 <= g < gs.len() && 0 <= m < gs[g].members.len() ==> 0 <= gs[g].members[m] < n
}

/// How many services the first `n` sections hold.
pub open spec fn held(gs: Seq<GroupV>, n: int) -> int
    decreases n,
{
    if n <= 0 {
        0
    } else {
        held(gs, n - 1) + gs[n - 1].members.len()
    }
}

proof fn lemma_group_at(gs: Seq<GroupV>, key: Seq<char>, from: int)
    requires
        0 <= from <= gs.len(),
    ensures
        from <= group_at(gs, key, from) <= gs.len(),
        group_at(gs, key, from) < gs.len() ==> gs[group_at(gs, key, from)].key == key,
    decreases gs.len() - from,
{
    if from < gs.len() && gs[from].key != key {
        lemma_group_at(gs, key, from + 1);
    }
}

proof fn lemma_members(svcs: Seq<Service>, n: int)
    requires
        0 <= n <= svcs.len(),
    ensures
        members_ok(sorted_into(svcs, n), n),
    decreases n,
{
    if n > 0 {
        lemma_members(svcs, n - 1);
        let gs = sorted_into(svcs, n - 1);
        let hs = sorted_into(svcs, n);
        assert forall|g: int, m: int|
            #![trigger hs[g].members[m]]
            0 <= g < hs.len() && 0 <= m < hs[g].members.len() implies 0 <= hs[g].members[m] < n by {
            if g < gs.len() && m < gs[g].members.len() {
                assert(0 <= gs[g].members[m] < n - 1);
            }
        }
    }
}

proof fn lemma_held_update(gs: Seq<GroupV>, at: int, g: GroupV, n: int)
    requires
        0 <= at < gs.len(),
        0 <= n <= gs.len(),
    ensures
        held(gs.update(at, g), n) == held(gs, n) + (if at < n {
            g.members.len() - gs[at].members.len()
        } else {
            0
        }),
    decreases n,
{
    if n > 0 {
        lemma_held_update(gs, at, g, n - 1);
    }
}

proof fn lemma_held_front(gs: Seq<GroupV>, hs: Seq<GroupV>, n: int)
    requires
        0 <= n <= gs.len(),
        n <= hs.len(),
        forall|i: int| 0 <= i < n ==> gs[i] == hs[i],
    ensures
        held(gs, n) == held(hs, n),
    decreases n,
{
    if n > 0 {
        lemma_held_front(gs, hs, n - 1);
    }
}

proof fn lemma_held_remove(gs: Seq<GroupV>, at: int, n: int)
    requires
        0 <= at < gs.len(),
        0 <= n < gs.len(),
    ensures
        held(gs.remove(at), n) == (if n <= at {
            held(gs, n)
        } else {
            held(gs, n + 1) - gs[at].members.len()
        }),
    decreases n,
{
    if n > 0 {
        lemma_held_remove(gs, at, n - 1);
        if n - 1 >= at {
            assert(gs.remove(at)[n - 1] == gs[n]);
            assert(held(gs, n + 1) == held(gs, n) + gs[n].members.len());
            assert(held(gs, n) == held(gs, n - 1) + gs[n - 1].members.len());
        }
    }
}

/// Every service is on the card exactly as often as it should be: the sections
/// hold as many as there are, and each is a service there is.
pub proof fn law_every_service_is_on_the_card(svcs: Seq<Service>)
    ensures
        held(sections(svcs), sections(svcs).len() as int) == svcs.len(),
        members_ok(sections(svcs), svcs.len() as int),
{
    let n = svcs.len() as int;
    let gs = sorted_into(svcs, n);
    lemma_members(svcs, n);
    lemma_held(svcs, n);
    let at = group_at(gs, Seq::empty(), 0);
    lemma_group_at(gs, Seq::empty(), 0);
    if by_tag(svcs) && at < gs.len() {
        let hs = gs.remove(at).push(gs[at]);
        let m = gs.len() - 1;
        lemma_held_remove(gs, at, m);
        lemma_held_front(hs, gs.remove(at), m);
        assert forall|g: int, k: int|
            #![trigger hs[g].members[k]]
            0 <= g < hs.len() && 0 <= k < hs[g].members.len() implies 0 <= hs[g].members[k] < n by {
            let o = if g == m {
                at
            } else if g < at {
                g
            } else {
                g + 1
            };
            assert(hs[g] == gs[o]);
            assert(0 <= gs[o].members[k] < n);
        }
    }
}

proof fn lemma_held(svcs: Seq<Service>, n: int)
    requires
        0 <= n <= svcs.len(),
    ensures
        held(sorted_into(svcs, n), sorted_into(svcs, n).len() as int) == n,
    decreases n,
{
    if n > 0 {
        lemma_held(svcs, n - 1);
        let gs = sorted_into(svcs, n - 1);
        let key = section_key(svcs, n - 1);
        let at = group_at(gs, key, 0);
        lemma_group_at(gs, key, 0);
        if at < gs.len() {
            lemma_held_update(
                gs,
                at,
                GroupV { key: gs[at].key, members: gs[at].members.push(n - 1) },
                gs.len() as int,
            );
        } else {
            let hs = gs.push(GroupV { key, members: seq![n - 1] });
            lemma_held_front(hs, gs, gs.len() as int);
        }
    }
}

fn has_groups(svcs: &Vec<Service>) -> (r: bool)
    ensures
        r == by_group(svcs@),
{
    let mut i: usize = 0;
    while i < svcs.len()
        invariant
            i <= svcs@.len(),
            forall|j: int| 0 <= j < i ==> (#[trigger] svcs@[j]).group@ == svcs@[0].group@,
        decreases svcs@.len() - i,
    {
        if !same(&svcs[i].group, &svcs[0].group) {
            assert(svcs@[i as int].group@ != svcs@[0].group@);
            return true;
        }
        i = i + 1;
    }
    false
}

fn has_tags(svcs: &Vec<Service>) -> (r: bool)
    ensures
        r == exists|i: int| 0 <= i < svcs@.len() && (#[trigger] svcs@[i]).tags@.len() > 0,
{
    let mut i: usize = 0;
    while i < svcs.len()
        invariant
            i <= svcs@.len(),
            forall|j: int| 0 <= j < i ==> (#[trigger] svcs@[j]).tags@.len() == 0,
        decreases svcs@.len() - i,
    {
        if svcs[i].tags.len() > 0 {
            assert(svcs@[i as int].tags@.len() > 0);
            return true;
        }
        i = i + 1;
    }
    false
}

fn find_group(gs: &Vec<Group>, key: &str) -> (r: usize)
    ensures
        r == group_at(gs.deep_view(), key@, 0),
        r <= gs@.len(),
        r < gs@.len() ==> gs@[r as int].key@ == key@,
{
    let ghost g = gs.deep_view();
    let mut i: usize = 0;
    while i < gs.len()
        invariant
            i <= gs@.len(),
            g == gs.deep_view(),
            group_at(g, key@, 0) == group_at(g, key@, i as int),
        ensures
            group_at(g, key@, 0) == i,
            i < gs@.len() ==> gs@[i as int].key@ == key@,
        decreases gs@.len() - i,
    {
        assert(g[i as int] == gs@[i as int].deep_view());
        if same(&gs[i].key, key) {
            break;
        }
        i = i + 1;
    }
    i
}

fn sections_of(svcs: &Vec<Service>) -> (gs: Vec<Group>)
    ensures
        gs.deep_view() == sections(svcs@),
{
    let grouped = has_groups(svcs);
    let tagged = !grouped && has_tags(svcs);
    assert(tagged == by_tag(svcs@));
    let mut gs: Vec<Group> = none();
    let mut i: usize = 0;
    while i < svcs.len()
        invariant
            i <= svcs@.len(),
            grouped == by_group(svcs@),
            tagged == by_tag(svcs@),
            gs.deep_view() == sorted_into(svcs@, i as int),
        decreases svcs@.len() - i,
    {
        let key = if grouped {
            svcs[i].group.as_str()
        } else if tagged && svcs[i].tags.len() > 0 {
            svcs[i].tags[0].as_str()
        } else {
            ""
        };
        proof {
            reveal_strlit("");
            assert(key@ =~= section_key(svcs@, i as int));
        }
        let ghost before = gs.deep_view();
        let at: usize = find_group(&gs, key);
        if at < gs.len() {
            let ghost old_group = gs@[at as int];
            let mut g = Group { key: String::new(), members: Vec::new() };
            std::mem::swap(&mut gs[at], &mut g);
            g.members.push(i);
            let ghost changed = g;
            std::mem::swap(&mut gs[at], &mut g);
            proof {
                assert(before[at as int] == old_group.deep_view());
                assert(numbers(changed.members@) =~= numbers(old_group.members@).push(i as int));
                assert(gs.deep_view() =~= sorted_into(svcs@, i + 1));
            }
        } else {
            let mut members: Vec<usize> = Vec::new();
            members.push(i);
            proof {
                assert(numbers(members@) =~= seq![i as int]);
            }
            put(&mut gs, Group { key: key.to_string(), members });
            assert(gs.deep_view() =~= sorted_into(svcs@, i + 1));
        }
        i = i + 1;
    }
    if tagged {
        let ghost all = gs.deep_view();
        let at: usize = find_group(&gs, "");
        proof {
            reveal_strlit("");
            assert(""@ =~= Seq::<char>::empty());
        }
        if at < gs.len() {
            let g = gs.remove(at);
            gs.push(g);
            assert(gs.deep_view() =~= all.remove(at as int).push(all[at as int]));
        }
    }
    gs
}

// ── Rows ───────────────────────────────────────────────────────────────────

/// How a state is drawn: its mark, its colour, its word.
#[verifier::allow_in_spec]
pub fn verdict(s: ServiceState) -> (&'static str, Role, &'static str)
    returns
        (match s {
            ServiceState::Up => ("●", Role::Success, "up"),
            ServiceState::Down => ("✗", Role::Failure, "down"),
            ServiceState::Pending => ("◌", Role::Warning, "pending"),
            ServiceState::Maintenance => ("◒", Role::Info, "maintenance"),
        }),
{
    match s {
        ServiceState::Up => ("●", Role::Success, "up"),
        ServiceState::Down => ("✗", Role::Failure, "down"),
        ServiceState::Pending => ("◌", Role::Warning, "pending"),
        ServiceState::Maintenance => ("◒", Role::Info, "maintenance"),
    }
}

/// How many letters of a word of `len` are written `n` sixtieths in.
pub open spec fn written(len: int, n: int) -> int {
    lesser((len * n + 59) / 60, len)
}

/// A colour fading up from the card's ground.
pub open spec fn fade(role: Role, n: int) -> Style {
    ink(share(Role::SurfaceAlt, role, n as u128, WHOLE as u128))
}

/// A share of the day to one decimal.
pub open spec fn tenths_text(t: nat) -> Seq<char> {
    dec(t / 10) + "."@ + seq![digit(t % 10)]
}

/// The tags a row still has to show: all but the one a heading above it already
/// says.
pub open spec fn tag_spans(
    v: Seq<SpanV>,
    tags: Seq<String>,
    heading: Option<Seq<char>>,
    n: int,
    k: int,
) -> Seq<SpanV>
    decreases k,
{
    if k <= 0 {
        v
    } else {
        push_if(
            tag_spans(v, tags, heading, n, k - 1),
            Some(tags[k - 1]@) != heading,
            sp("  #"@ + tags[k - 1]@, fade(Role::Info, n)),
        )
    }
}

/// What a section's heading says, where it has one.
pub open spec fn said_above(key: Seq<char>, headed: bool) -> Option<Seq<char>> {
    if headed {
        Some(key)
    } else {
        None
    }
}

/// One monitor `n` sixtieths into its entrance: its name at full strength from
/// the first frame, its verdict growing into place.
pub open spec fn service_spans(
    s: Service,
    name_w: int,
    heading: Option<Seq<char>>,
    n: int,
) -> Seq<SpanV> {
    let (glyph, role, word) = verdict(s.state);
    let mark = if n < 27 {
        "·"@
    } else {
        glyph@
    };
    let shown = word@.take(written(word@.len() as int, n));
    let style = fade(role, n);
    let lead = seq![sp("  "@, plain())].push(
        sp(align_left(s.name@, name_w as nat), fg(Role::TextBright)),
    ).push(
        sp(
            "  "@ + mark + " "@ + align_left(shown, 12),
            if s.state == ServiceState::Down {
                style.bold()
            } else {
                style
            },
        ),
    ).push(
        sp(
            match s.ping_ms {
                Some(p) => align_right(dec(p as nat), 5) + "ms"@,
                None => align_right("—"@, 7),
            },
            fade(Role::Text, n),
        ),
    ).push(
        sp(
            match s.uptime {
                Some(u) => "  "@ + align_right(tenths_text(u.tenths as nat), 5) + "% today"@,
                None => ""@,
            },
            fade(Role::TextMuted, n),
        ),
    );
    let tagged = tag_spans(lead, s.tags@, heading, n, s.tags@.len() as int);
    match s.repo {
        Some(r) => tagged.push(sp("  → "@ + r@, fade(Role::TextFaint, n))),
        None => tagged,
    }
}

fn faded(role: Role, n: u64) -> (s: Style)
    ensures
        s == fade(role, n as int),
{
    ink(share(Role::SurfaceAlt, role, n as u128, WHOLE as u128))
}

fn tenths_of(t: u32) -> (s: String)
    ensures
        s@ == tenths_text(t as nat),
{
    let a = num((t / 10) as u128);
    let b = num((t % 10) as u128);
    assert(b@ =~= seq![digit((t % 10) as nat)]);
    cat3(&a, ".", &b)
}

fn service_spans_of(s: &Service, name_w: usize, section: &str, headed: bool, n: u64) -> (v: Vec<
    Span,
>)
    requires
        n <= WHOLE,
    ensures
        v.deep_view() == service_spans(*s, name_w as int, said_above(section@, headed), n as int),
{
    let (glyph, role, word) = verdict(s.state);
    let mark = if n < 27 {
        "·"
    } else {
        glyph
    };
    let letters = chars_of(word);
    let len: usize = letters.len();
    assert(0 <= len * n <= 0xffff_ffff_ffff_ffff * 60) by (nonlinear_arith)
        requires
            len <= 0xffff_ffff_ffff_ffff,
            n <= 60,
    ;
    let want: u128 = (len as u128 * n as u128 + 59) / 60;
    let shown: usize = if want <= letters.len() as u128 {
        want as usize
    } else {
        letters.len()
    };
    let so_far = text_between(&letters, 0, shown);
    assert(so_far@ =~= word@.take(written(word@.len() as int, n as int)));
    let mut v: Vec<Span> = none();
    say(&mut v, "  ", plain());
    say_of(&mut v, pad_right(&s.name, name_w), fg(Role::TextBright));
    let padded = pad_right(&so_far, 12);
    let style = faded(role, n);
    let style = if s.state == ServiceState::Down {
        style.bold()
    } else {
        style
    };
    say_of(&mut v, cat4("  ", mark, " ", &padded), style);
    let ping = match s.ping_ms {
        Some(p) => {
            let t = num(p as u128);
            let t = pad_left(&t, 5);
            cat2(&t, "ms")
        },
        None => pad_left("—", 7),
    };
    say_of(&mut v, ping, faded(Role::Text, n));
    let today = match s.uptime {
        Some(u) => {
            let t = tenths_of(u.tenths);
            let t = pad_left(&t, 5);
            cat3("  ", &t, "% today")
        },
        None => "".to_string(),
    };
    say_of(&mut v, today, faded(Role::TextMuted, n));
    let ghost lead = v.deep_view();
    let mut k: usize = 0;
    while k < s.tags.len()
        invariant
            k <= s.tags@.len(),
            v.deep_view() == tag_spans(
                lead,
                s.tags@,
                said_above(section@, headed),
                n as int,
                k as int,
            ),
        decreases s.tags@.len() - k,
    {
        if !(headed && same(&s.tags[k], section)) {
            say_of(&mut v, cat2("  #", &s.tags[k]), faded(Role::Info, n));
        }
        k = k + 1;
    }
    if let Some(r) = &s.repo {
        say_of(&mut v, cat2("  → ", r), faded(Role::TextFaint, n));
    }
    v
}

/// A verdict only grows: no letter written is taken back, and it is whole when
/// the entrance is over.
pub proof fn law_verdicts_only_grow(len: int, n: int, later: int)
    requires
        0 <= len,
        0 <= n <= later <= WHOLE,
    ensures
        0 <= written(len, n) <= written(len, later) <= len,
        written(len, 0) == 0,
        written(len, WHOLE as int) == len,
{
    assert(0 <= len * n <= len * later <= len * 60) by (nonlinear_arith)
        requires
            0 <= len,
            0 <= n <= later <= 60,
    ;
    assert(len * 0 == 0) by (nonlinear_arith);
    assert((len * 60 + 59) / 60 == len) by (nonlinear_arith)
        requires
            0 <= len,
    ;
}

/// How far row `i` of the card is into its entrance.
pub open spec fn row_progress(state: App, i: int) -> int {
    progress(state.services_opened_tick, state.tick_count, i, SERVICES_STEP as int)
}

/// The first `m` services of a section, the first of them on row `row`, under
/// its heading or without one.
pub open spec fn member_lines(
    state: App,
    g: GroupV,
    headed: bool,
    name_w: int,
    row: int,
    m: int,
) -> Seq<LineV>
    decreases m,
{
    if m <= 0 {
        Seq::empty()
    } else {
        member_lines(state, g, headed, name_w, row, m - 1).push(
            ln(
                service_spans(
                    state.services@[g.members[m - 1]],
                    name_w,
                    said_above(g.key, headed),
                    row_progress(state, row + m - 1),
                ),
            ),
        )
    }
}

/// A section's heading, when there is more than one section.
pub open spec fn group_heading(state: App, gs: Seq<GroupV>, g: int) -> Seq<LineV> {
    let label = if gs[g].key.len() == 0 {
        "untagged"@
    } else {
        gs[g].key
    };
    let chip = ln(
        seq![sp(" "@, plain())] + env_spans(label, row_progress(state, held(gs, g))),
    );
    if gs.len() <= 1 {
        Seq::empty()
    } else if g > 0 {
        seq![ln(Seq::empty())].push(chip)
    } else {
        seq![chip]
    }
}

/// The lines of the first `n` sections. Rows are counted across sections: the
/// entrance is a single sweep down the card.
pub open spec fn group_lines(state: App, gs: Seq<GroupV>, name_w: int, n: int) -> Seq<LineV>
    decreases n,
{
    if n <= 0 {
        Seq::empty()
    } else {
        group_lines(state, gs, name_w, n - 1) + group_heading(state, gs, n - 1) + member_lines(
            state,
            gs[n - 1],
            gs.len() > 1,
            name_w,
            held(gs, n - 1),
            gs[n - 1].members.len() as int,
        )
    }
}

/// How wide a service's name is.
pub open spec fn name_w(svcs: Seq<Service>) -> spec_fn(int) -> int {
    |i: int| text_columns(svcs[i].name@) as int
}

/// What the card shows.
#[verifier::opaque]
pub open spec fn card_lines(state: App) -> Seq<LineV> {
    if state.services@.len() == 0 {
        one_line(
            "nothing to show — add [uptime_kuma] with your status page's URL to config.toml"@,
            fg(Role::TextMuted).italic(),
        )
    } else {
        let gs = sections(state.services@);
        group_lines(
            state,
            gs,
            widest(state.services@.len() as int, name_w(state.services@)),
            gs.len() as int,
        )
    }
}

fn add_members(
    out: &mut Vec<Line>,
    state: &App,
    g: &Group,
    headed: bool,
    name_w: usize,
    row: usize,
)
    requires
        forall|m: int|
            0 <= m < g.members@.len() ==> (#[trigger] g.members@[m]) < state.services@.len(),
        row + g.members@.len() <= usize::MAX,
    ensures
        final(out).deep_view() == old(out).deep_view() + member_lines(
            *state,
            g.deep_view(),
            headed,
            name_w as int,
            row as int,
            g.members@.len() as int,
        ),
{
    let ghost gv = g.deep_view();
    let ghost before = out.deep_view();
    let mut m: usize = 0;
    assert(before + member_lines(*state, gv, headed, name_w as int, row as int, 0) =~= before);
    while m < g.members.len()
        invariant
            m <= g.members@.len(),
            gv == g.deep_view(),
            forall|m: int|
                0 <= m < g.members@.len() ==> (#[trigger] g.members@[m]) < state.services@.len(),
            row + g.members@.len() <= usize::MAX,
            out.deep_view() == before + member_lines(
                *state,
                gv,
                headed,
                name_w as int,
                row as int,
                m as int,
            ),
        decreases g.members@.len() - m,
    {
        let n: u64 = reveal_at(state, row + m);
        let i: usize = g.members[m];
        assert(gv.members[m as int] == i);
        add_line(out, service_spans_of(&state.services[i], name_w, &g.key, headed, n));
        assert(out.deep_view() =~= before + member_lines(
            *state,
            gv,
            headed,
            name_w as int,
            row as int,
            m + 1,
        ));
        m = m + 1;
    }
}

fn add_heading(out: &mut Vec<Line>, state: &App, gs: &Vec<Group>, g: usize, row: usize)
    requires
        g < gs@.len(),
        row == held(gs.deep_view(), g as int),
    ensures
        final(out).deep_view() == old(out).deep_view() + group_heading(
            *state,
            gs.deep_view(),
            g as int,
        ),
{
    let ghost gv = gs.deep_view();
    let ghost before = out.deep_view();
    assert(gv[g as int] == gs@[g as int].deep_view());
    if gs.len() <= 1 {
        assert(before + Seq::<LineV>::empty() =~= before);
        return;
    }
    if g > 0 {
        add_blank(out);
    }
    let label = if gs[g].key.as_str().unicode_len() == 0 {
        "untagged"
    } else {
        gs[g].key.as_str()
    };
    let n: u64 = reveal_at(state, row);
    let mut v: Vec<Span> = none();
    say(&mut v, " ", plain());
    put_all(&mut v, env_chip(label, n));
    add_line(out, v);
    assert(out.deep_view() =~= before + group_heading(*state, gv, g as int));
}

fn card_lines_of(state: &App) -> (out: Vec<Line>)
    ensures
        out.deep_view() == card_lines(*state),
{
    broadcast use crate::list::lemma_deep_len;

    proof {
        reveal(card_lines);
    }
    if state.services.len() == 0 {
        return just(
            "nothing to show — add [uptime_kuma] with your status page's URL to config.toml",
            fg(Role::TextMuted).italic(),
        );
    }
    let w: usize = widest_of(
        state.services.len(),
        (|i: usize| -> (w: usize)
            requires
                i < state.services@.len(),
            ensures
                w == text_columns(state.services@[i as int].name@),
        {
            disp_width(&state.services[i].name)
        }),
        Ghost(name_w(state.services@)),
    );
    let gs = sections_of(&state.services);
    let ghost gv = gs.deep_view();
    proof {
        law_every_service_is_on_the_card(state.services@);
    }
    let total: usize = state.services.len();
    let mut out: Vec<Line> = none();
    let mut row: usize = 0;
    let mut g: usize = 0;
    while g < gs.len()
        invariant
            g <= gs@.len(),
            gv == gs.deep_view(),
            gv.len() == gs@.len(),
            gv == sections(state.services@),
            members_ok(gv, state.services@.len() as int),
            held(gv, gv.len() as int) == state.services@.len(),
            total == state.services@.len(),
            row == held(gv, g as int),
            out.deep_view() == group_lines(*state, gv, w as int, g as int),
        decreases gs@.len() - g,
    {
        let ghost before = out.deep_view();
        assert(gv[g as int] == gs@[g as int].deep_view());
        proof {
            lemma_held_monotone(gv, g + 1, gv.len() as int);
            assert(gv[g as int].members.len() == gs@[g as int].members@.len());
            assert forall|m: int| 0 <= m < gs@[g as int].members@.len() implies (
            #[trigger] gs@[g as int].members@[m]) < state.services@.len() by {
                assert(gv[g as int].members[m] == gs@[g as int].members@[m] as int);
            }
        }
        add_heading(&mut out, state, &gs, g, row);
        add_members(&mut out, state, &gs[g], gs.len() > 1, w, row);
        row = row + gs[g].members.len();
        g = g + 1;
    }
    out
}

proof fn lemma_held_monotone(gs: Seq<GroupV>, a: int, b: int)
    requires
        0 <= a <= b <= gs.len(),
    ensures
        0 <= held(gs, a) <= held(gs, b),
    decreases b,
{
    if a < b {
        lemma_held_monotone(gs, a, b - 1);
    } else if a > 0 {
        lemma_held_monotone(gs, a - 1, a - 1);
    }
}

// ── The card ───────────────────────────────────────────────────────────────

/// The widest line, with room for the frame, as a terminal counts it.
pub open spec fn card_want(lines: Seq<LineV>) -> spec_fn(int) -> int {
    |i: int| (columns_of(lines[i].spans) as u16) + 4
}

/// How wide the card is: its widest line, within the screen.
pub open spec fn card_width(lines: Seq<LineV>, area: Rect) -> int {
    let w = widest(lines.len() as int, card_want(lines));
    if w < 36 {
        36
    } else {
        lesser(w, less(area.width as int, 4))
    }
}

/// Where the card is: its lines, its borders, and a blank row either end, in
/// the middle of the screen.
pub open spec fn card_rect(lines: Seq<LineV>, area: Rect) -> Rect {
    dialog(
        area,
        card_width(lines, area) as u16,
        lesser((lines.len() as u16) + 4, less(area.height as int, 2)) as u16,
        2,
    )
}

/// When the readings were fetched.
pub open spec fn fetched_text(secs: int) -> Seq<char> {
    " updated "@ + (if secs < 60 {
        int_text(secs) + "s ago"@
    } else {
        int_text(secs / 60) + "m ago"@
    }) + " "@
}

/// The card's padding: a chip that touches the frame reads as part of it.
#[verifier::allow_in_spec]
pub fn card_padding() -> Padding
    returns
        (Padding { left: 0, right: 0, top: 1, bottom: 1 }),
{
    Padding { left: 0, right: 0, top: 1, bottom: 1 }
}

/// The card's border.
pub open spec fn card_border(state: App) -> BorderV {
    let out = seq![
        aligned(
            ln1(sp(" r refresh · any other key closes "@, fg(Role::TextFaint))),
            Align::Right,
        ),
    ];
    BorderV {
        style: fg(Role::Accent),
        top: seq![chip("♥ Services"@, Role::Accent, Role::Accent)],
        bottom: match state.services_fetched_at {
            Some(at) => out.push(
                ln1(sp(fetched_text(secs_since(at, state.now)), fg(Role::TextFaint))),
            ),
            None => out,
        },
        padding: card_padding(),
        ground: plain(),
    }
}

/// The services card; nothing while it is not up.
pub open spec fn card_ops(state: App, area: Rect) -> Seq<OpV> {
    if !state.show_services {
        Seq::empty()
    } else {
        let lines = card_lines(state);
        let slot = card_rect(lines, area);
        seq![OpV::Clear(slot)].push(
            OpV::Ground { area: slot, style: bg(Role::SurfaceAlt) },
        ).push(OpV::Frame { area: slot, border: card_border(state) }).push(
            text_op(framed(slot, card_padding()), lines),
        )
    }
}

fn card_border_of(state: &App) -> (b: Border)
    ensures
        b.deep_view() == card_border(*state),
{
    let mut top: Vec<Line> = none();
    put(&mut top, chip_line("♥ Services", Role::Accent, Role::Accent));
    let mut bottom: Vec<Line> = none();
    put(
        &mut bottom,
        align_line(
            line_of(span(" r refresh · any other key closes ", fg(Role::TextFaint))),
            Align::Right,
        ),
    );
    // The one fact that separates "all up" from "all up, as of some time before
    // the wifi dropped".
    if let Some(at) = state.services_fetched_at {
        let secs: i64 = seconds_since(at, state.now);
        let ago = if secs < 60 {
            let n = int_num(secs);
            cat2(&n, "s ago")
        } else {
            let n = int_num(secs / 60);
            cat2(&n, "m ago")
        };
        put(
            &mut bottom,
            line_of(span_of(cat3(" updated ", &ago, " "), fg(Role::TextFaint))),
        );
    }
    Border { style: fg(Role::Accent), top, bottom, padding: card_padding(), ground: plain() }
}

fn widest_line(lines: &Vec<Line>) -> (w: u32)
    ensures
        w == widest(lines@.len() as int, card_want(lines.deep_view())),
        w <= 0x1_0003,
{
    let ghost lv = lines.deep_view();
    let mut w: u32 = 0;
    let mut i: usize = 0;
    while i < lines.len()
        invariant
            i <= lines@.len(),
            lv == lines.deep_view(),
            w == widest(i as int, card_want(lv)),
            w <= 0x1_0003,
        decreases lines@.len() - i,
    {
        assert(lv[i as int] == lines@[i as int].deep_view());
        let n: u16 = width_of(&lines[i].spans) as u16;
        if n as u32 + 4 > w {
            w = n as u32 + 4;
        }
        i = i + 1;
    }
    w
}

/// Every monitor by name: the card behind the header's heart.
///
/// The tally can only count and the dashboard only decorates mapped rows; this
/// is where "which ones, and how are they doing" gets answered.
pub fn render_services_overlay(state: &App, area: Rect) -> (ops: Vec<Op>)
    requires
        on_screen(area),
        state.show_services ==> area.width >= 40,
    ensures
        ops.deep_view() == card_ops(*state, area),
{
    broadcast use crate::list::lemma_deep_len;

    let mut ops: Vec<Op> = none();
    if !state.show_services {
        return ops;
    }
    let lines = card_lines_of(state);
    assert(lines.deep_view().len() == lines@.len());
    let want: u32 = widest_line(&lines);
    let room: u16 = area.width.saturating_sub(4);
    let w: u16 = if want < 36 {
        36
    } else if want < room as u32 {
        want as u16
    } else {
        room
    };
    let n: u16 = lines.len() as u16;
    let tall: u16 = area.height.saturating_sub(2);
    let h: u16 = if n as u32 + 4 < tall as u32 {
        n + 4
    } else {
        tall
    };
    let slot = dialog_over(area, w, h, 2);
    put(&mut ops, Op::Clear(slot));
    // Solid ground: cleared cells alone are what a translucent terminal renders
    // as wallpaper behind the text.
    put(&mut ops, Op::Ground { area: slot, style: bg(Role::SurfaceAlt) });
    add_frame(&mut ops, slot, card_border_of(state));
    let inner = inner_of(slot, card_padding());
    add_text(&mut ops, inner, lines);
    ops
}

} // verus!
