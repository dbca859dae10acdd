//! What the services card says.

use vstd::prelude::*;
use vstd::string::*;

use crate::clock::secs_since;

use crate::geometry::Rect;

use crate::meaning::reading::{given, group_texts, said};
use crate::motion::WHOLE;

use crate::paint::{LineV, Role, SpanV};
use crate::services::{by_group, by_tag, card_lines, card_ops, card_want, card_width, env_role, group_at, group_heading, group_lines, head_word, held, member_lines, name_w, row_progress, said_above, section_key, sections, service_spans, sorted_into, tag_spans, verdict, word_end, written, GroupV};
use crate::state::{App, Service, ServiceState};
use crate::strip::widest;
use crate::text::{align_left, align_right, alnum, begins, dec, digit, lowered, trimmed};
use crate::wrap::texts;

verus! {

broadcast use {vstd::string::group_string_axioms, group_texts};

/// The section a service stands in: its group where the services have more than
/// one, its first tag where any of them is tagged, and the only one otherwise.
pub open spec fn heading_of(svcs: Seq<Service>, i: int) -> Seq<char> {
    if exists|a: int, b: int|
        #![trigger svcs[a], svcs[b]]
        0 <= a < svcs.len() && 0 <= b < svcs.len() && svcs[a].group@ != svcs[b].group@ {
        svcs[i].group@
    } else if svcs[i].tags@.len() > 0 {
        svcs[i].tags@[0]@
    } else {
        Seq::empty()
    }
}

proof fn lemma_heading_of(svcs: Seq<Service>, i: int)
    requires
        0 <= i < svcs.len(),
    ensures
        section_key(svcs, i) == heading_of(svcs, i),
{
    if exists|a: int, b: int|
        #![trigger svcs[a], svcs[b]]
        0 <= a < svcs.len() && 0 <= b < svcs.len() && svcs[a].group@ != svcs[b].group@ {
        let (a, b) = choose|a: int, b: int|
            #![trigger svcs[a], svcs[b]]
            0 <= a < svcs.len() && 0 <= b < svcs.len() && svcs[a].group@ != svcs[b].group@;
        if svcs[a].group@ == svcs[0].group@ {
            assert(svcs[b].group@ != svcs[0].group@);
        }
        assert(by_group(svcs));
    } else {
        if by_group(svcs) {
            let a = choose|a: int| 0 <= a < svcs.len() && (#[trigger] svcs[a]).group@
                != svcs[0].group@;
            assert(svcs[a].group@ != svcs[0].group@);
        }
        if svcs[i].tags@.len() > 0 {
            assert(by_tag(svcs));
        }
    }
}

/// Whether the first `n` services are sorted: each stands in a section of its own
/// heading, no two sections have the same, and a section keeps their order.
pub open spec fn sorted(gs: Seq<GroupV>, svcs: Seq<Service>, n: int) -> bool {
    &&& forall|g: int, m: int|
        #![trigger gs[g].members[m]]
        0 <= g < gs.len() && 0 <= m < gs[g].members.len() ==> 0 <= gs[g].members[m] < n
            && gs[g].key == heading_of(svcs, gs[g].members[m])
    &&& forall|g: int, h: int|
        #![trigger gs[g], gs[h]]
        0 <= g < h < gs.len() ==> gs[g].key != gs[h].key
    &&& forall|i: int| 0 <= i < n ==> #[trigger] placed(gs, i)
    &&& forall|g: int, a: int, b: int|
        #![trigger gs[g].members[a], gs[g].members[b]]
        0 <= g < gs.len() && 0 <= a < b < gs[g].members.len() ==> gs[g].members[a]
            < gs[g].members[b]
}

/// Whether service `i` stands in one of the sections.
pub open spec fn placed(gs: Seq<GroupV>, i: int) -> bool {
    exists|g: int, m: int|
        #![trigger gs[g].members[m]]
        0 <= g < gs.len() && 0 <= m < gs[g].members.len() && gs[g].members[m] == i
}

proof fn lemma_group_found(gs: Seq<GroupV>, key: Seq<char>, from: int)
    requires
        0 <= from <= gs.len(),
    ensures
        from <= group_at(gs, key, from) <= gs.len(),
        forall|g: int| from <= g < group_at(gs, key, from) ==> (#[trigger] gs[g]).key != key,
        group_at(gs, key, from) < gs.len() ==> gs[group_at(gs, key, from)].key == key,
    decreases gs.len() - from,
{
    if from < gs.len() && gs[from].key != key {
        lemma_group_found(gs, key, from + 1);
    }
}

proof fn lemma_sorted(svcs: Seq<Service>, n: int)
    requires
        0 <= n <= svcs.len(),
    ensures
        sorted(sorted_into(svcs, n), svcs, n),
    decreases n,
{
    if n > 0 {
        lemma_sorted(svcs, n - 1);
        lemma_heading_of(svcs, n - 1);
        let old = sorted_into(svcs, n - 1);
        let key = section_key(svcs, n - 1);
        let at = group_at(old, key, 0);
        lemma_group_found(old, key, 0);
        let gs = sorted_into(svcs, n);
        if at < old.len() {
            let g2 = GroupV { key: old[at].key, members: old[at].members.push(n - 1) };
            assert(gs == old.update(at, g2));
            assert forall|i: int| 0 <= i < n implies #[trigger] placed(gs, i) by {
                if i < n - 1 {
                    assert(placed(old, i));
                    let (g, m) = choose|g: int, m: int|
                        #![trigger old[g].members[m]]
                        0 <= g < old.len() && 0 <= m < old[g].members.len() && old[g].members[m]
                            == i;
                    assert(gs[g].members[m] == i);
                } else {
                    let m = old[at].members.len() as int;
                    assert(gs[at].members[m] == i);
                }
            }
            assert forall|g: int, m: int|
                #![trigger gs[g].members[m]]
                0 <= g < gs.len() && 0 <= m < gs[g].members.len() implies 0 <= gs[g].members[m] < n
                && gs[g].key == heading_of(svcs, gs[g].members[m]) by {
                if g != at || m < old[at].members.len() {
                    assert(gs[g].members[m] == old[g].members[m]);
                }
            }
            assert forall|g: int, a: int, b: int|
                #![trigger gs[g].members[a], gs[g].members[b]]
                0 <= g < gs.len() && 0 <= a < b < gs[g].members.len() implies gs[g].members[a]
                < gs[g].members[b] by {
                assert(gs[g].members[a] == old[g].members[a]);
                if g != at || b < old[at].members.len() {
                    assert(gs[g].members[b] == old[g].members[b]);
                } else {
                    assert(0 <= old[g].members[a] < n - 1);
                }
            }
            assert forall|g: int, h: int|
                #![trigger gs[g], gs[h]]
                0 <= g < h < gs.len() implies gs[g].key != gs[h].key by {
                assert(old[g].key != old[h].key);
            }
        } else {
            let last = GroupV { key, members: seq![n - 1] };
            assert(gs == old.push(last));
            assert forall|i: int| 0 <= i < n implies #[trigger] placed(gs, i) by {
                if i < n - 1 {
                    assert(placed(old, i));
                    let (g, m) = choose|g: int, m: int|
                        #![trigger old[g].members[m]]
                        0 <= g < old.len() && 0 <= m < old[g].members.len() && old[g].members[m]
                            == i;
                    assert(gs[g].members[m] == i);
                } else {
                    let g = old.len() as int;
                    assert(gs[g].members[0] == i);
                }
            }
            assert forall|g: int, m: int|
                #![trigger gs[g].members[m]]
                0 <= g < gs.len() && 0 <= m < gs[g].members.len() implies 0 <= gs[g].members[m] < n
                && gs[g].key == heading_of(svcs, gs[g].members[m]) by {
                if g < old.len() {
                    assert(gs[g].members[m] == old[g].members[m]);
                }
            }
            assert forall|g: int, a: int, b: int|
                #![trigger gs[g].members[a], gs[g].members[b]]
                0 <= g < gs.len() && 0 <= a < b < gs[g].members.len() implies gs[g].members[a]
                < gs[g].members[b] by {
                if g < old.len() {
                    assert(gs[g].members[a] == old[g].members[a]);
                    assert(gs[g].members[b] == old[g].members[b]);
                }
            }
        }
    }
}

/// The card sorts its services into sections by their headings, in their order, each
/// in one. Where the headings are tags the services without any come last.
pub proof fn law_services_stand_under_their_heading(svcs: Seq<Service>)
    ensures
        sorted(sections(svcs), svcs, svcs.len() as int),
        !by_group(svcs) ==> forall|g: int|
            0 <= g < sections(svcs).len() - 1 && sections(svcs).len() > 1 ==> (
            #[trigger] sections(svcs)[g]).key.len() > 0,
{
    let n = svcs.len() as int;
    let gs = sorted_into(svcs, n);
    lemma_sorted(svcs, n);
    let at = group_at(gs, Seq::empty(), 0);
    lemma_group_found(gs, Seq::empty(), 0);
    let hs = sections(svcs);
    if by_tag(svcs) && at < gs.len() {
        let last = gs.len() - 1;
        assert forall|g: int| 0 <= g < hs.len() implies (#[trigger] hs[g]) == gs[came_from(
            g,
            at,
            last,
        )] by {}
        assert forall|g: int, m: int|
            #![trigger hs[g].members[m]]
            0 <= g < hs.len() && 0 <= m < hs[g].members.len() implies 0 <= hs[g].members[m] < n
            && hs[g].key == heading_of(svcs, hs[g].members[m]) by {
            let o = came_from(g, at, last);
            assert(hs[g] == gs[o]);
            assert(gs[o].members[m] == hs[g].members[m]);
        }
        assert forall|g: int, a: int, b: int|
            #![trigger hs[g].members[a], hs[g].members[b]]
            0 <= g < hs.len() && 0 <= a < b < hs[g].members.len() implies hs[g].members[a]
            < hs[g].members[b] by {
            let o = came_from(g, at, last);
            assert(hs[g] == gs[o]);
            assert(gs[o].members[a] < gs[o].members[b]);
        }
        assert forall|g: int, h: int|
            #![trigger hs[g], hs[h]]
            0 <= g < h < hs.len() implies hs[g].key != hs[h].key by {
            let o = came_from(g, at, last);
            let p = came_from(h, at, last);
            assert(hs[g] == gs[o] && hs[h] == gs[p]);
            if o < p {
                assert(gs[o].key != gs[p].key);
            } else {
                assert(gs[p].key != gs[o].key);
            }
        }
        assert forall|i: int| 0 <= i < n implies #[trigger] placed(hs, i) by {
            assert(placed(gs, i));
            let (g, m) = choose|g: int, m: int|
                #![trigger gs[g].members[m]]
                0 <= g < gs.len() && 0 <= m < gs[g].members.len() && gs[g].members[m] == i;
            let o = if g < at {
                g
            } else if g == at {
                last
            } else {
                g - 1
            };
            assert(hs[o] == gs[g]);
            assert(hs[o].members[m] == i);
        }
        assert forall|g: int| 0 <= g < hs.len() - 1 implies (#[trigger] hs[g]).key.len() > 0 by {
            let o = came_from(g, at, last);
            assert(hs[g] == gs[o]);
            if gs[o].key.len() == 0 {
                assert(gs[o].key =~= Seq::empty());
                if o < at {
                    assert(gs[o].key != gs[at].key);
                } else {
                    assert(gs[at].key != gs[o].key);
                }
            }
        }
    } else if !by_group(svcs) && hs.len() > 1 {
        assert forall|g: int| 0 <= g < hs.len() - 1 implies (#[trigger] hs[g]).key.len() > 0 by {
            if gs[g].key.len() == 0 {
                assert(gs[g].key =~= Seq::empty());
                if by_tag(svcs) {
                    assert(at <= g);
                } else {
                    lemma_one_section(svcs, n);
                }
            }
        }
    }
}

proof fn lemma_one_section(svcs: Seq<Service>, n: int)
    requires
        0 <= n <= svcs.len(),
        !by_group(svcs),
        !by_tag(svcs),
    ensures
        sorted_into(svcs, n).len() <= 1,
        forall|g: int|
            0 <= g < sorted_into(svcs, n).len() ==> (#[trigger] sorted_into(svcs, n)[g]).key
                == Seq::<char>::empty(),
    decreases n,
{
    if n > 0 {
        lemma_one_section(svcs, n - 1);
        lemma_group_found(sorted_into(svcs, n - 1), section_key(svcs, n - 1), 0);
    }
}

/// Where a section stood before the one at `at` was moved to the end.
pub open spec fn came_from(g: int, at: int, last: int) -> int {
    if g == last {
        at
    } else if g < at {
        g
    } else {
        g + 1
    }
}

// ── Lines ──────────────────────────────────────────────────────────────────

/// The first `k` tags, each behind a hash, without the one the heading says.
pub open spec fn tags_say(tags: Seq<String>, heading: Option<Seq<char>>, k: int) -> Seq<char>
    decreases k,
{
    if k <= 0 {
        Seq::empty()
    } else {
        tags_say(tags, heading, k - 1) + given(
            heading != Some(tags[k - 1]@),
            "  #"@ + tags[k - 1]@,
        )
    }
}

/// What is said of a service: its name, how it is, how fast it answers or that it
/// does not, its share of the day up to a tenth of a hundredth, the tags that the
/// heading does not say already, and the repo it belongs to.
pub open spec fn service_says(s: Service, name_w: int, heading: Option<Seq<char>>) -> Seq<char> {
    "  "@ + align_left(s.name@, name_w as nat) + "  "@ + verdict(s.state).0@ + " "@ + align_left(
        verdict(s.state).2@,
        12,
    ) + (if s.ping_ms is Some {
        align_right(dec(s.ping_ms->0 as nat), 5) + "ms"@
    } else {
        align_right("—"@, 7)
    }) + given(
        s.uptime is Some,
        "  "@ + align_right(
            dec((s.uptime->0.tenths / 10) as nat) + "."@ + seq![
                digit((s.uptime->0.tenths % 10) as nat),
            ],
            5,
        ) + "% today"@,
    ) + tags_say(s.tags@, heading, s.tags@.len() as int) + given(
        s.repo is Some,
        "  → "@ + s.repo->0@,
    )
}

proof fn lemma_tags(v: Seq<SpanV>, tags: Seq<String>, heading: Option<Seq<char>>, n: int, k: int)
    requires
        0 <= k <= tags.len(),
    ensures
        texts(tag_spans(v, tags, heading, n, k)) == texts(v) + tags_say(tags, heading, k),
    decreases k,
{
    if k > 0 {
        lemma_tags(v, tags, heading, n, k - 1);
    }
    assert(texts(tag_spans(v, tags, heading, n, k)) =~= texts(v) + tags_say(tags, heading, k));
}

/// A service that has arrived on the card says all there is to say of it.
#[verifier::rlimit(40)]
pub proof fn law_services_say_how_they_are(s: Service, name_w: int, heading: Option<Seq<char>>)
    ensures
        texts(service_spans(s, name_w, heading, WHOLE as int)) == service_says(s, name_w, heading),
{
    let word = verdict(s.state).2@;
    let n = WHOLE as int;
    assert(written(word.len() as int, n) == word.len()) by {
        let len = word.len() as int;
        assert((len * 60 + 59) / 60 >= len) by (nonlinear_arith);
    }
    assert(word.take(word.len() as int) =~= word);
    reveal_strlit("");
    reveal_strlit(" ");
    let all = service_spans(s, name_w, heading, n);
    let k = s.tags@.len() as int;
    assert forall|v: Seq<SpanV>| #[trigger]
        texts(tag_spans(v, s.tags@, heading, n, k)) == texts(v) + tags_say(s.tags@, heading, k) by {
        lemma_tags(v, s.tags@, heading, n, k);
    }
    assert(texts(all) =~= service_says(s, name_w, heading));
}

proof fn lemma_member_lines(
    state: App,
    g: GroupV,
    headed: bool,
    w: int,
    row: int,
    n: int,
    m: int,
)
    requires
        0 <= m < n <= g.members.len(),
    ensures
        member_lines(state, g, headed, w, row, n).len() == n,
        member_lines(state, g, headed, w, row, n)[m].spans == service_spans(
            state.services@[g.members[m]],
            w,
            said_above(g.key, headed),
            row_progress(state, row + m),
        ),
    decreases n,
{
    if n > 1 {
        lemma_member_lines(
            state,
            g,
            headed,
            w,
            row,
            n - 1,
            if m < n - 1 {
                m
            } else {
                0
            },
        );
    } else {
        assert(member_lines(state, g, headed, w, row, 0) =~= Seq::empty());
        reveal_with_fuel(member_lines, 2);
    }
}

proof fn lemma_group_lines(state: App, gs: Seq<GroupV>, w: int, n: int, g: int, m: int) -> (k: int)
    requires
        0 <= g < n <= gs.len(),
        0 <= m < gs[g].members.len(),
    ensures
        ({
            let lines = group_lines(state, gs, w, n);
            &&& m < k < lines.len() || (gs.len() <= 1 && m == k && k < lines.len())
            &&& lines[k].spans == service_spans(
                state.services@[gs[g].members[m]],
                w,
                said_above(gs[g].key, gs.len() > 1),
                row_progress(state, held(gs, g) + m),
            )
            &&& gs.len() > 1 ==> said(lines[k - m - 1]) == " "@ + "▐"@ + " "@ + (if gs[g].key.len()
                == 0 {
                "untagged"@
            } else {
                gs[g].key
            }) + " "@ + "▌"@
        }),
    decreases n,
{
    let lines = group_lines(state, gs, w, n);
    let above = group_lines(state, gs, w, n - 1);
    if g < n - 1 {
        let k = lemma_group_lines(state, gs, w, n - 1, g, m);
        k
    } else {
        let head = group_heading(state, gs, g);
        let count = gs[g].members.len() as int;
        lemma_member_lines(state, gs[g], gs.len() > 1, w, held(gs, g), count, m);
        let k = above.len() + head.len() + m;
        assert(lines[k] == member_lines(state, gs[g], gs.len() > 1, w, held(gs, g), count)[m]);
        if gs.len() > 1 {
            assert(lines[k - m - 1] == head.last());
            let label = if gs[g].key.len() == 0 {
                "untagged"@
            } else {
                gs[g].key
            };
            assert(said(head.last()) =~= " "@ + "▐"@ + " "@ + label + " "@ + "▌"@);
        }
        k
    }
}

/// How wide the names on the card are: as wide as the widest of them.
pub open spec fn names_wide(svcs: Seq<Service>) -> int {
    widest(svcs.len() as int, name_w(svcs))
}

/// Every service has its line on the card, under its heading where there is more
/// than one. Once the card has settled it says all there is to say of the service.
#[verifier::rlimit(40)]
pub proof fn law_every_service_has_its_line(state: App, area: Rect, i: int)
    requires
        state.show_services,
        state.services_opened_tick is None,
        0 <= i < state.services@.len(),
    ensures
        ({
            let ops = card_ops(state, area);
            let lines = ops[3]->lines;
            let svcs = state.services@;
            let many = sections(svcs).len() > 1;
            &&& ops.len() == 4 && ops[3] is Text
            &&& exists|h: int, k: int|
                #![trigger lines[h], lines[k]]
                {
                    let heading = if many {
                        Some(heading_of(svcs, i))
                    } else {
                        None
                    };
                    &&& 0 <= k < lines.len()
                    &&& said(lines[k]) == service_says(svcs[i], names_wide(svcs), heading)
                    &&& many ==> 0 <= h < k && said(lines[h]) == " "@ + "▐"@ + " "@ + (
                    if heading_of(svcs, i).len() == 0 {
                        "untagged"@
                    } else {
                        heading_of(svcs, i)
                    }) + " "@ + "▌"@
                }
        }),
{
    reveal(card_lines);
    let svcs = state.services@;
    let gs = sections(svcs);
    let lines = card_ops(state, area)[3]->lines;
    law_services_stand_under_their_heading(svcs);
    assert(placed(gs, i));
    let (g, m) = choose|g: int, m: int|
        #![trigger gs[g].members[m]]
        0 <= g < gs.len() && 0 <= m < gs[g].members.len() && gs[g].members[m] == i;
    assert(gs[g].key == heading_of(svcs, i));
    let w = names_wide(svcs);
    let k = lemma_group_lines(state, gs, w, gs.len() as int, g, m);
    assert(lines == group_lines(state, gs, w, gs.len() as int));
    assert(row_progress(state, held(gs, g) + m) == WHOLE);
    law_services_say_how_they_are(svcs[i], w, said_above(gs[g].key, gs.len() > 1));
    let h = k - m - 1;
    if gs.len() > 1 {
        assert(said(lines[h]) == " "@ + "▐"@ + " "@ + (if heading_of(svcs, i).len() == 0 {
            "untagged"@
        } else {
            heading_of(svcs, i)
        }) + " "@ + "▌"@);
    }
    let x = lines[h];
    let y = lines[k];
}

/// The card says how long ago its readings were fetched, in seconds up to a minute
/// and in whole minutes from there on.
pub proof fn law_readings_are_dated(state: App, area: Rect)
    requires
        state.show_services,
        state.services_fetched_at is Some,
    ensures
        ({
            let secs = secs_since(state.services_fetched_at->0, state.now);
            let b = card_ops(state, area)[2]->border;
            &&& b.bottom.len() == 2
            &&& said(b.bottom[1]) == " updated "@ + (if secs < 60 {
                dec(secs as nat) + "s ago"@
            } else {
                dec((secs / 60) as nat) + "m ago"@
            }) + " "@
        }),
{
    let secs = secs_since(state.services_fetched_at->0, state.now);
    let b = card_ops(state, area)[2]->border;
    let ago = if secs < 60 {
        dec(secs as nat) + "s ago"@
    } else {
        dec((secs / 60) as nat) + "m ago"@
    };
    assert(said(b.bottom[1]) =~= " updated "@ + ago + " "@);
}

/// A card without services says how to get some; and there is no card until it is
/// asked for.
pub proof fn law_an_empty_card_says_so(state: App, area: Rect)
    ensures
        !state.show_services ==> card_ops(state, area).len() == 0,
        state.show_services && state.services@.len() == 0 ==> card_ops(state, area).len() == 4
            && card_ops(state, area)[3]->lines.len() == 1 && said(card_ops(state, area)[3]->lines[0])
            == "nothing to show — add [uptime_kuma] with your status page's URL to config.toml"@,
{
    reveal(card_lines);
    if state.show_services && state.services@.len() == 0 {
        assert(said(card_ops(state, area)[3]->lines[0])
            =~= "nothing to show — add [uptime_kuma] with your status page's URL to config.toml"@);
    }
}

/// An environment has the colour of its first word, whatever its case and whatever
/// stands around it: green in production, amber where that is rehearsed, blue where
/// it is written, and the neutral one without a name.
pub proof fn law_environments_have_their_colour(label: Seq<char>)
    ensures
        ({
            let w = head_word(lowered(trimmed(label)));
            let production = begins(w, "prod"@) || w == "prd"@ || w == "live"@;
            let rehearsal = begins(w, "stag"@) || w == "stg"@ || begins(w, "pre"@);
            let writing = begins(w, "dev"@) || w == "local"@;
            let trial = begins(w, "test"@) || w == "qa"@ || begins(w, "sandbox"@);
            &&& env_role(label) == Role::Success <==> production
            &&& env_role(label) == Role::Warning <==> rehearsal && !production
            &&& env_role(label) == Role::Info <==> writing && !production && !rehearsal
            &&& env_role(label) == Role::Primary <==> trial && !production && !rehearsal && !writing
            &&& w.len() == 0 ==> env_role(label) == Role::Unknown
        }),
{
    let w = head_word(lowered(trimmed(label)));
    reveal_strlit("prod");
    reveal_strlit("prd");
    reveal_strlit("live");
    reveal_strlit("stag");
    reveal_strlit("stg");
    reveal_strlit("pre");
    reveal_strlit("dev");
    reveal_strlit("local");
    reveal_strlit("test");
    reveal_strlit("qa");
    reveal_strlit("sandbox");
}

/// The first word of a text is a run of letters and digits, with none before it and
/// none right behind it; a text without any has none.
pub proof fn law_the_first_word_is_whole(s: Seq<char>) -> (n: int)
    ensures
        ({
            let w = head_word(s);
            &&& 0 <= n && n + w.len() <= s.len()
            &&& w == s.subrange(n, n + w.len())
            &&& forall|i: int| 0 <= i < n ==> !alnum(#[trigger] s[i])
            &&& forall|i: int| 0 <= i < w.len() ==> alnum(#[trigger] w[i])
            &&& n + w.len() < s.len() && w.len() > 0 ==> !alnum(s[n + w.len()])
            &&& w.len() == 0 ==> n == s.len()
        }),
    decreases s.len(),
{
    let w = head_word(s);
    if s.len() == 0 {
        assert(w =~= s.subrange(0, 0));
        0
    } else if !alnum(s[0]) {
        let t = s.drop_first();
        let m = law_the_first_word_is_whole(t);
        assert(s.subrange(m + 1, m + 1 + w.len()) =~= t.subrange(m, m + w.len()));
        assert forall|i: int| 0 <= i < m + 1 implies !alnum(#[trigger] s[i]) by {
            if i > 0 {
                assert(s[i] == t[i - 1]);
            }
        }
        if m + w.len() < t.len() {
            assert(t[m + w.len()] == s[m + 1 + w.len()]);
        }
        m + 1
    } else {
        lemma_word_end(s);
        assert(w =~= s.subrange(0, w.len() as int));
        0
    }
}

proof fn lemma_word_end(s: Seq<char>)
    ensures
        word_end(s) <= s.len(),
        forall|i: int| 0 <= i < word_end(s) ==> alnum(#[trigger] s[i]),
        word_end(s) < s.len() ==> !alnum(s[word_end(s) as int]),
        s.len() > 0 && alnum(s[0]) ==> word_end(s) > 0,
    decreases s.len(),
{
    if s.len() > 0 && alnum(s[0]) {
        let t = s.drop_first();
        lemma_word_end(t);
        assert forall|i: int| 0 <= i < word_end(s) implies alnum(#[trigger] s[i]) by {
            if i > 0 {
                assert(s[i] == t[i - 1]);
            }
        }
    }
}

/// A blank line stands between one section and the heading of the next.
pub proof fn law_sections_stand_apart(state: App, gs: Seq<GroupV>, g: int)
    requires
        0 <= g < gs.len(),
        gs.len() > 1,
    ensures
        group_heading(state, gs, g).len() == if g == 0 {
            1int
        } else {
            2
        },
        g > 0 ==> group_heading(state, gs, g)[0].spans.len() == 0,
{
}

/// The card is as wide as its widest line with its frame, thirty-six columns at least,
/// and leaves the screen a margin.
pub proof fn law_the_card_is_as_wide_as_its_lines(lines: Seq<LineV>, area: Rect)
    requires
        area.width >= 40,
    ensures
        ({
            let w = card_width(lines, area);
            let most = widest(lines.len() as int, card_want(lines));
            &&& 36 <= w <= area.width - 4
            &&& w == most || (most < 36 && w == 36) || (most > area.width - 4 && w == area.width - 4)
        }),
{
}

/// A service that is down is bold, and no other is.
#[verifier::rlimit(40)]
pub proof fn law_only_what_is_down_is_bold(
    s: Service,
    name_w: int,
    heading: Option<Seq<char>>,
    n: int,
)
    ensures
        service_spans(s, name_w, heading, n).len() >= 5,
        service_spans(s, name_w, heading, n)[2].style.bold <==> s.state == ServiceState::Down,
{
    let k = s.tags@.len() as int;
    assert forall|v: Seq<SpanV>| v.len() <= (#[trigger] tag_spans(v, s.tags@, heading, n, k)).len()
        && forall|i: int|
        0 <= i < v.len() ==> #[trigger] tag_spans(v, s.tags@, heading, n, k)[i] == v[i] by {
        lemma_tags_behind(v, s.tags@, heading, n, k);
    }
}

proof fn lemma_tags_behind(
    v: Seq<SpanV>,
    tags: Seq<String>,
    heading: Option<Seq<char>>,
    n: int,
    k: int,
)
    ensures
        v.len() <= tag_spans(v, tags, heading, n, k).len(),
        forall|i: int| 0 <= i < v.len() ==> #[trigger] tag_spans(v, tags, heading, n, k)[i] == v[i],
    decreases k,
{
    if k > 0 {
        lemma_tags_behind(v, tags, heading, n, k - 1);
    }
}

} // verus!
