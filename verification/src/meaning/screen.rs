//! What a frame is made of, and what stands where there is nothing to show.

use vstd::prelude::*;
use vstd::string::*;

use crate::batch::is_batch_view;
use crate::changes::is_tree_view;
use crate::dashboard::repo_list;
use crate::detail::is_detail_view;
use crate::diffview::diff_ops;
use crate::footer::footer_ops;
use crate::geometry::{on_screen, split_into, Rect};
use crate::header::{header_ops, inflight, metered, running_op, surrounds, Meter, Surroundings};
use crate::help::is_help_card;
use crate::keys::shown;

use crate::logs::log_ops;
use crate::meaning::header::flying;
use crate::meaning::reading::{group_texts, law_counts_are_how_many, lemma_writes, said, writes};
use crate::ops::{OpV, Reading};

use crate::paths::{from_home, shortened, slashed, tail_of};
use crate::prompts::{commit_ops, finder_ops, prompt_ops, push_ops, search_ops};
use crate::rundiff::run_diff;
use crate::runs::{run_list, runs_view};
use crate::screen::{frame_cut, has_live_pane, has_strip, is_dashboard, is_frame, is_view, law_the_frame_covers_the_screen, overlays, strip_rows};
use crate::services::card_ops;
use crate::state::{App, OpEntry};

use crate::text::{first_of, pieces};
use crate::watch::is_watch_view;
use crate::workflows::{is_workflows_view, workflow_list};


verus! {

broadcast use {vstd::string::group_string_axioms, group_texts};

/// A frame has its header on the first row, its footer on the last and the view of
/// the screen between them; over that the dialogs, the services card, and the help
/// above everything.
#[verifier::rlimit(40)]
pub proof fn law_a_frame_has_its_parts(ops: Seq<OpV>, state: App, m: Meter, area: Rect)
    requires
        is_frame(ops, state, m, area),
        on_screen(area),
        area.height >= 2,
    ensures
        exists|at: Surroundings, view: Seq<OpV>, help: Seq<OpV>|
            #![trigger surrounds(at, state), is_view(view, state, Rect { y: (area.y + 1) as u16, height: (area.height - 2) as u16, ..area }), is_help_card(help, state, area)]
            {
                &&& surrounds(at, state)
                &&& is_view(
                    view,
                    state,
                    Rect { y: (area.y + 1) as u16, height: (area.height - 2) as u16, ..area },
                )
                &&& is_help_card(help, state, area)
                &&& ops == seq![OpV::Tell(Reading::FrameWidth(area.width))] + header_ops(
                    state,
                    m,
                    at,
                    Rect { height: 1, ..area },
                ) + view + footer_ops(
                    state,
                    Rect { y: (area.y + area.height - 1) as u16, height: 1, ..area },
                ) + (if state.view is Logs {
                    search_ops(state, area)
                } else if state.view is GitStatus {
                    commit_ops(state, area)
                } else {
                    Seq::empty()
                } + push_ops(state, area) + finder_ops(state, area) + card_ops(state, area)) + help
            },
{
    let (pieces, at, view, help) = choose|
        pieces: Seq<Rect>,
        at: Surroundings,
        view: Seq<OpV>,
        help: Seq<OpV>,
    |
        #![trigger split_into(pieces, true, frame_cut(), area), header_ops(state, m, at, pieces[0]), is_view(view, state, pieces[1]), is_help_card(help, state, area)]
        split_into(pieces, true, frame_cut(), area) && surrounds(at, state) && is_view(
            view,
            state,
            pieces[1],
        ) && is_help_card(help, state, area) && ops == seq![
            OpV::Tell(Reading::FrameWidth(area.width)),
        ] + header_ops(state, m, at, pieces[0]) + view + footer_ops(state, pieces[2]) + overlays(
            state,
            area,
        ) + help;
    law_the_frame_covers_the_screen(pieces, area);
    assert(surrounds(at, state) && is_view(
        view,
        state,
        Rect { y: (area.y + 1) as u16, height: (area.height - 2) as u16, ..area },
    ) && is_help_card(help, state, area));
}

/// Every screen shows its own view.
pub proof fn law_every_screen_shows_its_view(ops: Seq<OpV>, state: App, area: Rect)
    requires
        is_view(ops, state, area),
    ensures
        state.view is Repos ==> is_dashboard(ops, state, area),
        state.view is GitStatus ==> is_tree_view(ops, state, area),
        state.view is GitDiff ==> ops == diff_ops(state, area),
        state.view is Workflows ==> is_workflows_view(ops, state, area),
        state.view is Runs ==> ops == runs_view(state, area),
        state.view is RunDetail ==> is_detail_view(ops, state, area),
        state.view is Logs ==> ops == log_ops(state, area),
        state.view is Watch ==> is_watch_view(ops, state, area),
        state.view is TriggerPrompt ==> ops == prompt_ops(state, area),
        state.view is Diff ==> ops == run_diff(state, area),
        state.view is BatchCommit ==> is_batch_view(ops, state, area),
{
}

/// The live pane is there exactly when a run is followed and the screen is wide
/// enough; the strip exactly when a run is in flight and the list keeps five rows,
/// with a row for each run up to four.
pub proof fn law_the_list_keeps_its_room(state: App, area: Rect)
    ensures
        has_live_pane(state, area) <==> state.followed is Some && area.width
            >= state.split_min_width,
        strip_rows(state) == if state.active@.len() > 4 {
            4
        } else {
            state.active@.len() as int
        },
        has_strip(state, area) <==> state.active@.len() > 0 && area.height - (strip_rows(state) + 2)
            >= 5,
{
}

/// What stands in a list with nothing in it: what is not here, and, where there is
/// room, the way to change that.
pub proof fn law_empty_lists_say_so(state: App, area: Rect)
    requires
        area.height >= 5,
        area.width >= 22,
    ensures
        state.repos@.len() == 0 ==> writes(repo_list(state, area), "No repos to watch yet."@),
        state.runs@.len() == 0 ==> writes(run_list(state, area), "This workflow has never run."@)
            && writes(run_list(state, area), shown(state.keymap.trigger@) + " triggers it"@),
        state.workflows@.len() == 0 ==> writes(
            workflow_list(state, area),
            "This repo has no workflows."@,
        ),
{
    if state.repos@.len() == 0 {
        let ops = repo_list(state, area);
        assert(said(ops[0]->lines[2]) =~= "No repos to watch yet."@);
        lemma_writes(ops, 0, 2, "No repos to watch yet."@);
    }
    if state.runs@.len() == 0 {
        let ops = run_list(state, area);
        assert(said(ops[1]->lines[2]) =~= "This workflow has never run."@);
        lemma_writes(ops, 1, 2, "This workflow has never run."@);
        assert(said(ops[1]->lines[3]) =~= shown(state.keymap.trigger@) + " triggers it"@);
        lemma_writes(ops, 1, 3, shown(state.keymap.trigger@) + " triggers it"@);
    }
    if state.workflows@.len() == 0 {
        let ops = workflow_list(state, area);
        assert(said(ops[1]->lines[2]) =~= "This repo has no workflows."@);
        lemma_writes(ops, 1, 2, "This repo has no workflows."@);
    }
}

/// The meter keeps the most requests that a fetch has had in flight, and when it
/// began; it is empty again as soon as nothing is.
pub proof fn law_the_meter_keeps_the_most(state: App, m: Meter)
    ensures
        flying(state) == 0 ==> metered(state, m).most == 0,
        flying(state) > 0 ==> {
            let n = metered(state, m);
            &&& n.most >= m.most && n.most >= flying(state)
            &&& n.most == m.most || n.most == flying(state)
            &&& n.started == if m.most == 0 {
                state.tick_count
            } else {
                m.started
            }
        },
{
    law_counts_are_how_many(state.git_ops@, running_op(), |e: OpEntry| !e.op.finished);
    assert(inflight(state) == flying(state));
}

// ── Paths ──────────────────────────────────────────────────────────────────

/// A path inside home is written from a tilde: the directory itself, or what is
/// below it. A neighbour whose name merely begins alike is not inside, and nothing is
/// without a home.
pub proof fn law_home_is_a_whole_directory(full: Seq<char>, home: Seq<char>, rest: Seq<char>)
    requires
        home.len() > 0,
        home.last() != '/',
        full == home + rest,
    ensures
        rest.len() == 0 || rest[0] == '/' ==> from_home(full, Some(home)) == "~"@ + rest
            && from_home(full, Some(home.push('/'))) == "~"@ + rest,
        rest.len() > 0 && rest[0] != '/' ==> from_home(full, Some(home)) == full,
        from_home(full, None) == full,
        from_home(full, Some(Seq::empty())) == full,
{
    assert(full.subrange(0, home.len() as int) =~= home);
    assert(full.skip(home.len() as int) =~= rest);
    assert(home.push('/').drop_last() =~= home);
    if rest.len() > 0 {
        assert(full[home.len() as int] == rest[0]);
    }
}

proof fn lemma_name_alone(p: Seq<char>)
    requires
        p.len() > 0,
        !p.contains('/'),
    ensures
        pieces(p, '/') == seq![p],
{
    lemma_no_slash(p, Seq::empty());
    assert(p + Seq::<char>::empty() =~= p);
    assert(p[0] != '/') by {
        assert(p.contains(p[0]));
    }
    assert(p.take(p.len() as int) =~= p);
    assert(p.skip(p.len() as int) =~= Seq::empty());
    assert(pieces(Seq::empty(), '/') =~= Seq::<Seq<char>>::empty());
    assert(pieces(p, '/') =~= seq![p]);
}

proof fn lemma_no_slash(p: Seq<char>, rest: Seq<char>)
    requires
        !p.contains('/'),
        rest.len() == 0 || rest[0] == '/',
    ensures
        first_of(p + rest, '/') == p.len(),
    decreases p.len(),
{
    let s = p + rest;
    if p.len() > 0 {
        assert(p.contains(p[0]));
        let q = p.drop_first();
        assert(!q.contains('/')) by {
            if q.contains('/') {
                let i = choose|i: int| 0 <= i < q.len() && q[i] == '/';
                assert(p[i + 1] == '/');
            }
        }
        lemma_no_slash(q, rest);
        assert(s.drop_first() =~= q + rest);
        assert(s[0] == p[0]);
    } else {
        assert(s =~= rest);
    }
}

proof fn lemma_pieces_end(a: Seq<char>, p: Seq<char>)
    requires
        p.len() > 0,
        !p.contains('/'),
    ensures
        pieces(a + seq!['/'] + p, '/') == pieces(a, '/').push(p),
    decreases a.len(),
{
    let s = a + seq!['/'] + p;
    if a.len() == 0 {
        assert(s[0] == '/');
        assert(s.drop_first() =~= p);
        lemma_name_alone(p);
        assert(pieces(s, '/') =~= pieces(a, '/').push(p));
    } else if a[0] == '/' {
        lemma_pieces_end(a.drop_first(), p);
        assert(s.drop_first() =~= a.drop_first() + seq!['/'] + p);
    } else {
        let n = first_of(a, '/') as int;
        lemma_front(a);
        let head = a.take(n);
        let tail = a.skip(n);
        assert(!head.contains('/')) by {
            if head.contains('/') {
                let i = choose|i: int| 0 <= i < head.len() && head[i] == '/';
                assert(a[i] == '/');
            }
        }
        let rest = tail + seq!['/'] + p;
        assert(s =~= head + rest);
        assert(rest[0] == '/') by {
            if tail.len() > 0 {
                assert(tail[0] == a[n]);
            }
        }
        lemma_no_slash(head, rest);
        assert(s.take(n) =~= head);
        assert(s.skip(n) =~= rest);
        lemma_pieces_end(tail, p);
        assert(s[0] == a[0]);
        assert(pieces(s, '/') =~= pieces(a, '/').push(p));
    }
}

proof fn lemma_front(a: Seq<char>)
    ensures
        first_of(a, '/') <= a.len(),
        first_of(a, '/') < a.len() ==> a[first_of(a, '/') as int] == '/',
        forall|i: int| 0 <= i < first_of(a, '/') ==> #[trigger] a[i] != '/',
        a.len() > 0 && a[0] != '/' ==> first_of(a, '/') > 0,
    decreases a.len(),
{
    if a.len() > 0 && a[0] != '/' {
        let t = a.drop_first();
        lemma_front(t);
        assert forall|i: int| 0 <= i < first_of(a, '/') implies #[trigger] a[i] != '/' by {
            if i > 0 {
                assert(a[i] == t[i - 1]);
            }
        }
    }
}

/// A deep path is cut to its last two names, and says that it was; one of up to three
/// names is left alone.
pub proof fn law_deep_paths_keep_two_names(front: Seq<char>, p: Seq<char>, q: Seq<char>)
    requires
        p.len() > 0,
        !p.contains('/'),
        q.len() > 0,
        !q.contains('/'),
    ensures
        ({
            let path = front + seq!['/'] + p + seq!['/'] + q;
            &&& pieces(path, '/').len() == pieces(front, '/').len() + 2
            &&& tail_of(path) == (if pieces(front, '/').len() > 1 {
                "…/"@ + p + "/"@ + q
            } else {
                path
            })
        }),
{
    lemma_pieces_end(front, p);
    lemma_pieces_end(front + seq!['/'] + p, q);
}

/// A path is shown from home and cut, written with forward slashes where the machine
/// writes backward ones.
pub proof fn law_paths_are_shown_short(full: Seq<char>, home: Option<Seq<char>>, windows: bool)
    ensures
        !windows ==> shortened(full, home, windows) == tail_of(from_home(full, home)),
        slashed(full, true).len() == full.len(),
        forall|i: int|
            0 <= i < full.len() ==> #[trigger] slashed(full, true)[i] == if full[i] == '\\' {
                '/'
            } else {
                full[i]
            },
        windows ==> shortened(full, home, windows) == shortened(
            slashed(full, true),
            match home {
                Some(h) => Some(slashed(h, true)),
                None => None,
            },
            false,
        ),
{
}

} // verus!
