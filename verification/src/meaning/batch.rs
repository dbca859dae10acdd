//! What is said of a batch commit.

use vstd::prelude::*;
use vstd::string::*;

use crate::batch::{batch_cut, batch_op, batch_parts, batch_title, called, changed_files, changed_in, done_parts, is_batch_view, item_line, item_note, message_ops, queue_lines};
use crate::changes::op_ops;
use crate::columns::cut;
use crate::dashboard::of_repo;
use crate::geometry::{framed, split_into, Padding, Rect};
use crate::keys::shown;
use crate::list::first_where;
use crate::meaning::reading::{given, group_texts, law_the_first_is_found, least, lemma_vec_len, said, sum_of};
use crate::ops::OpV;

use crate::state::{App, Batch, BatchItem, BatchPhase, BatchTally, ItemState, RepoCard, Status};
use crate::text::{align_left, dec, joined};


verus! {

broadcast use {vstd::string::group_string_axioms, group_texts};

/// The mark of a repo of a batch.
pub open spec fn mark_of(state: App, item: BatchItem) -> Seq<char> {
    match item.state {
        ItemState::Queued => "·"@,
        ItemState::Running => state.glyphs.mark(Status::Running),
        ItemState::Committed | ItemState::Pushed => "✓"@,
        ItemState::Nothing(_) => if item.sha is Some {
            "✓"@
        } else {
            "–"@
        },
        ItemState::Failed(_) => "✗"@,
    }
}

/// What is said of a repo of a batch: how far it has come. One that was committed
/// always says so, whatever came of it after.
pub open spec fn note_of(state: App, b: Batch, item: BatchItem) -> Seq<char> {
    let sha = if item.sha is Some {
        item.sha->0@
    } else {
        "HEAD"@
    };
    match item.state {
        ItemState::Queued => if b.phase == BatchPhase::Done {
            "not attempted"@
        } else {
            "queued"@
        },
        ItemState::Running => (if b.phase == BatchPhase::Pushing {
            "pushing"@
        } else {
            "committing"@
        }) + "… "@ + dec(
            (if state.tick_count > b.started_tick {
                (state.tick_count - b.started_tick) / 10
            } else {
                0
            }) as nat,
        ) + "s"@,
        ItemState::Committed => "committed "@ + sha,
        ItemState::Pushed => "pushed "@ + sha,
        ItemState::Nothing(why) => given(item.sha is Some, "committed "@ + sha + " · "@) + why@,
        ItemState::Failed(err) => given(
            item.sha is Some,
            "committed "@ + sha + ", then failed: "@,
        ) + err@,
    }
}

/// A line of the queue: the repo's mark, its name in a column of its own, and what
/// is said of it as far as there is room.
pub open spec fn item_says(state: App, b: Batch, i: int, width: u16) -> Seq<char> {
    let item = b.items@[i];
    mark_of(state, item) + "  "@ + align_left(cut(item.spec@, 24), 24) + cut(
        note_of(state, b, item),
        (if width > 30 {
            width - 30
        } else {
            0
        }) as nat,
    )
}

/// The first repo shown of a queue with so many rows: all of them where they fit.
/// Where they do not, one row says what is left out, and the rest follow the repo
/// being worked on, with one above it where there is room for more than it alone.
pub open spec fn queue_top(b: Batch, rows: int) -> int {
    let n = b.items@.len() as int;
    let above = if rows <= 2 || b.cursor == 0 {
        b.cursor as int
    } else {
        b.cursor - 1
    };
    if n <= rows {
        0
    } else {
        least(above, n - rows + 1)
    }
}

proof fn lemma_note(state: App, b: Batch, item: BatchItem)
    ensures
        item_note(state, b, item).glyph == mark_of(state, item),
        item_note(state, b, item).note == note_of(state, b, item),
{
    assert(item_note(state, b, item).note =~= note_of(state, b, item));
}

/// The queue lists its repos in order, each with how far it has come. Where not all
/// of them fit the last row says how many are left out, and how many were
/// committed, failed and are waiting.
pub proof fn law_the_queue_lists_its_repos(state: App, b: Batch, inner: Rect)
    requires
        b.items@.len() > 0,
        inner.height > 0,
        b.cursor < b.items@.len(),
    ensures
        ({
            let lines = queue_lines(state, b, inner);
            let n = b.items@.len() as int;
            let rows = inner.height as int;
            let first = queue_top(b, rows);
            let count = if n <= rows {
                n
            } else {
                rows - 1
            };
            &&& 0 <= first && first + count <= n
            &&& lines.len() == least(n, rows)
            &&& forall|i: int|
                #![trigger lines[i]]
                0 <= i < count ==> said(lines[i]) == item_says(state, b, first + i, inner.width)
            &&& n > rows ==> said(lines.last()) == "… "@ + dec((n - count) as nat) + " more · "@ + dec(
                b.tally.committed as nat,
            ) + " committed · "@ + dec(b.tally.failed as nat) + " failed · "@ + dec(
                b.tally.untouched as nat,
            ) + " waiting"@
        }),
{
    let lines = queue_lines(state, b, inner);
    let n = b.items@.len() as int;
    let rows = inner.height as int;
    let first = queue_top(b, rows);
    let count = if n <= rows {
        n
    } else {
        rows - 1
    };
    assert forall|i: int|
        #![trigger lines[i]]
        0 <= i < count implies said(lines[i]) == item_says(state, b, first + i, inner.width) by {
        lemma_note(state, b, b.items@[first + i]);
        assert(lines[i] == item_line(state, b, first + i, inner.width));
        assert(said(lines[i]) =~= item_says(state, b, first + i, inner.width));
    }
    if n > rows {
        assert(said(lines.last()) =~= "… "@ + dec((n - count) as nat) + " more · "@ + dec(
            b.tally.committed as nat,
        ) + " committed · "@ + dec(b.tally.failed as nat) + " failed · "@ + dec(
            b.tally.untouched as nat,
        ) + " waiting"@);
    }
}

/// What a finished batch came to: how many repos were committed, and of each other
/// outcome how many had it, where any had.
pub open spec fn outcome(t: BatchTally) -> Seq<char> {
    dec(t.committed as nat) + " committed"@ + given(
        t.pushed > 0,
        " · "@ + (dec(t.pushed as nat) + " pushed"@),
    ) + given(t.failed > 0, " · "@ + (dec(t.failed as nat) + " failed"@)) + given(
        t.nothing > 0,
        " · "@ + (dec(t.nothing as nat) + " had nothing to do"@),
    ) + given(t.untouched > 0, " · "@ + (dec(t.untouched as nat) + " not attempted"@))
}

proof fn lemma_outcome(t: BatchTally)
    ensures
        joined(done_parts(t), " · "@, done_parts(t).len() as int) == outcome(t),
{
    let p = done_parts(t);
    reveal_with_fuel(joined, 6);
    assert(joined(p, " · "@, p.len() as int) =~= outcome(t));
}

/// The queue is called after how far the batch has come: what is about to be
/// committed, which repo is being worked on and of how many, which one it is
/// waiting on and with which keys, whether to push, or what came of it.
#[verifier::rlimit(40)]
pub proof fn law_the_queue_says_how_far_it_is(state: App, b: Batch)
    requires
        b.current matches Some(i) ==> i < b.items@.len(),
    ensures
        ({
            let km = state.keymap;
            let n = b.items@.len();
            batch_title(state, b) == " "@ + (match b.phase {
                BatchPhase::Compose => "Commit "@ + dec(n) + " repo"@ + given(n != 1, "s"@),
                BatchPhase::Committing => state.glyphs.mark(Status::Running) + " Committing · "@ + dec(
                    (b.cursor + 1) as nat,
                ) + "/"@ + dec(n),
                BatchPhase::Pushing => state.glyphs.mark(Status::Running) + " Pushing · "@ + dec(
                    (b.cursor + 1) as nat,
                ) + "/"@ + dec(n),
                BatchPhase::Paused => "Paused on "@ + (if b.current is Some {
                    b.items@[b.current->0 as int].spec@
                } else {
                    "?"@
                }) + " — "@ + shown(km.batch_retry@) + " retry · "@ + shown(km.batch_skip@)
                    + " skip · "@ + shown(km.git_view@) + " open · Esc stop"@,
                BatchPhase::AskPush => dec(b.tally.committed as nat) + " committed — "@ + shown(
                    km.git_push@,
                ) + " pushes them all, Esc finishes"@,
                BatchPhase::Done => "Done · "@ + outcome(b.tally),
            }) + " "@
        }),
{
    let km = state.keymap;
    let n = b.items@.len();
    lemma_vec_len(b.items);
    lemma_outcome(b.tally);
    reveal_strlit("");
    reveal_strlit(" ");
    reveal_strlit(" Commit ");
    reveal_strlit("Commit ");
    reveal_strlit(" Committing · ");
    reveal_strlit(" Pushing · ");
    reveal_strlit("Committing");
    reveal_strlit("Pushing");
    reveal_strlit(" · ");
    reveal_strlit("Paused on ");
    reveal_strlit(" Paused on ");
    reveal_strlit(" open · Esc stop ");
    reveal_strlit(" open · Esc stop");
    reveal_strlit(" pushes them all, Esc finishes ");
    reveal_strlit(" pushes them all, Esc finishes");
    reveal_strlit(" Done · ");
    reveal_strlit("Done · ");
    assert(" Commit "@ =~= " "@ + "Commit "@);
    assert(" Committing · "@ =~= " "@ + "Committing"@ + " · "@);
    assert(" Pushing · "@ =~= " "@ + "Pushing"@ + " · "@);
    assert(" Paused on "@ =~= " "@ + "Paused on "@);
    assert(" open · Esc stop "@ =~= " open · Esc stop"@ + " "@);
    assert(" pushes them all, Esc finishes "@ =~= " pushes them all, Esc finishes"@ + " "@);
    assert(" Done · "@ =~= " "@ + "Done · "@);
    let words = match b.phase {
        BatchPhase::Compose => "Commit "@ + dec(n) + " repo"@ + given(n != 1, "s"@),
        BatchPhase::Committing => state.glyphs.mark(Status::Running) + " Committing · "@ + dec(
            (b.cursor + 1) as nat,
        ) + "/"@ + dec(n),
        BatchPhase::Pushing => state.glyphs.mark(Status::Running) + " Pushing · "@ + dec(
            (b.cursor + 1) as nat,
        ) + "/"@ + dec(n),
        BatchPhase::Paused => "Paused on "@ + (if b.current is Some {
            b.items@[b.current->0 as int].spec@
        } else {
            "?"@
        }) + " — "@ + shown(km.batch_retry@) + " retry · "@ + shown(km.batch_skip@) + " skip · "@
            + shown(km.git_view@) + " open · Esc stop"@,
        BatchPhase::AskPush => dec(b.tally.committed as nat) + " committed — "@ + shown(
            km.git_push@,
        ) + " pushes them all, Esc finishes"@,
        BatchPhase::Done => "Done · "@ + outcome(b.tally),
    };
    assert(batch_title(state, b) =~= " "@ + words + " "@);
}

/// How many changed files the repo called `spec` has: those of the first row of
/// that name, where it has a checkout.
pub open spec fn files_of(repos: Seq<RepoCard>, spec: Seq<char>, n: nat) -> bool {
    if exists|i: int| 0 <= i < repos.len() && (#[trigger] repos[i]).spec@ == spec {
        exists|i: int|
            {
                &&& 0 <= i < repos.len() && (#[trigger] repos[i]).spec@ == spec
                &&& forall|j: int| 0 <= j < i ==> (#[trigger] repos[j]).spec@ != spec
                &&& n == if repos[i].git is Some {
                    repos[i].git->0.entries@.len()
                } else {
                    0
                }
            }
    } else {
        n == 0
    }
}

proof fn lemma_files_of(repos: Seq<RepoCard>, spec: Seq<char>)
    ensures
        files_of(repos, spec, changed_in(repos, spec)),
{
    law_the_first_is_found(repos, called(spec));
    let n = first_where(repos, called(spec)) as int;
    if n < repos.len() {
        assert(repos[n].spec@ == spec);
        assert forall|j: int| 0 <= j < n implies (#[trigger] repos[j]).spec@ != spec by {
            assert(!called(spec)(repos[j]));
        }
    } else {
        assert forall|j: int| 0 <= j < repos.len() implies (#[trigger] repos[j]).spec@ != spec by {
            assert(!called(spec)(repos[j]));
        }
    }
}

/// A batch is asked its message with the number of its repos and of the changed
/// files in all of them, and shows what has been typed of it.
pub proof fn law_the_message_covers_every_repo(
    state: App,
    b: Batch,
    typed: Seq<char>,
    area: Rect,
    f: spec_fn(int) -> nat,
)
    requires
        forall|i: int|
            #![trigger f(i)]
            0 <= i < b.items@.len() ==> files_of(state.repos@, b.items@[i].spec@, f(i)),
    ensures
        ({
            let n = b.items@.len();
            let dirty = sum_of(n as int, f);
            let ops = message_ops(state, b, typed, area);
            &&& ops.len() == 2 && ops[0] is Frame && ops[1] is Text
            &&& said(ops[0]->border.top[0]) == " One message for "@ + dec(n) + " repo"@ + given(
                n != 1,
                "s"@,
            ) + " · "@ + dec(dirty) + " changed file"@ + given(dirty != 1, "s"@) + " "@
            &&& said(ops[1]->lines[0]) == typed + "█"@
            &&& said(ops[1]->lines.last()) == "↵ start · Esc cancel"@
        }),
{
    let n = b.items@.len();
    lemma_vec_len(b.items);
    lemma_dirty(state, b, f, n as int);
    let dirty = sum_of(n as int, f);
    let ops = message_ops(state, b, typed, area);
    reveal_strlit("");
    assert(said(ops[0]->border.top[0]) =~= " One message for "@ + dec(n) + " repo"@ + given(
        n != 1,
        "s"@,
    ) + " · "@ + dec(dirty) + " changed file"@ + given(dirty != 1, "s"@) + " "@);
    assert(said(ops[1]->lines[0]) =~= typed + "█"@);
    assert(said(ops[1]->lines.last()) =~= "↵ start · Esc cancel"@);
}

proof fn lemma_dirty(state: App, b: Batch, f: spec_fn(int) -> nat, n: int)
    requires
        0 <= n <= b.items@.len(),
        forall|i: int|
            #![trigger f(i)]
            0 <= i < b.items@.len() ==> files_of(state.repos@, b.items@[i].spec@, f(i)),
    ensures
        changed_files(state, b, n) == sum_of(n, f),
    decreases n,
{
    if n > 0 {
        lemma_dirty(state, b, f, n - 1);
        let spec = b.items@[n - 1].spec@;
        lemma_files_of(state.repos@, spec);
        lemma_one_count(state.repos@, spec, f(n - 1), changed_in(state.repos@, spec));
    }
}

proof fn lemma_one_count(repos: Seq<RepoCard>, spec: Seq<char>, m: nat, n: nat)
    requires
        files_of(repos, spec, m),
        files_of(repos, spec, n),
    ensures
        m == n,
{
    if exists|i: int| 0 <= i < repos.len() && (#[trigger] repos[i]).spec@ == spec {
        let i = choose|i: int|
            {
                &&& 0 <= i < repos.len() && (#[trigger] repos[i]).spec@ == spec
                &&& forall|j: int| 0 <= j < i ==> (#[trigger] repos[j]).spec@ != spec
                &&& m == if repos[i].git is Some {
                    repos[i].git->0.entries@.len()
                } else {
                    0
                }
            };
        let k = choose|k: int|
            {
                &&& 0 <= k < repos.len() && (#[trigger] repos[k]).spec@ == spec
                &&& forall|j: int| 0 <= j < k ==> (#[trigger] repos[j]).spec@ != spec
                &&& n == if repos[k].git is Some {
                    repos[k].git->0.entries@.len()
                } else {
                    0
                }
            };
        if i < k {
            assert(repos[i].spec@ != spec);
        }
        if k < i {
            assert(repos[k].spec@ != spec);
        }
    }
}

/// Under the queue stands the message while it is being written, and after that the
/// output of the command in the repo being worked on, where there is one.
pub proof fn law_the_queue_stands_over_its_work(ops: Seq<OpV>, state: App, area: Rect, j: int)
    requires
        is_batch_view(ops, state, area),
        state.batch is Some,
        state.batch->0.current matches Some(i) ==> i < state.batch->0.items@.len(),
    ensures
        ({
            let b = state.batch->0;
            &&& ops.len() >= 2 && ops[0] is Frame && ops[1] is Text
            &&& said(ops[0]->border.top[0]) == batch_title(state, b)
            &&& ops[1]->lines == queue_lines(
                state,
                b,
                framed(ops[0]->Frame_area, Padding { left: 1, right: 1, top: 0, bottom: 0 }),
            )
            &&& b.input is Some ==> exists|at: Rect|
                ops.skip(2) == #[trigger] message_ops(state, b, b.input->0@, at)
            &&& b.input is None && b.current is Some && b.phase != BatchPhase::Compose && 0 <= j
                < state.git_ops@.len() && state.git_ops@[j].spec@
                == b.items@[b.current->0 as int].spec@ && (forall|i: int|
                0 <= i < j ==> (#[trigger] state.git_ops@[i]).spec@
                    != b.items@[b.current->0 as int].spec@) ==> exists|at: Rect|
                ops.skip(2) == #[trigger] op_ops(state, state.git_ops@[j].op, at)
        }),
{
    let b = state.batch->0;
    let pieces = choose|pieces: Seq<Rect>| #[trigger]
        split_into(pieces, true, batch_cut(state, b, area), area) && ops == batch_parts(
            state,
            b,
            pieces,
        );
    assert(said(ops[0]->border.top[0]) =~= batch_title(state, b));
    if b.input is Some {
        assert(ops.skip(2) =~= message_ops(state, b, b.input->0@, pieces[2]));
    } else if b.current is Some && b.phase != BatchPhase::Compose && 0 <= j < state.git_ops@.len()
        && state.git_ops@[j].spec@ == b.items@[b.current->0 as int].spec@ && (forall|i: int|
        0 <= i < j ==> (#[trigger] state.git_ops@[i]).spec@
            != b.items@[b.current->0 as int].spec@) {
        let spec = b.items@[b.current->0 as int].spec@;
        law_the_first_is_found(state.git_ops@, of_repo(spec));
        let n = first_where(state.git_ops@, of_repo(spec)) as int;
        assert(of_repo(spec)(state.git_ops@[j]));
        if n < j {
            assert(state.git_ops@[n].spec@ != spec);
        }
        assert(batch_op(state, b) == Some(j));
        assert(ops.skip(2) =~= op_ops(state, state.git_ops@[j].op, pieces[2]));
    }
}

} // verus!
