//! What the footer offers and says.

use vstd::prelude::*;
use vstd::string::*;

use crate::footer::{beacon, finder_keys, footer_ops, hint_spans, message_role, push_keys, screen_keys};
use crate::geometry::Rect;
use crate::keys::{pair, shown, HintV};
use crate::meaning::reading::{given, group_texts, said};

use crate::paint::Paint;
use crate::state::{App, BatchPhase};
use crate::text::dec;
use crate::wrap::texts;

verus! {

broadcast use {vstd::string::group_string_axioms, group_texts};

/// Hints one after another, each key before what it does, two blanks between them.
pub open spec fn hints_say(hints: Seq<HintV>, n: int) -> Seq<char>
    decreases n,
{
    if n <= 0 {
        Seq::empty()
    } else {
        hints_say(hints, n - 1) + given(n > 1, "  "@) + hints[n - 1].0 + " "@ + hints[n - 1].1
    }
}

proof fn lemma_hints(hints: Seq<HintV>, beacon: Option<u64>, n: int)
    requires
        0 <= n <= hints.len(),
    ensures
        texts(hint_spans(hints, beacon, n)) == " "@ + hints_say(hints, n),
    decreases n,
{
    if n > 0 {
        lemma_hints(hints, beacon, n - 1);
    }
    assert(texts(hint_spans(hints, beacon, n)) =~= " "@ + hints_say(hints, n));
}

/// The keys the footer is about: those of the question that is up, of the finder
/// that is, or of the screen.
pub open spec fn keys_up(state: App) -> Seq<HintV> {
    if state.push_prompt is Some {
        push_keys()
    } else if state.finder is Some {
        finder_keys()
    } else {
        screen_keys(state)
    }
}

/// The footer says its keys. On a screen it then says how many repos are marked, on
/// the dashboard and where any are; that something is pending, by its spinner; and
/// the last message.
#[verifier::rlimit(40)]
pub proof fn law_the_footer_says_its_keys(state: App, area: Rect)
    ensures
        ({
            let ops = footer_ops(state, area);
            let keys = keys_up(state);
            let bare = state.push_prompt is Some || state.finder is Some;
            &&& ops.len() == 1 && ops[0] is Text && ops[0]->Text_area == area
            &&& ops[0]->lines.len() == 1
            &&& said(ops[0]->lines[0]) == " "@ + hints_say(keys, keys.len() as int) + given(
                !bare && state.view is Repos && state.repo_marks@.len() > 0,
                "   ◆ "@ + dec(state.repo_marks@.len()) + " marked"@,
            ) + given(!bare && state.pending > 0, "  "@ + state.spinner@) + given(
                !bare && state.status_msg is Some,
                "   │   "@ + state.status_msg->0@,
            )
            &&& !bare && state.status_msg is Some ==> ops[0]->lines[0].spans.last().style.fg
                == Some(Paint::Plain(message_role(state.status_kind)))
        }),
{
    let keys = keys_up(state);
    let lit = if state.push_prompt is Some || state.finder is Some {
        None
    } else {
        beacon(state)
    };
    lemma_hints(keys, lit, keys.len() as int);
    let bare = state.push_prompt is Some || state.finder is Some;
    assert(said(footer_ops(state, area)[0]->lines[0]) =~= " "@ + hints_say(keys, keys.len() as int)
        + given(
        !bare && state.view is Repos && state.repo_marks@.len() > 0,
        "   ◆ "@ + dec(state.repo_marks@.len()) + " marked"@,
    ) + given(!bare && state.pending > 0, "  "@ + state.spinner@) + given(
        !bare && state.status_msg is Some,
        "   │   "@ + state.status_msg->0@,
    ));
}

/// Whether the screen offers `key` to do `what`.
pub open spec fn offers(state: App, key: Seq<char>, what: Seq<char>) -> bool {
    screen_keys(state).contains((key, what))
}

/// One where `yes` holds, nothing otherwise.
pub open spec fn one(yes: bool) -> int {
    if yes {
        1
    } else {
        0
    }
}

/// The dashboard offers to commit what is marked exactly when something is, and to show
/// the services exactly when there are any.
pub proof fn law_the_dashboard_offers_its_keys(state: App)
    requires
        state.view is Repos,
    ensures
        offers(state, "↵"@, "open repo"@),
        offers(state, shown(state.keymap.git_view@), "changes"@),
        state.repo_marks@.len() == 0 ==> offers(state, shown(state.keymap.repo_mark@), "mark"@),
        state.repo_marks@.len() > 0 ==> offers(state, shown(state.keymap.repo_mark@), "mark/unmark"@),
        state.repo_marks@.len() > 0 ==> offers(state, shown(state.keymap.batch_commit@), "commit marked"@),
        offers(state, shown(state.keymap.refresh@), "refresh"@),
        offers(state, shown(state.keymap.finder@), "find"@),
        state.services@.len() > 0 ==> offers(state, shown(state.keymap.services@), "services"@),
        offers(state, shown(state.keymap.open_browser@), "open"@),
        offers(state, shown(state.keymap.quit@), "quit"@),
        screen_keys(state).len() == 7 + one(
            state.repo_marks@.len() == 0,
        ) + one(
            state.repo_marks@.len() > 0,
        ) + one(
            state.repo_marks@.len() > 0,
        ) + one(
            state.services@.len() > 0,
        ),
{
    let keys = screen_keys(state);
    assert(keys[0] == ("↵"@, "open repo"@));
    assert(keys[1] == (shown(state.keymap.git_view@), "changes"@));
    if state.repo_marks@.len() == 0 {
        assert(keys[2] == (shown(state.keymap.repo_mark@), "mark"@));
    }
    let a = one(state.repo_marks@.len() == 0);
    if state.repo_marks@.len() > 0 {
        assert(keys[2 + a] == (shown(state.keymap.repo_mark@), "mark/unmark"@));
    }
    let b = one(state.repo_marks@.len() > 0);
    if state.repo_marks@.len() > 0 {
        assert(keys[2 + a + b] == (shown(state.keymap.batch_commit@), "commit marked"@));
    }
    assert(keys[2 + a + b + b] == (shown(state.keymap.refresh@), "refresh"@));
    assert(keys[3 + a + b + b] == (shown(state.keymap.finder@), "find"@));
    if state.services@.len() > 0 {
        assert(keys[4 + a + b + b] == (shown(state.keymap.services@), "services"@));
    }
    let c = one(state.services@.len() > 0);
    assert(keys[4 + a + b + b + c] == (shown(state.keymap.open_browser@), "open"@));
    assert(keys[5 + a + b + b + c] == (shown(state.keymap.quit@), "quit"@));
}

/// While a batch has no message its keys write one.
pub proof fn law_a_message_offers_its_keys(state: App)
    requires
        state.view is BatchCommit,
        state.batch is Some,
        state.batch->0.phase == BatchPhase::Compose,
    ensures
        offers(state, "type"@, "message for every repo"@),
        offers(state, "Bksp"@, "delete"@),
        offers(state, "↵"@, "start"@),
        offers(state, "Esc"@, "cancel"@),
        screen_keys(state).len() == 5,
{
    let keys = screen_keys(state);
    assert(keys[0] == ("type"@, "message for every repo"@));
    assert(keys[1] == ("Bksp"@, "delete"@));
    assert(keys[2] == ("↵"@, "start"@));
    assert(keys[3] == ("Esc"@, "cancel"@));
}

/// A batch that waits on a failure offers to try again, to skip it, to open the repo and
/// to stop.
pub proof fn law_a_failure_offers_its_keys(state: App)
    requires
        state.view is BatchCommit,
        state.batch is Some,
        state.batch->0.phase == BatchPhase::Paused,
    ensures
        offers(state, shown(state.keymap.batch_retry@), "retry"@),
        offers(state, shown(state.keymap.batch_skip@), "skip"@),
        offers(state, shown(state.keymap.git_view@), "open repo"@),
        offers(state, pair(state.keymap.down@, state.keymap.up@), "scroll"@),
        offers(state, pair(state.keymap.next_error@, state.keymap.prev_error@), "next/prev error"@),
        offers(state, shown(state.keymap.back@), "stop"@),
        screen_keys(state).len() == 7,
{
    let keys = screen_keys(state);
    assert(keys[0] == (shown(state.keymap.batch_retry@), "retry"@));
    assert(keys[1] == (shown(state.keymap.batch_skip@), "skip"@));
    assert(keys[2] == (shown(state.keymap.git_view@), "open repo"@));
    assert(keys[3] == (pair(state.keymap.down@, state.keymap.up@), "scroll"@));
    assert(keys[4] == (pair(state.keymap.next_error@, state.keymap.prev_error@), "next/prev error"@));
    assert(keys[5] == (shown(state.keymap.back@), "stop"@));
}

/// A batch that has committed offers to push it all, and not to.
pub proof fn law_a_push_offers_its_keys(state: App)
    requires
        state.view is BatchCommit,
        state.batch is Some,
        state.batch->0.phase == BatchPhase::AskPush,
    ensures
        offers(state, shown(state.keymap.git_push@), "push all"@),
        offers(state, shown(state.keymap.back@), "done, don't push"@),
        screen_keys(state).len() == 3,
{
    let keys = screen_keys(state);
    assert(keys[0] == (shown(state.keymap.git_push@), "push all"@));
    assert(keys[1] == (shown(state.keymap.back@), "done, don't push"@));
}

/// A finished batch offers the way back.
pub proof fn law_a_finished_batch_offers_its_keys(state: App)
    requires
        state.view is BatchCommit,
        state.batch is Some,
        state.batch->0.phase == BatchPhase::Done,
    ensures
        state.batch->0.returning ==> offers(state, shown(state.keymap.back@), "back to repos now"@),
        !state.batch->0.returning ==> offers(state, shown(state.keymap.back@), "back to repos"@),
        screen_keys(state).len() == 1 + one(
            state.batch->0.returning,
        ) + one(
            !state.batch->0.returning,
        ),
{
    let keys = screen_keys(state);
    if state.batch->0.returning {
        assert(keys[0] == (shown(state.keymap.back@), "back to repos now"@));
    }
    let a = one(state.batch->0.returning);
    if !state.batch->0.returning {
        assert(keys[a] == (shown(state.keymap.back@), "back to repos"@));
    }
    let b = one(!state.batch->0.returning);
}

/// A batch at work can be stopped after the repo it is on.
pub proof fn law_a_batch_at_work_offers_its_keys(state: App)
    requires
        state.view is BatchCommit,
        state.batch is Some,
        state.batch->0.phase == BatchPhase::Committing || state.batch->0.phase == BatchPhase::Pushing,
    ensures
        offers(state, pair(state.keymap.down@, state.keymap.up@), "scroll"@),
        offers(state, shown(state.keymap.yank@), "yank output"@),
        offers(state, shown(state.keymap.back@), "stop after this repo"@),
        screen_keys(state).len() == 4,
{
    let keys = screen_keys(state);
    assert(keys[0] == (pair(state.keymap.down@, state.keymap.up@), "scroll"@));
    assert(keys[1] == (shown(state.keymap.yank@), "yank output"@));
    assert(keys[2] == (shown(state.keymap.back@), "stop after this repo"@));
}

/// While a commit message is being typed the keys are those of typing it.
pub proof fn law_a_commit_message_offers_its_keys(state: App)
    requires
        state.view is GitStatus,
        state.git_view is Some,
        state.git_view->0.commit_input is Some,
    ensures
        offers(state, "type"@, "message"@),
        offers(state, "Bksp"@, "delete"@),
        offers(state, "↵"@, "commit"@),
        offers(state, "Esc"@, "cancel"@),
        screen_keys(state).len() == 5,
{
    let keys = screen_keys(state);
    assert(keys[0] == ("type"@, "message"@));
    assert(keys[1] == ("Bksp"@, "delete"@));
    assert(keys[2] == ("↵"@, "commit"@));
    assert(keys[3] == ("Esc"@, "cancel"@));
}

/// Over the output of a command a push is offered only once the command is over.
pub proof fn law_hook_output_offers_its_keys(state: App)
    requires
        state.view is GitStatus,
        state.git_view matches Some(g) ==> g.commit_input is None,
        state.current_op is Some,
    ensures
        offers(state, pair(state.keymap.scroll_top@, state.keymap.scroll_bottom@), "top/tail"@),
        state.current_op->0.finished ==> offers(state, shown(state.keymap.git_push@), "push"@),
        offers(state, shown(state.keymap.refresh@), "refresh"@),
        screen_keys(state).len() == 3 + one(
            state.current_op->0.finished,
        ),
{
    let keys = screen_keys(state);
    assert(keys[0] == (pair(state.keymap.scroll_top@, state.keymap.scroll_bottom@), "top/tail"@));
    if state.current_op->0.finished {
        assert(keys[1] == (shown(state.keymap.git_push@), "push"@));
    }
    let a = one(state.current_op->0.finished);
    assert(keys[1 + a] == (shown(state.keymap.refresh@), "refresh"@));
}

/// The working tree offers to stage, commit and push; to run CI only where there is any,
/// and there the pull request that is open or a new one.
#[verifier::rlimit(40)]
pub proof fn law_the_tree_offers_its_keys(state: App)
    requires
        state.view is GitStatus,
        state.git_view matches Some(g) ==> g.commit_input is None,
        state.current_op is None,
    ensures
        offers(state, pair(state.keymap.down@, state.keymap.up@), "move"@),
        offers(state, shown(state.keymap.git_stage@), "stage/unstage"@),
        offers(state, shown(state.keymap.git_stage_all@), "stage all"@),
        offers(state, shown(state.keymap.git_commit@), "commit"@),
        offers(state, shown(state.keymap.git_push@), "push"@),
        state.git_view is Some && state.git_view->0.has_ci ==> offers(state, shown(state.keymap.trigger@), "run CI"@),
        state.git_view is Some && state.git_view->0.has_ci && state.git_view->0.open_pr is Some ==> offers(state, shown(state.keymap.open_browser@), "open PR"@),
        state.git_view is Some && state.git_view->0.has_ci && state.git_view->0.open_pr is None ==> offers(state, shown(state.keymap.open_browser@), "new PR"@),
        offers(state, shown(state.keymap.refresh@), "refresh"@),
        offers(state, shown(state.keymap.back@), "back"@),
        screen_keys(state).len() == 8 + one(
            state.git_view is Some && state.git_view->0.has_ci,
        ) + one(
            state.git_view is Some && state.git_view->0.has_ci && state.git_view->0.open_pr is Some,
        ) + one(
            state.git_view is Some && state.git_view->0.has_ci && state.git_view->0.open_pr is None,
        ),
{
    let keys = screen_keys(state);
    assert(keys[0] == (pair(state.keymap.down@, state.keymap.up@), "move"@));
    assert(keys[1] == (shown(state.keymap.git_stage@), "stage/unstage"@));
    assert(keys[2] == (shown(state.keymap.git_stage_all@), "stage all"@));
    assert(keys[3] == (shown(state.keymap.git_commit@), "commit"@));
    assert(keys[4] == (shown(state.keymap.git_push@), "push"@));
    if state.git_view is Some && state.git_view->0.has_ci {
        assert(keys[5] == (shown(state.keymap.trigger@), "run CI"@));
    }
    let a = one(state.git_view is Some && state.git_view->0.has_ci);
    if state.git_view is Some && state.git_view->0.has_ci && state.git_view->0.open_pr is Some {
        assert(keys[5 + a] == (shown(state.keymap.open_browser@), "open PR"@));
    }
    let b = one(state.git_view is Some && state.git_view->0.has_ci && state.git_view->0.open_pr is Some);
    if state.git_view is Some && state.git_view->0.has_ci && state.git_view->0.open_pr is None {
        assert(keys[5 + a + b] == (shown(state.keymap.open_browser@), "new PR"@));
    }
    let c = one(state.git_view is Some && state.git_view->0.has_ci && state.git_view->0.open_pr is None);
    assert(keys[5 + a + b + c] == (shown(state.keymap.refresh@), "refresh"@));
    assert(keys[6 + a + b + c] == (shown(state.keymap.back@), "back"@));
}

/// The log offers its matches while it is searched and its steps otherwise, and to show
/// what is folded, or to fold, where anything can be.
#[verifier::rlimit(40)]
pub proof fn law_the_log_offers_its_keys(state: App)
    requires
        state.view is Logs,
    ensures
        offers(state, pair(state.keymap.down@, state.keymap.up@), "move"@),
        offers(state, pair(state.keymap.page_down@, state.keymap.page_up@), "page"@),
        state.log.query is Some ==> offers(state, pair(state.keymap.next_step@, state.keymap.prev_step@), "match"@),
        state.log.query is None ==> offers(state, pair(state.keymap.next_step@, state.keymap.prev_step@), "step"@),
        offers(state, shown(state.keymap.all_steps@), "all"@),
        offers(state, shown(state.keymap.search@), "search"@),
        offers(state, pair(state.keymap.next_error@, state.keymap.prev_error@), "error"@),
        state.log.focus ==> offers(state, shown(state.keymap.log_focus@), "focus ✓"@),
        !state.log.focus ==> offers(state, shown(state.keymap.log_focus@), "focus"@),
        state.log.focus && state.log.folds > 0 ==> offers(state, "↵"@, "show hidden"@),
        !(state.log.focus && state.log.folds > 0) && state.log.groups ==> offers(state, "↵"@, "expand/collapse"@),
        offers(state, shown(state.keymap.open_browser@), "open"@),
        offers(state, shown(state.keymap.back@), "back"@),
        offers(state, shown(state.keymap.quit@), "quit"@),
        screen_keys(state).len() == 9 + one(
            state.log.query is Some,
        ) + one(
            state.log.query is None,
        ) + one(
            state.log.focus,
        ) + one(
            !state.log.focus,
        ) + one(
            state.log.focus && state.log.folds > 0,
        ) + one(
            !(state.log.focus && state.log.folds > 0) && state.log.groups,
        ),
{
    let keys = screen_keys(state);
    assert(keys[0] == (pair(state.keymap.down@, state.keymap.up@), "move"@));
    assert(keys[1] == (pair(state.keymap.page_down@, state.keymap.page_up@), "page"@));
    if state.log.query is Some {
        assert(keys[2] == (pair(state.keymap.next_step@, state.keymap.prev_step@), "match"@));
    }
    let a = one(state.log.query is Some);
    if state.log.query is None {
        assert(keys[2 + a] == (pair(state.keymap.next_step@, state.keymap.prev_step@), "step"@));
    }
    let b = one(state.log.query is None);
    assert(keys[2 + a + b] == (shown(state.keymap.all_steps@), "all"@));
    assert(keys[3 + a + b] == (shown(state.keymap.search@), "search"@));
    assert(keys[4 + a + b] == (pair(state.keymap.next_error@, state.keymap.prev_error@), "error"@));
    if state.log.focus {
        assert(keys[5 + a + b] == (shown(state.keymap.log_focus@), "focus ✓"@));
    }
    let c = one(state.log.focus);
    if !state.log.focus {
        assert(keys[5 + a + b + c] == (shown(state.keymap.log_focus@), "focus"@));
    }
    let d = one(!state.log.focus);
    if state.log.focus && state.log.folds > 0 {
        assert(keys[5 + a + b + c + d] == ("↵"@, "show hidden"@));
    }
    let e = one(state.log.focus && state.log.folds > 0);
    if !(state.log.focus && state.log.folds > 0) && state.log.groups {
        assert(keys[5 + a + b + c + d + e] == ("↵"@, "expand/collapse"@));
    }
    let f = one(!(state.log.focus && state.log.folds > 0) && state.log.groups);
    assert(keys[5 + a + b + c + d + e + f] == (shown(state.keymap.open_browser@), "open"@));
    assert(keys[6 + a + b + c + d + e + f] == (shown(state.keymap.back@), "back"@));
    assert(keys[7 + a + b + c + d + e + f] == (shown(state.keymap.quit@), "quit"@));
}

/// The diff offers to scroll, to walk its files and to stage.
pub proof fn law_the_diff_offers_its_keys(state: App)
    requires
        state.view is GitDiff,
    ensures
        offers(state, pair(state.keymap.down@, state.keymap.up@), "scroll"@),
        offers(state, pair(state.keymap.page_down@, state.keymap.page_up@), "page"@),
        offers(state, pair(state.keymap.next_step@, state.keymap.prev_step@), "next/prev file"@),
        offers(state, shown(state.keymap.git_stage@), "stage/unstage"@),
        offers(state, shown(state.keymap.back@), "back"@),
        screen_keys(state).len() == 6,
{
    let keys = screen_keys(state);
    assert(keys[0] == (pair(state.keymap.down@, state.keymap.up@), "scroll"@));
    assert(keys[1] == (pair(state.keymap.page_down@, state.keymap.page_up@), "page"@));
    assert(keys[2] == (pair(state.keymap.next_step@, state.keymap.prev_step@), "next/prev file"@));
    assert(keys[3] == (shown(state.keymap.git_stage@), "stage/unstage"@));
    assert(keys[4] == (shown(state.keymap.back@), "back"@));
}

/// Workflows offer their runs, and to be triggered and watched.
pub proof fn law_workflows_offer_their_keys(state: App)
    requires
        state.view is Workflows,
    ensures
        offers(state, "↵"@, "runs"@),
        offers(state, shown(state.keymap.trigger@), "trigger"@),
        offers(state, shown(state.keymap.watch@), "watch"@),
        offers(state, shown(state.keymap.finder@), "find"@),
        offers(state, shown(state.keymap.repos_view@), "repos"@),
        offers(state, shown(state.keymap.open_browser@), "open"@),
        offers(state, shown(state.keymap.quit@), "quit"@),
        screen_keys(state).len() == 8,
{
    let keys = screen_keys(state);
    assert(keys[0] == ("↵"@, "runs"@));
    assert(keys[1] == (shown(state.keymap.trigger@), "trigger"@));
    assert(keys[2] == (shown(state.keymap.watch@), "watch"@));
    assert(keys[3] == (shown(state.keymap.finder@), "find"@));
    assert(keys[4] == (shown(state.keymap.repos_view@), "repos"@));
    assert(keys[5] == (shown(state.keymap.open_browser@), "open"@));
    assert(keys[6] == (shown(state.keymap.quit@), "quit"@));
}

/// Runs offer their detail, and to be triggered, run again, cancelled and watched.
pub proof fn law_runs_offer_their_keys(state: App)
    requires
        state.view is Runs,
    ensures
        offers(state, "↵"@, "detail"@),
        offers(state, shown(state.keymap.trigger@), "trigger"@),
        offers(state, shown(state.keymap.rerun@), "rerun"@),
        offers(state, shown(state.keymap.rerun_failed@), "rerun-failed"@),
        offers(state, shown(state.keymap.cancel_run@), "cancel"@),
        offers(state, shown(state.keymap.watch@), "watch"@),
        offers(state, shown(state.keymap.finder@), "find"@),
        offers(state, shown(state.keymap.open_browser@), "open"@),
        offers(state, shown(state.keymap.back@), "back"@),
        screen_keys(state).len() == 10,
{
    let keys = screen_keys(state);
    assert(keys[0] == ("↵"@, "detail"@));
    assert(keys[1] == (shown(state.keymap.trigger@), "trigger"@));
    assert(keys[2] == (shown(state.keymap.rerun@), "rerun"@));
    assert(keys[3] == (shown(state.keymap.rerun_failed@), "rerun-failed"@));
    assert(keys[4] == (shown(state.keymap.cancel_run@), "cancel"@));
    assert(keys[5] == (shown(state.keymap.watch@), "watch"@));
    assert(keys[6] == (shown(state.keymap.finder@), "find"@));
    assert(keys[7] == (shown(state.keymap.open_browser@), "open"@));
    assert(keys[8] == (shown(state.keymap.back@), "back"@));
}

/// A run offers its steps, their logs, and to be held against the last that succeeded.
pub proof fn law_a_run_offers_its_keys(state: App)
    requires
        state.view is RunDetail,
    ensures
        offers(state, pair(state.keymap.down@, state.keymap.up@), "step"@),
        offers(state, "↵/"@ + shown(state.keymap.open_logs@), "logs"@),
        offers(state, shown(state.keymap.open_browser@), "open"@),
        offers(state, shown(state.keymap.diff@), "diff"@),
        offers(state, shown(state.keymap.back@), "back"@),
        offers(state, shown(state.keymap.quit@), "quit"@),
        screen_keys(state).len() == 7,
{
    let keys = screen_keys(state);
    assert(keys[0] == (pair(state.keymap.down@, state.keymap.up@), "step"@));
    assert(keys[1] == ("↵/"@ + shown(state.keymap.open_logs@), "logs"@));
    assert(keys[2] == (shown(state.keymap.open_browser@), "open"@));
    assert(keys[3] == (shown(state.keymap.diff@), "diff"@));
    assert(keys[4] == (shown(state.keymap.back@), "back"@));
    assert(keys[5] == (shown(state.keymap.quit@), "quit"@));
}

/// While an input is being typed the keys are those of typing it.
pub proof fn law_an_input_being_typed_offers_its_keys(state: App)
    requires
        state.view is TriggerPrompt,
        state.trigger_prompt is Some && state.trigger_prompt->0.editing,
    ensures
        offers(state, "type"@, "edit"@),
        offers(state, "Bksp"@, "delete"@),
        offers(state, "Enter/Esc"@, "done"@),
        screen_keys(state).len() == 4,
{
    let keys = screen_keys(state);
    assert(keys[0] == ("type"@, "edit"@));
    assert(keys[1] == ("Bksp"@, "delete"@));
    assert(keys[2] == ("Enter/Esc"@, "done"@));
}

/// Inputs are walked, cycled, edited and sent off.
pub proof fn law_inputs_offer_their_keys(state: App)
    requires
        state.view is TriggerPrompt,
        !(state.trigger_prompt is Some && state.trigger_prompt->0.editing),
    ensures
        offers(state, pair(state.keymap.down@, state.keymap.up@), "move"@),
        offers(state, shown(state.keymap.tp_cycle@), "cycle"@),
        offers(state, "↵/"@ + shown(state.keymap.tp_edit@), "edit"@),
        offers(state, shown(state.keymap.tp_submit@), "trigger"@),
        offers(state, shown(state.keymap.back@), "cancel"@),
        screen_keys(state).len() == 6,
{
    let keys = screen_keys(state);
    assert(keys[0] == (pair(state.keymap.down@, state.keymap.up@), "move"@));
    assert(keys[1] == (shown(state.keymap.tp_cycle@), "cycle"@));
    assert(keys[2] == ("↵/"@ + shown(state.keymap.tp_edit@), "edit"@));
    assert(keys[3] == (shown(state.keymap.tp_submit@), "trigger"@));
    assert(keys[4] == (shown(state.keymap.back@), "cancel"@));
}

/// What is only looked at can be opened and left.
pub proof fn law_the_other_screens_offer_their_keys(state: App)
    requires
        state.view is Watch || state.view is Diff,
    ensures
        offers(state, shown(state.keymap.open_browser@), "open"@),
        offers(state, shown(state.keymap.back@), "back"@),
        offers(state, shown(state.keymap.quit@), "quit"@),
        screen_keys(state).len() == 4,
{
    let keys = screen_keys(state);
    assert(keys[0] == (shown(state.keymap.open_browser@), "open"@));
    assert(keys[1] == (shown(state.keymap.back@), "back"@));
    assert(keys[2] == (shown(state.keymap.quit@), "quit"@));
}

/// The push question and the finder have keys of their own.
pub proof fn law_questions_have_their_own_keys()
    ensures
        push_keys().contains(("↵"@, "take the highlighted answer"@)),
        push_keys().contains(("y/n"@, "answer outright"@)),
        push_keys().contains(("←/→"@, "switch"@)),
        push_keys().contains(("Esc"@, "not now"@)),
        push_keys().len() == 4,
        finder_keys().contains(("type"@, "filter"@)),
        finder_keys().contains(("↑/↓"@, "move"@)),
        finder_keys().contains(("↵"@, "select"@)),
        finder_keys().contains(("Esc"@, "cancel"@)),
        finder_keys().len() == 4,
{
    let p = push_keys();
    assert(p[0] == ("↵"@, "take the highlighted answer"@));
    assert(p[1] == ("y/n"@, "answer outright"@));
    assert(p[2] == ("←/→"@, "switch"@));
    assert(p[3] == ("Esc"@, "not now"@));
    let f = finder_keys();
    assert(f[0] == ("type"@, "filter"@));
    assert(f[1] == ("↑/↓"@, "move"@));
    assert(f[2] == ("↵"@, "select"@));
    assert(f[3] == ("Esc"@, "cancel"@));
}

/// The way to the help is lit for the first hundred ticks of a session, until the
/// help has been opened, and it alone: every other hint is always in the same colours.
pub proof fn law_the_way_to_help_is_lit_at_first(state: App)
    ensures
        beacon(state) == (if state.help_seen || state.tick_count >= 100 {
            None
        } else {
            Some(state.tick_count)
        }),
{
}

proof fn lemma_unlit(hints: Seq<HintV>, b: Option<u64>, n: int)
    requires
        0 <= n < hints.len() || b is None,
        0 <= n <= hints.len(),
    ensures
        hint_spans(hints, b, n) == hint_spans(hints, None, n),
    decreases n,
{
    if n > 0 {
        lemma_unlit(hints, b, n - 1);
    }
}

/// However the last hint is lit, the others look the same.
pub proof fn law_only_the_last_hint_is_lit(hints: Seq<HintV>, b: Option<u64>)
    requires
        hints.len() > 0,
    ensures
        ({
            let n = hints.len() as int;
            let v = hint_spans(hints, b, n);
            let w = hint_spans(hints, None, n);
            &&& v.len() == w.len() && v.len() >= 3
            &&& v.take(v.len() - 3) == w.take(w.len() - 3)
            &&& forall|i: int| 0 <= i < v.len() ==> (#[trigger] v[i]).text == w[i].text
        }),
{
    let n = hints.len() as int;
    lemma_unlit(hints, b, n - 1);
    let v = hint_spans(hints, b, n);
    let w = hint_spans(hints, None, n);
    assert(v.take(v.len() - 3) =~= w.take(w.len() - 3));
    assert forall|i: int| 0 <= i < v.len() implies (#[trigger] v[i]).text == w[i].text by {
        if i < v.len() - 3 {
            assert(v[i] == v.take(v.len() - 3)[i]);
            assert(w[i] == w.take(w.len() - 3)[i]);
        }
    }
}

} // verus!
