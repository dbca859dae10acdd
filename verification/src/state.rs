//! What the screen is drawn from: the state of the application, as plain data.

use vstd::prelude::*;

use crate::clock::Stamp;

verus! {

/// The screens.
#[derive(Clone, Copy, PartialEq, Eq, Debug, Structural)]
pub enum Screen {
    Repos,
    GitStatus,
    GitDiff,
    Workflows,
    Runs,
    RunDetail,
    Logs,
    Watch,
    TriggerPrompt,
    Diff,
    BatchCommit,
}

/// Where a run, a job or a step stands.
#[derive(Clone, Copy, PartialEq, Eq, Debug, Structural)]
pub enum Status {
    Success,
    Failure,
    Running,
    Queued,
    Cancelled,
    Skipped,
    Unknown,
}

impl Status {
    /// Whether it is over, one way or another.
    #[verifier::allow_in_spec]
    pub fn is_terminal(self) -> bool
        returns
            (self == Status::Success || self == Status::Failure || self == Status::Cancelled || self
                == Status::Skipped),
    {
        match self {
            Status::Success | Status::Failure | Status::Cancelled | Status::Skipped => true,
            _ => false,
        }
    }

    /// Its name, spelled out.
    #[verifier::allow_in_spec]
    pub fn name(self) -> &'static str
        returns
            (match self {
                Status::Success => "Success",
                Status::Failure => "Failure",
                Status::Running => "Running",
                Status::Queued => "Queued",
                Status::Cancelled => "Cancelled",
                Status::Skipped => "Skipped",
                Status::Unknown => "Unknown",
            }),
    {
        match self {
            Status::Success => "Success",
            Status::Failure => "Failure",
            Status::Running => "Running",
            Status::Queued => "Queued",
            Status::Cancelled => "Cancelled",
            Status::Skipped => "Skipped",
            Status::Unknown => "Unknown",
        }
    }
}

/// How loudly the footer's message speaks.
#[derive(Clone, Copy, PartialEq, Eq, Debug, Structural)]
pub enum StatusKind {
    Info,
    Success,
    Error,
}

/// What a monitor says of its service.
#[derive(Clone, Copy, PartialEq, Eq, Debug, Structural)]
pub enum ServiceState {
    Up,
    Down,
    Pending,
    Maintenance,
}

/// A share of the day, rounded for each of the two places that show it.
#[derive(Clone, Copy, PartialEq, Eq, Debug, Structural)]
pub struct Uptime {
    /// Tenths of a percent.
    pub tenths: u32,
    /// Whole percents.
    pub whole: u32,
}

/// One monitored service.
#[derive(Debug)]
pub struct Service {
    pub name: String,
    pub state: ServiceState,
    pub ping_ms: Option<u64>,
    pub uptime: Option<Uptime>,
    pub group: String,
    pub tags: Vec<String>,
    /// The dashboard row it decorates.
    pub repo: Option<String>,
}

/// One workflow run.
#[derive(Debug)]
pub struct Run {
    pub id: u64,
    pub status: Status,
    pub display_title: String,
    pub head_branch: String,
    pub commit_msg: String,
    pub created_at: Stamp,
    pub updated_at: Stamp,
}

/// One step of a job.
#[derive(Debug)]
pub struct Step {
    pub name: String,
    pub status: Status,
    pub started_at: Option<Stamp>,
    pub completed_at: Option<Stamp>,
    /// How long it took against the longest step of its job, in tenths,
    /// rounded.
    pub tenths: usize,
}

/// One job of a run.
#[derive(Debug)]
pub struct Job {
    pub id: u64,
    pub name: String,
    pub status: Status,
    pub steps: Vec<Step>,
}

/// A run with its jobs.
#[derive(Debug)]
pub struct RunDetail {
    pub run: Run,
    pub jobs: Vec<Job>,
    /// The name of the step in flight.
    pub current_step: Option<String>,
}

/// Why a repo could not be fetched.
#[derive(Clone, Copy, PartialEq, Eq, Debug, Structural)]
pub enum Fault {
    RateLimited,
    Throttled,
    Other,
    /// Any of the faults that carry a fixed wording, told apart by number.
    Known(u8),
}

/// A failed fetch.
#[derive(Debug)]
pub struct ApiError {
    pub fault: Fault,
    pub text: String,
    /// The fault's short name.
    pub label: String,
    /// What can be done about it.
    pub detail: String,
}

/// A working tree at a glance.
#[derive(Debug)]
pub struct TreeState {
    pub branch: String,
    pub ahead: u64,
    pub behind: u64,
    pub has_upstream: bool,
    pub entries: Vec<TreeEntry>,
}

/// One changed file.
#[derive(Debug)]
pub struct TreeEntry {
    pub staged: bool,
    pub unstaged: bool,
    pub label: String,
    pub code: String,
    pub path: String,
}

/// A run that has landed: when, and how it ended.
#[derive(Clone, Copy, PartialEq, Eq, Debug, Structural)]
pub struct Landing {
    pub at: u64,
    pub verdict: Status,
}

/// One row of the dashboard.
#[derive(Debug)]
pub struct RepoCard {
    pub spec: String,
    pub error: Option<ApiError>,
    pub git: Option<TreeState>,
    /// Whether its origin is on a forge that is recognised.
    pub remote: bool,
    pub has_ci: bool,
    pub loaded: bool,
    /// Newest first.
    pub runs: Vec<Run>,
    pub ok: u32,
    pub fail: u32,
    pub landing: Option<Landing>,
    pub changed_tick: Option<u64>,
    /// The monitors mapped to this row.
    pub monitors: Vec<Service>,
}

impl RepoCard {
    /// The newest run's status.
    pub open spec fn latest(&self) -> Option<Status> {
        if self.runs@.len() > 0 {
            Some(self.runs@[0].status)
        } else {
            None
        }
    }

    /// The newest run's status.
    pub fn latest_status(&self) -> (r: Option<Status>)
        ensures
            r == self.latest(),
    {
        if self.runs.len() > 0 {
            Some(self.runs[0].status)
        } else {
            None
        }
    }
}

/// A run in flight, and the dashboard row it belongs to.
#[derive(Debug)]
pub struct Progress {
    pub repo: usize,
    pub detail: RunDetail,
}

/// The run followed in the dashboard's side pane.
#[derive(Debug)]
pub struct Followed {
    pub spec: String,
    pub detail: RunDetail,
    pub job: Job,
}

/// The newest lines of a running job's log.
#[derive(Debug)]
pub struct Tail {
    pub job_id: u64,
    pub job_name: String,
    pub lines: Vec<String>,
}

/// A push being followed until its run settles.
#[derive(Debug)]
pub struct PushWatch {
    pub spec: String,
    pub run: Option<Run>,
}

/// The API budget.
#[derive(Clone, Copy, PartialEq, Eq, Debug, Structural)]
pub struct Quota {
    pub percent: u32,
    pub critical: bool,
    pub reset: Stamp,
}

/// One line a git command printed.
#[derive(Debug)]
pub struct OutputLine {
    pub text: String,
    pub error: bool,
    pub warn: bool,
}

/// A commit or push, running or just finished.
#[derive(Debug)]
pub struct GitOp {
    pub verb: String,
    pub label: String,
    pub finished: bool,
    pub failed: bool,
    pub errors: usize,
    pub elapsed_secs: u64,
    pub lines: Vec<OutputLine>,
    /// How many lines were dropped from the front.
    pub dropped: usize,
    /// The line held at the top, or nothing while following the newest.
    pub held: Option<usize>,
}

/// The command under way in one repo.
#[derive(Debug)]
pub struct OpEntry {
    pub spec: String,
    pub op: GitOp,
}

/// An open pull request.
#[derive(Debug)]
pub struct PullRequest {
    pub number: u64,
    pub title: String,
    pub draft: bool,
}

/// The working tree being looked at.
#[derive(Debug)]
pub struct GitView {
    pub spec: String,
    pub path: String,
    pub status: Option<TreeState>,
    pub cursor: usize,
    pub commit_input: Option<String>,
    pub has_ci: bool,
    pub open_pr: Option<PullRequest>,
}

/// The part of a line that differs, as offsets into its characters.
#[derive(Clone, Copy, PartialEq, Eq, Debug, Structural)]
pub struct Emphasis {
    pub from: usize,
    pub to: usize,
}

/// One side of a side-by-side row.
#[derive(Debug)]
pub struct DiffSide {
    pub num: Option<u64>,
    pub text: String,
    pub changed: bool,
    pub emph: Option<Emphasis>,
}

/// One row of a side-by-side diff.
#[derive(Debug)]
pub enum DiffRow {
    File { path: String, add: usize, del: usize },
    Section(String),
    Meta(String),
    Pair { old: Option<DiffSide>, new: Option<DiffSide> },
}

/// One line of a unified diff.
#[derive(Debug)]
pub enum DiffLine {
    File { path: String, add: usize, del: usize },
    Section(String),
    Text(String),
}

/// The diff being read.
#[derive(Debug)]
pub struct GitDiffView {
    pub spec: String,
    pub file: String,
    /// The file the viewport is scrolled into.
    pub current_file: Option<String>,
    pub loading: bool,
    pub files: Vec<String>,
    pub add: usize,
    pub del: usize,
    pub lines: Vec<DiffLine>,
    pub rows: Vec<DiffRow>,
    pub emphasis: Vec<Option<Emphasis>>,
    pub file_rows: Vec<usize>,
    pub file_lines: Vec<usize>,
    pub opened_tick: Option<u64>,
    /// The tick each file's band was first drawn.
    pub band_seen: Vec<Option<u64>>,
    pub pending_jump: Option<usize>,
    pub scroll: usize,
}

/// How a batch is getting on.
#[derive(Clone, Copy, PartialEq, Eq, Debug, Structural)]
pub enum BatchPhase {
    Compose,
    Committing,
    Paused,
    AskPush,
    Pushing,
    Done,
}

/// How one repo of a batch is getting on.
#[derive(PartialEq, Eq, Debug)]
pub enum ItemState {
    Queued,
    Running,
    Committed,
    Pushed,
    Nothing(String),
    Failed(String),
}

/// One repo of a batch.
#[derive(Debug)]
pub struct BatchItem {
    pub spec: String,
    pub state: ItemState,
    pub sha: Option<String>,
}

/// A batch in numbers.
#[derive(Clone, Copy, PartialEq, Eq, Debug, Structural)]
pub struct BatchTally {
    pub committed: usize,
    pub pushed: usize,
    pub failed: usize,
    pub nothing: usize,
    pub untouched: usize,
}

/// One message going out across several repos.
#[derive(Debug)]
pub struct Batch {
    pub phase: BatchPhase,
    pub items: Vec<BatchItem>,
    pub cursor: usize,
    /// The repo being worked on.
    pub current: Option<usize>,
    pub input: Option<String>,
    pub tally: BatchTally,
    pub started_tick: u64,
    pub working: bool,
    /// Whether it walks back to the dashboard by itself.
    pub returning: bool,
}

/// The push question.
#[derive(Debug)]
pub struct PushPrompt {
    pub branch: String,
    pub has_upstream: bool,
    pub yes: bool,
    pub batch_count: Option<usize>,
}

/// What the finder is searching.
#[derive(Clone, Copy, PartialEq, Eq, Debug, Structural)]
pub enum FinderKind {
    Repos,
    Workflows,
    Runs,
    DetailItems,
    GitEntries,
}

/// The finder.
#[derive(Debug)]
pub struct Finder {
    pub kind: FinderKind,
    pub query: String,
    pub items: Vec<String>,
    /// Which items match, best first.
    pub matches: Vec<usize>,
    pub cursor: usize,
}

/// One workflow.
#[derive(Debug)]
pub struct Workflow {
    pub name: String,
    pub file_name: String,
    pub last_status: Option<Status>,
    pub last_run_at: Option<Stamp>,
    pub triggerable: bool,
}

/// One input of a workflow.
#[derive(Debug)]
pub struct PromptField {
    pub name: String,
    pub value: String,
    pub recalled: bool,
    pub required: bool,
    pub options: Option<Vec<String>>,
}

/// The trigger form.
#[derive(Debug)]
pub struct TriggerPrompt {
    pub workflow_name: String,
    pub workflow_file: String,
    pub fields: Vec<PromptField>,
    pub cursor: usize,
    pub editing: bool,
}

/// A row of the run detail: a job, or one of its steps.
#[derive(Clone, Copy, PartialEq, Eq, Debug, Structural)]
pub enum DetailItem {
    Job(usize),
    Step { job: usize, step: usize },
}

/// How often a step has failed lately.
#[derive(Debug)]
pub struct StepStat {
    pub name: String,
    pub failed: u32,
    pub total: u32,
}

/// The part of a failed run's log worth reading.
#[derive(Debug)]
pub struct Digest {
    pub run_id: u64,
    pub step_name: Option<String>,
    pub job_name: String,
    pub lines: Vec<String>,
    pub error_rows: Vec<usize>,
}

/// The last successful run on record.
#[derive(Debug)]
pub struct Baseline {
    pub run_id: u64,
    pub jobs: Vec<Job>,
}

/// How each status is drawn at this tick.
#[derive(Debug)]
pub struct Glyphs {
    pub success: String,
    pub failure: String,
    pub running: String,
    pub queued: String,
    pub cancelled: String,
    pub skipped: String,
    pub unknown: String,
}

impl Glyphs {
    /// The mark for a status.
    pub open spec fn mark(&self, s: Status) -> Seq<char> {
        match s {
            Status::Success => self.success@,
            Status::Failure => self.failure@,
            Status::Running => self.running@,
            Status::Queued => self.queued@,
            Status::Cancelled => self.cancelled@,
            Status::Skipped => self.skipped@,
            Status::Unknown => self.unknown@,
        }
    }

    /// The mark for a status.
    pub fn of(&self, s: Status) -> (r: &str)
        ensures
            r@ == self.mark(s),
    {
        match s {
            Status::Success => self.success.as_str(),
            Status::Failure => self.failure.as_str(),
            Status::Running => self.running.as_str(),
            Status::Queued => self.queued.as_str(),
            Status::Cancelled => self.cancelled.as_str(),
            Status::Skipped => self.skipped.as_str(),
            Status::Unknown => self.unknown.as_str(),
        }
    }
}

/// The configured keys.
#[derive(Debug)]
pub struct Keymap {
    pub git_view: String,
    pub repo_mark: String,
    pub batch_commit: String,
    pub refresh: String,
    pub finder: String,
    pub services: String,
    pub open_browser: String,
    pub quit: String,
    pub batch_retry: String,
    pub batch_skip: String,
    pub down: String,
    pub up: String,
    pub next_error: String,
    pub prev_error: String,
    pub back: String,
    pub git_push: String,
    pub yank: String,
    pub scroll_top: String,
    pub scroll_bottom: String,
    pub git_stage: String,
    pub git_stage_all: String,
    pub git_commit: String,
    pub git_diff: String,
    pub trigger: String,
    pub page_down: String,
    pub page_up: String,
    pub next_step: String,
    pub prev_step: String,
    pub watch: String,
    pub repos_view: String,
    pub rerun: String,
    pub rerun_failed: String,
    pub cancel_run: String,
    pub open_logs: String,
    pub diff: String,
    pub all_steps: String,
    pub search: String,
    pub log_focus: String,
    pub tp_cycle: String,
    pub tp_edit: String,
    pub tp_submit: String,
    pub help: String,
    pub snooze: String,
}

/// The log being read.
#[derive(Debug)]
pub struct Log {
    pub section: Option<usize>,
    pub sections: Vec<String>,
    /// The step the section belongs to.
    pub step: Option<usize>,
    pub step_names: Vec<String>,
    pub query: Option<String>,
    pub matches: usize,
    pub match_at: Option<usize>,
    pub search_input: Option<String>,
    pub focus: bool,
    /// How many lines the log has.
    pub lines: usize,
    /// The log line each rendered row shows; a fold marker shows none.
    pub rendered: Vec<Option<usize>>,
    /// How many rendered rows are fold markers.
    pub folds: usize,
    pub groups: bool,
    pub errors: Vec<usize>,
    pub warnings: Vec<usize>,
    pub scroll: usize,
}

/// Everything a frame is drawn from.
#[derive(Debug)]
pub struct App {
    pub view: Screen,
    pub now: Stamp,
    pub tick_count: u64,
    pub version: String,
    pub keymap: Keymap,
    pub glyphs: Glyphs,
    pub spinner: String,
    pub spinner_slow: String,
    /// Where the lit cells of a loading row and of the progress bars are.
    pub skeleton_head: usize,
    pub bar_sweep: usize,
    pub bar_bounce: usize,
    // The dashboard.
    pub repos: Vec<RepoCard>,
    pub repo_cursor: usize,
    pub repo_label: String,
    pub repo_label_implicit: bool,
    /// Without repeats.
    pub repo_marks: Vec<String>,
    pub current_branch: String,
    /// The directory being scanned.
    pub workspace_root: Option<String>,
    /// Whether paths are written with backslashes here.
    pub windows: bool,
    pub active: Vec<Progress>,
    pub followed: Option<Followed>,
    /// How wide the dashboard must be for its side pane.
    pub split_min_width: u16,
    pub dash_opened_tick: Option<u64>,
    pub forge_icon: String,
    pub file_icons: bool,
    pub all_green_tick: Option<u64>,
    pub git_ops: Vec<OpEntry>,
    // Services.
    pub services: Vec<Service>,
    pub show_services: bool,
    pub services_opened_tick: Option<u64>,
    pub services_fetched_at: Option<Stamp>,
    // The header's corner.
    pub notify_enabled: bool,
    pub snooze_until: Option<Stamp>,
    pub bell_icon: String,
    pub bell_off_icon: String,
    pub quota: Option<Quota>,
    pub critical_percent: u32,
    pub hold_left: Option<i64>,
    pub push_watches: Vec<PushWatch>,
    pub pending: usize,
    pub last_poll_tick: u64,
    pub poll_ticks: u64,
    // The footer.
    pub help_seen: bool,
    pub status_msg: Option<String>,
    pub status_kind: StatusKind,
    // Help.
    pub show_help: bool,
    pub help_opened_tick: Option<u64>,
    pub help_search: String,
    pub help_typing: bool,
    pub help_scroll: u16,
    // The working tree.
    pub git_view: Option<GitView>,
    pub current_op: Option<GitOp>,
    pub git_diff: Option<GitDiffView>,
    pub batch: Option<Batch>,
    pub push_prompt: Option<PushPrompt>,
    pub finder: Option<Finder>,
    // CI.
    pub workflows: Vec<Workflow>,
    pub workflow_cursor: usize,
    pub workflow_preview_file: Option<String>,
    pub workflow_preview_runs: Vec<Run>,
    pub workflow_for_runs: Option<String>,
    pub runs: Vec<Run>,
    pub run_cursor: usize,
    pub runs_preview_id: Option<u64>,
    pub runs_preview: Option<RunDetail>,
    pub run_detail: Option<RunDetail>,
    pub detail_items: Vec<DetailItem>,
    pub detail_cursor: usize,
    pub step_stats: Vec<StepStat>,
    pub failure_digest: Option<Digest>,
    pub watch_tail: Option<Tail>,
    pub baseline: Option<Baseline>,
    pub log: Log,
    pub trigger_prompt: Option<TriggerPrompt>,
}

} // verus!
