use std::collections::HashSet;

use chrono::{DateTime, Duration, Local, TimeZone, Utc};
use ratatui::backend::TestBackend;
use ratatui::buffer::Buffer;
use ratatui::layout::{Alignment, Constraint as Part, Rect as Area};
use ratatui::style::{Color, Modifier, Style as Look};
use ratatui::text::{Line as TextLine, Span as TextSpan, Text};
use ratatui::widgets::{
    Block, BorderType, Borders, Cell as TableCell, Clear, LineGauge, Padding as Room, Paragraph,
    Row as TableRow, Table as Grid, TableState, Wrap,
};
use ratatui::{Frame, Terminal};

use jog_views::bars::run_sparkline;
use jog_views::batch::render_batch_commit;
use jog_views::changes::render_git_status;
use jog_views::clock::{
    elapsed_seconds, eta_text, format_elapsed, relative_styled, typical_run_secs, HourMin, Stamp,
};
use jog_views::columns::{disp_width, fit_columns, truncate};
use jog_views::detail::{format_step_dur, longest_step, render_run_detail, step_timing};
use jog_views::diffview::{
    diff_columns, diff_line_style, diff_row_line, file_banner, lang_icon, render_git_diff,
};
use jog_views::footer::render_footer;
use jog_views::geometry::{centered_rect, inner_of, side_by_side, Constraint, Padding, Rect};
use jog_views::grouping::{Columns, Grouping};
use jog_views::header::{
    now_playing, poll_clock, quota_color, render_header, shared_fault_detail, workspace_tallies,
    Meter,
};
use jog_views::help::render_help_overlay;
use jog_views::hits::{register_rows, RowKind};
use jog_views::keys::{display_key, help_section_for, help_sections, rail_line};
use jog_views::logs::render_logs;
use jog_views::motion::{
    dash_reveal_at, dash_revealing, diff_bands_revealing, help_reveal_at, help_revealing,
    services_revealing, staggered_reveal, FLASH_TICKS, HELP_REVEAL_HORIZON, SERVICES_STEP, WHOLE,
};
use jog_views::ops::{Cell, Hit, Op, Reading};
use jog_views::paint::{fg, plain, Align, Line, Paint, Role, Span, Style, Weight};
use jog_views::paths::{short_path, shorten};
use jog_views::prompts::{
    render_commit_overlay, render_finder_overlay, render_search_overlay, render_trigger_prompt,
};
use jog_views::rundiff::render_diff;
use jog_views::runs::render_runs;
use jog_views::screen::{render, render_repos};
use jog_views::services::{env_color, render_services_overlay};
use jog_views::state::{
    ApiError, App, Baseline, Batch, BatchItem, BatchPhase, BatchTally, DetailItem, DiffLine,
    DiffRow, DiffSide, Digest, Emphasis, Fault, Finder, FinderKind, Followed, GitDiffView, GitOp,
    GitView, Glyphs, ItemState, Job, Keymap, Log, OpEntry, OutputLine, Progress, PromptField,
    PushPrompt, Quota, RepoCard, Run, RunDetail, Screen, Service, ServiceState, Status,
    StatusKind, Step, StepStat, Tail, TreeEntry, TreeState, TriggerPrompt, Uptime, Workflow,
};
use jog_views::status::{row_bg_for_status, style_for_status};
use jog_views::strip::shrink_to_fit;
use jog_views::watch::render_watch;
use jog_views::workflows::render_workflows;
use jog_views::wrap::{help_row_matches, highlight_terms, wrap_words};

// ── A painter onto an off-screen terminal ──────────────────────────────────

fn rgb(r: Role) -> Color {
    match r {
        Role::Success => Color::Rgb(166, 227, 161),
        Role::SuccessDim => Color::Rgb(96, 140, 96),
        Role::Failure => Color::Rgb(243, 139, 168),
        Role::FailureDim => Color::Rgb(140, 80, 98),
        Role::Warning => Color::Rgb(249, 226, 175),
        Role::Info => Color::Rgb(137, 180, 250),
        Role::Primary => Color::Rgb(203, 166, 247),
        Role::Accent => Color::Rgb(250, 179, 135),
        Role::AccentDim => Color::Rgb(130, 95, 75),
        Role::Unknown => Color::Rgb(127, 132, 156),
        Role::Text => Color::Rgb(205, 214, 244),
        Role::TextBright => Color::Rgb(235, 240, 255),
        Role::TextMuted => Color::Rgb(166, 173, 200),
        Role::TextFaint => Color::Rgb(108, 112, 134),
        Role::TextGhost => Color::Rgb(88, 91, 112),
        Role::Border => Color::Rgb(69, 71, 90),
        Role::BorderDim => Color::Rgb(49, 50, 68),
        Role::Surface => Color::Rgb(30, 30, 46),
        Role::SurfaceAlt => Color::Rgb(40, 40, 58),
        Role::Overlay => Color::Rgb(24, 24, 37),
        Role::SelectBg => Color::Rgb(60, 62, 90),
        Role::SelectBgDim => Color::Rgb(50, 52, 76),
        Role::RowIdle => Color::Rgb(17, 17, 27),
        Role::RowFailure => Color::Rgb(50, 20, 30),
        Role::RowRunning => Color::Rgb(44, 40, 20),
        Role::RowQueued => Color::Rgb(20, 30, 50),
        Role::White => Color::White,
    }
}

fn mix(a: Color, b: Color, t: f64) -> Color {
    let step = |x: u8, y: u8| (x as f64 + (y as f64 - x as f64) * t.clamp(0.0, 1.0)).round() as u8;
    match (a, b) {
        (Color::Rgb(r, g, b), Color::Rgb(x, y, z)) => {
            Color::Rgb(step(r, x), step(g, y), step(b, z))
        }
        _ => b,
    }
}

fn weigh(w: Weight, tick: u64) -> f64 {
    match w {
        Weight::Share { num, den } => num as f64 / den as f64,
        Weight::Flash { at } => {
            let gone = tick.saturating_sub(at) as f64 / FLASH_TICKS as f64;
            (1.0 - gone).max(0.0) * 0.5
        }
        _ => 0.5,
    }
}

fn color(p: Paint, tick: u64) -> Color {
    match p {
        Paint::Plain(r) => rgb(r),
        Paint::Mix { from, to, by } => mix(rgb(from), rgb(to), weigh(by, tick)),
        Paint::ChipFill { env, num, den } => {
            mix(rgb(Role::Overlay), rgb(env), num as f64 / den as f64)
        }
        Paint::ChipInk { .. } => Color::White,
        Paint::Row { base, glow, odd, selected } => {
            let mut c = rgb(base);
            if let Some(g) = glow {
                c = mix(c, rgb(g.tint), weigh(g.by, tick));
            }
            if odd {
                c = mix(c, rgb(Role::Surface), 0.5);
            }
            if selected {
                c = mix(c, rgb(Role::SelectBg), 0.6);
            }
            c
        }
    }
}

fn look(s: Style, tick: u64) -> Look {
    let mut l = Look::default();
    if let Some(p) = s.fg {
        l = l.fg(color(p, tick));
    }
    if let Some(p) = s.bg {
        l = l.bg(color(p, tick));
    }
    if s.bold {
        l = l.add_modifier(Modifier::BOLD);
    }
    if s.italic {
        l = l.add_modifier(Modifier::ITALIC);
    }
    if s.reversed {
        l = l.add_modifier(Modifier::REVERSED);
    }
    l
}

fn span(s: &Span, tick: u64) -> TextSpan<'static> {
    TextSpan::styled(s.text.clone(), look(s.style, tick))
}

fn line(l: &Line, tick: u64) -> TextLine<'static> {
    let spans: Vec<TextSpan> = l.spans.iter().map(|s| span(s, tick)).collect();
    TextLine::from(spans).style(look(l.style, tick)).alignment(match l.align {
        Align::Left => Alignment::Left,
        Align::Center => Alignment::Center,
        Align::Right => Alignment::Right,
    })
}

fn lines(v: &[Line], tick: u64) -> Text<'static> {
    Text::from(v.iter().map(|l| line(l, tick)).collect::<Vec<_>>())
}

fn cells(v: &[Cell], tick: u64) -> Vec<TableCell<'static>> {
    v.iter()
        .map(|c| TableCell::from(lines(&c.lines, tick)).style(look(c.style, tick)))
        .collect()
}

fn area(r: &Rect) -> Area {
    Area { x: r.x, y: r.y, width: r.width, height: r.height }
}

fn part(c: &Constraint) -> Part {
    match c {
        Constraint::Length(n) => Part::Length(*n),
        Constraint::Min(n) => Part::Min(*n),
        Constraint::Percentage(n) => Part::Percentage(*n),
        Constraint::Fill(n) => Part::Fill(*n),
    }
}

fn paint(f: &mut Frame, ops: &[Op], tick: u64, log: &[String]) {
    for op in ops {
        match op {
            Op::Clear(r) => f.render_widget(Clear, area(r)),
            Op::Ground { area: r, style } => {
                f.render_widget(Block::default().style(look(*style, tick)), area(r))
            }
            Op::Frame { area: r, border } => {
                let mut b = Block::default()
                    .borders(Borders::ALL)
                    .border_type(BorderType::Rounded)
                    .border_style(look(border.style, tick))
                    .padding(Room::new(
                        border.padding.left,
                        border.padding.right,
                        border.padding.top,
                        border.padding.bottom,
                    ))
                    .style(look(border.ground, tick));
                for l in &border.top {
                    b = b.title_top(line(l, tick));
                }
                for l in &border.bottom {
                    b = b.title_bottom(line(l, tick));
                }
                f.render_widget(b, area(r));
            }
            Op::Text { area: r, lines: v, wrap, scroll, ground } => {
                let mut p = Paragraph::new(lines(v, tick))
                    .style(look(*ground, tick))
                    .scroll((*scroll, 0));
                if *wrap {
                    p = p.wrap(Wrap { trim: false });
                }
                f.render_widget(p, area(r));
            }
            Op::Grid { area: r, table: t } => {
                let rows: Vec<TableRow> = t
                    .rows
                    .iter()
                    .map(|r| {
                        TableRow::new(cells(&r.cells, tick))
                            .height(r.height)
                            .style(look(r.style, tick))
                    })
                    .collect();
                let mut g = Grid::new(rows, t.widths.iter().map(part))
                    .column_spacing(t.spacing)
                    .row_highlight_style(look(t.highlight, tick))
                    .highlight_symbol(Text::from(TextLine::from(span(&t.symbol, tick))));
                if !t.header.is_empty() {
                    g = g.header(TableRow::new(cells(&t.header, tick)).bottom_margin(1));
                }
                let mut s = TableState::default();
                s.select(t.selected);
                f.render_stateful_widget(g, area(r), &mut s);
            }
            Op::Gauge { area: r, num, den, label, filled, unfilled } => f.render_widget(
                LineGauge::default()
                    .ratio(*num as f64 / *den as f64)
                    .label(line(label, tick))
                    .filled_style(look(*filled, tick))
                    .unfilled_style(look(*unfilled, tick)),
                area(r),
            ),
            Op::LogRows { area: r, first, count } => {
                let v: Vec<TextLine> =
                    log.iter().skip(*first).take(*count).map(|l| TextLine::from(l.clone())).collect();
                f.render_widget(Paragraph::new(v).wrap(Wrap { trim: false }), area(r));
            }
            Op::Fade { area: r, from, num, den } => {
                let t = *num as f64 / *den as f64;
                let ground = rgb(*from);
                let at = area(r).intersection(f.area());
                for y in at.top()..at.bottom() {
                    for x in at.left()..at.right() {
                        let c = &mut f.buffer_mut()[(x, y)];
                        if c.fg != Color::Reset {
                            c.fg = mix(ground, c.fg, t);
                        }
                        if c.bg != Color::Reset {
                            c.bg = mix(ground, c.bg, t);
                        }
                    }
                }
            }
            Op::Comet { .. } | Op::Click { .. } | Op::Tell(_) => {}
        }
    }
}

fn screen(w: u16, h: u16) -> Rect {
    Rect { x: 0, y: 0, width: w, height: h }
}

fn drawn(ops: &[Op], w: u16, h: u16, tick: u64, log: &[String]) -> Buffer {
    let mut term = Terminal::new(TestBackend::new(w, h)).unwrap();
    term.draw(|f| paint(f, ops, tick, log)).unwrap();
    term.backend().buffer().clone()
}

/// A frame as the text a user sees.
fn text(buf: &Buffer) -> String {
    (0..buf.area.height).map(|y| row_text(buf, y).trim_end().to_string()).collect::<Vec<_>>().join("\n")
}

fn row_text(buf: &Buffer, y: u16) -> String {
    (0..buf.area.width).map(|x| buf[(x, y)].symbol()).collect()
}

fn row_of(buf: &Buffer, needle: &str) -> u16 {
    (0..buf.area.height)
        .find(|&y| row_text(buf, y).contains(needle))
        .unwrap_or_else(|| panic!("no row for {needle}:\n{}", text(buf)))
}

/// Only what a frame writes: its spans, one after another.
fn spoken(v: &[Span]) -> String {
    v.iter().map(|s| s.text.as_str()).collect()
}

// ── Fixtures ───────────────────────────────────────────────────────────────

fn stamp(t: DateTime<Utc>) -> Stamp {
    Stamp { secs: t.timestamp(), nanos: t.timestamp_subsec_nanos() }
}

fn later(t: Stamp, secs: i64) -> Stamp {
    Stamp { secs: t.secs + secs, nanos: t.nanos }
}

fn keymap() -> Keymap {
    let k = |s: &str| s.to_string();
    Keymap {
        git_view: k("G"),
        repo_mark: k("m"),
        batch_commit: k("C"),
        refresh: k("r"),
        finder: k("ctrl+p"),
        services: k("S"),
        open_browser: k("o"),
        quit: k("q"),
        batch_retry: k("t"),
        batch_skip: k("s"),
        down: k("j"),
        up: k("k"),
        next_error: k("e"),
        prev_error: k("E"),
        back: k("Esc"),
        git_push: k("P"),
        yank: k("y"),
        scroll_top: k("g"),
        scroll_bottom: k("b"),
        git_stage: k("Space"),
        git_stage_all: k("a"),
        git_commit: k("c"),
        git_diff: k("d"),
        trigger: k("t"),
        page_down: k("d"),
        page_up: k("u"),
        next_step: k("n"),
        prev_step: k("p"),
        watch: k("w"),
        repos_view: k("D"),
        rerun: k("R"),
        rerun_failed: k("F"),
        cancel_run: k("x"),
        open_logs: k("l"),
        diff: k("v"),
        all_steps: k("a"),
        search: k("/"),
        log_focus: k("f"),
        tp_cycle: k("Space"),
        tp_edit: k("i"),
        tp_submit: k("t"),
        help: k("?"),
        snooze: k("z"),
    }
}

const BELL: &str = "\u{f0f3}";
const BELL_OFF: &str = "\u{f1f6}";
const FORGE: &str = "\u{f09b}";

fn app() -> App {
    let g = |s: &str| s.to_string();
    App {
        view: Screen::Repos,
        now: stamp(Utc::now()),
        tick_count: 0,
        version: g("0.9.0"),
        keymap: keymap(),
        glyphs: Glyphs {
            success: g("✓"),
            failure: g("✗"),
            running: g("⠋"),
            queued: g("◌"),
            cancelled: g("⊘"),
            skipped: g("↷"),
            unknown: g("?"),
        },
        spinner: g("⠋"),
        spinner_slow: g("⠋"),
        skeleton_head: 0,
        bar_sweep: 0,
        bar_bounce: 0,
        repos: vec![],
        repo_cursor: 0,
        repo_label: g("o/r"),
        repo_label_implicit: false,
        repo_marks: vec![],
        current_branch: g("main"),
        workspace_root: None,
        windows: false,
        active: vec![],
        followed: None,
        split_min_width: 160,
        dash_opened_tick: None,
        forge_icon: g(FORGE),
        file_icons: true,
        all_green_tick: None,
        git_ops: vec![],
        services: vec![],
        show_services: false,
        services_opened_tick: None,
        services_fetched_at: None,
        notify_enabled: true,
        snooze_until: None,
        bell_icon: g(BELL),
        bell_off_icon: g(BELL_OFF),
        quota: None,
        critical_percent: 90,
        hold_left: None,
        push_watches: vec![],
        pending: 0,
        last_poll_tick: 0,
        poll_ticks: 50,
        help_seen: true,
        status_msg: None,
        status_kind: StatusKind::Info,
        show_help: false,
        help_opened_tick: None,
        help_search: g(""),
        help_typing: false,
        help_scroll: 0,
        git_view: None,
        current_op: None,
        git_diff: None,
        batch: None,
        push_prompt: None,
        finder: None,
        workflows: vec![],
        workflow_cursor: 0,
        workflow_preview_file: None,
        workflow_preview_runs: vec![],
        workflow_for_runs: None,
        runs: vec![],
        run_cursor: 0,
        runs_preview_id: None,
        runs_preview: None,
        run_detail: None,
        detail_items: vec![],
        detail_cursor: 0,
        step_stats: vec![],
        failure_digest: None,
        watch_tail: None,
        baseline: None,
        log: Log {
            section: None,
            sections: vec![],
            step: None,
            step_names: vec![],
            query: None,
            matches: 0,
            match_at: None,
            search_input: None,
            focus: false,
            lines: 0,
            rendered: vec![],
            folds: 0,
            groups: false,
            errors: vec![],
            warnings: vec![],
            scroll: 0,
        },
        trigger_prompt: None,
    }
}

fn clean_tree() -> TreeState {
    TreeState { branch: "main".into(), ahead: 0, behind: 0, has_upstream: false, entries: vec![] }
}

fn changed(code: &str, path: &str) -> TreeEntry {
    TreeEntry {
        staged: !code.starts_with(' '),
        unstaged: !code.ends_with(' '),
        label: "modified".into(),
        code: code.into(),
        path: path.into(),
    }
}

fn card(spec: &str) -> RepoCard {
    RepoCard {
        spec: spec.into(),
        error: None,
        git: Some(clean_tree()),
        remote: true,
        has_ci: true,
        loaded: true,
        runs: vec![],
        ok: 0,
        fail: 0,
        landing: None,
        changed_tick: None,
        monitors: vec![],
    }
}

fn a_run(id: u64, title: &str, status: Status, age_secs: i64) -> Run {
    let now = stamp(Utc::now());
    Run {
        id,
        status,
        display_title: title.into(),
        head_branch: "main".into(),
        commit_msg: "wip".into(),
        created_at: later(now, -age_secs),
        updated_at: now,
    }
}

fn a_job(name: &str, steps: &[(&str, Status)]) -> Job {
    Job {
        id: 7,
        name: name.into(),
        status: Status::Running,
        steps: steps
            .iter()
            .map(|(n, s)| Step {
                name: (*n).into(),
                status: *s,
                started_at: None,
                completed_at: None,
                tenths: 0,
            })
            .collect(),
    }
}

fn live(run: Run, jobs: Vec<Job>) -> RunDetail {
    let current_step = jobs
        .iter()
        .flat_map(|j| j.steps.iter())
        .find(|s| s.status == Status::Running)
        .map(|s| s.name.clone());
    RunDetail { run, jobs, current_step }
}

fn deploy_job() -> Job {
    a_job(
        "build",
        &[
            ("Checkout", Status::Success),
            ("Set up Docker", Status::Success),
            ("Run migrations", Status::Running),
            ("Push image", Status::Queued),
        ],
    )
}

/// Three repos, two of them mid-deploy: one on a step, one still queued.
fn dashboard_with_live_ci() -> App {
    let mut st = app();
    st.repo_label = "muufree/backend".into();
    for spec in ["muufree/backend", "muufree/cms", "muufree/website"] {
        st.repos.push(card(spec));
    }
    st.repos[0].runs = vec![a_run(1, "Deploy to Stage", Status::Running, 102)];
    st.repos[1].runs = vec![a_run(2, "Deploy to Stage", Status::Queued, 9)];
    st.repos[2].runs = vec![a_run(3, "CodeQL Security Risk", Status::Success, 400)];
    let deploy = || a_run(1, "Deploy to Stage", Status::Running, 102);
    st.active = vec![
        Progress { repo: 0, detail: live(deploy(), vec![deploy_job()]) },
        Progress { repo: 1, detail: live(a_run(2, "Deploy to Stage", Status::Queued, 9), vec![]) },
    ];
    st.followed = Some(Followed {
        spec: "muufree/backend".into(),
        detail: live(deploy(), vec![deploy_job()]),
        job: deploy_job(),
    });
    st.now = stamp(Utc::now());
    st
}

fn idle(st: &mut App) {
    st.active.clear();
    st.followed = None;
}

fn draw_repos(st: &App, w: u16, h: u16) -> String {
    text(&repos_buffer(st, w, h))
}

fn repos_buffer(st: &App, w: u16, h: u16) -> Buffer {
    drawn(&render_repos(st, screen(w, h)), w, h, st.tick_count, &[])
}

fn draw_header(st: &App, w: u16) -> String {
    let mut m = Meter { most: 0, started: 0 };
    row_text(&drawn(&render_header(st, &mut m, screen(w, 1)), w, 1, st.tick_count, &[]), 0)
}

fn draw_footer(st: &App, w: u16) -> String {
    row_text(&drawn(&render_footer(st, screen(w, 1)), w, 1, st.tick_count, &[]), 0)
}

// ── The log ────────────────────────────────────────────────────────────────

/// A log of 431 lines with one error in it, and the rows it is rendered as.
fn noisy_log_state(focus: bool) -> (App, Vec<String>) {
    let mut st = app();
    st.view = Screen::Logs;
    let mut all: Vec<String> = (0..400).map(|i| format!("compiling crate {i}")).collect();
    all.push("##[error]test tui::foo failed".into());
    all.extend((0..30).map(|i| format!("trailing {i}")));
    st.log.lines = all.len();
    st.log.errors = vec![400];
    st.log.focus = focus;
    if focus {
        st.log.rendered = vec![None, Some(399), Some(400), Some(401), None];
        st.log.folds = 2;
        let rows = vec![
            "⋯ 399 lines hidden".to_string(),
            all[399].clone(),
            all[400].clone(),
            all[401].clone(),
            "⋯ 29 lines hidden".to_string(),
        ];
        (st, rows)
    } else {
        st.log.rendered = (0..all.len()).map(Some).collect();
        (st, all)
    }
}

fn draw_logs(st: &App, rows: &[String], w: u16, h: u16) -> String {
    text(&drawn(&render_logs(st, screen(w, h)), w, h, st.tick_count, rows))
}

/// The map's column of a drawn log, top to bottom.
fn map_column(out: &str) -> String {
    out.lines().filter(|l| l.starts_with('│')).filter_map(|l| l.chars().rev().nth(1)).collect()
}

// ── The diff ───────────────────────────────────────────────────────────────

const HUNK: &str = "@@ -12,7 +12,8 @@ fn main() {\n     let cfg = Config::load()?;\n-    let x = 1;\n+    let x = 2;\n+    log::info!(\"done\");\n     Ok(())\n";

/// Where two lines differ, when they share anything at all.
fn differ(a: &str, b: &str) -> (Option<Emphasis>, Option<Emphasis>) {
    let (x, y): (Vec<char>, Vec<char>) = (a.chars().collect(), b.chars().collect());
    let front = x.iter().zip(&y).take_while(|(p, q)| p == q).count();
    let most = x.len().min(y.len()) - front;
    let back = x.iter().rev().zip(y.iter().rev()).take_while(|(p, q)| p == q).count().min(most);
    if front + back == 0 {
        return (None, None);
    }
    (
        Some(Emphasis { from: front, to: x.len() - back }),
        Some(Emphasis { from: front, to: y.len() - back }),
    )
}

fn side(num: u64, line: &str, emph: Option<Emphasis>) -> Option<DiffSide> {
    Some(DiffSide { num: Some(num), text: line[1..].to_string(), changed: true, emph })
}

/// A diff laid out both ways: one band per file, a blank under it, then its hunks.
fn diff_of(files: &[(&str, &str)]) -> GitDiffView {
    let mut dv = GitDiffView {
        spec: "acme/api".into(),
        file: files[0].0.into(),
        current_file: Some(files[0].0.into()),
        loading: false,
        files: files.iter().map(|f| f.0.to_string()).collect(),
        add: 0,
        del: 0,
        lines: vec![],
        rows: vec![],
        emphasis: vec![],
        file_rows: vec![],
        file_lines: vec![],
        opened_tick: None,
        band_seen: vec![None; files.len()],
        pending_jump: None,
        scroll: 0,
    };
    for (path, body) in files {
        let add = body.lines().filter(|l| l.starts_with('+')).count();
        let del = body.lines().filter(|l| l.starts_with('-')).count();
        dv.add += add;
        dv.del += del;
        dv.file_rows.push(dv.rows.len());
        dv.file_lines.push(dv.lines.len());
        dv.rows.push(DiffRow::File { path: path.to_string(), add, del });
        dv.rows.push(DiffRow::Meta(String::new()));
        dv.lines.push(DiffLine::File { path: path.to_string(), add, del });
        dv.lines.push(DiffLine::Text(String::new()));
        dv.emphasis.extend([None, None]);
        let (mut old, mut new) = (1u64, 1u64);
        let all: Vec<&str> = body.lines().collect();
        let mut i = 0;
        while i < all.len() {
            let l = all[i];
            if l.starts_with("@@") {
                let at = |c: char| -> u64 {
                    let from = l.find(c).unwrap() + 1;
                    l[from..].split([',', ' ']).next().unwrap().parse().unwrap()
                };
                (old, new) = (at('-'), at('+'));
                dv.rows.push(DiffRow::Meta(l.to_string()));
                dv.lines.push(DiffLine::Text(l.to_string()));
                dv.emphasis.push(None);
                i += 1;
            } else if l.starts_with('-') || l.starts_with('+') {
                let gone = all[i..].iter().take_while(|l| l.starts_with('-')).count();
                let came = all[i + gone..].iter().take_while(|l| l.starts_with('+')).count();
                let pairs = if gone == came { gone } else { 0 };
                let marks: Vec<_> =
                    (0..pairs).map(|k| differ(&all[i + k][1..], &all[i + gone + k][1..])).collect();
                for k in 0..gone.max(came) {
                    let (a, b) = marks.get(k).cloned().unwrap_or((None, None));
                    dv.rows.push(DiffRow::Pair {
                        old: if k < gone { side(old + k as u64, all[i + k], a) } else { None },
                        new: if k < came { side(new + k as u64, all[i + gone + k], b) } else { None },
                    });
                }
                let shift = |e: Option<Emphasis>| e.map(|e| Emphasis { from: e.from + 1, to: e.to + 1 });
                for k in 0..gone + came {
                    dv.lines.push(DiffLine::Text(all[i + k].to_string()));
                    let m = if k < gone { marks.get(k).map(|m| m.0) } else { marks.get(k - gone).map(|m| m.1) };
                    dv.emphasis.push(shift(m.flatten()));
                }
                old += gone as u64;
                new += came as u64;
                i += gone + came;
            } else {
                let body = l.get(1..).unwrap_or("").to_string();
                let same = |n: u64| {
                    Some(DiffSide { num: Some(n), text: body.clone(), changed: false, emph: None })
                };
                dv.rows.push(DiffRow::Pair { old: same(old), new: same(new) });
                dv.lines.push(DiffLine::Text(l.to_string()));
                dv.emphasis.push(None);
                old += 1;
                new += 1;
                i += 1;
            }
        }
    }
    dv
}

fn diff_state(body: &str) -> App {
    let mut st = app();
    st.view = Screen::GitDiff;
    st.git_diff = Some(diff_of(&[("src/api.rs", body)]));
    st
}

/// Draw the diff, and let the view take what the frame learned.
fn draw_diff(st: &mut App, w: u16, h: u16) -> String {
    let ops = render_git_diff(st, screen(w, h));
    let dv = st.git_diff.as_mut().unwrap();
    for op in &ops {
        match op {
            Op::Tell(Reading::DiffJumpTaken) => dv.pending_jump = None,
            Op::Tell(Reading::DiffScroll(n)) => dv.scroll = *n,
            Op::Tell(Reading::BandSeen { file, tick }) => {
                assert_eq!(dv.band_seen[*file], None, "told of twice");
                dv.band_seen[*file] = Some(*tick);
            }
            _ => {}
        }
    }
    text(&drawn(&ops, w, h, st.tick_count, &[]))
}

fn diff_units(st: &App, w: u16, h: u16) -> usize {
    render_git_diff(st, screen(w, h))
        .iter()
        .find_map(|op| match op {
            Op::Tell(Reading::DiffUnits(n)) => Some(*n),
            _ => None,
        })
        .unwrap()
}

// ── The working tree ───────────────────────────────────────────────────────

fn commit_op() -> GitOp {
    GitOp {
        verb: "commit".into(),
        label: "pre-commit hook".into(),
        finished: false,
        failed: false,
        errors: 0,
        elapsed_secs: 0,
        lines: vec![],
        dropped: 0,
        held: None,
    }
}

fn say(op: &mut GitOp, line: &str) {
    let error = line.to_lowercase().contains("failed");
    op.errors += error as usize;
    op.lines.push(OutputLine { text: line.into(), error, warn: false });
}

fn git_view() -> GitView {
    GitView {
        spec: "acme/api".into(),
        path: "/tmp/acme-api".into(),
        status: None,
        cursor: 0,
        commit_input: None,
        has_ci: true,
        open_pr: None,
    }
}

fn state_with_op(op: GitOp) -> App {
    let mut st = app();
    st.repo_label = "acme/api".into();
    st.view = Screen::GitStatus;
    st.git_view = Some(git_view());
    st.current_op = Some(op);
    st
}

fn draw_changes(st: &App, w: u16, h: u16) -> String {
    text(&drawn(&render_git_status(st, screen(w, h)), w, h, st.tick_count, &[]))
}

fn push_prompt_screen(has_upstream: bool) -> (String, Buffer) {
    let mut st = app();
    st.repo_label = "acme/api".into();
    st.view = Screen::GitStatus;
    st.git_view = Some(git_view());
    st.push_prompt =
        Some(PushPrompt { branch: "main".into(), has_upstream, yes: true, batch_count: None });
    let mut m = Meter { most: 0, started: 0 };
    let buf = drawn(&render(&st, &mut m, screen(80, 14)), 80, 14, 0, &[]);
    (text(&buf), buf)
}

/// The ground under the first cell of `word`, wherever it is on screen.
fn bg_of(buf: &Buffer, word: &str) -> Color {
    let y = row_of(buf, word);
    let row = row_text(buf, y);
    let x = row[..row.find(word).unwrap()].chars().count();
    buf[(x as u16, y)].bg
}

// ── A batch ────────────────────────────────────────────────────────────────

fn item(spec: &str) -> BatchItem {
    BatchItem { spec: spec.into(), state: ItemState::Queued, sha: None }
}

fn tally_of(items: &[BatchItem]) -> BatchTally {
    let count = |f: fn(&ItemState) -> bool| items.iter().filter(|i| f(&i.state)).count();
    BatchTally {
        committed: count(|s| matches!(s, ItemState::Committed)),
        pushed: count(|s| matches!(s, ItemState::Pushed)),
        failed: count(|s| matches!(s, ItemState::Failed(_))),
        nothing: count(|s| matches!(s, ItemState::Nothing(_))),
        untouched: count(|s| matches!(s, ItemState::Queued)),
    }
}

fn batch_state(phase: BatchPhase) -> App {
    let mut st = dashboard_with_live_ci();
    st.view = Screen::BatchCommit;
    let mut items: Vec<BatchItem> =
        ["muufree/backend", "muufree/cms", "muufree/flutter"].iter().map(|s| item(s)).collect();
    let compose = phase == BatchPhase::Compose;
    if !compose {
        items[0].state = ItemState::Committed;
        items[0].sha = Some("9f2c1ab".into());
        items[1].state = match phase {
            BatchPhase::Paused => ItemState::Failed("pytest failed".into()),
            _ => ItemState::Running,
        };
        let mut op = commit_op();
        for l in ["ruff.....Passed", "pytest...Failed", "assert 1 == 2"] {
            say(&mut op, l);
        }
        op.finished = phase == BatchPhase::Paused;
        op.failed = phase == BatchPhase::Paused;
        st.git_ops = vec![OpEntry { spec: "muufree/cms".into(), op }];
    }
    let tally = tally_of(&items);
    st.batch = Some(Batch {
        phase,
        items,
        cursor: if compose { 0 } else { 1 },
        current: if compose { Some(0) } else { Some(1) },
        input: if compose { Some("chore: bump shared".into()) } else { None },
        tally,
        started_tick: 0,
        working: phase == BatchPhase::Committing || phase == BatchPhase::Pushing,
        returning: false,
    });
    st
}

fn draw_batch(st: &App, w: u16, h: u16) -> String {
    text(&drawn(&render_batch_commit(st, screen(w, h)), w, h, st.tick_count, &[]))
}

// ── Services, faults, a workspace ──────────────────────────────────────────

fn service(name: &str, state: ServiceState, group: &str, tags: &[&str]) -> Service {
    Service {
        name: name.into(),
        state,
        ping_ms: Some(40),
        uptime: Some(Uptime { tenths: 1000, whole: 100 }),
        group: group.into(),
        tags: tags.iter().map(|t| t.to_string()).collect(),
        repo: None,
    }
}

fn services_text(st: &App, w: u16, h: u16) -> String {
    text(&drawn(&render_services_overlay(st, screen(w, h)), w, h, st.tick_count, &[]))
}

fn fault(f: Fault, label: &str) -> Option<ApiError> {
    Some(ApiError {
        fault: f,
        text: label.into(),
        label: label.into(),
        detail: "waiting it out".into(),
    })
}

/// Every row turned away by the same exhausted quota.
fn dashboard_out_of_quota() -> App {
    let mut st = dashboard_with_live_ci();
    idle(&mut st);
    for c in st.repos.iter_mut() {
        c.runs.clear();
        c.error = fault(Fault::RateLimited, "rate limited");
    }
    st
}

fn quota_at(percent: u32, reset: DateTime<Utc>) -> Option<Quota> {
    Some(Quota { percent, critical: percent >= 90, reset: stamp(reset) })
}

/// A dashboard scanned out of a deep workspace path, one repo dirty.
fn workspace_dashboard() -> App {
    let mut st = dashboard_with_live_ci();
    st.workspace_root = Some("/data/repos/muufree/github".into());
    let mut tree = clean_tree();
    tree.entries = vec![changed("M ", "a.rs"), changed(" M", "b.rs"), changed(" M", "c.rs")];
    st.repos[1].git = Some(tree);
    st
}

fn draw_help(st: &App, w: u16, h: u16) -> String {
    text(&drawn(&render_help_overlay(st, screen(w, h)), w, h, st.tick_count, &[]))
}

// ── The diff ───────────────────────────────────────────────────────────────

#[test]
fn a_diff_reads_across_rather_than_down() {
    let mut st = diff_state(HUNK);
    let out = draw_diff(&mut st, 100, 12);
    // Without the pane's own left border, so the first `│` left in the row is
    // the rule between the two columns.
    let row = out
        .lines()
        .find(|l| l.contains("let x = 1;"))
        .unwrap_or_else(|| panic!("no row for the old line:\n{out}"))
        .trim_start_matches('│');
    // The line that was and the line that is are the same row.
    assert!(row.contains("let x = 2;"), "got {row:?}");
    // Each side numbered in its own file: line 13 became line 13.
    assert!(row.starts_with("13 "), "no old line number: {row:?}");
    assert!(row.contains("│ 13 "), "no new line number: {row:?}");

    // A line with no counterpart leaves the other side empty.
    let added = out.lines().find(|l| l.contains("log::info!")).unwrap().trim_start_matches('│');
    let (before, _) = added.split_once('│').unwrap();
    assert_eq!(before.trim(), "", "the gap opposite an addition was filled");

    // Context is carried by both sides.
    assert!(out.lines().any(|l| l.matches("Ok(())").count() == 2), "{out}");
}

#[test]
fn the_word_that_changed_is_still_marked_inside_the_pair() {
    let st = diff_state("@@ -13 +13 @@\n-    let x = 1;\n+    let x = 2;\n");
    let buf = drawn(&render_git_diff(&st, screen(100, 12)), 100, 12, 0, &[]);
    let row = row_of(&buf, "let x = 1;");

    // The only difference between the two lines is the digit, so exactly the
    // digits carry the mark, one on each side of the rule.
    let marked: Vec<(u16, u16)> = (0..buf.area.width)
        .map(|x| (x, row))
        .filter(|&p| buf[p].modifier.contains(Modifier::BOLD))
        .collect();
    let said: String = marked.iter().map(|&p| buf[p].symbol().to_string()).collect();
    assert_eq!(said, "12", "got {said:?}");

    // Two tones of one hue, not an inversion.
    let (mx, my) = marked[0];
    let row_bg = buf[(mx - 1, my)].bg;
    assert_ne!(buf[(mx, my)].bg, row_bg, "the span sits on the line's own ground");
    assert_ne!(buf[(mx, my)].fg, buf[(mx - 1, my)].fg, "the span's text was not lifted");
    let any = (0..buf.area.height)
        .any(|y| (0..buf.area.width).any(|x| buf[(x, y)].modifier.contains(Modifier::REVERSED)));
    assert!(!any, "reverse video is for the unified fallback, which has no tint to deepen");
}

#[test]
fn a_terminal_too_narrow_to_split_gets_the_unified_diff() {
    let mut st = diff_state(HUNK);
    let out = draw_diff(&mut st, 44, 12);
    assert!(!out.contains(" │ "), "still split at 44 columns:\n{out}");
    assert!(out.contains("-    let x = 1;"), "{out}");
    assert!(out.contains("+    let x = 2;"), "{out}");
}

#[test]
fn a_lone_file_gets_the_same_band_as_any_other() {
    let mut st = diff_state(HUNK);
    let out = draw_diff(&mut st, 100, 12);
    // The band names the file inside the pane…
    let band = out.lines().nth(1).unwrap();
    assert!(band.contains("src/api.rs  +2 −1"), "got {band:?}");
    // …so the title counts files instead of repeating the name above it.
    assert!(out.starts_with("╭─┤ 1 file  +2 −1 ├"), "got:\n{out}");
    assert!(!out.lines().next().unwrap().contains("api.rs"), "got:\n{out}");
}

#[test]
fn the_scroll_counts_what_the_layout_actually_drew() {
    let mut st = diff_state(HUNK);
    // The file's band, the blank under it, and six unified lines, of which the
    // ± pair folds into one row.
    assert_eq!(st.git_diff.as_ref().unwrap().lines.len(), 8);
    assert_eq!(st.git_diff.as_ref().unwrap().rows.len(), 7);

    assert_eq!(diff_units(&st, 100, 12), 7, "split: the offset counts rows");
    // Three rows on screen leave four to scroll past.
    assert_eq!(jumped(&mut st, 100), 4);

    assert_eq!(diff_units(&st, 44, 12), 8, "unified: it counts lines again");
    assert_eq!(jumped(&mut st, 44), 5);
}

/// Where a jump to the very end lands with three rows on screen.
fn jumped(st: &mut App, w: u16) -> usize {
    let dv = st.git_diff.as_mut().unwrap();
    dv.file_rows = vec![dv.rows.len() - 1];
    dv.file_lines = vec![dv.lines.len() - 1];
    dv.pending_jump = Some(0);
    draw_diff(st, w, 5);
    st.git_diff.as_ref().unwrap().scroll
}

#[test]
fn the_combined_diff_opens_at_the_chosen_file_under_its_own_banner() {
    let long: String = (0..40).map(|i| format!("+l{i}\n")).collect();
    let a = format!("@@ -1 +1,40 @@\n{long}");
    let b = format!("@@ -1 +1,40 @@\n{long}\n-x\n");
    let mut st = app();
    st.view = Screen::GitDiff;
    let mut dv = diff_of(&[("src/a.rs", a.as_str()), ("src/b.rs", b.as_str())]);
    dv.file = "src/b.rs".into();
    dv.pending_jump = Some(1);
    st.git_diff = Some(dv);
    let out = draw_diff(&mut st, 100, 20);

    // The first frame resolves the jump: the view opens scrolled to the file
    // that was chosen rather than at the top of the first.
    let dv = st.git_diff.as_ref().unwrap();
    assert_eq!(dv.pending_jump, None, "the jump was consumed");
    assert!(dv.scroll > 0, "still at the top of the first file");
    let at = dv.file_rows.iter().rposition(|r| *r <= dv.scroll).map(|i| dv.files[i].as_str());
    assert_eq!(at, Some("src/b.rs"));

    // Each file opens under a full-width band naming it with its own counts.
    let band = out
        .lines()
        .find(|l| l.contains("src/b.rs"))
        .unwrap_or_else(|| panic!("no band for src/b.rs:\n{out}"));
    assert!(band.contains("src/b.rs  +40 −1"), "got {band:?}");
}

/// Widest run of the accent ground on any row: how far the sweep got.
fn band_cols(st: &mut App) -> usize {
    draw_diff(st, 100, 20);
    let buf = drawn(&render_git_diff(st, screen(100, 20)), 100, 20, st.tick_count, &[]);
    (0..buf.area.height)
        .map(|y| (0..buf.area.width).filter(|&x| buf[(x, y)].bg == rgb(Role::Accent)).count())
        .max()
        .unwrap_or(0)
}

#[test]
fn a_file_band_sweeps_in_when_first_seen_then_settles() {
    let mut st = app();
    st.view = Screen::GitDiff;
    let mut dv =
        diff_of(&[("src/a.rs", "@@ -1 +1 @@\n+one\n"), ("src/b.rs", "@@ -1 +1 @@\n+two\n")]);
    dv.opened_tick = Some(0);
    st.git_diff = Some(dv);

    st.tick_count = 0;
    let partial = band_cols(&mut st);
    assert!(partial > 0, "the sweep starts with something on screen");
    assert!(partial < 90, "the first frame already spans the pane: {partial}");
    assert!(diff_bands_revealing(&st), "mid-sweep, the loop owes frames");

    st.tick_count = 30;
    let full = band_cols(&mut st);
    assert_eq!(full, 98, "settled, the band runs edge to edge");
    assert!(!diff_bands_revealing(&st), "settled, it stops asking for them");
}

#[test]
fn the_band_wears_its_languages_mark() {
    assert_eq!(lang_icon("src/app/state.rs"), "\u{e7a8}");
    assert_eq!(lang_icon("scripts/run.py"), "\u{e73c}");
    assert_eq!(lang_icon("web/App.tsx"), "\u{e628}");
    assert_eq!(lang_icon("Dockerfile"), "\u{f308}");
    assert_eq!(lang_icon("Cargo.lock"), "\u{f023}");
    // Unrecognised gets the plain file.
    assert_eq!(lang_icon("LICENSE"), "\u{f016}");

    let mut st = app();
    st.view = Screen::GitDiff;
    st.git_diff = Some(diff_of(&[
        ("src/a.rs", "@@ -1 +1 @@\n+one\n"),
        ("src/b.py", "@@ -1 +1 @@\n+two\n"),
    ]));
    let out = draw_diff(&mut st, 100, 20);
    assert!(out.contains("\u{e7a8} src/a.rs"), "no rust mark:\n{out}");
    assert!(out.contains("\u{e73c} src/b.py"), "no python mark:\n{out}");

    // A terminal without the font can turn the marks off.
    st.file_icons = false;
    let out = draw_diff(&mut st, 100, 20);
    assert!(!out.contains('\u{e7a8}'), "mark still drawn when off:\n{out}");
    assert!(out.contains(" src/a.rs"), "the name must survive the mark:\n{out}");
}

// ── The dashboard's entrance ───────────────────────────────────────────────

#[test]
fn the_dashboards_first_frame_is_ground_and_its_empty_space_is_left_alone() {
    let mut st = app();
    for spec in ["acme/api", "acme/web"] {
        st.repos.push(card(spec));
    }
    st.view = Screen::Repos;
    st.tick_count = 100;
    st.dash_opened_tick = Some(100);

    // Frame one: the rows are on screen but painted in the dashboard's own
    // ground, so the table reads as empty and then fills in.
    let buf = repos_buffer(&st, 120, 12);
    let y = row_of(&buf, "acme/api");
    let name_x = (0..buf.area.width).find(|&x| buf[(x, y)].symbol() == "a").unwrap();
    assert_eq!(buf[(name_x, y)].fg, rgb(Role::RowIdle), "the name has not arrived");
    // The space under the last row belongs to the terminal, not to the sweep.
    let below = buf.area.height - 1;
    assert_eq!(buf[(2, below)].bg, Color::Reset, "empty space was painted");

    // And once the entrance is over the row is its own colour again.
    st.tick_count = 200;
    let buf = repos_buffer(&st, 120, 12);
    let y = row_of(&buf, "acme/api");
    assert_ne!(buf[(name_x, y)].fg, rgb(Role::RowIdle), "the name never landed");
}

// ── The help card ──────────────────────────────────────────────────────────

#[test]
fn the_help_card_stands_on_its_own_ground_and_admits_to_scrolling() {
    let (mut st, _) = noisy_log_state(false);
    st.view = Screen::Repos;
    st.show_help = true; // no opening tick: drawn settled
    let ops = render_help_overlay(&st, screen(110, 24));
    let out = text(&drawn(&ops, 110, 24, 0, &[]));
    assert!(out.contains("? Help — jog v"), "chip title: {out}");
    // Short terminal, long reference: the card must say how to move.
    assert!(out.contains("wheel scroll"), "{out}");
    // And the frame told the key handler where the bottom is.
    let bottom = ops.iter().find_map(|op| match op {
        Op::Tell(Reading::HelpMaxScroll(n)) => Some(*n),
        _ => None,
    });
    assert!(bottom.unwrap() > 0);
}

#[test]
fn a_wide_terminal_gets_the_help_in_two_columns_without_scrolling() {
    let mut st = app();
    st.view = Screen::Logs;
    st.show_help = true;
    let out = draw_help(&st, 120, 54);
    // Everything is on screen: nothing left to scroll to, and both the first
    // and the last section are visible at once.
    assert!(!out.contains("wheel scroll"), "nothing to scroll:\n{out}");
    assert!(out.contains("/ search"), "the filter is offered:\n{out}");
    assert!(out.contains("Global"));
    assert!(out.contains("Trigger prompt"));
    // The current view's section floats to the top and wears the mark.
    assert!(out.contains("you are here"));
    let here = out.lines().find(|l| l.contains("you are here")).unwrap();
    assert!(here.contains("Logs"), "the mark sits on the open view's section: {here}");
    // Two columns: some row shares a line with content in the right half.
    let two = out.lines().any(|l| {
        let v: Vec<char> = l.chars().collect();
        let (a, b) = v.split_at(v.len() / 2);
        let blank = |s: &[char]| s.iter().collect::<String>().trim().is_empty();
        v.len() > 60 && !blank(a) && !blank(b)
    });
    assert!(two, "expected side-by-side sections:\n{out}");
}

#[test]
fn a_narrow_terminal_keeps_one_readable_column_and_can_scroll() {
    let mut st = app();
    st.view = Screen::Repos;
    st.show_help = true;
    let out = draw_help(&st, 60, 20);
    assert!(out.contains("scroll"), "a clipped overlay says how to scroll:\n{out}");
    // Long descriptions wrap instead of running off the dialog edge.
    assert!(out.lines().all(|l| l.chars().count() <= 60), "no line escapes the terminal:\n{out}");
}

#[test]
fn typing_in_the_help_card_narrows_it_to_the_matching_bindings() {
    let mut st = app();
    st.view = Screen::GitStatus;
    st.show_help = true;
    st.help_search = "stage".into();
    let out = draw_help(&st, 120, 54);
    assert!(out.contains("stage all"), "the matching rows survive:\n{out}");
    // Rows that say nothing about staging are gone, and so are the sections
    // left with nothing in them.
    assert!(!out.contains("quit"), "unmatched rows are filtered out:\n{out}");
    assert!(!out.contains("Trigger prompt"), "empty sections drop out:\n{out}");
    assert!(out.contains("Esc clears"), "the filter says how to drop it:\n{out}");

    // With Global filtered away there is nothing to float under, so the open
    // view's section takes the top-left corner itself.
    st.help_search = "push".into();
    let out = draw_help(&st, 120, 54);
    let first = out
        .lines()
        .find(|l| !l.contains("─┤") && !l.trim_matches(['│', ' ']).is_empty())
        .unwrap();
    assert!(
        first.contains("Changes — working tree") && first.contains("you are here"),
        "the open view leads:\n{out}"
    );
}

#[test]
fn a_help_search_that_matches_nothing_says_so() {
    let mut st = app();
    st.show_help = true;
    st.help_search = "xyzzy".into();
    let out = draw_help(&st, 120, 54);
    assert!(out.contains("no binding matches"), "an empty result explains itself:\n{out}");
}

// ── The log ────────────────────────────────────────────────────────────────

#[test]
fn unfocused_title_advertises_the_error_count() {
    let (st, rows) = noisy_log_state(false);
    let out = draw_logs(&st, &rows, 80, 12);
    let title = out.lines().next().unwrap().to_string();
    assert!(title.contains("431 lines"), "got {title:?}");
    assert!(title.contains("1✗"), "got {title:?}");
}

#[test]
fn the_log_map_shows_where_the_errors_are_from_anywhere_in_the_file() {
    let (st, rows) = noisy_log_state(false);
    let out = draw_logs(&st, &rows, 80, 12);
    let col = map_column(&out);

    // The error is 400 lines below the viewport. Its mark is on screen from the
    // very top of the log.
    assert!(col.contains('█'), "got {col:?}");
    assert!(col.ends_with('█'), "near the end of the log, got {col:?}");
    // …and the bracket says where you are, which is the top.
    assert!(col.starts_with('│'), "got {col:?}");
    assert_eq!(col.matches('│').count(), 1, "the viewport is one band, got {col:?}");
}

#[test]
fn a_log_that_fits_on_screen_gets_no_map() {
    let (mut st, mut rows) = noisy_log_state(false);
    rows.truncate(6);
    st.log.lines = 6;
    st.log.rendered.truncate(6);
    st.log.errors.clear();
    let out = draw_logs(&st, &rows, 80, 12);

    // Mapping six lines onto ten rows says nothing, and the column it costs is a
    // column of log.
    assert_eq!(map_column(&out).trim(), "", "got:\n{out}");
}

#[test]
fn focus_mode_draws_the_error_between_two_folds() {
    let (st, rows) = noisy_log_state(true);
    let out = draw_logs(&st, &rows, 80, 12);
    assert!(out.contains("399 lines hidden"), "got:\n{out}");
    assert!(out.contains("test tui::foo failed"), "got:\n{out}");
    assert!(out.contains("29 lines hidden"), "got:\n{out}");
    // 431 lines reduced to a screen that fits: 2 folds and 3 kept lines.
    let body: Vec<&str> = out
        .lines()
        .filter(|l| l.starts_with('│') && !l.trim_matches(['│', ' ']).is_empty())
        .collect();
    assert_eq!(body.len(), 5, "got {body:?}");
}

// ── The push question ──────────────────────────────────────────────────────

#[test]
fn a_landed_commit_puts_the_push_question_in_the_middle_of_the_screen() {
    let (out, buf) = push_prompt_screen(true);
    assert!(out.contains("Push?"), "{out}");
    assert!(out.contains("push main to origin?"), "{out}");
    // Yes is the answer wearing the highlight, so Enter is visibly safe.
    assert_eq!(bg_of(&buf, "Yes"), rgb(Role::Accent));
    assert_ne!(bg_of(&buf, "No "), rgb(Role::Accent));
    // The keys on offer are the box's, not the working tree's underneath.
    assert!(out.contains("Esc") && !out.contains("stage"), "{out}");
}

#[test]
fn a_first_push_says_it_is_creating_the_branch() {
    let (out, _) = push_prompt_screen(false);
    assert!(out.contains("publish main to origin?"), "{out}");
}

// ── The working tree ───────────────────────────────────────────────────────

#[test]
fn a_failed_hook_writes_the_way_out_on_the_pane_itself() {
    let mut op = commit_op();
    say(&mut op, "pytest...Failed");
    op.finished = true;
    op.failed = true;
    let out = draw_changes(&state_with_op(op), 100, 14);
    for want in
        ["j/k scroll", "e/E error", "y yank", "Esc dismiss", "a stage all", "c commit again"]
    {
        assert!(out.contains(want), "no `{want}` on the pane:\n{out}");
    }
}

#[test]
fn a_running_hook_offers_only_what_it_can_actually_do() {
    let mut op = commit_op();
    say(&mut op, "ruff.....");
    let out = draw_changes(&state_with_op(op), 100, 14);
    // `back` leaves the command running rather than killing it, and there is
    // nothing to fix or re-commit until it has had its say.
    assert!(out.contains("Esc leave, keeps running"), "got:\n{out}");
    assert!(!out.contains("commit again"), "got:\n{out}");
    // No errors yet, so no error walk offered.
    assert!(!out.contains("e/E error"), "got:\n{out}");
}

#[test]
fn a_failed_hook_shows_the_failure_not_just_that_it_failed() {
    let mut op = commit_op();
    for l in [
        "ruff.....Passed",
        "pytest...Failed",
        "FAILED tests/test_api.py::test_login",
        "assert 1 == 2",
    ] {
        say(&mut op, l);
    }
    op.finished = true;
    op.failed = true;
    let out = draw_changes(&state_with_op(op), 80, 14);

    // The pytest line is on screen, and the border names what produced it rather
    // than saying "commit failed".
    assert!(out.contains("pre-commit hook failed"), "got:\n{out}");
    assert!(out.contains("test_login"), "got:\n{out}");
    assert!(out.contains("assert 1 == 2"), "got:\n{out}");
    // Both `pytest...Failed` and the `FAILED` line count as errors.
    assert!(out.contains("2✗"), "got:\n{out}");
}

#[test]
fn a_running_hook_says_what_it_is_and_how_long_it_has_been() {
    let mut op = commit_op();
    for i in 0..40 {
        say(&mut op, &format!("collecting test {i}"));
    }
    op.elapsed_secs = 12;
    let mut st = state_with_op(op);
    st.tick_count = 123; // 12.3s in
    let out = draw_changes(&st, 80, 14);

    assert!(out.contains("pre-commit hook · 12s"), "got:\n{out}");
    // Still running, so the pane sits on the newest output.
    assert!(out.contains("collecting test 39"), "got:\n{out}");
    assert!(!out.contains("collecting test 0 "), "got:\n{out}");
}

#[test]
fn a_clean_tree_ahead_of_upstream_says_so_instead_of_nothing_to_commit() {
    let mut st = app();
    st.repo_label = "acme/api".into();
    st.view = Screen::GitStatus;
    let mut gv = git_view();
    // The state right after a commit: nothing left to stage, but the commit only
    // exists locally.
    gv.status = Some(TreeState { ahead: 1, has_upstream: true, ..clean_tree() });
    st.git_view = Some(gv);
    let out = draw_changes(&st, 80, 14);
    assert!(out.contains("↑1 commit not pushed"), "got:\n{out}");
    assert!(out.contains("P pushes"), "got:\n{out}");
    assert!(!out.contains("nothing to commit"), "got:\n{out}");

    // Once upstream has it, clean means clean.
    st.git_view.as_mut().unwrap().status = Some(TreeState { has_upstream: true, ..clean_tree() });
    let out = draw_changes(&st, 80, 14);
    assert!(out.contains("nothing to commit"), "got:\n{out}");
}

#[test]
fn no_op_means_no_pane() {
    let mut st = app();
    st.repo_label = "acme/api".into();
    let out = draw_changes(&st, 80, 14);
    assert!(!out.contains("hook"), "got:\n{out}");
}

// ── Services ───────────────────────────────────────────────────────────────

#[test]
fn the_services_card_names_every_monitor_mapped_or_not() {
    let mut st = app();
    st.show_services = true;
    st.services = vec![
        Service {
            name: "API".into(),
            state: ServiceState::Up,
            ping_ms: Some(44),
            uptime: Some(Uptime { tenths: 1000, whole: 100 }),
            group: "production".into(),
            tags: vec!["critical".into()],
            repo: Some("acme/backend".into()),
        },
        Service {
            name: "Logs UI".into(),
            state: ServiceState::Down,
            ping_ms: None,
            uptime: Some(Uptime { tenths: 970, whole: 97 }),
            group: "stage".into(),
            tags: vec![],
            repo: None,
        },
    ];
    let out = services_text(&st, 80, 12);
    assert!(out.contains("API") && out.contains("44ms"), "{out}");
    // The groups are the production/stage answer; tags are the other one.
    assert!(out.contains("production") && out.contains("stage"), "{out}");
    assert!(out.contains("#critical"), "{out}");
    assert!(out.contains("→ acme/backend"), "mapped monitors say whose row they sit on\n{out}");
    // The unmapped monitor is exactly the one only this card can show.
    assert!(out.contains("Logs UI") && out.contains("down"), "{out}");
    assert!(out.contains("97.0% today"), "{out}");
}

#[test]
fn one_tag_worn_by_every_row_becomes_a_heading_instead() {
    let mut st = app();
    st.show_services = true;
    st.services = vec![
        service("API", ServiceState::Up, "Services", &["Prod"]),
        service("web", ServiceState::Up, "Services", &["Prod", "critical"]),
        service("Stage", ServiceState::Up, "Services", &[]),
    ];
    let out = services_text(&st, 70, 14);
    assert!(out.contains("▐ Prod ▌"), "the shared tag heads its section, as a chip\n{out}");
    assert!(!out.contains("#Prod"), "…and is not repeated on every row\n{out}");
    assert!(out.contains("#critical"), "other tags stay as chips\n{out}");
    assert!(out.contains("▐ untagged ▌"), "the tagless get a section, at the end\n{out}");
}

#[test]
fn the_verdicts_arrive_one_row_at_a_time_and_then_stand_still() {
    let mut st = app();
    st.show_services = true;
    st.services = vec![
        service("API", ServiceState::Up, "Services", &[]),
        service("site", ServiceState::Down, "Services", &[]),
    ];
    // A card put up without the clock is a settled card, not a first frame.
    assert!(services_text(&st, 70, 10).contains("up"), "no opening tick, nothing to play");

    // The frame the key was pressed on: names are already in place, but no
    // verdict has landed.
    st.tick_count = 100;
    st.services_opened_tick = Some(100);
    let opening = services_text(&st, 70, 10);
    assert!(opening.contains("API") && opening.contains("site"), "{opening}");
    assert!(!opening.contains("down"), "the verdict is not there yet\n{opening}");

    // Mid-entrance the top row has said its piece and the one under it has not.
    st.tick_count = 102;
    let mid = services_text(&st, 70, 10);
    assert!(mid.contains(" up "), "the first row is in\n{mid}");
    assert!(!mid.contains("down"), "the second is still coming\n{mid}");
    assert!(services_revealing(&st), "and the loop keeps redrawing for it");

    // Then it stops.
    st.tick_count = 120;
    assert!(services_text(&st, 70, 10).contains("down"), "everyone has arrived");
    assert!(!services_revealing(&st), "so the redraws stop");
    st.show_services = false;
    assert!(!services_revealing(&st), "a closed card animates nothing");
}

#[test]
fn the_heart_only_raises_its_voice_when_something_is_down() {
    let mut st = app();
    let noon = HourMin { hour: 12, minute: 0 };
    assert!(workspace_tallies(&st).is_empty(), "no monitors configured, no heart at all");
    st.services = vec![
        service("API", ServiceState::Up, "Services", &[]),
        service("site", ServiceState::Up, "Services", &[]),
    ];
    assert!(spoken(&workspace_tallies(&st)).contains("♥2"), "quietly all up");
    st.services[0].state = ServiceState::Down;
    assert!(
        spoken(&workspace_tallies(&st)).contains("♥1/2"),
        "one down is a fraction, not a calm total"
    );

    // And the banner's heart beats: filled on the beat, hollow between.
    st.tick_count = 0;
    assert!(spoken(&now_playing(&st, noon)).starts_with("♥"), "tick 0 is a beat");
    st.tick_count = 8;
    assert!(spoken(&now_playing(&st, noon)).starts_with("♡"), "tick 8 is the rest");
}

// ── The strip ──────────────────────────────────────────────────────────────

#[test]
fn the_strip_says_which_step_a_running_deploy_is_on() {
    let out = draw_repos(&dashboard_with_live_ci(), 150, 16);
    assert!(out.contains("Run migrations"), "got:\n{out}");
    assert!(out.contains("build"), "got:\n{out}");
    // Two done of four steps, sitting on the third.
    assert!(out.contains("3/4"), "got:\n{out}");
    // 1:42 in.
    assert!(out.contains("1:42"), "got:\n{out}");
    assert!(out.contains("2 in flight"), "got:\n{out}");
}

fn strip_of(out: &str) -> String {
    out.lines().skip_while(|l| !l.contains("in flight")).collect::<Vec<_>>().join("\n")
}

#[test]
fn a_repo_running_two_workflows_gets_a_line_for_each() {
    let mut st = dashboard_with_live_ci();
    let second = || a_run(11, "CI for Backend", Status::Running, 61);
    st.repos[0].runs.push(second());
    st.active.insert(
        1,
        Progress {
            repo: 0,
            detail: live(
                second(),
                vec![a_job("test (3.13)", &[("Run tests with pytest", Status::Running)])],
            ),
        },
    );

    let out = draw_repos(&st, 150, 16);
    assert!(out.contains("3 in flight"), "got:\n{out}");
    assert!(out.contains("Deploy to Stage"), "got:\n{out}");
    assert!(out.contains("CI for Backend"), "got:\n{out}");
    // Both lines carry the repo they belong to; the second is just quieter.
    assert_eq!(strip_of(&out).matches("muufree/backend").count(), 2, "got:\n{out}");
}

#[test]
fn the_strip_lines_its_fields_up_whatever_length_the_names_are() {
    let mut st = dashboard_with_live_ci();
    let long = || a_run(2, "Build & Test Frontend Everywhere", Status::Running, 40);
    st.repos[1].runs = vec![long()];
    st.active[1] = Progress {
        repo: 1,
        detail: live(
            long(),
            vec![a_job(
                "build-and-push-the-frontend",
                &[("Build frontend container", Status::Running)],
            )],
        ),
    };
    let short = || a_run(3, "CI", Status::Running, 5);
    st.repos[2].runs = vec![short()];
    st.active.push(Progress {
        repo: 2,
        detail: live(short(), vec![a_job("t", &[("Lint", Status::Running)])]),
    });

    let out = draw_repos(&st, 150, 16);
    let strip: Vec<&str> = out
        .lines()
        .skip_while(|l| !l.contains("in flight"))
        .filter(|l| l.contains("main"))
        .collect();
    assert_eq!(strip.len(), 3, "got:\n{out}");
    // Which column the field starts in, not which byte.
    let at = |needle: &str| -> Vec<usize> {
        strip
            .iter()
            .map(|l| l.find(needle).map(|b| disp_width(&l[..b])).unwrap_or(usize::MAX))
            .collect()
    };
    let branch = at("main");
    assert!(branch.iter().all(|c| *c == branch[0]), "branches start at {branch:?}, got:\n{out}");
    let step = at("›");
    assert!(step.iter().all(|c| *c == step[0]), "steps start at {step:?}, got:\n{out}");
}

#[test]
fn a_queued_run_says_it_is_waiting_rather_than_inventing_a_step() {
    let out = draw_repos(&dashboard_with_live_ci(), 150, 16);
    assert!(out.contains("waiting for a runner"), "got:\n{out}");
    // The settled repo has no business in a strip about what's in flight.
    assert!(!strip_of(&out).contains("muufree/website"), "got:\n{out}");
}

#[test]
fn nothing_running_means_no_strip_at_all() {
    let mut st = dashboard_with_live_ci();
    idle(&mut st);
    let out = draw_repos(&st, 150, 16);
    assert!(!out.contains("in flight"), "got:\n{out}");
    // …and the table gets the space back.
    assert!(out.contains("muufree/website"), "got:\n{out}");
}

#[test]
fn a_short_terminal_keeps_the_table_over_the_strip() {
    let out = draw_repos(&dashboard_with_live_ci(), 150, 7);
    assert!(!out.contains("in flight"), "got:\n{out}");
    for spec in ["muufree/backend", "muufree/cms", "muufree/website"] {
        assert!(out.contains(spec), "{spec} missing from:\n{out}");
    }
    let taller = draw_repos(&dashboard_with_live_ci(), 150, 9);
    assert!(taller.contains("in flight"), "got:\n{taller}");
    assert!(taller.contains("muufree/website"), "got:\n{taller}");
}

// ── A batch ────────────────────────────────────────────────────────────────

#[test]
fn the_batch_pane_leaves_retry_and_skip_to_the_queue_above_it() {
    let out = draw_batch(&batch_state(BatchPhase::Paused), 110, 18);
    // Said once, on the queue that owns those keys.
    assert_eq!(out.matches("retry").count(), 1, "got:\n{out}");
    assert_eq!(out.matches("skip").count(), 1, "got:\n{out}");
    // The pane still says what the pane can do.
    assert!(out.contains("y yank"), "got:\n{out}");
}

#[test]
fn the_message_box_says_how_many_repos_one_message_is_about_to_hit() {
    let out = draw_batch(&batch_state(BatchPhase::Compose), 110, 14);
    assert!(out.contains("One message for 3 repos"), "got:\n{out}");
    assert!(out.contains("chore: bump shared"), "got:\n{out}");
    for spec in ["muufree/backend", "muufree/cms", "muufree/flutter"] {
        assert!(out.contains(spec), "{spec} missing from:\n{out}");
    }
    assert!(out.contains("git add -A"), "got:\n{out}");
}

#[test]
fn one_marked_repo_is_a_repo_not_a_repos() {
    let mut st = batch_state(BatchPhase::Compose);
    st.batch.as_mut().unwrap().items.truncate(1);
    let out = draw_batch(&st, 110, 14);
    assert!(out.contains("Commit 1 repo "), "got:\n{out}");
    assert!(out.contains("One message for 1 repo "), "got:\n{out}");

    // The caret gets a line to itself, with air above and below it.
    let caret = out.lines().position(|l| l.contains('█')).unwrap();
    let above = out.lines().nth(caret - 1).unwrap();
    let below = out.lines().nth(caret + 1).unwrap();
    assert_eq!(above.trim_matches(['│', ' ']), "", "got {above:?}");
    assert_eq!(below.trim_matches(['│', ' ']), "", "got {below:?}");
}

#[test]
fn a_running_batch_says_which_repo_it_is_on_and_what_the_hook_is_saying() {
    let out = draw_batch(&batch_state(BatchPhase::Committing), 110, 16);
    assert!(out.contains("Committing · 2/3"), "got:\n{out}");
    // What is done, what is happening, what is waiting: all three.
    assert!(out.contains("committed 9f2c1ab"), "got:\n{out}");
    assert!(out.contains("committing…"), "got:\n{out}");
    assert!(out.contains("queued"), "got:\n{out}");
    // The hook's own output, live, is the reason this view exists.
    assert!(out.contains("ruff.....Passed"), "got:\n{out}");
}

#[test]
fn a_paused_batch_shows_the_failure_and_what_can_be_done_about_it() {
    let out = draw_batch(&batch_state(BatchPhase::Paused), 110, 16);
    assert!(out.contains("Paused on muufree/cms"), "got:\n{out}");
    assert!(out.contains("t retry"), "got:\n{out}");
    assert!(out.contains("s skip"), "got:\n{out}");
    // Not just "it failed": the assertion that failed is on screen.
    assert!(out.contains("assert 1 == 2"), "got:\n{out}");
    // The repo behind it kept its commit, and says so.
    assert!(out.contains("committed 9f2c1ab"), "got:\n{out}");
}

#[test]
fn pushing_is_offered_never_assumed() {
    let mut st = batch_state(BatchPhase::AskPush);
    let b = st.batch.as_mut().unwrap();
    b.items[1].state = ItemState::Committed;
    b.items[1].sha = Some("77aa310".into());
    b.items[2].state = ItemState::Nothing("working tree is clean".into());
    b.tally = tally_of(&b.items);
    st.git_ops.clear();
    let out = draw_batch(&st, 110, 12);
    assert!(out.contains("2 committed"), "got:\n{out}");
    assert!(out.contains("pushes them all"), "got:\n{out}");
    // A clean repo is reported, not quietly dropped from the list.
    assert!(out.contains("working tree is clean"), "got:\n{out}");
}

#[test]
fn a_queue_taller_than_the_screen_follows_the_repo_being_worked_on() {
    let mut st = batch_state(BatchPhase::Committing);
    let b = st.batch.as_mut().unwrap();
    b.items = (0..12).map(|i| item(&format!("acme/repo{i:02}"))).collect();
    b.cursor = 9;
    b.current = Some(9);
    b.items[9].state = ItemState::Running;
    for done in b.items.iter_mut().take(9) {
        done.state = ItemState::Committed;
        done.sha = Some("9f2c1ab".into());
    }
    b.tally = tally_of(&b.items);
    st.git_ops.clear();
    let out = draw_batch(&st, 110, 10);

    // The repo in flight is the one you are waiting on; it must be visible.
    assert!(out.contains("acme/repo09"), "got:\n{out}");
    // And the rows that didn't fit are counted, not silently dropped.
    assert!(out.contains("more · 9 committed"), "got:\n{out}");
}

// ── The dashboard ──────────────────────────────────────────────────────────

#[test]
fn the_dashboard_row_says_a_repo_is_mid_commit() {
    let mut st = app();
    st.repo_label = "acme/api".into();
    let mut op = commit_op();
    op.verb = "commit".into();
    st.git_ops = vec![OpEntry { spec: "acme/api".into(), op }];
    for spec in ["acme/api", "acme/web"] {
        let mut c = card(spec);
        c.git.as_mut().unwrap().entries = vec![changed(" M", "a.txt")];
        st.repos.push(c);
    }
    let out = draw_repos(&st, 120, 10);
    let api = out.lines().find(|r| r.contains("acme/api")).unwrap();
    let web = out.lines().find(|r| r.contains("acme/web")).unwrap();
    assert!(api.contains("main"), "got {api:?}");
    assert!(api.contains("commit"), "got {api:?}");
    assert!(api.contains("●1"), "got {api:?}");
    // …and only on that repo. A marker on every row would say nothing.
    assert!(!web.contains("commit"), "got {web:?}");
}

#[test]
fn the_dashboard_shows_what_a_batch_would_take() {
    let mut st = dashboard_with_live_ci();
    assert!(!draw_footer(&st, 150).contains("marked"), "unmarked dashboard says nothing");

    st.repo_marks = vec!["muufree/backend".into(), "muufree/cms".into()];
    let bar = draw_footer(&st, 150);
    assert!(bar.contains("◆ 2 marked"), "got:\n{bar}");
    assert!(bar.contains("commit marked"), "got:\n{bar}");
    let out = draw_repos(&st, 150, 16);
    // …and which rows they are, not just how many.
    let backend = out.lines().find(|l| l.contains("muufree/backend")).unwrap();
    let website = out.lines().find(|l| l.contains("muufree/website")).unwrap();
    assert!(backend.contains('◆'), "got {backend:?}");
    assert!(!website.contains('◆'), "got {website:?}");
}

/// Every cell of the row a repo is on, as (symbol, fg, bg).
fn row_cells(st: &App, spec: &str) -> Vec<(String, Color, Color)> {
    let buf = repos_buffer(st, 150, 12);
    let y = row_of(&buf, spec);
    (0..buf.area.width)
        .map(|x| {
            let c = &buf[(x, y)];
            (c.symbol().to_string(), c.fg, c.bg)
        })
        .collect()
}

fn row_bg(st: &App, spec: &str) -> Color {
    row_cells(st, spec)[20].2
}

#[test]
fn the_selected_row_still_shows_what_it_is_selected_to_show() {
    let mut st = dashboard_with_live_ci();
    st.repos[2].runs = vec![a_run(9, "Deploy", Status::Failure, 60)];
    let red = |st: &App| {
        row_cells(st, "muufree/website").iter().any(|(_, fg, _)| *fg == rgb(Role::Failure))
    };
    // Unselected, the row shows a red ✗ and a red "Deploy".
    st.repo_cursor = 0;
    assert!(red(&st));

    // Selected, it must still.
    st.repo_cursor = 2;
    assert!(red(&st), "the selection erased the status it was pointing at");
    // And it is still visibly selected: the tint lands in the background.
    let grounds = |st: &App| -> Vec<Color> {
        row_cells(st, "muufree/website").iter().map(|(_, _, bg)| *bg).collect()
    };
    let bgs = grounds(&st);
    st.repo_cursor = 0;
    assert_ne!(bgs, grounds(&st));
}

/// The grounds of the dashboard's rows, headings among them.
fn row_grounds(st: &App) -> Vec<Option<Paint>> {
    render_repos(st, screen(120, 30))
        .iter()
        .rev()
        .find_map(|op| match op {
            Op::Grid { table, .. } => Some(table.rows.iter().map(|r| r.style.bg).collect()),
            _ => None,
        })
        .unwrap()
}

#[test]
fn every_other_row_sits_a_hair_off_the_one_above_it() {
    let mut st = app();
    for spec in ["acme/a", "acme/b", "acme/c", "acme/d", "acme/e"] {
        st.repos.push(card(spec));
    }
    let grounds = row_grounds(&st);
    assert_eq!(grounds.len(), 5);
    for (i, ground) in grounds.iter().enumerate() {
        let Some(Paint::Row { odd, .. }) = ground else { panic!("row {i}: {ground:?}") };
        assert_eq!(*odd, i % 2 == 1, "row {i}");
    }
    // By the line it is on: a heading takes its turn like any other row.
    st.repos.push(card("zeta/f"));
    st.repos.push(card("zeta/g"));
    for (i, ground) in row_grounds(&st).iter().enumerate() {
        if let Some(Paint::Row { odd, .. }) = ground {
            assert_eq!(*odd, i % 2 == 1, "line {i}");
        }
    }
}

#[test]
fn the_updated_column_lines_its_units_up() {
    let mut st = dashboard_with_live_ci();
    idle(&mut st);
    // Widths that would be ragged if the column were left-aligned.
    st.repos[0].runs = vec![a_run(1, "CI", Status::Success, 60)];
    st.repos[0].runs[0].updated_at = later(st.now, -130 * 86400);
    st.repos[1].runs = vec![a_run(2, "CI", Status::Success, 60)];
    st.repos[1].runs[0].updated_at = later(st.now, -4 * 86400);

    let end = |spec: &str| {
        let cells = row_cells(&st, spec);
        let said: String = cells.iter().map(|(s, _, _)| s.as_str()).collect();
        let at = said.find(" ago").expect("an Updated cell") + " ago".len();
        said[..at].chars().count()
    };
    assert_eq!(end("muufree/backend"), end("muufree/cms"));
}

#[test]
fn owners_get_one_heading_each_and_the_cursor_still_lands_on_repos() {
    let mut st = dashboard_with_live_ci();
    st.repos.push(card("drposture/gam"));

    // Tall enough that the live strip does not clip the last group off.
    let out = draw_repos(&st, 150, 22);
    assert_eq!(out.matches("muufree ╌").count(), 1, "got:\n{out}");
    assert_eq!(out.matches("drposture ╌").count(), 1, "got:\n{out}");
    // The owner is said once, in the heading, not repeated down the column.
    let row = out.lines().find(|l| l.contains("backend") && l.contains("clean")).unwrap();
    assert!(row.contains(" backend"), "got {row:?}");
    assert!(!row.contains("muufree/"), "got {row:?}");

    // Headings push every row below them down, so the highlight has to be
    // translated.
    for (cursor, expect) in [(0usize, "backend"), (3, "gam")] {
        st.repo_cursor = cursor;
        let out = draw_repos(&st, 150, 22);
        let marked = out.lines().find(|l| l.contains('▶')).unwrap();
        assert!(marked.contains(expect), "cursor {cursor}: got {marked:?}");
    }
}

#[test]
fn one_owner_is_not_worth_a_heading() {
    let st = dashboard_with_live_ci();
    let out = draw_repos(&st, 150, 16);
    assert!(!out.contains("╌╌╌"), "got:\n{out}");
    // …and with nothing to group by, the full spec stays on the row.
    assert!(out.contains("muufree/backend"), "got:\n{out}");
}

#[test]
fn columns_go_whole_rather_than_all_shrinking_together() {
    let narrow = Columns::for_width(90);
    assert!(!narrow.ran_on && !narrow.recent);
    assert!(Columns::for_width(200).ran_on);
    // History degrades by degrees, so it is the last thing to go entirely.
    assert!(Columns::for_width(110).spark_w < Columns::for_width(200).spark_w);

    let st = dashboard_with_live_ci();
    let out = draw_repos(&st, 90, 12);
    assert!(out.contains("muufree/backend"), "got:\n{out}");
    assert!(out.contains("clean"), "got:\n{out}");
    assert!(!out.contains("Ran on"), "got:\n{out}");
}

#[test]
fn the_history_bars_say_when_a_repo_started_failing() {
    // Newest first: two fresh failures behind a wall of green.
    let runs: Vec<Run> = (0..6)
        .map(|i| {
            let mut r =
                a_run(i, "CI", if i < 2 { Status::Failure } else { Status::Success }, 60);
            r.updated_at = later(r.created_at, if i == 5 { 300 } else { 60 });
            r
        })
        .collect();
    let bars = run_sparkline(&runs, 6);

    // Oldest on the left, so the recent failures are where the eye lands.
    let colors: Vec<Color> = bars.iter().map(|s| color(s.style.fg.unwrap(), 0)).collect();
    // The newest run is drawn at full strength.
    assert_eq!(colors[5], rgb(Role::Failure));
    // Both recent failures still read as failures rather than as background.
    let toward_bg = |c: Color| match (c, rgb(Role::RowIdle)) {
        (Color::Rgb(r, g, b), Color::Rgb(br, bg, bb)) => {
            let d = |x: u8, y: u8| (x as f64 - y as f64).abs();
            d(r, br) + d(g, bg) + d(b, bb)
        }
        _ => unreachable!("the theme is true colour"),
    };
    assert!(toward_bg(colors[4]) > toward_bg(colors[0]), "{colors:?}");
    // Older runs recede toward the row's ground: every success in the window is
    // dimmer than the one to its right.
    for w in colors[..4].windows(2) {
        assert!(toward_bg(w[0]) < toward_bg(w[1]), "{colors:?}");
    }
    // Height is duration: the five-minute run towers over the one-minute ones.
    let glyphs: Vec<&str> = bars.iter().map(|s| s.text.as_str()).collect();
    assert_eq!(glyphs[0], "█", "the longest run in the window");
    assert!(glyphs[1] < glyphs[0], "got {glyphs:?}");

    // A repo with no runs says so rather than drawing a flat line.
    let none = spoken(&run_sparkline(&vec![], 6));
    assert_eq!(none.trim(), "—");
    // Still the full column wide.
    assert_eq!(none.chars().count(), 6);

    // A history where every run took about the same time is flat, and must draw
    // flat.
    let steady: Vec<Run> = (0..6)
        .map(|i| {
            let mut r = a_run(i, "CI", Status::Success, 60);
            r.updated_at = later(r.created_at, 60 + i as i64);
            r
        })
        .collect();
    let bars = run_sparkline(&steady, 6);
    let glyphs: HashSet<&str> = bars.iter().map(|s| s.text.as_str()).collect();
    assert_eq!(glyphs.len(), 1, "got {glyphs:?}");
}

#[test]
fn a_repo_whose_ci_moved_lights_up_and_settles_back_down() {
    let mut st = dashboard_with_live_ci();
    let settled = row_bg(&st, "muufree/website");

    st.repos[2].changed_tick = Some(100);
    st.tick_count = 100;
    let lit = row_bg(&st, "muufree/website");
    assert_ne!(lit, settled, "a change you did not watch happen is invisible");

    // …and it does not stay lit.
    st.tick_count = 100 + FLASH_TICKS;
    assert_eq!(row_bg(&st, "muufree/website"), settled);

    // Rows that did not move are untouched throughout.
    st.tick_count = 100;
    let still = row_bg(&st, "muufree/backend");
    st.repos[2].changed_tick = None;
    assert_eq!(still, row_bg(&st, "muufree/backend"));
}

#[test]
fn every_repo_wears_the_mark_of_the_forge_it_lives_on() {
    let mut st = dashboard_with_live_ci();
    st.repos[2].remote = false; // a checkout with no recognised origin
    let out = draw_repos(&st, 150, 12);
    let line = |name: &str| {
        out.lines()
            .find(|l| l.contains(name))
            .unwrap_or_else(|| panic!("{name} is not on screen"))
            .to_string()
    };
    assert!(line("backend").contains(FORGE));
    assert!(!line("website").contains(FORGE));
    // The row without a mark still starts where the others do.
    let col = |name: &str| {
        let l = line(name);
        l[..l.find(name).unwrap()].chars().count()
    };
    assert_eq!(col("backend"), col("website"));
}

#[test]
fn a_terminal_without_the_font_can_turn_the_marks_off() {
    let mut st = dashboard_with_live_ci();
    st.forge_icon = String::new();
    let out = draw_repos(&st, 150, 12);
    assert!(!out.contains(FORGE));
    // And the width it was taking goes back to the names.
    let with_icon = draw_repos(&dashboard_with_live_ci(), 150, 12);
    let col = |s: &str| {
        let l = s.lines().find(|l| l.contains("backend")).unwrap();
        l[..l.find("muufree").unwrap()].chars().count()
    };
    assert!(col(&out) < col(&with_icon));
}

#[test]
fn the_dashboard_wears_no_frame_restating_its_own_header() {
    // Nothing in flight, so the strip, which keeps its own frame, is not on
    // screen to be confused for the table's.
    let mut st = workspace_dashboard();
    idle(&mut st);
    let out = draw_repos(&st, 150, 10);
    assert!(!out.contains("Repos  "), "got:\n{out}");
    assert!(!out.contains('╭') && !out.contains('╰'), "got:\n{out}");
    // The first row of the view is the column header, not a border.
    assert!(out.lines().next().unwrap().contains("Repo "), "got:\n{out}");
}

#[test]
fn a_broken_row_shows_the_cause_not_the_call_that_hit_it() {
    let out = draw_repos(&dashboard_out_of_quota(), 150, 12);
    assert!(out.contains("rate limited"), "{out}");
    assert!(!out.contains("list all repo runs"), "{out}");
}

#[test]
fn rows_that_broke_differently_get_no_shared_headline() {
    let mut st = dashboard_out_of_quota();
    st.repos[1].error = fault(Fault::Known(0), "not found");
    // No one line is true of all three, so the header stays at the count and
    // lets the rows disagree in their own cells.
    let noon = HourMin { hour: 12, minute: 0 };
    assert!(shared_fault_detail(&st, noon).is_none());
    let out = draw_repos(&st, 150, 12);
    assert!(out.contains("rate limited") && out.contains("not found"), "{out}");
}

#[test]
fn a_row_still_loading_says_so_by_moving() {
    let mut st = dashboard_with_live_ci();
    st.repos[0].loaded = false;
    st.repos[0].runs.clear();

    // Two frames far enough apart that the sweep has to have moved.
    st.skeleton_head = 0;
    let a = draw_repos(&st, 150, 12);
    st.skeleton_head = 6;
    let b = draw_repos(&st, 150, 12);
    let row =
        |out: &str| out.lines().find(|l| l.contains("muufree/backend")).unwrap().to_string();
    assert_ne!(row(&a), row(&b), "a still image cannot say 'still waiting'");
    assert!(row(&a).contains('─'), "got {:?}", row(&a));
}

#[test]
fn a_wide_dashboard_gets_a_live_pane_and_a_narrow_one_does_not() {
    let mut st = dashboard_with_live_ci();
    st.watch_tail = Some(Tail {
        job_id: st.followed.as_ref().unwrap().job.id,
        job_name: "build".into(),
        lines: vec!["cargo build --release".into()],
    });
    let wide = draw_repos(&st, 170, 20);
    assert!(wide.contains("Live —"), "got:\n{wide}");
    assert!(wide.contains("cargo build --release"), "got:\n{wide}");
    // The table is still the view: its rows survive the split.
    assert!(wide.contains("muufree/website"), "got:\n{wide}");
    let narrow = draw_repos(&st, 150, 20);
    assert!(!narrow.contains("Live —"), "got:\n{narrow}");
    // With nothing in flight there is nothing to tail, however wide.
    idle(&mut st);
    let quiet = draw_repos(&st, 170, 20);
    assert!(!quiet.contains("Live —"), "got:\n{quiet}");
}

#[test]
fn with_no_log_body_the_live_pane_shows_the_steps_instead() {
    let st = dashboard_with_live_ci();
    assert!(st.watch_tail.is_none());
    let out = draw_repos(&st, 170, 20);
    assert!(out.contains("Live —"), "got:\n{out}");
    assert!(out.contains("Run migrations"), "got:\n{out}");
    assert!(!out.contains("waiting for GitHub"), "got:\n{out}");
    // Steps past the one in flight are not news yet.
    assert!(!out.contains("Push image"), "got:\n{out}");
}

#[test]
fn a_guessed_active_repo_is_not_marked_active() {
    let mut st = app();
    st.repo_label = "acme/api".into();
    for spec in ["acme/api", "acme/web"] {
        st.repos.push(card(spec));
    }
    let row = |st: &App| {
        draw_repos(st, 120, 10).lines().find(|r| r.contains("acme/api")).unwrap().to_string()
    };
    // Entered deliberately: the dot says which repo we're on.
    assert!(row(&st).contains("acme/api  ●"), "got {:?}", row(&st));

    // Guessed at startup from a workspace scan: nothing to point at.
    st.repo_label_implicit = true;
    assert!(!row(&st).contains('●'), "got {:?}", row(&st));
}

// ── The header ─────────────────────────────────────────────────────────────

#[test]
fn the_header_bell_tells_live_from_muted_from_configured_off() {
    let mut st = dashboard_with_live_ci();
    let live = draw_header(&st, 120);
    assert!(live.contains(BELL), "{live}");
    assert!(!live.contains(BELL_OFF), "{live}");
    st.snooze_until = Some(later(st.now, 25 * 60));
    let muted = draw_header(&st, 120);
    assert!(muted.contains(BELL_OFF), "{muted}");
    assert!(muted.contains("25m"), "{muted}");
    // Config that never announces wears no bell at all.
    st.snooze_until = None;
    st.notify_enabled = false;
    let off = draw_header(&st, 120);
    assert!(!off.contains(BELL), "{off}");
}

fn local_clock(minutes: i64) -> String {
    (Local::now() + Duration::minutes(minutes)).format("%H:%M").to_string()
}

#[test]
fn the_reset_clock_shows_up_only_once_it_is_the_question() {
    let mut st = dashboard_with_live_ci();
    st.quota = quota_at(40, Utc::now() + Duration::minutes(23));
    let calm = draw_header(&st, 120);
    assert!(calm.contains("API 40%"), "{calm}");
    assert!(!calm.contains("till"), "a clock you have no use for is noise: {calm}");

    // Past the line the number stops being trivia and becomes a plan.
    let at = local_clock(23);
    st.quota = quota_at(94, Utc::now() + Duration::minutes(23));
    let hot = draw_header(&st, 120);
    assert!(hot.contains("API 94%"), "{hot}");
    assert!(hot.contains(&format!("till {at}")), "{hot}");
}

#[test]
fn a_budget_we_have_not_read_yet_shows_nothing_rather_than_zero() {
    let st = dashboard_with_live_ci();
    assert!(st.quota.is_none());
    assert!(!draw_header(&st, 120).contains("API"));
}

#[test]
fn the_header_carries_how_the_workspace_stands() {
    let out = draw_header(&workspace_dashboard(), 150);
    assert!(out.contains("✓1"), "{out}");
    assert!(out.contains("⏵2"), "{out}");
    assert!(out.contains("◆3 uncommitted"), "{out}");
    assert!(out.contains("3 repos"), "{out}");
}

#[test]
fn a_zero_is_not_bad_news() {
    let mut st = workspace_dashboard();
    for c in st.repos.iter_mut() {
        c.runs.clear();
        c.error = None;
    }
    idle(&mut st);
    let spans = workspace_tallies(&st);
    let fail = spans.iter().find(|s| s.text.contains('✗')).expect("the fail count is always shown");
    assert_eq!(fail.style.fg, Some(Paint::Plain(Role::TextFaint)), "{:?}", fail.text);
    assert_ne!(fail.style.fg, Some(Paint::Plain(Role::Failure)));
}

#[test]
fn the_header_gives_up_the_middle_before_it_collides() {
    let out = draw_header(&workspace_dashboard(), 78);
    assert!(!out.contains("uncommitted"), "{out}");
    let now = local_clock(0);
    assert!(out.contains(&now), "the clock survives: {out}");
    assert!(out.contains("github"), "the path survives: {out}");
}

#[test]
fn the_middle_of_the_header_says_what_is_happening_right_now() {
    let out = draw_header(&workspace_dashboard(), 150);
    // Two runs in flight: name the first and count the rest.
    assert!(out.contains("backend"), "{out}");
    assert!(out.contains("Deploy to Stage"), "{out}");
    assert!(out.contains("+1"), "{out}");

    // Nothing running, nothing to say.
    let mut quiet = workspace_dashboard();
    idle(&mut quiet);
    assert!(!draw_header(&quiet, 150).contains("Deploy to Stage"));
}

#[test]
fn trouble_outranks_progress_in_the_middle() {
    let mut st = dashboard_out_of_quota();
    st.quota = quota_at(99, Utc::now() + Duration::minutes(12));
    let at = local_clock(12);
    let out = draw_header(&st, 150);
    assert!(out.contains(&format!("retry {at}")), "{out}");
}

#[test]
fn one_shared_cause_is_stated_once_with_the_clock_attached() {
    let mut st = dashboard_out_of_quota();
    st.quota = quota_at(40, Utc::now() + Duration::minutes(12));
    let at = local_clock(12);
    let out = draw_header(&st, 150);
    assert!(out.contains(&format!("retry {at}")), "{out}");

    // A reset that has already passed is worse than none.
    st.quota = quota_at(40, Utc::now() - Duration::minutes(1));
    assert!(!draw_header(&st, 150).contains("retry"));
}

#[test]
fn the_pace_limit_does_not_borrow_the_hourly_clock() {
    let mut st = dashboard_out_of_quota();
    for c in st.repos.iter_mut() {
        c.error = fault(Fault::Throttled, "throttled");
    }
    st.quota = quota_at(4, Utc::now() + Duration::minutes(55));
    st.hold_left = Some(15);

    let out = draw_header(&st, 150);
    assert!(out.contains("API 4%"), "{out}");
    assert!(out.contains("asked too fast"), "{out}");
    // The hour's reset is not the answer to this one.
    assert!(!out.contains(&local_clock(55)), "{out}");
    assert!(out.contains("retrying in"), "{out}");
}

// ── Entrances ──────────────────────────────────────────────────────────────

#[test]
fn the_help_card_plays_an_entrance_then_settles() {
    let mut st = app();
    st.show_help = true;
    st.help_opened_tick = Some(100);
    st.tick_count = 100;
    assert!(help_revealing(&st));
    assert_eq!(help_reveal_at(&st, 0), 0, "nothing has arrived yet");
    st.tick_count = 103;
    assert_eq!(help_reveal_at(&st, 0), WHOLE, "the first row has landed");
    assert!(help_reveal_at(&st, 20) < WHOLE, "later rows are still arriving");
    st.tick_count = 100 + HELP_REVEAL_HORIZON;
    assert!(!help_revealing(&st), "the entrance ends");
    // Without an opening tick the card is simply settled.
    st.help_opened_tick = None;
    assert_eq!(help_reveal_at(&st, 30), WHOLE);
}

#[test]
fn the_dashboard_arrives_from_the_top_and_then_settles() {
    let mut st = app();
    st.view = Screen::Repos;
    st.tick_count = 100;
    st.dash_opened_tick = Some(100);
    assert!(dash_revealing(&st));
    assert_eq!(dash_reveal_at(&st, 0), 0, "nothing has arrived yet");
    st.tick_count = 103;
    assert_eq!(dash_reveal_at(&st, 0), WHOLE, "the first line has landed");
    assert!(dash_reveal_at(&st, 20) < WHOLE, "later lines are still arriving");
    st.tick_count = 200;
    assert!(!dash_revealing(&st), "the entrance ends");
    // A dashboard on screen without the clock having been started is settled.
    st.dash_opened_tick = None;
    assert_eq!(dash_reveal_at(&st, 30), WHOLE);
}

#[test]
fn an_entrance_never_goes_back_and_runs_down_the_rows() {
    for tick in 0..40u64 {
        for i in 0..12usize {
            for (step, rise) in [(SERVICES_STEP, WHOLE), (1, 40), (35, 7), (0, 0), (u64::MAX, 90)] {
                let now = staggered_reveal(Some(3), tick, i, step, rise);
                assert!(now <= staggered_reveal(Some(3), tick + 1, i, step, rise));
                assert!(now >= staggered_reveal(Some(3), tick, i + 1, step, rise));
                assert!(now <= rise);
            }
        }
    }
    // A tick in, the first row is a third of the way and the second waits less.
    assert_eq!(staggered_reveal(Some(3), 4, 0, 8, 60), 20);
    assert_eq!(staggered_reveal(Some(3), 4, 1, 8, 60), 12);
    // Before the card is open nothing has moved; with no clock it is all there.
    assert_eq!(staggered_reveal(Some(3), 1, 0, 8, 60), 0);
    assert_eq!(staggered_reveal(None, 1, 40, 8, 60), 60);
    assert_eq!(staggered_reveal(Some(0), u64::MAX, 3, 8, u64::MAX), u64::MAX);
}

// ── Clicks ─────────────────────────────────────────────────────────────────

fn clicks(ops: &[Op]) -> Vec<(Rect, Hit)> {
    ops.iter()
        .filter_map(|op| match op {
            Op::Click { area, hit } => Some((*area, *hit)),
            _ => None,
        })
        .collect()
}

#[test]
fn click_targets_match_the_rows_the_frame_would_draw() {
    let inner = Rect { x: 2, y: 3, width: 60, height: 12 };
    // 30 rows, 10 visible under a 2-row header, cursor at 20: the window must
    // scroll exactly far enough for row 20 to be the bottom row.
    let mut ops: Vec<Op> = vec![];
    register_rows(&mut ops, inner, 2, 1, 30, 20, RowKind::Workflow);
    let hits = clicks(&ops);
    assert_eq!(hits.len(), 10);
    assert_eq!(hits.first().unwrap().1, Hit::Workflow(11));
    assert_eq!(hits.first().unwrap().0.y, inner.y + 2);
    assert_eq!(hits.last().unwrap().1, Hit::Workflow(20));
    assert_eq!(hits.last().unwrap().0.y, inner.y + 11);

    // A short list under a tall viewport never scrolls, whatever is selected,
    // and two-row rows step their rects by two.
    let mut ops: Vec<Op> = vec![];
    register_rows(&mut ops, inner, 2, 2, 3, 2, RowKind::Run);
    let hits = clicks(&ops);
    assert_eq!(hits.len(), 3);
    assert_eq!(hits[0].1, Hit::Run(0));
    assert_eq!(hits[1].0.y, inner.y + 4);
    assert_eq!(hits[1].0.height, 2);
}

#[test]
fn clicks_do_not_overlap_and_stay_in_the_table() {
    let inner = Rect { x: 1, y: 5, width: 20, height: 9 };
    for selected in 0..14 {
        let mut ops: Vec<Op> = vec![];
        register_rows(&mut ops, inner, 2, 2, 14, selected, RowKind::DetailItem);
        let hits = clicks(&ops);
        assert!(hits.iter().any(|(_, h)| *h == Hit::DetailItem(selected)));
        for w in hits.windows(2) {
            assert_eq!(w[0].0.y + w[0].0.height, w[1].0.y);
        }
        assert!(hits.iter().all(|(r, _)| r.y >= 7 && r.y + r.height <= 14));
    }
    // No room under the header: nothing to click.
    let mut ops: Vec<Op> = vec![];
    register_rows(&mut ops, Rect { height: 2, ..inner }, 2, 1, 3, 0, RowKind::GitEntry);
    assert!(clicks(&ops).is_empty());
}

#[test]
fn a_click_on_the_dashboard_finds_the_repo_under_it_and_no_heading() {
    let mut st = dashboard_with_live_ci();
    idle(&mut st);
    st.repos.push(card("drposture/gam"));
    let ops = render_repos(&st, screen(150, 22));
    let out = drawn(&ops, 150, 22, 0, &[]);
    let hits = clicks(&ops);
    assert_eq!(hits.len(), 4);
    for (r, h) in hits {
        let Hit::Repo(i) = h else { panic!("{h:?}") };
        let short = st.repos[i].spec.split('/').nth(1).unwrap();
        assert!(row_text(&out, r.y).contains(short), "{short}");
    }
}

// ── Keys ───────────────────────────────────────────────────────────────────

#[test]
fn a_narrow_pane_drops_whole_keys_rather_than_half_of_one() {
    let rail = vec![
        ("j/k".to_string(), "scroll"),
        ("y".to_string(), "yank"),
        ("Esc".to_string(), "dismiss"),
    ];
    let said = |w| spoken(&rail_line(&rail, w).spans);
    assert_eq!(said(60).trim(), "j/k scroll · y yank · Esc dismiss");
    // Room for two: the third goes whole, taking its separator with it.
    assert_eq!(said(24).trim(), "j/k scroll · y yank");
    // Room for none: nothing at all, rather than a stray fragment.
    assert_eq!(said(8).trim(), "");
}

#[test]
fn every_view_maps_to_a_real_help_section() {
    let km = keymap();
    let sections = help_sections(&km);
    let titles: Vec<&str> = sections.iter().map(|(t, _)| *t).collect();
    for view in [
        Screen::Repos,
        Screen::GitStatus,
        Screen::GitDiff,
        Screen::Workflows,
        Screen::Runs,
        Screen::Watch,
        Screen::RunDetail,
        Screen::Diff,
        Screen::Logs,
        Screen::TriggerPrompt,
    ] {
        let section = help_section_for(view);
        assert!(
            titles.contains(&section),
            "{view:?} maps to `{section}`, which is not a help section"
        );
    }
}

#[test]
fn every_term_of_a_help_search_has_to_land_somewhere_on_the_row() {
    assert!(help_row_matches("p", "push — sets upstream on first push", "push"));
    // Both words, in either order, anywhere in key or description.
    assert!(help_row_matches("p", "push — sets upstream on first push", "push upstream"));
    assert!(help_row_matches("p", "push — sets upstream on first push", "upstream push"));
    assert!(!help_row_matches("p", "push — sets upstream on first push", "push tag"));
    // The binding itself is searchable, and case never matters.
    assert!(help_row_matches("ctrl+p", "fuzzy find in the current list", "CTRL"));
}

#[test]
fn an_empty_search_keeps_every_row() {
    assert!(help_row_matches("q", "quit", ""));
    assert!(help_row_matches("q", "quit", "   "));
}

#[test]
fn the_search_terms_are_marked_in_the_rows_that_kept_them() {
    let base = plain();
    let hit = plain().bold();
    let spans = highlight_terms("stage / unstage the selected file", "stage", base, hit);
    let marked: Vec<&str> =
        spans.iter().filter(|s| s.style == hit).map(|s| s.text.as_str()).collect();
    assert_eq!(marked, vec!["stage", "stage"], "both occurrences light up");
    // Nothing is lost or duplicated in the cutting.
    assert_eq!(spoken(&spans), "stage / unstage the selected file");
}

#[test]
fn a_search_ignores_case_beyond_ascii() {
    let hit = plain().bold();
    let spans = highlight_terms("Änderungen zeigen", "ÄNDER", plain(), hit);
    let marked: Vec<&str> =
        spans.iter().filter(|s| s.style == hit).map(|s| s.text.as_str()).collect();
    assert_eq!(marked, vec!["Änder"]);
    assert!(help_row_matches("x", "ÄNDERUNGEN", "änder"));
}

#[test]
fn help_reflects_remapped_keys() {
    let km = Keymap { git_commit: "x".into(), ..keymap() };
    let sections = help_sections(&km);
    let changes =
        sections.iter().find(|(t, _)| *t == "Changes — working tree").expect("changes section");
    let commit = changes.1.iter().find(|(_, d)| d.starts_with("commit")).expect("commit row");
    assert_eq!(commit.0, "x", "help must show the configured key, not the default");
}

#[test]
fn help_sections_are_all_populated() {
    let km = keymap();
    for (title, rows) in help_sections(&km) {
        assert!(!rows.is_empty(), "`{title}` has no rows");
    }
}

#[test]
fn keys_are_written_the_way_a_reader_says_them() {
    assert_eq!(display_key("Enter"), "↵");
    assert_eq!(display_key("Escape"), "Esc");
    assert_eq!(display_key("ctrl+p"), "ctrl+p");
}

#[test]
fn the_footer_always_offers_the_help() {
    for view in [Screen::Repos, Screen::GitStatus, Screen::Logs, Screen::Watch, Screen::Diff] {
        let mut st = app();
        st.view = view;
        let bar = draw_footer(&st, 200);
        assert!(bar.contains("help"), "{view:?}: {bar}");
    }
}

#[test]
fn a_status_message_takes_the_footer() {
    let mut st = app();
    st.status_msg = Some("pushed main".into());
    st.status_kind = StatusKind::Success;
    assert!(draw_footer(&st, 120).contains("pushed main"));
}

// ── Colours ────────────────────────────────────────────────────────────────

#[test]
fn an_environment_wears_its_own_colour() {
    assert_eq!(env_color("production"), Role::Success);
    assert_eq!(env_color("Prod"), Role::Success);
    assert_eq!(env_color("staging"), Role::Warning);
    assert_eq!(env_color("Stage"), Role::Warning);
    assert_eq!(env_color("dev"), Role::Info);
    // A name with no convention behind it still gets a chip.
    assert_eq!(env_color("customers"), Role::Accent);
    assert_eq!(env_color("untagged"), Role::Unknown);
}

#[test]
fn the_api_budget_sits_in_the_corner_and_warms_as_it_fills() {
    let critical: u32 = 90;
    // Quiet while there is room.
    assert_eq!(quota_color(0, critical), Paint::Plain(Role::TextFaint));
    assert_eq!(quota_color(49, critical), Paint::Plain(Role::TextFaint));
    // Then a ramp, arriving at full red exactly where the alarm goes off.
    assert_eq!(quota_color(50, critical), Paint::Plain(Role::Warning));
    assert_eq!(quota_color(critical, critical), Paint::Plain(Role::Failure));
    assert_eq!(quota_color(100, critical), Paint::Plain(Role::Failure));
    let mid = quota_color(70, critical);
    assert_ne!(mid, Paint::Plain(Role::Warning));
    assert_ne!(mid, Paint::Plain(Role::Failure));
}

#[test]
fn diff_headers_are_not_mistaken_for_content() {
    let fg = |s: &str| diff_line_style(s).fg.unwrap();
    let meta = Paint::Plain(Role::TextMuted);
    assert_eq!(fg("+++ b/src/main.rs"), meta);
    assert_eq!(fg("--- a/src/main.rs"), meta);
    assert_eq!(fg("diff --git a/x b/x"), meta);
    assert_eq!(fg("Binary files a/q.png and b/q.png differ"), meta);

    assert_eq!(fg("+let x = 1;"), Paint::Plain(Role::Success));
    assert_eq!(fg("-let x = 0;"), Paint::Plain(Role::Failure));
    assert_eq!(fg("@@ -1,4 +1,4 @@"), Paint::Plain(Role::Accent));
    // A context line keeps the neutral body colour, blank lines included.
    assert_eq!(fg(" unchanged"), Paint::Plain(Role::Text));
    assert_eq!(fg(""), Paint::Plain(Role::Text));
}

#[test]
fn a_status_has_one_colour_wherever_it_is_drawn() {
    assert_eq!(style_for_status(Status::Running).fg, Some(Paint::Plain(Role::Warning)));
    assert!(style_for_status(Status::Failure).bold);
    assert!(!style_for_status(Status::Skipped).bold);
    assert_eq!(row_bg_for_status(Status::Queued), Role::RowQueued);
    assert_eq!(row_bg_for_status(Status::Success), Role::Surface);
}

// ── Time ───────────────────────────────────────────────────────────────────

#[test]
fn the_eta_is_the_median_of_this_workflows_successes() {
    let start = stamp(Utc.with_ymd_and_hms(2026, 5, 1, 10, 0, 0).unwrap());
    let done = |mins: i64, status| {
        let mut r = a_run(0, "Deploy", status, 0);
        r.created_at = start;
        r.updated_at = later(start, mins * 60);
        r
    };
    let runs = vec![
        done(4, Status::Success),
        done(3, Status::Success),
        // Failures say nothing about how long a healthy run takes.
        done(60, Status::Failure),
        // The freak build is exactly what the median exists to shrug off.
        done(30, Status::Success),
    ];
    assert_eq!(typical_run_secs(&runs, "Deploy"), Some(240));
    assert_eq!(typical_run_secs(&runs, "Other"), None, "someone else's history predicts nothing");
}

#[test]
fn the_eta_stops_promising_when_the_run_outlives_its_history() {
    assert_eq!(eta_text(240, 100), "~2:20 left");
    // Past the typical, an honest guess is that there is no guess.
    assert_eq!(eta_text(240, 238), "running long");
    assert_eq!(eta_text(240, 500), "running long");
}

#[test]
fn format_elapsed_under_hour() {
    assert_eq!(format_elapsed(0), "0:00");
    assert_eq!(format_elapsed(42), "0:42");
    assert_eq!(format_elapsed(125), "2:05");
    assert_eq!(format_elapsed(3599), "59:59");
}

#[test]
fn format_elapsed_over_hour() {
    assert_eq!(format_elapsed(3600), "1:00:00");
    assert_eq!(format_elapsed(6942), "1:55:42");
}

#[test]
fn elapsed_freezes_for_terminal_runs() {
    let created = stamp(Utc.with_ymd_and_hms(2026, 4, 29, 8, 0, 0).unwrap());
    let updated = stamp(Utc.with_ymd_and_hms(2026, 4, 29, 8, 0, 5).unwrap());
    let run = Run {
        id: 1,
        display_title: "x".into(),
        head_branch: "main".into(),
        commit_msg: String::new(),
        status: Status::Skipped,
        created_at: created,
        updated_at: updated,
    };
    // Skipped 5s after creation; should stay 5s no matter when we look.
    assert_eq!(elapsed_seconds(&run, stamp(Utc::now())), 5);
    assert_eq!(elapsed_seconds(&run, later(updated, 1_000_000)), 5);
}

#[test]
fn ages_are_told_in_the_largest_unit_that_fits() {
    let now = stamp(Utc::now());
    let ago = |secs: i64| relative_styled(later(now, -secs), now).0;
    assert_eq!(ago(59), "59s ago");
    assert_eq!(ago(60), "1m ago");
    assert_eq!(ago(7199), "1h ago");
    assert_eq!(ago(86400), "1d ago");
    // A clock that runs behind does not make the past negative.
    assert_eq!(ago(-30), "0s ago");
    assert_eq!(relative_styled(now, now).1, fg(Role::TextBright));
    assert_eq!(relative_styled(later(now, -90000), now).1, fg(Role::TextFaint));
}

#[test]
fn steps_are_timed_to_the_second_and_then_to_the_minute() {
    assert_eq!(format_step_dur(0), "0s");
    assert_eq!(format_step_dur(1499), "1s");
    assert_eq!(format_step_dur(1501), "2s");
    // Halfway goes to the even second.
    assert_eq!(format_step_dur(500), "0s");
    assert_eq!(format_step_dur(1500), "2s");
    assert_eq!(format_step_dur(2500), "2s");
    assert_eq!(format_step_dur(59_999), "60s");
    assert_eq!(format_step_dur(60_000), "1m");
    assert_eq!(format_step_dur(61_900), "1m 1s");
}

#[test]
fn a_step_bar_is_ten_cells_whatever_it_says() {
    let now = stamp(Utc::now());
    let step = |status, end: Option<i64>, tenths| Step {
        name: "s".into(),
        status,
        started_at: Some(now),
        completed_at: end.map(|s| later(now, s)),
        tenths,
    };
    let bar = |s: &Step, measured, tick| step_timing(s, measured, now, tick).unwrap().1;
    // A step that took any time shows at least one cell; one too long shows ten.
    assert_eq!(bar(&step(Status::Success, Some(1), 0), true, 0), "■□□□□□□□□□");
    assert_eq!(bar(&step(Status::Success, Some(0), 0), true, 0), "□□□□□□□□□□");
    assert_eq!(bar(&step(Status::Success, Some(9), 12), true, 0), "■■■■■■■■■■");
    assert_eq!(bar(&step(Status::Success, Some(9), 4), false, 0), "□□□□□□□□□□");
    // One that is running sweeps.
    for tick in 0..70 {
        let b = bar(&step(Status::Running, None, 0), true, tick);
        assert_eq!(b.chars().count(), 10);
        assert_eq!(b.matches('■').count() as u64, (tick / 3) % 11);
    }
    // And one that has not started has neither a time nor a bar.
    let waiting = Step { started_at: None, ..step(Status::Queued, None, 0) };
    assert!(step_timing(&waiting, true, now, 0).is_none());
}

// ── Text ───────────────────────────────────────────────────────────────────

#[test]
fn a_cut_field_is_measured_in_columns_not_characters() {
    assert!(disp_width(&truncate("🔨🔨🔨🔨 CI", 6)) <= 6);
    assert!(disp_width(&truncate("🔨🔨🔨🔨 CI", 7)) <= 7);
    assert_eq!(disp_width(&truncate("Build & Test Frontend", 10)), 10);
    // Room for all of it is room for all of it.
    assert_eq!(truncate("🔨 CI", 8), "🔨 CI");
    assert_eq!(truncate("", 4), "");
}

#[test]
fn cutting_to_nothing_leaves_nothing() {
    assert_eq!(truncate("anything", 0), "");
    assert_eq!(truncate("anything", 1), "…");
    assert_eq!(disp_width("🔨a"), 3);
    assert_eq!(fit_columns("🔨ab", 2), ("🔨".to_string(), 2));
}

#[test]
fn a_deep_path_keeps_only_the_part_that_says_which_checkout() {
    assert_eq!(short_path("/data/repos/muufree/github", false), "…/muufree/github");
    // Short enough to be worth saying in full.
    assert_eq!(short_path("/srv/code", false), "/srv/code");
    // Home is a prefix everyone already knows the expansion of.
    if let Some(home) = dirs::home_dir() {
        let deep = home.join("a/b/c/d");
        assert_eq!(short_path(deep.to_str().unwrap(), false), "…/c/d");
        assert_eq!(short_path(home.join("work").to_str().unwrap(), false), "~/work");
    }
}

#[test]
fn a_windows_path_is_cut_the_same_way() {
    let home = Some(r"C:\Users\me".to_string());
    assert_eq!(shorten(r"C:\Users\me\work", &home, true), "~/work");
    assert_eq!(shorten(r"D:\a\b\c", &home, true), "…/b/c");
    assert_eq!(shorten("/home/me/x", &None, false), "/home/me/x");
    assert_eq!(shorten("/home/me/x/y", &None, false), "…/x/y");
}

#[test]
fn descriptions_wrap_between_words_and_lose_none() {
    let s = "stage or unstage the file under the cursor";
    for w in 1..50 {
        let out = wrap_words(s, w);
        assert_eq!(out.join(" "), s);
        assert!(out.iter().all(|l| disp_width(l) <= w || !l.contains(' ')), "{w}: {out:?}");
    }
    assert_eq!(wrap_words(s, 16), vec!["stage or unstage", "the file under", "the cursor"]);
}

// ── Columns and bars ───────────────────────────────────────────────────────

#[test]
fn columns_give_from_the_widest_down_to_their_floors() {
    let mut cols = vec![20usize, 10, 6];
    shrink_to_fit(&mut cols, &vec![4, 4, 4], 30);
    assert_eq!(cols, vec![14, 10, 6]);
    let mut cols = vec![20usize, 10, 6];
    shrink_to_fit(&mut cols, &vec![4, 4, 4], 5);
    assert_eq!(cols, vec![4, 4, 4], "never under the floor");
    let mut cols = vec![3usize, 3];
    shrink_to_fit(&mut cols, &vec![1, 1], 10);
    assert_eq!(cols, vec![3, 3], "what fits is left alone");
}

#[test]
fn a_history_is_always_as_wide_as_its_column() {
    for n in 0..12u64 {
        let runs: Vec<Run> = (0..n).map(|i| a_run(i, "CI", Status::Success, 60)).collect();
        assert_eq!(spoken(&run_sparkline(&runs, 8)).chars().count(), 8, "{n} runs");
    }
}

#[test]
fn a_wider_dashboard_never_shows_less() {
    for w in 0..220u16 {
        let (a, b) = (Columns::for_width(w), Columns::for_width(w + 1));
        assert!(!a.ran_on || b.ran_on);
        assert!(!a.updated || b.updated);
        assert!(!a.recent || b.recent);
        assert!(a.spark_w <= b.spark_w);
    }
}

#[test]
fn a_wider_diff_never_loses_its_second_column() {
    let dv = diff_of(&[("src/api.rs", HUNK)]);
    let mut split = false;
    for w in 0..160usize {
        let now = diff_columns(w, &dv.rows).is_some();
        assert!(now || !split, "lost at {w}");
        split = now;
    }
    assert!(split);
}

#[test]
fn owners_are_grouped_without_losing_a_name() {
    let repos = vec![card("a/x"), card("a/y"), card("b/z")];
    let g = Grouping::of(&repos);
    assert!(g.on());
    assert_eq!(g.heading_before(0), Some("a"));
    assert_eq!(g.heading_before(1), None);
    assert_eq!(g.heading_before(2), Some("b"));
    assert_eq!(g.short_name("b/z"), "z");
}

// ── The run, watched and compared ──────────────────────────────────────────

fn timed(name: &str, status: Status, from: Stamp, secs: i64, tenths: usize) -> Step {
    Step {
        name: name.into(),
        status,
        started_at: Some(from),
        completed_at: Some(later(from, secs)),
        tenths,
    }
}

fn failed_run() -> App {
    let mut st = app();
    st.view = Screen::RunDetail;
    let mut run = a_run(42, "CI", Status::Failure, 90);
    run.updated_at = later(run.created_at, 75);
    let steps = vec![
        timed("Checkout", Status::Success, run.created_at, 2, 0),
        timed("Test", Status::Failure, run.created_at, 70, 10),
    ];
    let jobs = vec![Job { id: 1, name: "build".into(), status: Status::Failure, steps }];
    st.run_detail = Some(RunDetail { run, jobs, current_step: None });
    st.detail_items = vec![
        DetailItem::Job(0),
        DetailItem::Step { job: 0, step: 0 },
        DetailItem::Step { job: 0, step: 1 },
    ];
    st.detail_cursor = 2;
    st.step_stats = vec![StepStat { name: "Test".into(), failed: 3, total: 5 }];
    st.failure_digest = Some(Digest {
        run_id: 42,
        step_name: Some("Test".into()),
        job_name: "build".into(),
        lines: vec!["running 3 tests".into(), "assertion failed".into()],
        error_rows: vec![1],
    });
    st
}

#[test]
fn a_failed_run_says_why_above_its_steps() {
    let st = failed_run();
    let ops = render_run_detail(&st, screen(100, 24));
    let buf = drawn(&ops, 100, 24, 0, &[]);
    let out = text(&buf);
    assert!(out.contains("Run 42 — CI (main)"), "{out}");
    assert!(out.contains("1 job  ✗ 1 failed  ⏱ 1:15"), "{out}");
    assert!(out.contains("why it failed — Test"), "{out}");
    assert!(row_of(&buf, "assertion failed") < row_of(&buf, "Checkout"), "{out}");
    assert!(out.contains("▶ ✗  2. Test"), "{out}");
    assert!(out.contains("1m 10s ■■■■■■■■■■"), "{out}");
    assert!(out.contains("2s ■□□□□□□□□□"), "{out}");
    assert!(out.contains("3/5 fails"), "{out}");
    let y = row_of(&buf, "assertion failed");
    assert_eq!(buf[(3, y)].fg, rgb(Role::Failure));

    // Too short for both: the steps keep the room.
    let short = text(&drawn(&render_run_detail(&st, screen(100, 10)), 100, 10, 0, &[]));
    assert!(!short.contains("why it failed"), "{short}");
    // One job, two steps, three rows to click.
    assert_eq!(clicks(&ops).len(), 3);
}

#[test]
fn a_run_still_on_its_way_says_so() {
    let mut st = app();
    st.view = Screen::RunDetail;
    let out = text(&drawn(&render_run_detail(&st, screen(60, 8)), 60, 8, 0, &[]));
    assert!(out.contains("loading…"), "{out}");
}

#[test]
fn a_watched_run_counts_down_against_its_history() {
    let mut st = app();
    st.view = Screen::Watch;
    let job = deploy_job();
    st.run_detail = Some(live(a_run(9, "Deploy", Status::Running, 100), vec![job]));
    let mut past = a_run(8, "Deploy", Status::Success, 0);
    past.updated_at = later(past.created_at, 240);
    st.runs = vec![past];
    st.now = stamp(Utc::now());
    let out = text(&drawn(&render_watch(&st, screen(100, 30)), 100, 30, 0, &[]));
    assert!(out.contains("Status: Running"), "{out}");
    assert!(out.contains("Step:   Run migrations"), "{out}");
    assert!(out.contains("usually 4:00"), "{out}");
    assert!(out.contains("left"), "{out}");
    assert!(out.contains("Run:    Deploy on main"), "{out}");
    assert!(out.contains("⠋ build  2/4"), "{out}");
    assert!(out.contains(" 4. Push image"), "{out}");
    assert!(out.contains("Live steps — build"), "{out}");

    st.run_detail = None;
    let out = text(&drawn(&render_watch(&st, screen(100, 30)), 100, 30, 0, &[]));
    assert!(out.contains("waiting on run 8…"), "{out}");
    st.runs.clear();
    let out = text(&drawn(&render_watch(&st, screen(100, 30)), 100, 30, 0, &[]));
    assert!(out.contains("loading runs…"), "{out}");
}

#[test]
fn the_live_pane_leaves_the_jobs_their_rows() {
    let mut st = app();
    st.view = Screen::Watch;
    st.run_detail = Some(live(a_run(9, "Deploy", Status::Running, 100), vec![deploy_job()]));
    // The shortest screen that has one: the gauge and all four steps are there.
    let out = text(&drawn(&render_watch(&st, screen(100, 20)), 100, 20, 0, &[]));
    assert!(out.contains("Live steps"), "{out}");
    assert!(out.contains("2/4") && out.contains(" 4. Push image"), "{out}");
    // One row shorter, and there is no pane.
    let out = text(&drawn(&render_watch(&st, screen(100, 19)), 100, 19, 0, &[]));
    assert!(!out.contains("Live steps"), "{out}");
}

fn diff_text(st: &App) -> String {
    text(&drawn(&render_diff(st, screen(90, 14)), 90, 14, 0, &[]))
}

#[test]
fn a_run_is_held_against_the_last_that_succeeded() {
    let mut st = failed_run();
    st.view = Screen::Diff;
    assert!(diff_text(&st).contains("(no workflow context"), "{}", diff_text(&st));
    st.workflow_for_runs = Some("ci.yml".into());
    let out = diff_text(&st);
    assert!(out.contains("no successful run in history"), "{out}");
    assert!(out.contains("browse a few completed runs first"), "{out}");

    let old = |name: &str, status| Job {
        id: 1,
        name: "build".into(),
        status: Status::Success,
        steps: vec![timed(name, status, st.now, 1, 0)],
    };
    let jobs = vec![old("Test", Status::Cancelled), old("Test", Status::Success)];
    st.baseline = Some(Baseline { run_id: 40, jobs });
    let out = diff_text(&st);
    assert!(out.contains("current run #42   vs   last success #40"), "{out}");
    // The later of two steps of one name is the one that counts.
    assert!(out.contains("Test  Success → Failure"), "{out}");
    assert!(out.contains("Checkout  (absent) → Success"), "{out}");

    // The same run twice is no comparison.
    st.baseline.as_mut().unwrap().run_id = 42;
    assert!(diff_text(&st).contains("no successful run in history"));

    // Nothing changed, nothing listed.
    st.baseline = Some(Baseline { run_id: 40, jobs: failed_run().run_detail.unwrap().jobs });
    let out = diff_text(&st);
    assert!(out.contains("no step-status differences"), "{out}");
    assert!(!out.contains("→"), "{out}");
    st.run_detail = None;
    assert!(diff_text(&st).contains("(no run loaded)"));
}

// ── Prompts ────────────────────────────────────────────────────────────────

#[test]
fn the_finder_keeps_the_cursor_on_screen() {
    let mut st = app();
    st.finder = Some(Finder {
        kind: FinderKind::Workflows,
        query: "ci".into(),
        items: (0..40).map(|i| format!("workflow {i:02}")).collect(),
        matches: (0..40).collect(),
        cursor: 0,
    });
    for cursor in [0usize, 5, 11, 12, 25, 39] {
        st.finder.as_mut().unwrap().cursor = cursor;
        let out = text(&drawn(&render_finder_overlay(&st, screen(80, 30)), 80, 30, 0, &[]));
        assert!(out.contains("Find workflow  (40/40)"), "{out}");
        let marked = out.lines().find(|l| l.contains('▶')).unwrap();
        assert!(marked.contains(&format!("workflow {cursor:02}")), "{marked}");
    }
    // On a short screen too, as long as there is a row to list it on.
    for h in 5..20u16 {
        for cursor in 0..40usize {
            st.finder.as_mut().unwrap().cursor = cursor;
            let out = text(&drawn(&render_finder_overlay(&st, screen(80, h)), 80, h, 0, &[]));
            assert!(out.contains(&format!("▶ workflow {cursor:02}")), "{cursor} in {h}:\n{out}");
        }
    }
    st.finder.as_mut().unwrap().matches.clear();
    let out = text(&drawn(&render_finder_overlay(&st, screen(80, 30)), 80, 30, 0, &[]));
    assert!(out.contains("no matches"), "{out}");
}

#[test]
fn the_commit_prompt_counts_what_is_staged() {
    let mut st = app();
    let mut gv = git_view();
    let mut tree = clean_tree();
    tree.entries = vec![changed("M ", "a.rs"), changed(" M", "b.rs")];
    gv.status = Some(tree);
    gv.commit_input = Some("fix: it".into());
    st.git_view = Some(gv);
    let out = text(&drawn(&render_commit_overlay(&st, screen(80, 12)), 80, 12, 0, &[]));
    assert!(out.contains("Commit 1 staged file "), "{out}");
    assert!(out.contains("fix: it█"), "{out}");
    st.git_view.as_mut().unwrap().commit_input = None;
    assert!(render_commit_overlay(&st, screen(80, 12)).is_empty());
}

#[test]
fn the_search_box_shows_what_is_being_typed() {
    let mut st = app();
    assert!(render_search_overlay(&st, screen(80, 12)).is_empty());
    st.log.search_input = Some("panic".into());
    let out = text(&drawn(&render_search_overlay(&st, screen(80, 12)), 80, 12, 0, &[]));
    assert!(out.contains(" Search ") && out.contains("panic█"), "{out}");
}

#[test]
fn a_trigger_prompt_marks_what_it_filled_in_by_itself() {
    let mut st = app();
    let out = text(&drawn(&render_trigger_prompt(&st, screen(100, 20)), 100, 20, 0, &[]));
    assert!(out.contains("(no prompt)"), "{out}");
    let field = |name: &str, value: &str| PromptField {
        name: name.into(),
        value: value.into(),
        recalled: false,
        required: false,
        options: None,
    };
    st.trigger_prompt = Some(TriggerPrompt {
        workflow_name: "Deploy".into(),
        workflow_file: "deploy.yml".into(),
        fields: vec![
            PromptField { recalled: true, ..field("target", "prod") },
            PromptField {
                required: true,
                options: Some(vec!["a".into(), "b".into()]),
                ..field("a-longer-name", "")
            },
        ],
        cursor: 0,
        editing: true,
    });
    let out = text(&drawn(&render_trigger_prompt(&st, screen(120, 20)), 120, 20, 0, &[]));
    assert!(out.contains("Trigger: Deploy  (deploy.yml)  on main"), "{out}");
    assert!(out.contains("▶ target         prod_  ↺ last used"), "{out}");
    assert!(out.contains("a-longer-name  (empty)  (required)  [a/b]"), "{out}");
    assert!(out.contains("t trigger  Esc cancel  Space cycle"), "{out}");
}

// ── Workflows and runs ─────────────────────────────────────────────────────

#[test]
fn the_workflow_list_and_its_preview_share_the_screen() {
    let mut st = app();
    st.view = Screen::Workflows;
    let empty = text(&drawn(&render_workflows(&st, screen(120, 14)), 120, 14, 0, &[]));
    assert!(empty.contains("Workflows  0"), "{empty}");
    st.workflows = vec![
        Workflow {
            name: "CI".into(),
            file_name: "ci.yml".into(),
            last_status: Some(Status::Success),
            last_run_at: Some(later(st.now, -120)),
            triggerable: true,
        },
        Workflow {
            name: "Deploy".into(),
            file_name: "deploy.yml".into(),
            last_status: Some(Status::Failure),
            last_run_at: None,
            triggerable: false,
        },
    ];
    st.workflow_cursor = 1;
    let ops = render_workflows(&st, screen(120, 14));
    let out = text(&drawn(&ops, 120, 14, 0, &[]));
    assert!(out.contains("CI") && out.contains("Deploy"), "{out}");
    assert!(out.contains("2m ago"), "{out}");
    let hits = clicks(&ops);
    assert_eq!(hits.iter().map(|h| h.1).collect::<Vec<_>>(), [Hit::Workflow(0), Hit::Workflow(1)]);
}

#[test]
fn the_run_list_offers_a_click_for_every_run() {
    let mut st = app();
    st.view = Screen::Runs;
    st.workflow_for_runs = Some("ci.yml".into());
    st.runs = vec![a_run(1, "CI", Status::Success, 60), a_run(2, "CI", Status::Failure, 60)];
    let ops = render_runs(&st, screen(120, 14));
    let out = text(&drawn(&ops, 120, 14, 0, &[]));
    assert!(out.contains("Runs — ci.yml  2"), "{out}");
    assert!(out.contains("wip"), "{out}");
    assert_eq!(clicks(&ops).len(), 2);
}

// ── A whole frame ──────────────────────────────────────────────────────────

#[test]
fn a_frame_is_a_header_a_view_and_a_footer() {
    let st = dashboard_with_live_ci();
    let mut m = Meter { most: 0, started: 0 };
    let ops = render(&st, &mut m, screen(140, 24));
    assert!(matches!(ops[0], Op::Tell(Reading::FrameWidth(140))));
    let buf = drawn(&ops, 140, 24, 0, &[]);
    assert!(row_text(&buf, 0).contains("jog"), "{}", text(&buf));
    assert!(row_text(&buf, 23).contains("help"), "{}", text(&buf));
    assert!(text(&buf).contains("muufree/website"));
}

#[test]
fn every_view_can_be_drawn_on_any_screen() {
    for view in [
        Screen::Repos,
        Screen::GitStatus,
        Screen::GitDiff,
        Screen::Workflows,
        Screen::Runs,
        Screen::RunDetail,
        Screen::Logs,
        Screen::Watch,
        Screen::TriggerPrompt,
        Screen::Diff,
        Screen::BatchCommit,
    ] {
        for (w, h) in [(0u16, 0u16), (1, 1), (9, 3), (40, 10), (80, 24), (200, 60)] {
            let mut st = batch_state(BatchPhase::Committing);
            st.view = view;
            st.git_view = Some(git_view());
            st.current_op = Some(commit_op());
            st.git_diff = Some(diff_of(&[("src/api.rs", HUNK)]));
            st.runs = vec![a_run(1, "CI", Status::Success, 60)];
            st.show_help = true;
            let mut m = Meter { most: 0, started: 0 };
            let ops = render(&st, &mut m, screen(w, h));
            assert!(!ops.is_empty());
            if w > 0 && h > 8 {
                drawn(&ops, w, h, 0, &[]);
            }
        }
    }
}

#[test]
fn the_help_lies_over_everything_else() {
    let mut st = dashboard_with_live_ci();
    st.show_help = true;
    st.push_prompt = Some(PushPrompt {
        branch: "main".into(),
        has_upstream: true,
        yes: true,
        batch_count: Some(3),
    });
    let mut m = Meter { most: 0, started: 0 };
    let out = text(&drawn(&render(&st, &mut m, screen(120, 40)), 120, 40, 0, &[]));
    assert!(out.contains("Help — jog v"), "{out}");
    assert!(!out.contains("Push?"), "{out}");
    st.show_help = false;
    let out = text(&drawn(&render(&st, &mut m, screen(120, 40)), 120, 40, 0, &[]));
    assert!(out.contains("3 repos committed — push them all?"), "{out}");
}

#[test]
fn a_dialog_frame_leaves_its_inside_one_cell_in() {
    let r = Rect { x: 4, y: 2, width: 10, height: 5 };
    let none = Padding { left: 0, right: 0, top: 0, bottom: 0 };
    assert_eq!(inner_of(r, none), Rect { x: 5, y: 3, width: 8, height: 3 });
    let pad = Padding { left: 1, right: 2, top: 1, bottom: 0 };
    assert_eq!(inner_of(r, pad), Rect { x: 6, y: 4, width: 5, height: 2 });
    // Too small for a frame: nothing inside.
    assert_eq!(inner_of(Rect { width: 1, height: 1, ..r }, none).width, 0);
    assert_eq!(centered_rect(50, 50, screen(100, 40)), Rect { x: 25, y: 10, width: 50, height: 20 });
}

#[test]
fn the_poll_clock_keeps_its_width() {
    let mut widths = HashSet::new();
    for (pending, tick) in [(0usize, 0u64), (3, 4), (2, 9), (0, 30), (0, 49), (1, 60)] {
        let mut st = app();
        st.pending = pending;
        st.tick_count = tick;
        let mut m = Meter { most: 4, started: 0 };
        widths.insert(poll_clock(&st, &mut m).chars().count());
    }
    assert_eq!(widths.len(), 1, "{widths:?}");
    // Two numbers too wide for their field become a share.
    let mut st = app();
    st.pending = 2;
    st.tick_count = 40;
    let mut m = Meter { most: 12, started: 0 };
    let shown = poll_clock(&st, &mut m);
    assert!(shown.ends_with(" 83%"), "{shown}");
    assert_eq!(shown.chars().count(), 6);
    // A wait of any length keeps to the field too.
    st.pending = 1;
    for (tick, said) in [(40u64, "  4s"), (9_990, "999s"), (20_000, " 33m"), (9_000_000, "250h")] {
        st.tick_count = tick;
        let shown = poll_clock(&st, &mut Meter { most: 1, started: 0 });
        assert!(shown.ends_with(said), "{shown}");
        assert_eq!(shown.chars().count(), 6);
    }
    for tick in [1_000_000_000u64, u64::MAX] {
        st.tick_count = tick;
        assert_eq!(poll_clock(&st, &mut Meter { most: 1, started: 0 }).chars().count(), 6);
    }
}

// ── Rooms and shares ───────────────────────────────────────────────────────

#[test]
fn two_panes_share_every_column() {
    for w in 0..260u16 {
        for percent in [0u16, 42, 58, 99, 100] {
            let (a, b) = side_by_side(percent, Rect { x: 3, y: 1, width: w, height: 9 });
            assert_eq!((a.x, a.y, a.height), (3, 1, 9));
            assert_eq!(a.x + a.width, b.x, "{w} at {percent}");
            assert_eq!(a.width + b.width, w);
            assert_eq!(a.width as u32, (w as u32 * percent as u32 + 50) / 100);
        }
    }
    assert_eq!(side_by_side(42, screen(121, 5)).0.width, 51);
}

#[test]
fn a_centred_modal_is_as_large_as_it_was_asked_to_be() {
    assert_eq!(centered_rect(70, 80, screen(101, 31)), Rect { x: 15, y: 3, width: 71, height: 25 });
    assert_eq!(centered_rect(100, 100, screen(7, 3)), screen(7, 3));
    assert_eq!(centered_rect(50, 50, screen(0, 0)), screen(0, 0));
}

#[test]
fn a_list_and_its_preview_do_not_overlap() {
    let mut st = app();
    st.runs = (0..4).map(|i| a_run(i, "CI", Status::Success, 60)).collect();
    for w in [40u16, 81, 120, 133] {
        let ops = render_runs(&st, screen(w, 20));
        let frames: Vec<Rect> = ops
            .iter()
            .filter_map(|op| match op {
                Op::Frame { area, .. } => Some(*area),
                _ => None,
            })
            .collect();
        assert_eq!(frames.len(), 2);
        assert_eq!(frames[0].width as u32, (w as u32 * 42 + 50) / 100);
        assert_eq!(frames[0].x + frames[0].width, frames[1].x);
        assert_eq!(frames[1].x + frames[1].width, w);
        assert!(clicks(&ops).iter().all(|(r, _)| r.x + r.width < frames[1].x));
    }
}

#[test]
fn jobs_that_do_not_fit_are_not_drawn_over_one_another() {
    let mut st = app();
    st.view = Screen::Watch;
    let jobs = vec![deploy_job(), deploy_job(), deploy_job(), deploy_job()];
    st.run_detail = Some(live(a_run(9, "Deploy", Status::Running, 100), jobs));
    for h in 7..40u16 {
        let pieces: Vec<Rect> = render_watch(&st, screen(100, h))
            .iter()
            .skip_while(|op| !matches!(op, Op::Gauge { .. }))
            .filter_map(|op| match op {
                Op::Gauge { area, .. } | Op::Text { area, .. } => Some(*area),
                _ => None,
            })
            .collect();
        assert_eq!(pieces.len(), 8);
        for p in pieces.windows(2) {
            assert!(p[0].y + p[0].height <= p[1].y, "{h}: {p:?}");
        }
        assert!(pieces[7].y + pieces[7].height <= h);
    }
}

#[test]
fn drawing_again_leaves_the_same_click_map() {
    let repos = dashboard_with_live_ci();
    let mut detail = failed_run();
    detail.view = Screen::RunDetail;
    let mut tree = state_with_op(commit_op());
    tree.view = Screen::GitStatus;
    let mut status = clean_tree();
    status.entries = vec![changed("M ", "a.rs"), changed(" M", "b.rs")];
    tree.git_view.as_mut().unwrap().status = Some(status);
    let mut runs = dashboard_with_live_ci();
    runs.view = Screen::Runs;
    runs.runs = vec![a_run(1, "CI", Status::Success, 60)];
    for (mut st, some) in [(repos, 3usize), (detail, 3), (tree, 2), (runs, 1)] {
        let mut m = Meter { most: 0, started: 0 };
        let first = clicks(&render(&st, &mut m, screen(140, 30)));
        assert_eq!(first.len(), some);
        assert_eq!(clicks(&render(&st, &mut m, screen(140, 30))), first);
        // Nothing that lies over the view answers to a click of its own.
        st.show_help = true;
        assert_eq!(clicks(&render(&st, &mut m, screen(140, 30))), first);
    }
}

#[test]
fn selecting_another_row_changes_only_grounds() {
    let mut st = dashboard_with_live_ci();
    let table = |st: &App| -> Vec<(Vec<(String, Style)>, Style)> {
        let ops = render_repos(st, screen(120, 20));
        let grid = ops.iter().rev().find_map(|op| match op {
            Op::Grid { table, .. } => Some(table),
            _ => None,
        });
        let said = |c: &Cell| -> Vec<(String, Style)> {
            c.lines.iter().flat_map(|l| &l.spans).map(|s| (s.text.clone(), s.style)).collect()
        };
        let rows = &grid.unwrap().rows;
        rows.iter().map(|r| (r.cells.iter().flat_map(said).collect(), r.style)).collect()
    };
    let before = table(&st);
    st.repo_cursor = 2;
    let after = table(&st);
    for (i, (a, b)) in before.iter().zip(&after).enumerate() {
        assert_eq!(a.0, b.0, "row {i}");
        assert_eq!(Style { bg: None, ..a.1 }, Style { bg: None, ..b.1 });
        assert_eq!(a.1.bg != b.1.bg, i == 0 || i == 2, "row {i}");
    }
}

#[test]
fn the_pane_and_the_strip_have_their_places_round_the_list() {
    let mut st = dashboard_with_live_ci();
    st.split_min_width = 100;
    let ops = render_repos(&st, screen(140, 24));
    let frames: Vec<Rect> = ops
        .iter()
        .filter_map(|op| match op {
            Op::Frame { area, .. } => Some(*area),
            _ => None,
        })
        .collect();
    assert_eq!(frames[0], Rect { x: 84, y: 0, width: 56, height: 24 });
    assert_eq!(frames[1], Rect { x: 0, y: 20, width: 84, height: 4 });
    let list = ops.iter().rev().find_map(|op| match op {
        Op::Grid { area, .. } => Some(*area),
        _ => None,
    });
    assert_eq!(list, Some(Rect { x: 1, y: 0, width: 82, height: 20 }));

    // Moving the selection leaves everything but the table as it was.
    let said = |ops: &[Op]| -> Vec<String> {
        ops.iter().filter(|op| !matches!(op, Op::Grid { .. })).map(|op| format!("{op:?}")).collect()
    };
    let before = said(&ops);
    st.repo_cursor = 1;
    assert_eq!(said(&render_repos(&st, screen(140, 24))), before);
}

#[test]
fn a_screen_with_no_room_for_rows_answers_no_click() {
    let mut m = Meter { most: 0, started: 0 };
    let mut st = dashboard_with_live_ci();
    st.split_min_width = 0;
    for w in 0..70u16 {
        for h in 0..8u16 {
            let hits = clicks(&render(&st, &mut m, screen(w, h)));
            // The live pane comes first; then there is the margin, and the header.
            assert_eq!(hits.is_empty(), w < 66 || h < 5, "{w}x{h}");
        }
    }
    let st = failed_run();
    for h in 0..12u16 {
        let hits = clicks(&render(&st, &mut m, screen(80, h)));
        assert_eq!(hits.is_empty(), h < 7, "{h}");
    }
}

// ── What is learned and what is said ───────────────────────────────────────

#[test]
fn the_typical_run_is_the_median_whatever_the_order() {
    let took = |id: u64, secs: i64| {
        let mut r = a_run(id, "CI", Status::Success, 0);
        r.updated_at = later(r.created_at, secs);
        r
    };
    let mut runs = vec![took(1, 50), took(2, 10), took(3, 900), took(4, 20)];
    // Four to learn from: the upper of the two in the middle.
    assert_eq!(typical_run_secs(&runs, "CI"), Some(50));
    runs.reverse();
    assert_eq!(typical_run_secs(&runs, "CI"), Some(50));
    // Other workflows, failures, and runs that took no time teach nothing.
    runs.insert(1, Run { display_title: "Deploy".into(), ..took(5, 1) });
    runs.insert(3, Run { status: Status::Failure, ..took(6, 2) });
    runs.push(took(7, 0));
    assert_eq!(typical_run_secs(&runs, "CI"), Some(50));
    runs.push(took(8, 5));
    assert_eq!(typical_run_secs(&runs, "CI"), Some(20));
    assert_eq!(typical_run_secs(&runs, "Nightly"), None);
}

#[test]
fn a_stopwatch_reads_back_as_what_went_in() {
    for secs in (0..8000i64).chain([35_999, 36_000, 359_999, 3_600_000, 86_400_007]) {
        let t = format_elapsed(secs);
        let fields: Vec<&str> = t.split(':').collect();
        assert_eq!(fields.len(), if secs >= 3600 { 3 } else { 2 }, "{t}");
        assert!(fields[1..].iter().all(|f| f.len() == 2), "{t}");
        let read = fields.iter().fold(0i64, |n, f| n * 60 + f.parse::<i64>().unwrap());
        assert_eq!(read, secs, "{t}");
    }
    assert_eq!(format_elapsed(3671), "1:01:11");
}

#[test]
fn the_longest_step_is_the_longest_that_finished() {
    let now = stamp(Utc::now());
    let mut job = Job { id: 1, name: "build".into(), status: Status::Running, steps: vec![] };
    assert_eq!(longest_step(&job), 0);
    job.steps = vec![
        timed("a", Status::Success, now, 4, 0),
        timed("b", Status::Success, now, 9, 0),
        timed("c", Status::Success, now, 2, 0),
        Step { completed_at: None, ..timed("d", Status::Running, later(now, -500), 0, 0) },
        Step { started_at: None, ..timed("e", Status::Skipped, now, 90, 0) },
        // A clock set back in the middle of a step is no time at all.
        timed("f", Status::Success, now, -30, 0),
    ];
    assert_eq!(longest_step(&job), 9000);
}

#[test]
fn a_help_query_hides_no_row_that_matches() {
    let mut st = app();
    st.show_help = true;
    st.help_search = "stage".into();
    let out = draw_help(&st, 200, 90);
    let sections = help_sections(&st.keymap);
    let mut matching = 0;
    for (key, label) in sections.iter().flat_map(|s| &s.1) {
        if help_row_matches(key, label, "stage") {
            matching += 1;
            assert!(out.contains(label.split_whitespace().next().unwrap()), "{label}\n{out}");
        }
    }
    assert!(matching > 1);
}

#[test]
fn a_band_is_told_of_once_and_keeps_its_tick() {
    let mut st = diff_state(HUNK);
    st.git_diff.as_mut().unwrap().opened_tick = Some(0);
    st.tick_count = 5;
    draw_diff(&mut st, 120, 20);
    assert_eq!(st.git_diff.as_ref().unwrap().band_seen, vec![Some(5)]);
    st.tick_count = 9;
    draw_diff(&mut st, 120, 20);
    assert_eq!(st.git_diff.as_ref().unwrap().band_seen, vec![Some(5)]);
}

#[test]
fn both_sides_of_a_pair_fill_the_row_exactly() {
    let st = diff_state(HUNK);
    for w in [100u16, 101, 140, 163] {
        let ops = render_git_diff(&st, screen(w, 20));
        let lines = ops
            .iter()
            .find_map(|op| match op {
                Op::Text { lines, .. } => Some(lines),
                _ => None,
            })
            .unwrap();
        let pair = lines.iter().find(|l| spoken(&l.spans).contains("let x = 1;")).unwrap();
        assert!(spoken(&pair.spans).contains("let x = 2;"));
        assert_eq!(disp_width(&spoken(&pair.spans)), w as usize - 2, "at {w}");
    }
}

#[test]
fn what_is_cut_never_outgrows_its_room() {
    for s in ["☺\u{fe0f}☺\u{fe0f}☺\u{fe0f}☺\u{fe0f}", "日本語の名前", "plain words", "e\u{301}e\u{301}e\u{301}"] {
        for max in 0..12usize {
            let t = truncate(s, max);
            assert!(disp_width(&t) <= max, "{s:?} at {max}: {t:?}");
            if disp_width(s) <= max {
                assert_eq!(t, s);
            }
        }
    }
}

#[test]
fn what_fits_is_measured_as_it_is_drawn() {
    // Two characters that are wider together than one at a time.
    let s = "☺\u{fe0f}ab";
    assert_eq!(fit_columns(s, 1), ("☺".to_string(), 1));
    assert_eq!(fit_columns(s, 2), ("☺\u{fe0f}".to_string(), 2));
    assert_eq!(fit_columns(s, 3), ("☺\u{fe0f}a".to_string(), 3));
    for s in [s, "日本語", "plain words", "e\u{301}e\u{301}"] {
        for cols in 0..14usize {
            let (front, w) = fit_columns(s, cols);
            assert!(s.starts_with(&front) && w == disp_width(&front) && w <= cols);
            let longer = s.char_indices().map(|(i, c)| &s[..i + c.len_utf8()]);
            assert!(longer.filter(|l| l.len() > front.len()).all(|l| disp_width(l) > cols));
        }
    }
}

#[test]
fn the_two_ends_of_the_header_never_meet() {
    let mut st = workspace_dashboard();
    st.quota = quota_at(95, Utc::now());
    let mut last = 0;
    for w in 0..160u16 {
        let mut m = Meter { most: 0, started: 0 };
        let ops = render_header(&st, &mut m, screen(w, 1));
        let ends: Vec<String> = ops
            .iter()
            .filter_map(|op| match op {
                Op::Text { lines, .. } => Some(spoken(&lines[0].spans)),
                _ => None,
            })
            .collect();
        let (left, right) = (&ends[0], ends.last().unwrap());
        assert!(
            right.is_empty() || disp_width(left) + disp_width(right) + 2 <= w as usize,
            "{w}: {left:?} {right:?}"
        );
        // What is uncommitted is the first thing to go.
        assert!(!right.contains("uncommitted") || right.contains("✓"), "{w}: {right:?}");
        // A wider header never says less.
        assert!(disp_width(right) >= last, "{w}: {right:?}");
        last = disp_width(right);
    }
    assert!(last > 0);
}

#[test]
fn the_queue_leaves_the_pane_below_it_its_rows() {
    for (phase, least) in [(BatchPhase::Compose, 4u16), (BatchPhase::Paused, 3)] {
        let mut st = batch_state(phase);
        let b = st.batch.as_mut().unwrap();
        for i in 0..20 {
            b.items.push(item(&format!("acme/repo{i:02}")));
        }
        b.tally = tally_of(&b.items);
        for h in 8..40u16 {
            let ops = render_batch_commit(&st, screen(100, h));
            let pane = ops.iter().rev().find_map(|op| match op {
                Op::Frame { area, .. } => Some(*area),
                _ => None,
            });
            assert!(pane.unwrap().height >= least, "{h}: {pane:?}");
        }
    }
}

#[test]
fn a_file_named_like_a_suffix_is_a_plain_file() {
    assert_eq!(lang_icon("bin/go"), "\u{f016}");
    assert_eq!(lang_icon("rs"), "\u{f016}");
    assert_ne!(lang_icon("cmd/main.go"), "\u{f016}");
}

#[test]
fn only_home_itself_is_a_tilde() {
    let home = Some("/home/bob".to_string());
    assert_eq!(shorten("/home/bob/work", &home, false), "~/work");
    assert_eq!(shorten("/home/bobby/work", &home, false), "/home/bobby/work");
    assert_eq!(shorten("/home/bob", &home, false), "~");
    assert_eq!(shorten("/home/bob/work", &Some("/home/bob/".to_string()), false), "~/work");
}

#[test]
fn a_lone_section_has_no_heading_so_its_tags_stay_on_the_rows() {
    let mut st = app();
    st.show_services = true;
    st.services = vec![service("API", ServiceState::Up, "Services", &["Prod"])];
    let out = services_text(&st, 70, 14);
    assert!(!out.contains("▐ Prod ▌"), "{out}");
    assert!(out.contains("#Prod"), "{out}");
}

#[test]
fn a_queue_two_rows_tall_still_shows_the_repo_in_hand() {
    let mut st = batch_state(BatchPhase::Committing);
    let b = st.batch.as_mut().unwrap();
    b.items = (0..12).map(|i| item(&format!("acme/repo{i:02}"))).collect();
    b.tally = tally_of(&b.items);
    st.git_ops.clear();
    for at in 0..12usize {
        let b = st.batch.as_mut().unwrap();
        b.cursor = at;
        b.current = Some(at);
        for h in 4..14u16 {
            let ops = render_batch_commit(&st, screen(110, h));
            let queue = ops.iter().find_map(|op| match op {
                Op::Text { area, lines, .. } if area.height >= 2 => Some(lines),
                _ => None,
            });
            if let Some(lines) = queue {
                let said: String = lines.iter().map(|l| spoken(&l.spans)).collect();
                assert!(said.contains(&format!("acme/repo{at:02}")), "{at} in {h}: {said}");
            }
        }
    }
}

fn spans_of(ops: &[Op]) -> Vec<&Span> {
    ops.iter()
        .flat_map(|op| match op {
            Op::Text { lines, .. } => lines.iter().flat_map(|l| &l.spans).collect::<Vec<_>>(),
            _ => vec![],
        })
        .collect()
}

#[test]
fn only_a_programs_own_output_has_its_colour_codes_read() {
    // The part of a log worth reading, but not what stands round it.
    let ops = render_run_detail(&failed_run(), screen(100, 24));
    let coded: Vec<&str> =
        spans_of(&ops).iter().filter(|s| s.style.coded).map(|s| s.text.as_str()).collect();
    assert_eq!(coded, ["running 3 tests", "assertion failed"]);

    // The tail of a log, beside the dashboard and in the watched run.
    let mut st = dashboard_with_live_ci();
    st.split_min_width = 100;
    st.watch_tail = Some(Tail {
        job_id: deploy_job().id,
        job_name: "build".into(),
        lines: vec!["\u{1b}[31mred\u{1b}[0m".into()],
    });
    st.run_detail = Some(live(a_run(9, "Deploy", Status::Running, 100), vec![deploy_job()]));
    for ops in [render_repos(&st, screen(140, 24)), render_watch(&st, screen(100, 30))] {
        let coded: Vec<&str> =
            spans_of(&ops).iter().filter(|s| s.style.coded).map(|s| s.text.as_str()).collect();
        assert_eq!(coded, ["\u{1b}[31mred\u{1b}[0m"]);
    }
    // A hook's output, a log's title and a diff are shown as they are.
    let mut op = commit_op();
    say(&mut op, "plain");
    assert!(spans_of(&render_git_status(&state_with_op(op), screen(80, 24))).iter().all(|s| !s.style.coded));
    assert!(spans_of(&render_git_diff(&diff_state(HUNK), screen(120, 20))).iter().all(|s| !s.style.coded));
}

#[test]
fn the_header_tells_the_moments_it_is_asked_about() {
    let at = |mins: i64| {
        let t = Utc.with_ymd_and_hms(2024, 3, 5, 10, 0, 0).unwrap() + Duration::minutes(mins);
        (t, t.with_timezone(&Local).format("%H:%M").to_string())
    };
    let mut st = dashboard_out_of_quota();
    for (now, reset) in [(0i64, 17i64), (61, 90), (700, 731)] {
        st.now = stamp(at(now).0);
        st.quota = quota_at(95, at(reset).0);
        let out = draw_header(&st, 160);
        assert!(out.trim_end().ends_with(&at(now).1), "{out}");
        assert!(out.contains(&format!("till {}", at(reset).1)), "{out}");
        assert!(out.contains(&format!("retry {}", at(reset).1)), "{out}");
    }
}

#[test]
fn a_history_and_a_pair_can_be_any_width() {
    let runs: Vec<Run> = (0..3).map(|i| a_run(i, "CI", Status::Success, 60)).collect();
    let spans = run_sparkline(&runs, 100_000);
    assert_eq!(spoken(&spans).chars().count(), 100_000);
    let dv = diff_of(&[("src/api.rs", HUNK)]);
    let pair = dv.rows.iter().find(|r| matches!(r, DiffRow::Pair { .. })).unwrap();
    for w in [60usize, 61, 1000, 200_001] {
        let s = diff_columns(w, &dv.rows).unwrap();
        let l = diff_row_line(pair, s, 0, "");
        assert_eq!(disp_width(&spoken(&l.spans)), w);
        let band = file_banner("src/api.rs", 2, 1, w, 12, "");
        assert_eq!(disp_width(&spoken(&band.spans)), w);
    }
}
