//! What the status of a backup shows: its title and its graphic, decided from the outcome of
//! the last run or from the state of the running one. Titles are the untranslated messages.

use vstd::prelude::*;

verus! {

/// Severity of a message that a run logged.
#[derive(Clone, Copy, Debug, PartialEq, Eq, Structural)]
pub enum LogLevel {
    Debug,
    Info,
    Warning,
    Error,
    Critical,
}

/// Rank of a severity: the later in `LogLevel`, the more severe.
pub open spec fn level_rank(l: LogLevel) -> int {
    match l {
        LogLevel::Debug => 0,
        LogLevel::Info => 1,
        LogLevel::Warning => 2,
        LogLevel::Error => 3,
        LogLevel::Critical => 4,
    }
}

/// How a finished run ended.
#[derive(Clone, Copy, Debug, PartialEq, Eq, Structural)]
pub enum Outcome {
    Completed,
    /// The user stopped the run.
    AbortedByUser,
    /// The run ended in an error, or was stopped for another reason.
    Failed,
}

/// The state of a running backup.
#[derive(Clone, Copy, Debug, PartialEq, Eq, Structural)]
pub enum Run {
    Init,
    Running,
    Stalled,
    Reconnecting,
    Stopping,
}

/// The picture next to a status.
#[derive(Clone, Debug, PartialEq, Eq)]
pub enum Graphic {
    OkIcon(String),
    WarningIcon(String),
    ErrorIcon(String),
    Spinner,
}

/// What a graphic stands for, over character sequences.
pub enum GraphicView {
    OkIcon(Seq<char>),
    WarningIcon(Seq<char>),
    ErrorIcon(Seq<char>),
    Spinner,
}

impl View for Graphic {
    type V = GraphicView;

    open spec fn view(&self) -> GraphicView {
        match self {
            Graphic::OkIcon(i) => GraphicView::OkIcon(i@),
            Graphic::WarningIcon(i) => GraphicView::WarningIcon(i@),
            Graphic::ErrorIcon(i) => GraphicView::ErrorIcon(i@),
            Graphic::Spinner => GraphicView::Spinner,
        }
    }
}

/// The title and the graphic of a status.
#[derive(Clone, Debug, PartialEq, Eq)]
pub struct Status {
    pub title: String,
    pub graphic: Graphic,
}

/// The most severe level among the handled messages of a run is above `Info`.
pub open spec fn has_warnings(max_log_level: Option<LogLevel>) -> bool {
    match max_log_level {
        Some(l) => level_rank(l) > level_rank(LogLevel::Info),
        None => false,
    }
}

/// The title and graphic that the outcome of the last run gives, where `max_log_level` is the
/// most severe level among the messages that the run logged and nobody handled.
pub open spec fn spec_last_run_status(outcome: Outcome, max_log_level: Option<LogLevel>) -> (
    Seq<char>,
    GraphicView,
) {
    match outcome {
        Outcome::Completed => if has_warnings(max_log_level) {
            (
                "Last backup completed with warnings"@,
                GraphicView::WarningIcon("dialog-warning-symbolic"@),
            )
        } else {
            ("Last backup successful"@, GraphicView::OkIcon("emblem-default-symbolic"@))
        },
        Outcome::AbortedByUser => (
            "Last backup aborted"@,
            GraphicView::WarningIcon("dialog-warning-symbolic"@),
        ),
        Outcome::Failed => ("Last backup failed"@, GraphicView::ErrorIcon("dialog-error-symbolic"@)),
    }
}

/// The log level of a run counts only where the run completed: an aborted or failed run shows
/// the same whatever it logged, a failed one as failed with the error icon. Only a completed
/// run is called completed or successful, and an error icon shows exactly for a failed one.
pub proof fn lemma_last_run_status_by_outcome(
    outcome: Outcome,
    level: Option<LogLevel>,
    other_level: Option<LogLevel>,
)
    ensures
        outcome != Outcome::Completed ==> spec_last_run_status(outcome, level)
            == spec_last_run_status(outcome, other_level),
        outcome == Outcome::Failed ==> spec_last_run_status(outcome, level) == (
            "Last backup failed"@,
            GraphicView::ErrorIcon("dialog-error-symbolic"@),
        ),
        outcome == Outcome::AbortedByUser ==> spec_last_run_status(outcome, level) == (
            "Last backup aborted"@,
            GraphicView::WarningIcon("dialog-warning-symbolic"@),
        ),
        outcome == Outcome::Completed ==> spec_last_run_status(outcome, level).0 == (if has_warnings(
            level,
        ) {
            "Last backup completed with warnings"@
        } else {
            "Last backup successful"@
        }),
        spec_last_run_status(outcome, level).1 is ErrorIcon <==> outcome == Outcome::Failed,
{
}

/// The title of the status of a running backup in the state `run`.
pub open spec fn spec_running_title(run: Run) -> Seq<char> {
    match run {
        Run::Init => "Preparing backup"@,
        Run::Running => "Backup running"@,
        Run::Stalled => "Backup destination unresponsive"@,
        Run::Reconnecting => "Reconnecting"@,
        Run::Stopping => "Stopping backup"@,
    }
}

/// Tests `l` for being more severe than `Info`.
fn above_info(l: Option<LogLevel>) -> (r: bool)
    ensures
        r == has_warnings(l),
{
    match l {
        Some(LogLevel::Warning) | Some(LogLevel::Error) | Some(LogLevel::Critical) => true,
        _ => false,
    }
}

/// The status that the last run leaves.
pub fn last_run_status(outcome: Outcome, max_log_level: Option<LogLevel>) -> (r: Status)
    ensures
        (r.title@, r.graphic@) == spec_last_run_status(outcome, max_log_level),
        outcome == Outcome::Failed ==> r.title@ == "Last backup failed"@ && r.graphic@
            == GraphicView::ErrorIcon("dialog-error-symbolic"@),
        outcome == Outcome::AbortedByUser ==> r.title@ == "Last backup aborted"@ && r.graphic@
            == GraphicView::WarningIcon("dialog-warning-symbolic"@),
        outcome == Outcome::Completed && !has_warnings(max_log_level) ==> r.title@
            == "Last backup successful"@ && r.graphic@ == GraphicView::OkIcon(
            "emblem-default-symbolic"@,
        ),
        outcome == Outcome::Completed && has_warnings(max_log_level) ==> r.title@
            == "Last backup completed with warnings"@ && r.graphic@ == GraphicView::WarningIcon(
            "dialog-warning-symbolic"@,
        ),
{
    proof {
        lemma_last_run_status_by_outcome(outcome, max_log_level, None);
    }
    match outcome {
        Outcome::Completed => if above_info(max_log_level) {
            Status {
                title: String::from_str("Last backup completed with warnings"),
                graphic: Graphic::WarningIcon(String::from_str("dialog-warning-symbolic")),
            }
        } else {
            Status {
                title: String::from_str("Last backup successful"),
                graphic: Graphic::OkIcon(String::from_str("emblem-default-symbolic")),
            }
        },
        Outcome::AbortedByUser => Status {
            title: String::from_str("Last backup aborted"),
            graphic: Graphic::WarningIcon(String::from_str("dialog-warning-symbolic")),
        },
        Outcome::Failed => Status {
            title: String::from_str("Last backup failed"),
            graphic: Graphic::ErrorIcon(String::from_str("dialog-error-symbolic")),
        },
    }
}

/// The status of a running backup: its title follows the state, and a spinner turns.
pub fn running_status(run: Run) -> (r: Status)
    ensures
        r.title@ == spec_running_title(run),
        r.graphic@ == GraphicView::Spinner,
{
    let title = match run {
        Run::Init => String::from_str("Preparing backup"),
        Run::Running => String::from_str("Backup running"),
        Run::Stalled => String::from_str("Backup destination unresponsive"),
        Run::Reconnecting => String::from_str("Reconnecting"),
        Run::Stopping => String::from_str("Stopping backup"),
    };
    Status { title, graphic: Graphic::Spinner }
}

/// What the last message that a running backup logged was.
#[derive(Clone, Copy, Debug, PartialEq, Eq, Structural)]
pub enum LastLog {
    /// It logged nothing yet.
    Nothing,
    /// Progress on the archive being created.
    ArchiveProgress,
    /// Any other message.
    Other,
}

/// Which text stands under the title of a running backup.
#[derive(Clone, Copy, Debug, PartialEq, Eq, Structural)]
pub enum Subtitle {
    /// No text.
    Nothing,
    /// The share finished, followed by the time left where `time_left` holds.
    Progress { time_left: bool },
    /// The last message that the backup logged.
    LastMessage,
    /// The notice that the connection was lost, and when it is tried again.
    Reconnecting,
}

/// The status of a running backup, and which parts accompany it.
#[derive(Clone, Debug, PartialEq, Eq)]
pub struct RunningDisplay {
    pub status: Status,
    pub subtitle: Subtitle,
    /// The share of the archive finished is shown.
    pub show_progress: bool,
    /// The statistics of the archive being created are shown.
    pub show_stats: bool,
}

/// The subtitle of a running backup in the state `run`, whose last message is `last_log`,
/// where `estimate_known` tells whether the total size is estimated and `time_left_known`
/// whether the time left is: the reconnect notice while reconnecting; otherwise the share
/// finished while archive progress comes with an estimate, with the time left only while
/// running; otherwise the last message, if any.
pub open spec fn spec_running_subtitle(
    run: Run,
    last_log: LastLog,
    estimate_known: bool,
    time_left_known: bool,
) -> Subtitle {
    if run == Run::Reconnecting {
        Subtitle::Reconnecting
    } else if last_log == LastLog::ArchiveProgress && estimate_known {
        Subtitle::Progress { time_left: run == Run::Running && time_left_known }
    } else if last_log != LastLog::Nothing {
        Subtitle::LastMessage
    } else {
        Subtitle::Nothing
    }
}

/// The status of a running backup with its subtitle, and whether its progress and its
/// statistics are shown: the statistics while the last message is archive progress, the
/// progress only where the total size is estimated too.
pub fn running_display(
    run: Run,
    last_log: LastLog,
    estimate_known: bool,
    time_left_known: bool,
) -> (r: RunningDisplay)
    ensures
        r.status.title@ == spec_running_title(run),
        r.status.graphic@ == GraphicView::Spinner,
        r.subtitle == spec_running_subtitle(run, last_log, estimate_known, time_left_known),
        r.show_stats == (last_log == LastLog::ArchiveProgress),
        r.show_progress == (last_log == LastLog::ArchiveProgress && estimate_known),
        run == Run::Reconnecting <==> r.subtitle == Subtitle::Reconnecting,
        r.subtitle is Progress ==> r.show_progress,
        r.show_progress ==> r.show_stats,
        r.subtitle == (Subtitle::Progress { time_left: true }) ==> run == Run::Running
            && time_left_known,
        last_log == LastLog::Nothing && run != Run::Reconnecting ==> r.subtitle == Subtitle::Nothing,
{
    let archive_progress = match last_log {
        LastLog::ArchiveProgress => true,
        _ => false,
    };
    let show_progress = archive_progress && estimate_known;
    let subtitle = match run {
        Run::Reconnecting => Subtitle::Reconnecting,
        _ => if show_progress {
            let running = match run {
                Run::Running => true,
                _ => false,
            };
            Subtitle::Progress { time_left: running && time_left_known }
        } else {
            match last_log {
                LastLog::Nothing => Subtitle::Nothing,
                _ => Subtitle::LastMessage,
            }
        },
    };
    RunningDisplay {
        status: running_status(run),
        subtitle,
        show_progress,
        show_stats: archive_progress,
    }
}

/// The operation under way for a configuration, as far as its status goes.
#[derive(Clone, Copy, Debug, PartialEq, Eq, Structural)]
pub enum Operation {
    /// None runs.
    Nothing,
    /// A backup is being created.
    Create,
    /// Another operation runs.
    Other,
}

/// Where the status of a configuration comes from.
#[derive(Clone, Copy, Debug, PartialEq, Eq, Structural)]
pub enum StatusSource {
    /// The backup being created.
    Running,
    /// The last run.
    LastRun,
    /// The status of a backup that never ran.
    NeverRan,
}

/// Where the status of a configuration comes from: an operation under way comes first, and
/// shows only when it creates a backup; with none, the last run, where there was one.
pub fn status_source(operation: Operation, has_last_run: bool) -> (r: StatusSource)
    ensures
        r == (match operation {
            Operation::Create => StatusSource::Running,
            Operation::Other => StatusSource::NeverRan,
            Operation::Nothing => if has_last_run {
                StatusSource::LastRun
            } else {
                StatusSource::NeverRan
            },
        }),
{
    match operation {
        Operation::Create => StatusSource::Running,
        Operation::Other => StatusSource::NeverRan,
        Operation::Nothing => if has_last_run {
            StatusSource::LastRun
        } else {
            StatusSource::NeverRan
        },
    }
}

/// The status of a backup that never ran, with its subtitle.
pub fn never_ran_status() -> (r: (Status, String))
    ensures
        r.0.title@ == "Backup never ran"@,
        r.0.graphic@ == GraphicView::WarningIcon("dialog-information-symbolic"@),
        r.1@ == "Start by creating your first backup"@,
{
    (
        Status {
            title: String::from_str("Backup never ran"),
            graphic: Graphic::WarningIcon(String::from_str("dialog-information-symbolic")),
        },
        String::from_str("Start by creating your first backup"),
    )
}

} // verus!
