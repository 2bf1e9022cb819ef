//! Extraction of an archive onto a destination through a bundled tool, as a
//! sequence of steps.
//!
//! The library decides; a driver acts. The driver starts an [`Extraction`],
//! performs the [`Action`] it is handed, reports how that went, and is handed
//! the next action together with the [`ExtractProgress`] event to pass on, until
//! the action is [`Action::Finish`].
//!
//! The tool is staged at one fixed place, so only one extraction may run at a
//! time; nothing here enforces that. An extraction runs to its end: it cannot be
//! cancelled and has no time limit, and nothing is tried a second time. Passing
//! an event on may fail without consequence for the extraction.

use vstd::prelude::*;
use crate::text::decode::{quoted, utf8_lossy};
use crate::text::trim::trim;

pub mod laws;
pub mod machine;

pub use machine::{Extraction, Step};

verus! {

/// One event in the life of an extraction.
#[derive(Debug, Clone)]
pub enum ExtractProgress {
    /// The extraction has begun.
    Started,
    /// Archive and destination are in order; the tool is about to be staged and
    /// run.
    Extracting,
    /// The tool ran and reported success.
    Completed,
    /// The tool could not be run, or ran and failed; the message says which.
    Error(String),
}

/// What an [`ExtractProgress`] holds.
pub enum ProgressView {
    Started,
    Extracting,
    Completed,
    Error(Seq<char>),
}

impl View for ExtractProgress {
    type V = ProgressView;

    open spec fn view(&self) -> ProgressView {
        match self {
            ExtractProgress::Started => ProgressView::Started,
            ExtractProgress::Extracting => ProgressView::Extracting,
            ExtractProgress::Completed => ProgressView::Completed,
            ExtractProgress::Error(m) => ProgressView::Error(m@),
        }
    }
}

impl ExtractProgress {
    /// Whether the event ends an extraction.
    pub fn is_terminal(&self) -> (r: bool)
        ensures
            r == is_terminal(self@),
    {
        match self {
            ExtractProgress::Completed => true,
            ExtractProgress::Error(_) => true,
            _ => false,
        }
    }

    /// An event that holds what this one holds.
    pub fn duplicate(&self) -> (r: ExtractProgress)
        ensures
            r@ == self@,
    {
        match self {
            ExtractProgress::Started => ExtractProgress::Started,
            ExtractProgress::Extracting => ExtractProgress::Extracting,
            ExtractProgress::Completed => ExtractProgress::Completed,
            ExtractProgress::Error(m) => ExtractProgress::Error(m.clone()),
        }
    }
}

/// What the driver is to do next.
#[derive(Debug, Clone, Copy, PartialEq, Eq, Structural)]
pub enum Action {
    /// Find out whether the archive exists.
    CheckArchive,
    /// Make sure that the destination directory exists, creating it with its
    /// parents where it does not.
    PrepareDestination,
    /// Write the bundled tool to its fixed temporary place, over any stale copy.
    StageTool,
    /// Run the staged tool with [`Extraction::tool_arguments`], capture what it
    /// prints on both streams, and wait for it to end.
    RunTool,
    /// Try to delete the staged tool; whether that works does not matter.
    RemoveTool,
    /// Return [`Extraction::result`]; nothing is left to do.
    Finish,
}

/// How the action last handed out went.
#[derive(Debug, Clone)]
pub enum Report {
    /// The archive exists.
    ArchiveFound,
    /// The archive does not exist.
    ArchiveMissing,
    /// The destination directory exists now.
    DestinationReady,
    /// The destination directory could not be created, for the reason given.
    DestinationFailed(String),
    /// The tool is in place.
    ToolStaged,
    /// The tool could not be written, for the reason given.
    StagingFailed(String),
    /// The tool ran and ended, with or without success, and printed this.
    ToolExited { success: bool, stdout: Vec<u8>, stderr: Vec<u8> },
    /// The tool could not be started, for the reason given.
    ToolNotStarted(String),
    /// The attempt to delete the staged tool was made.
    ToolRemoved,
}

/// What a [`Report`] holds.
pub enum ReportView {
    ArchiveFound,
    ArchiveMissing,
    DestinationReady,
    DestinationFailed(Seq<char>),
    ToolStaged,
    StagingFailed(Seq<char>),
    ToolExited { success: bool, stdout: Seq<u8>, stderr: Seq<u8> },
    ToolNotStarted(Seq<char>),
    ToolRemoved,
}

impl View for Report {
    type V = ReportView;

    open spec fn view(&self) -> ReportView {
        match self {
            Report::ArchiveFound => ReportView::ArchiveFound,
            Report::ArchiveMissing => ReportView::ArchiveMissing,
            Report::DestinationReady => ReportView::DestinationReady,
            Report::DestinationFailed(e) => ReportView::DestinationFailed(e@),
            Report::ToolStaged => ReportView::ToolStaged,
            Report::StagingFailed(e) => ReportView::StagingFailed(e@),
            Report::ToolExited { success, stdout, stderr } => ReportView::ToolExited {
                success: *success,
                stdout: stdout@,
                stderr: stderr@,
            },
            Report::ToolNotStarted(e) => ReportView::ToolNotStarted(e@),
            Report::ToolRemoved => ReportView::ToolRemoved,
        }
    }
}

/// Where an extraction stands: which report it waits for.
#[derive(Debug, Clone, Copy, PartialEq, Eq, Structural)]
pub enum Phase {
    CheckingArchive,
    PreparingDestination,
    StagingTool,
    RunningTool,
    RemovingTool,
    Finished,
}

/// How an extraction ends that got as far as staging the tool.
pub enum OutcomeView {
    /// The tool could not be staged. The extraction fails with this message; no
    /// terminal event is emitted.
    NotStaged(Seq<char>),
    /// The tool ran and reported success.
    Completed,
    /// The tool could not be started, or ran and failed. The extraction fails
    /// with this message, and an `Error` event carries it.
    Failed(Seq<char>),
}

/// The state of an extraction.
pub enum StateView {
    /// `Started` is emitted; the archive is to be checked.
    CheckingArchive,
    /// The archive is there; the destination is to be made ready.
    PreparingDestination,
    /// `Extracting` is emitted; the tool is to be staged.
    StagingTool,
    /// The tool is staged and is to be run.
    RunningTool,
    /// The outcome is decided; the staged tool is to be removed before anything
    /// is said of it.
    RemovingTool(OutcomeView),
    /// The extraction ended before the tool was to be staged, and fails with
    /// this message.
    Refused(Seq<char>),
    /// The extraction ended after the staged tool was to be removed.
    Finished(OutcomeView),
}

/// An extraction: what it works on, and where it stands.
pub struct ExtractionView {
    /// The path of the archive.
    pub archive: Seq<char>,
    /// The path of the destination directory.
    pub destination: Seq<char>,
    /// Where the extraction stands.
    pub state: StateView,
}

/// Whether the event ends an extraction.
pub open spec fn is_terminal(e: ProgressView) -> bool {
    e is Completed || e is Error
}

/// The message for an archive that does not exist.
pub open spec fn archive_missing_message(archive: Seq<char>) -> Seq<char> {
    "Archive not found: "@ + quoted(archive)
}

/// The message for a destination directory that could not be created.
pub open spec fn destination_failed_message(reason: Seq<char>) -> Seq<char> {
    "Failed to create destination directory: "@ + reason
}

/// The message for a tool that could not be staged.
pub open spec fn staging_failed_message(reason: Seq<char>) -> Seq<char> {
    "Failed to extract 7z tool: "@ + reason
}

/// The message for a tool that could not be started.
pub open spec fn not_started_message(reason: Seq<char>) -> Seq<char> {
    "Failed to run 7z: "@ + reason
}

/// The message for a tool that ran and failed, from the texts that it printed on
/// its standard output and on its standard error: a headline, then either text,
/// trimmed, on a line of its own.
pub open spec fn tool_failed_text(printed: Seq<char>, complained: Seq<char>) -> Seq<char> {
    "7z extraction failed:\n"@ + trim(printed) + "\n"@ + trim(complained)
}

/// The message for a tool that ran and failed: [`tool_failed_text`] of what it
/// printed on either stream, read as lossy UTF-8.
pub open spec fn tool_failed_message(stdout: Seq<u8>, stderr: Seq<u8>) -> Seq<char> {
    tool_failed_text(utf8_lossy(stdout), utf8_lossy(stderr))
}

/// The arguments that the tool is run with: extract with full paths, the
/// archive, the destination behind "-o", and yes to every question.
pub open spec fn arguments(archive: Seq<char>, destination: Seq<char>) -> Seq<Seq<char>> {
    seq!["x"@, archive, "-o"@ + destination, "-y"@]
}

/// The place of the archive among the arguments of the tool.
pub const ARCHIVE_ARGUMENT: usize = 1;

/// The phase of a state. An extraction that was refused is finished.
pub open spec fn phase_of(state: StateView) -> Phase {
    match state {
        StateView::CheckingArchive => Phase::CheckingArchive,
        StateView::PreparingDestination => Phase::PreparingDestination,
        StateView::StagingTool => Phase::StagingTool,
        StateView::RunningTool => Phase::RunningTool,
        StateView::RemovingTool(_) => Phase::RemovingTool,
        StateView::Refused(_) => Phase::Finished,
        StateView::Finished(_) => Phase::Finished,
    }
}

/// The action that a phase leaves to the driver.
pub open spec fn action_of(phase: Phase) -> Action {
    match phase {
        Phase::CheckingArchive => Action::CheckArchive,
        Phase::PreparingDestination => Action::PrepareDestination,
        Phase::StagingTool => Action::StageTool,
        Phase::RunningTool => Action::RunTool,
        Phase::RemovingTool => Action::RemoveTool,
        Phase::Finished => Action::Finish,
    }
}

/// The terminal event of an outcome, if it has one.
pub open spec fn terminal_event(outcome: OutcomeView) -> Option<ProgressView> {
    match outcome {
        OutcomeView::NotStaged(_) => None,
        OutcomeView::Completed => Some(ProgressView::Completed),
        OutcomeView::Failed(message) => Some(ProgressView::Error(message)),
    }
}

/// What an extraction with this outcome returns.
pub open spec fn outcome_result(outcome: OutcomeView) -> Result<(), Seq<char>> {
    match outcome {
        OutcomeView::NotStaged(message) => Err(message),
        OutcomeView::Completed => Ok(()),
        OutcomeView::Failed(message) => Err(message),
    }
}

/// The events emitted by the time an extraction is in this state, in order.
pub open spec fn emitted(state: StateView) -> Seq<ProgressView> {
    match state {
        StateView::CheckingArchive | StateView::PreparingDestination | StateView::Refused(_) => seq![
            ProgressView::Started,
        ],
        StateView::StagingTool | StateView::RunningTool | StateView::RemovingTool(_) => seq![
            ProgressView::Started,
            ProgressView::Extracting,
        ],
        StateView::Finished(outcome) => match terminal_event(outcome) {
            Some(e) => seq![ProgressView::Started, ProgressView::Extracting, e],
            None => seq![ProgressView::Started, ProgressView::Extracting],
        },
    }
}

/// What an extraction in this state returns: nothing until it has ended.
pub open spec fn result_of(state: StateView) -> Option<Result<(), Seq<char>>> {
    match state {
        StateView::Refused(message) => Some(Err(message)),
        StateView::Finished(outcome) => Some(outcome_result(outcome)),
        _ => None,
    }
}

/// An extraction that has just begun: `Started` is emitted and the archive is
/// to be checked.
pub open spec fn started(archive: Seq<char>, destination: Seq<char>) -> ExtractionView {
    ExtractionView { archive, destination, state: StateView::CheckingArchive }
}

/// The state after `report`, for an extraction of `archive` in `state`. A report
/// that the state does not await changes nothing.
pub open spec fn next_state(archive: Seq<char>, state: StateView, report: ReportView) -> StateView {
    match (state, report) {
        (StateView::CheckingArchive, ReportView::ArchiveFound) => StateView::PreparingDestination,
        (StateView::CheckingArchive, ReportView::ArchiveMissing) => StateView::Refused(
            archive_missing_message(archive),
        ),
        (StateView::PreparingDestination, ReportView::DestinationReady) => StateView::StagingTool,
        (StateView::PreparingDestination, ReportView::DestinationFailed(reason)) => StateView::Refused(
            destination_failed_message(reason),
        ),
        (StateView::StagingTool, ReportView::ToolStaged) => StateView::RunningTool,
        (StateView::StagingTool, ReportView::StagingFailed(reason)) => StateView::RemovingTool(
            OutcomeView::NotStaged(staging_failed_message(reason)),
        ),
        (
            StateView::RunningTool,
            ReportView::ToolExited { success, stdout, stderr },
        ) => StateView::RemovingTool(
            if success {
                OutcomeView::Completed
            } else {
                OutcomeView::Failed(tool_failed_message(stdout, stderr))
            },
        ),
        (StateView::RunningTool, ReportView::ToolNotStarted(reason)) => StateView::RemovingTool(
            OutcomeView::Failed(not_started_message(reason)),
        ),
        (StateView::RemovingTool(outcome), ReportView::ToolRemoved) => StateView::Finished(outcome),
        _ => state,
    }
}

/// The extraction after `report`.
pub open spec fn next(s: ExtractionView, report: ReportView) -> ExtractionView {
    ExtractionView { state: next_state(s.archive, s.state, report), ..s }
}

/// The extraction after the reports of `reports`, taken in order.
pub open spec fn after(s: ExtractionView, reports: Seq<ReportView>) -> ExtractionView
    decreases reports.len(),
{
    if reports.len() == 0 {
        s
    } else {
        next(after(s, reports.drop_last()), reports.last())
    }
}

} // verus!
