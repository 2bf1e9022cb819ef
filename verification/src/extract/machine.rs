//! The extraction as the driver holds it.

use vstd::prelude::*;
use vstd::utf8::{decode_utf8, valid_utf8};
use crate::extract::{
    action_of, archive_missing_message, arguments, emitted, next, phase_of, result_of, started,
    tool_failed_message, tool_failed_text, Action, ARCHIVE_ARGUMENT, ExtractProgress, ExtractionView, OutcomeView, Phase,
    ProgressView, Report, StateView,
};
use crate::text::decode::{debug_quoted, decode_utf8_lossy};
use crate::text::trim::trimmed;
use crate::text::{append_chars, chars_of, push_text, string_of, string_views};

verus! {

/// What a result holds.
pub open spec fn result_view(r: Result<(), String>) -> Result<(), Seq<char>> {
    match r {
        Ok(_) => Ok(()),
        Err(m) => Err(m@),
    }
}

/// What an optional event holds.
pub open spec fn event_view(e: Option<ExtractProgress>) -> Option<ProgressView> {
    match e {
        Some(e) => Some(e@),
        None => None,
    }
}

/// The events that a step emits: one or none.
pub open spec fn emitted_by(e: Option<ExtractProgress>) -> Seq<ProgressView> {
    match e {
        Some(e) => seq![e@],
        None => Seq::empty(),
    }
}

enum Outcome {
    NotStaged(String),
    Completed,
    Failed(String),
}

impl Outcome {
    spec fn view(&self) -> OutcomeView {
        match self {
            Outcome::NotStaged(m) => OutcomeView::NotStaged(m@),
            Outcome::Completed => OutcomeView::Completed,
            Outcome::Failed(m) => OutcomeView::Failed(m@),
        }
    }

    fn duplicate(&self) -> (r: Outcome)
        ensures
            r@ == self@,
    {
        match self {
            Outcome::NotStaged(m) => Outcome::NotStaged(m.clone()),
            Outcome::Completed => Outcome::Completed,
            Outcome::Failed(m) => Outcome::Failed(m.clone()),
        }
    }

    fn terminal_event(&self) -> (r: Option<ExtractProgress>)
        ensures
            event_view(r) == crate::extract::terminal_event(self@),
    {
        match self {
            Outcome::NotStaged(_) => None,
            Outcome::Completed => Some(ExtractProgress::Completed),
            Outcome::Failed(m) => Some(ExtractProgress::Error(m.clone())),
        }
    }

    fn result(&self) -> (r: Result<(), String>)
        ensures
            result_view(r) == crate::extract::outcome_result(self@),
    {
        match self {
            Outcome::NotStaged(m) => Err(m.clone()),
            Outcome::Completed => Ok(()),
            Outcome::Failed(m) => Err(m.clone()),
        }
    }
}

enum State {
    CheckingArchive,
    PreparingDestination,
    StagingTool,
    RunningTool,
    RemovingTool(Outcome),
    Refused(String),
    Finished(Outcome),
}

impl State {
    spec fn view(&self) -> StateView {
        match self {
            State::CheckingArchive => StateView::CheckingArchive,
            State::PreparingDestination => StateView::PreparingDestination,
            State::StagingTool => StateView::StagingTool,
            State::RunningTool => StateView::RunningTool,
            State::RemovingTool(o) => StateView::RemovingTool(o@),
            State::Refused(m) => StateView::Refused(m@),
            State::Finished(o) => StateView::Finished(o@),
        }
    }

    fn phase(&self) -> (r: Phase)
        ensures
            r == phase_of(self@),
    {
        match self {
            State::CheckingArchive => Phase::CheckingArchive,
            State::PreparingDestination => Phase::PreparingDestination,
            State::StagingTool => Phase::StagingTool,
            State::RunningTool => Phase::RunningTool,
            State::RemovingTool(_) => Phase::RemovingTool,
            State::Refused(_) => Phase::Finished,
            State::Finished(_) => Phase::Finished,
        }
    }
}

/// One extraction, from its start to its result.
pub struct Extraction {
    archive: String,
    destination: String,
    state: State,
}

/// What the driver is handed after each report.
pub struct Step {
    /// The event to pass on to whoever follows the extraction, if there is one.
    pub emit: Option<ExtractProgress>,
    /// What to do next.
    pub action: Action,
}

impl View for Extraction {
    type V = ExtractionView;

    closed spec fn view(&self) -> ExtractionView {
        ExtractionView {
            archive: self.archive@,
            destination: self.destination@,
            state: self.state@,
        }
    }
}

/// A message that is a headline and a reason behind it.
pub fn headline_and_reason(headline: &str, reason: &str) -> (r: String)
    ensures
        r@ == headline@ + reason@,
{
    let mut out: Vec<char> = chars_of(headline);
    push_text(&mut out, reason);
    string_of(out.as_slice())
}

/// Computes [`tool_failed_text`].
pub fn failure_text(printed: &str, complained: &str) -> (r: String)
    ensures
        r@ == tool_failed_text(printed@, complained@),
{
    let mut out: Vec<char> = chars_of("7z extraction failed:\n");
    append_chars(&mut out, trimmed(chars_of(printed).as_slice()).as_slice());
    push_text(&mut out, "\n");
    append_chars(&mut out, trimmed(chars_of(complained).as_slice()).as_slice());
    string_of(out.as_slice())
}

/// Computes [`tool_failed_message`].
pub fn failure_message(stdout: &[u8], stderr: &[u8]) -> (r: String)
    ensures
        r@ == tool_failed_message(stdout@, stderr@),
        valid_utf8(stdout@) && valid_utf8(stderr@) ==> r@ == tool_failed_text(
            decode_utf8(stdout@),
            decode_utf8(stderr@),
        ),
{
    let printed = decode_utf8_lossy(stdout);
    let complained = decode_utf8_lossy(stderr);
    failure_text(printed.as_str(), complained.as_str())
}

/// Computes [`archive_missing_message`].
pub fn missing_message(archive: &str) -> (r: String)
    ensures
        r@ == archive_missing_message(archive@),
{
    let shown = debug_quoted(archive);
    headline_and_reason("Archive not found: ", shown.as_str())
}

/// Computes [`arguments`].
pub fn tool_arguments(archive: &str, destination: &str) -> (r: Vec<String>)
    ensures
        string_views(r@) == arguments(archive@, destination@),
        r.len() == 4,
        r[ARCHIVE_ARGUMENT as int]@ == archive@,
{
    let mut out: Vec<String> = Vec::new();
    out.push(string_of(chars_of("x").as_slice()));
    out.push(string_of(chars_of(archive).as_slice()));
    out.push(headline_and_reason("-o", destination));
    out.push(string_of(chars_of("-y").as_slice()));
    assert(string_views(out@) == arguments(archive@, destination@));
    assert(string_views(out@)[ARCHIVE_ARGUMENT as int] == out[ARCHIVE_ARGUMENT as int]@);
    out
}

/// Decides [`action_of`].
pub fn action_for(phase: Phase) -> (r: Action)
    ensures
        r == action_of(phase),
{
    match phase {
        Phase::CheckingArchive => Action::CheckArchive,
        Phase::PreparingDestination => Action::PrepareDestination,
        Phase::StagingTool => Action::StageTool,
        Phase::RunningTool => Action::RunTool,
        Phase::RemovingTool => Action::RemoveTool,
        Phase::Finished => Action::Finish,
    }
}

impl Extraction {
    /// Begins the extraction of `archive` onto `destination`: `Started` is to be
    /// passed on, and the archive is to be checked.
    pub fn start(archive: &str, destination: &str) -> (r: (Extraction, Step))
        ensures
            r.0@ == started(archive@, destination@),
            emitted(r.0@.state) == emitted_by(r.1.emit),
            event_view(r.1.emit) == Some(ProgressView::Started),
            r.1.action == Action::CheckArchive,
    {
        let extraction = Extraction {
            archive: string_of(chars_of(archive).as_slice()),
            destination: string_of(chars_of(destination).as_slice()),
            state: State::CheckingArchive,
        };
        (extraction, Step { emit: Some(ExtractProgress::Started), action: Action::CheckArchive })
    }

    /// Takes in how the last action went, and hands out the next one. The
    /// extraction moves as [`next`] says; the event handed out is the one that
    /// the move adds to those emitted, if it adds one. A report that does not
    /// answer the action last handed out changes nothing, and that action is
    /// handed out again.
    pub fn advance(&mut self, report: Report) -> (step: Step)
        ensures
            final(self)@ == next(old(self)@, report@),
            step.action == action_of(phase_of(final(self)@.state)),
            emitted(final(self)@.state) == emitted(old(self)@.state) + emitted_by(step.emit),
    {
        let mut emit: Option<ExtractProgress> = None;
        let ghost before = emitted(self@.state);
        proof {
            assert(before + Seq::<ProgressView>::empty() == before);
            assert(seq![ProgressView::Started] + seq![ProgressView::Extracting] == seq![
                ProgressView::Started,
                ProgressView::Extracting,
            ]);
        }
        let moved: Option<State> = match &self.state {
            State::CheckingArchive => match report {
                Report::ArchiveFound => Some(State::PreparingDestination),
                Report::ArchiveMissing => Some(
                    State::Refused(missing_message(self.archive.as_str())),
                ),
                _ => None,
            },
            State::PreparingDestination => match report {
                Report::DestinationReady => {
                    emit = Some(ExtractProgress::Extracting);
                    Some(State::StagingTool)
                },
                Report::DestinationFailed(reason) => Some(
                    State::Refused(
                        headline_and_reason(
                            "Failed to create destination directory: ",
                            reason.as_str(),
                        ),
                    ),
                ),
                _ => None,
            },
            State::StagingTool => match report {
                Report::ToolStaged => Some(State::RunningTool),
                Report::StagingFailed(reason) => Some(
                    State::RemovingTool(
                        Outcome::NotStaged(
                            headline_and_reason("Failed to extract 7z tool: ", reason.as_str()),
                        ),
                    ),
                ),
                _ => None,
            },
            State::RunningTool => match report {
                Report::ToolExited { success, stdout, stderr } => {
                    if success {
                        Some(State::RemovingTool(Outcome::Completed))
                    } else {
                        Some(
                            State::RemovingTool(
                                Outcome::Failed(
                                    failure_message(stdout.as_slice(), stderr.as_slice()),
                                ),
                            ),
                        )
                    }
                },
                Report::ToolNotStarted(reason) => Some(
                    State::RemovingTool(
                        Outcome::Failed(headline_and_reason("Failed to run 7z: ", reason.as_str())),
                    ),
                ),
                _ => None,
            },
            State::RemovingTool(outcome) => match report {
                Report::ToolRemoved => {
                    emit = outcome.terminal_event();
                    proof {
                        if let Some(e) = crate::extract::terminal_event(outcome@) {
                            assert(before + seq![e] == seq![
                                ProgressView::Started,
                                ProgressView::Extracting,
                                e,
                            ]);
                        }
                    }
                    Some(State::Finished(outcome.duplicate()))
                },
                _ => None,
            },
            State::Refused(_) => None,
            State::Finished(_) => None,
        };
        match moved {
            Some(state) => {
                self.state = state;
            },
            None => {},
        }
        Step { emit, action: action_for(self.state.phase()) }
    }

    /// Which report the extraction waits for.
    pub fn phase(&self) -> (r: Phase)
        ensures
            r == phase_of(self@.state),
    {
        self.state.phase()
    }

    /// The action that the driver owes.
    pub fn pending(&self) -> (r: Action)
        ensures
            r == action_of(phase_of(self@.state)),
    {
        action_for(self.state.phase())
    }

    /// The arguments to run the tool with.
    pub fn tool_arguments(&self) -> (r: Vec<String>)
        ensures
            string_views(r@) == arguments(self@.archive, self@.destination),
    {
        tool_arguments(self.archive.as_str(), self.destination.as_str())
    }

    /// What the extraction returns: `None` until it has ended, then success, or
    /// the failure with its message.
    pub fn result(&self) -> (r: Option<Result<(), String>>)
        ensures
            r is Some <==> phase_of(self@.state) == Phase::Finished,
            r is Some <==> result_of(self@.state) is Some,
            r matches Some(res) ==> result_of(self@.state) == Some(result_view(res)),
    {
        match &self.state {
            State::Refused(m) => Some(Err(m.clone())),
            State::Finished(outcome) => Some(outcome.result()),
            _ => None,
        }
    }
}

} // verus!
