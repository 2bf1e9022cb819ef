//! What holds of every extraction.

use vstd::prelude::*;
use crate::extract::{
    action_of, after, archive_missing_message, emitted, is_terminal, next, next_state, phase_of,
    result_of, started, tool_failed_message, Action, ExtractionView, Phase, ProgressView, ReportView,
    StateView,
};
use crate::text::decode::utf8_lossy;
use crate::text::search::{contains, occurs_at, starts_with};
use crate::text::trim::trim;

verus! {

/// The shape of the events of one extraction: `Started` first, `Extracting`
/// second, one terminal event third, and nothing behind it.
pub open spec fn valid_trace(t: Seq<ProgressView>) -> bool {
    &&& 1 <= t.len() <= 3
    &&& t[0] is Started
    &&& t.len() >= 2 ==> t[1] is Extracting
    &&& t.len() == 3 ==> is_terminal(t[2])
}

/// In every state the events emitted have the shape of [`valid_trace`]: at most
/// one terminal event, `Started` before `Extracting`, `Extracting` before the
/// terminal event; and a terminal event is emitted only by an extraction that
/// has ended.
pub proof fn lemma_trace_valid(state: StateView)
    ensures
        valid_trace(emitted(state)),
        forall|i: int|
            0 <= i < emitted(state).len() && is_terminal(#[trigger] emitted(state)[i]) ==> i == 2
                && phase_of(state) == Phase::Finished,
{
}

/// A report adds at most one event behind those emitted, and takes none away.
pub proof fn lemma_events_only_grow(archive: Seq<char>, state: StateView, report: ReportView)
    ensures
        ({
            let then = emitted(next_state(archive, state, report));
            then == emitted(state) || exists|e: ProgressView| then == emitted(state).push(e)
        }),
{
    let then = emitted(next_state(archive, state, report));
    if then != emitted(state) {
        let e = then.last();
        assert(then == emitted(state).push(e));
    }
}

/// An extraction that has ended stays as it is, whatever is reported: nothing
/// is emitted behind a terminal event, and nothing is tried again.
pub proof fn lemma_finished_stays(archive: Seq<char>, state: StateView, report: ReportView)
    requires
        phase_of(state) == Phase::Finished,
    ensures
        next_state(archive, state, report) == state,
{
}

/// The result is there exactly when the only thing left to do is to finish; it
/// is success exactly when `Completed` was emitted, and it is the failure with
/// the message of the `Error` event where one was emitted.
pub proof fn lemma_result_matches_events(state: StateView)
    ensures
        result_of(state) is Some <==> action_of(phase_of(state)) == Action::Finish,
        result_of(state) == Some(Ok::<(), Seq<char>>(())) <==> emitted(state).len() == 3
            && emitted(state)[2] is Completed,
        forall|m: Seq<char>|
            emitted(state).len() == 3 && emitted(state)[2] == ProgressView::Error(m) ==> result_of(
                state,
            ) == Some(Err::<(), Seq<char>>(m)),
{
    match result_of(state) {
        Some(Ok(u)) => {
            assert(u == ());
        },
        _ => {},
    }
}

/// Once the tool was to be staged, the extraction does not end before the
/// staged tool was to be removed: from staging and from running no report leads
/// to the end, and after `Extracting` the end is reached only by the report that
/// the tool was removed.
pub proof fn lemma_tool_removed_before_finish(
    archive: Seq<char>,
    state: StateView,
    report: ReportView,
)
    ensures
        state is StagingTool || state is RunningTool ==> phase_of(
            next_state(archive, state, report),
        ) != Phase::Finished,
        emitted(state).len() >= 2 && phase_of(state) != Phase::Finished && phase_of(
            next_state(archive, state, report),
        ) == Phase::Finished ==> state is RemovingTool && report is ToolRemoved,
{
}

/// Against an archive that does not exist the extraction ends at once: it fails
/// with the message that the archive was not found, and `Started` is the only
/// event.
pub proof fn lemma_missing_archive(archive: Seq<char>, destination: Seq<char>)
    ensures
        ({
            let end = next(started(archive, destination), ReportView::ArchiveMissing);
            &&& phase_of(end.state) == Phase::Finished
            &&& emitted(end.state) == seq![ProgressView::Started]
            &&& result_of(end.state) == Some(
                Err::<(), Seq<char>>(archive_missing_message(archive)),
            )
            &&& starts_with(archive_missing_message(archive), "Archive not found"@)
        }),
{
    let m = archive_missing_message(archive);
    let head = "Archive not found"@;
    reveal_strlit("Archive not found: ");
    reveal_strlit("Archive not found");
    assert(m.subrange(0, head.len() as int) == head);
}

/// The reports of an extraction in which all goes well up to the end of the
/// tool.
pub open spec fn reports_of_run(exit: ReportView) -> Seq<ReportView> {
    seq![
        ReportView::ArchiveFound,
        ReportView::DestinationReady,
        ReportView::ToolStaged,
        exit,
        ReportView::ToolRemoved,
    ]
}

proof fn lemma_run(archive: Seq<char>, destination: Seq<char>, exit: ReportView)
    ensures
        ({
            let begun = started(archive, destination);
            let running = ExtractionView { state: StateView::RunningTool, ..begun };
            &&& after(begun, reports_of_run(exit).drop_last()) == next(running, exit)
            &&& after(begun, reports_of_run(exit)) == next(
                next(running, exit),
                ReportView::ToolRemoved,
            )
        }),
{
    let s0 = started(archive, destination);
    let reports = reports_of_run(exit);
    let r4 = reports.drop_last();
    let r3 = r4.drop_last();
    let r2 = r3.drop_last();
    let r1 = r2.drop_last();
    let r0 = r1.drop_last();
    assert(r0.len() == 0);
    assert(after(s0, r0) == s0);
    let s1 = after(s0, r1);
    assert(s1 == next(s0, ReportView::ArchiveFound));
    let s2 = after(s0, r2);
    assert(s2 == next(s1, ReportView::DestinationReady));
    let s3 = after(s0, r3);
    assert(s3 == next(s2, ReportView::ToolStaged));
    let s4 = after(s0, r4);
    assert(s4 == next(s3, exit));
    let s5 = after(s0, reports);
    assert(s5 == next(s4, ReportView::ToolRemoved));
}

/// An extraction in which the tool reports success emits exactly `Started`,
/// `Extracting`, `Completed`, in that order, and returns success; the staged
/// tool is to be removed before `Completed` is emitted.
pub proof fn lemma_successful_run(
    archive: Seq<char>,
    destination: Seq<char>,
    stdout: Seq<u8>,
    stderr: Seq<u8>,
)
    ensures
        ({
            let exit = ReportView::ToolExited { success: true, stdout, stderr };
            let end = after(started(archive, destination), reports_of_run(exit));
            let before_removal = after(
                started(archive, destination),
                reports_of_run(exit).drop_last(),
            );
            &&& phase_of(end.state) == Phase::Finished
            &&& emitted(end.state) == seq![
                ProgressView::Started,
                ProgressView::Extracting,
                ProgressView::Completed,
            ]
            &&& result_of(end.state) == Some(Ok::<(), Seq<char>>(()))
            &&& action_of(phase_of(before_removal.state)) == Action::RemoveTool
            &&& emitted(before_removal.state) == seq![
                ProgressView::Started,
                ProgressView::Extracting,
            ]
        }),
{
    lemma_run(archive, destination, ReportView::ToolExited { success: true, stdout, stderr });
}

/// An extraction in which the tool ends without success emits exactly `Started`,
/// `Extracting`, `Error`, in that order, and fails; the event and the failure
/// carry one message, which holds what the tool printed on either stream; the
/// staged tool is to be removed before `Error` is emitted.
pub proof fn lemma_failed_run(
    archive: Seq<char>,
    destination: Seq<char>,
    stdout: Seq<u8>,
    stderr: Seq<u8>,
)
    ensures
        ({
            let exit = ReportView::ToolExited { success: false, stdout, stderr };
            let end = after(started(archive, destination), reports_of_run(exit));
            let before_removal = after(
                started(archive, destination),
                reports_of_run(exit).drop_last(),
            );
            let message = tool_failed_message(stdout, stderr);
            &&& phase_of(end.state) == Phase::Finished
            &&& emitted(end.state) == seq![
                ProgressView::Started,
                ProgressView::Extracting,
                ProgressView::Error(message),
            ]
            &&& result_of(end.state) == Some(Err::<(), Seq<char>>(message))
            &&& contains(message, trim(utf8_lossy(stdout)))
            &&& contains(message, trim(utf8_lossy(stderr)))
            &&& action_of(phase_of(before_removal.state)) == Action::RemoveTool
            &&& emitted(before_removal.state) == seq![
                ProgressView::Started,
                ProgressView::Extracting,
            ]
        }),
{
    lemma_run(archive, destination, ReportView::ToolExited { success: false, stdout, stderr });
    let message = tool_failed_message(stdout, stderr);
    let head = "7z extraction failed:\n"@;
    let out = trim(utf8_lossy(stdout));
    let err = trim(utf8_lossy(stderr));
    let sep = "\n"@;
    assert(message == head + out + sep + err);
    let from: int = head.len() as int;
    assert(message.subrange(from, from + out.len()) == out);
    assert(occurs_at(message, out, from));
    let at: int = from + out.len() + sep.len();
    assert(message.subrange(at, at + err.len()) == err);
    assert(occurs_at(message, err, at));
}

} // verus!
