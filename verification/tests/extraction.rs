use media_provision::extract::machine::{
    failure_message, failure_text, headline_and_reason, missing_message, tool_arguments,
};
use media_provision::extract::{
    Action, ExtractProgress, Extraction, Phase, Report, ARCHIVE_ARGUMENT,
};

fn kind(e: &ExtractProgress) -> String {
    match e {
        ExtractProgress::Started => "Started".to_string(),
        ExtractProgress::Extracting => "Extracting".to_string(),
        ExtractProgress::Completed => "Completed".to_string(),
        ExtractProgress::Error(m) => format!("Error({})", m),
    }
}

/// Runs an extraction on the reports given, and returns the events handed out,
/// the actions handed out, and the result.
fn run(reports: Vec<Report>) -> (Vec<String>, Vec<Action>, Option<Result<(), String>>) {
    let (mut extraction, first) = Extraction::start("/tmp/bundle.7z", "/media/usb");
    let mut events: Vec<String> = first.emit.iter().map(kind).collect();
    let mut actions = vec![first.action];
    for report in reports {
        let step = extraction.advance(report);
        events.extend(step.emit.iter().map(kind));
        actions.push(step.action);
    }
    (events, actions, extraction.result())
}

fn exited(success: bool, stdout: &str, stderr: &str) -> Report {
    Report::ToolExited {
        success,
        stdout: stdout.as_bytes().to_vec(),
        stderr: stderr.as_bytes().to_vec(),
    }
}

#[test]
fn a_start_emits_started_and_asks_for_the_archive() {
    let (extraction, step) = Extraction::start("a.7z", "out");
    assert!(matches!(step.emit, Some(ExtractProgress::Started)));
    assert_eq!(step.action, Action::CheckArchive);
    assert_eq!(extraction.phase(), Phase::CheckingArchive);
    assert_eq!(extraction.pending(), Action::CheckArchive);
    assert_eq!(extraction.result(), None);
}

#[test]
fn a_missing_archive_ends_the_extraction_after_started() {
    let (events, actions, result) = run(vec![Report::ArchiveMissing]);
    assert_eq!(events, vec!["Started"]);
    assert_eq!(actions, vec![Action::CheckArchive, Action::Finish]);
    assert_eq!(result, Some(Err("Archive not found: \"/tmp/bundle.7z\"".to_string())));
}

#[test]
fn a_successful_run() {
    let (events, actions, result) = run(vec![
        Report::ArchiveFound,
        Report::DestinationReady,
        Report::ToolStaged,
        exited(true, "Everything is Ok\n", ""),
        Report::ToolRemoved,
    ]);
    assert_eq!(events, vec!["Started", "Extracting", "Completed"]);
    assert_eq!(
        actions,
        vec![
            Action::CheckArchive,
            Action::PrepareDestination,
            Action::StageTool,
            Action::RunTool,
            Action::RemoveTool,
            Action::Finish,
        ]
    );
    assert_eq!(result, Some(Ok(())));
}

#[test]
fn a_run_in_which_the_tool_fails() {
    let (events, actions, result) = run(vec![
        Report::ArchiveFound,
        Report::DestinationReady,
        Report::ToolStaged,
        exited(false, "  Scanning the drive\n", "\nERROR: Data Error : file.bin\n\n"),
        Report::ToolRemoved,
    ]);
    let message = "7z extraction failed:\nScanning the drive\nERROR: Data Error : file.bin";
    assert_eq!(events, vec!["Started", "Extracting", &format!("Error({})", message)]);
    assert_eq!(actions[4], Action::RemoveTool);
    assert_eq!(actions[5], Action::Finish);
    assert_eq!(result, Some(Err(message.to_string())));
}

#[test]
fn the_error_comes_only_after_the_tool_was_to_be_removed() {
    let (mut extraction, _) = Extraction::start("a.7z", "out");
    extraction.advance(Report::ArchiveFound);
    extraction.advance(Report::DestinationReady);
    extraction.advance(Report::ToolStaged);
    let step = extraction.advance(exited(false, "", "boom"));
    assert!(step.emit.is_none());
    assert_eq!(step.action, Action::RemoveTool);
    assert_eq!(extraction.result(), None);
    let step = extraction.advance(Report::ToolRemoved);
    assert!(matches!(step.emit, Some(ExtractProgress::Error(_))));
    assert_eq!(step.action, Action::Finish);
}

#[test]
fn a_run_in_which_the_tool_cannot_be_started() {
    let (events, actions, result) = run(vec![
        Report::ArchiveFound,
        Report::DestinationReady,
        Report::ToolStaged,
        Report::ToolNotStarted("Permission denied (os error 13)".to_string()),
        Report::ToolRemoved,
    ]);
    let message = "Failed to run 7z: Permission denied (os error 13)";
    assert_eq!(events, vec!["Started", "Extracting", &format!("Error({})", message)]);
    assert_eq!(actions[4], Action::RemoveTool);
    assert_eq!(result, Some(Err(message.to_string())));
}

#[test]
fn a_destination_that_cannot_be_created() {
    let (events, actions, result) = run(vec![
        Report::ArchiveFound,
        Report::DestinationFailed("Read-only file system (os error 30)".to_string()),
    ]);
    assert_eq!(events, vec!["Started"]);
    assert_eq!(actions, vec![Action::CheckArchive, Action::PrepareDestination, Action::Finish]);
    assert_eq!(
        result,
        Some(Err(
            "Failed to create destination directory: Read-only file system (os error 30)"
                .to_string()
        ))
    );
}

#[test]
fn a_tool_that_cannot_be_staged() {
    let (events, actions, result) = run(vec![
        Report::ArchiveFound,
        Report::DestinationReady,
        Report::StagingFailed("No space left on device (os error 28)".to_string()),
        Report::ToolRemoved,
    ]);
    assert_eq!(events, vec!["Started", "Extracting"]);
    assert_eq!(
        actions,
        vec![
            Action::CheckArchive,
            Action::PrepareDestination,
            Action::StageTool,
            Action::RemoveTool,
            Action::Finish,
        ]
    );
    assert_eq!(
        result,
        Some(Err("Failed to extract 7z tool: No space left on device (os error 28)".to_string()))
    );
}

#[test]
fn reports_out_of_turn_change_nothing() {
    let (mut extraction, _) = Extraction::start("a.7z", "out");
    for report in [
        Report::DestinationReady,
        Report::ToolStaged,
        exited(true, "", ""),
        Report::ToolRemoved,
        Report::StagingFailed("x".to_string()),
    ] {
        let step = extraction.advance(report);
        assert!(step.emit.is_none());
        assert_eq!(step.action, Action::CheckArchive);
        assert_eq!(extraction.phase(), Phase::CheckingArchive);
    }
    extraction.advance(Report::ArchiveFound);
    let step = extraction.advance(Report::ArchiveMissing);
    assert!(step.emit.is_none());
    assert_eq!(step.action, Action::PrepareDestination);
}

#[test]
fn a_finished_extraction_stays_finished() {
    let (mut extraction, _) = Extraction::start("a.7z", "out");
    extraction.advance(Report::ArchiveFound);
    extraction.advance(Report::DestinationReady);
    extraction.advance(Report::ToolStaged);
    extraction.advance(exited(true, "", ""));
    extraction.advance(Report::ToolRemoved);
    for report in [
        Report::ArchiveFound,
        Report::ArchiveMissing,
        Report::DestinationReady,
        exited(false, "", "late"),
        Report::ToolRemoved,
    ] {
        let step = extraction.advance(report);
        assert!(step.emit.is_none());
        assert_eq!(step.action, Action::Finish);
        assert_eq!(extraction.phase(), Phase::Finished);
        assert_eq!(extraction.result(), Some(Ok(())));
    }
}

#[test]
fn at_most_one_terminal_event_whatever_is_reported() {
    let alphabet: Vec<Report> = vec![
        Report::ArchiveFound,
        Report::ArchiveMissing,
        Report::DestinationReady,
        Report::DestinationFailed("d".to_string()),
        Report::ToolStaged,
        Report::StagingFailed("s".to_string()),
        exited(true, "", ""),
        exited(false, "o", "e"),
        Report::ToolNotStarted("n".to_string()),
        Report::ToolRemoved,
    ];
    // every sequence of four reports, then the five of a full run
    let n = alphabet.len();
    for code in 0..n * n * n * n {
        let mut picked = vec![
            alphabet[code % n].clone(),
            alphabet[code / n % n].clone(),
            alphabet[code / n / n % n].clone(),
            alphabet[code / n / n / n % n].clone(),
        ];
        picked.extend(vec![
            Report::ArchiveFound,
            Report::DestinationReady,
            Report::ToolStaged,
            exited(true, "", ""),
            Report::ToolRemoved,
        ]);
        let (mut extraction, first) = Extraction::start("a.7z", "out");
        let mut events: Vec<ExtractProgress> = first.emit.into_iter().collect();
        let mut staged = false;
        let mut removed = false;
        for report in picked {
            let step = extraction.advance(report);
            events.extend(step.emit.into_iter());
            staged = staged || step.action == Action::StageTool;
            removed = removed || step.action == Action::RemoveTool;
        }
        assert!(matches!(events[0], ExtractProgress::Started));
        assert!(events.len() <= 3);
        if events.len() >= 2 {
            assert!(matches!(events[1], ExtractProgress::Extracting));
        }
        if events.len() == 3 {
            assert!(events[2].is_terminal());
        }
        assert_eq!(events.iter().filter(|e| e.is_terminal()).count(), events.len() / 3);
        assert_eq!(extraction.phase(), Phase::Finished);
        assert!(extraction.result().is_some());
        assert_eq!(staged, removed);
    }
}

#[test]
fn terminal_events() {
    assert!(!ExtractProgress::Started.is_terminal());
    assert!(!ExtractProgress::Extracting.is_terminal());
    assert!(ExtractProgress::Completed.is_terminal());
    assert!(ExtractProgress::Error("x".to_string()).is_terminal());
}

#[test]
fn a_duplicate_holds_the_same() {
    assert_eq!(kind(&ExtractProgress::Error("why".to_string()).duplicate()), "Error(why)");
    assert_eq!(kind(&ExtractProgress::Completed.duplicate()), "Completed");
    assert_eq!(kind(&ExtractProgress::Started.duplicate()), "Started");
    assert_eq!(kind(&ExtractProgress::Extracting.duplicate()), "Extracting");
}

#[test]
fn arguments_of_the_tool() {
    assert_eq!(
        tool_arguments("/tmp/bundle.7z", "/media/usb"),
        vec!["x", "/tmp/bundle.7z", "-o/media/usb", "-y"]
    );
    assert_eq!(tool_arguments("C:\\a b.7z", "E:\\"), vec!["x", "C:\\a b.7z", "-oE:\\", "-y"]);
    let (extraction, _) = Extraction::start("a.7z", "out dir");
    assert_eq!(extraction.tool_arguments(), vec!["x", "a.7z", "-oout dir", "-y"]);
    assert_eq!(extraction.tool_arguments()[ARCHIVE_ARGUMENT], "a.7z");
}

#[test]
fn message_for_a_missing_archive_quotes_the_path() {
    assert_eq!(missing_message("/tmp/x.7z"), "Archive not found: \"/tmp/x.7z\"");
    assert_eq!(missing_message("C:\\dir\\a \"b\".7z"), "Archive not found: \"C:\\\\dir\\\\a \\\"b\\\".7z\"");
    assert_eq!(missing_message(""), "Archive not found: \"\"");
}

#[test]
fn message_for_a_failed_tool_holds_both_streams_trimmed() {
    assert_eq!(failure_message(b" out \n", b"\terr\r\n"), "7z extraction failed:\nout\nerr");
    assert_eq!(failure_message(b"", b""), "7z extraction failed:\n\n");
    assert_eq!(failure_message(b"a\nb", b""), "7z extraction failed:\na\nb\n");
    assert_eq!(failure_message(b"bad \xff byte", b"\xc3"), "7z extraction failed:\nbad \u{fffd} byte\n\u{fffd}");
}

#[test]
fn message_for_a_failed_tool_from_texts() {
    assert_eq!(failure_text(" out \n", "\terr\r\n"), "7z extraction failed:\nout\nerr");
    assert_eq!(failure_text("", "  "), "7z extraction failed:\n\n");
    assert_eq!(failure_text("a b", "c\nd"), "7z extraction failed:\na b\nc\nd");
}

#[test]
fn headline_and_reason_are_joined_as_they_are() {
    assert_eq!(headline_and_reason("Failed to run 7z: ", "No such file"), "Failed to run 7z: No such file");
    assert_eq!(headline_and_reason("-o", " x "), "-o x ");
    assert_eq!(headline_and_reason("", ""), "");
}
