use badge_flasher::copy::{
    validate_source, CopyAction, CopyEngine, CopyPhase, CopyReport, CopyTurn, SourceProbe,
    COPY_CHUNK,
};
use badge_flasher::event::{ErrorKind, Event, JobError};

fn run_plain(total: u64, chunk: usize) -> Vec<Event> {
    let mut engine = CopyEngine::new(total, chunk);
    let mut events = Vec::new();
    let mut action = engine.start(false);
    let mut left = total;
    loop {
        let report = match action {
            CopyAction::Transfer(max) => {
                let n = left.min(max as u64);
                left -= n;
                CopyReport::Completed(n as usize)
            }
            CopyAction::Flush => CopyReport::Completed(0),
            CopyAction::Discard => CopyReport::Completed(0),
            CopyAction::Stop => break,
        };
        let turn = engine.advance(false, report);
        events.extend(turn.event);
        action = turn.action;
    }
    assert_eq!(engine.phase(), CopyPhase::Finished);
    events
}

#[test]
fn ten_mebibytes_in_eight_kibibyte_chunks() {
    let total: u64 = 10 * 1024 * 1024;
    assert_eq!(COPY_CHUNK, 8192);
    let events = run_plain(total, COPY_CHUNK);
    assert_eq!(events.len(), 1280 + 1);
    let mut last = 0;
    for (i, event) in events[..1280].iter().enumerate() {
        match event {
            Event::Progress(written, of) => {
                assert_eq!(*of, total);
                assert_eq!(*written, (i as u64 + 1) * 8192);
                assert!(*written > last);
                last = *written;
            }
            other => panic!("unexpected event {:?}", other),
        }
    }
    assert_eq!(last, total);
    assert_eq!(events[1280], Event::Done);
}

#[test]
fn progress_for_odd_lengths_and_chunk_sizes() {
    assert_eq!(
        run_plain(10, 4),
        vec![Event::Progress(4, 10), Event::Progress(8, 10), Event::Progress(10, 10), Event::Done]
    );
    assert_eq!(run_plain(0, 8192), vec![Event::Done]);
    assert_eq!(run_plain(1, 1), vec![Event::Progress(1, 1), Event::Done]);
    assert_eq!(run_plain(3, 7), vec![Event::Progress(3, 3), Event::Done]);
}

#[test]
fn cancelling_mid_copy_discards_and_reports_cancelled() {
    let mut engine = CopyEngine::new(100, 10);
    assert_eq!(engine.start(false), CopyAction::Transfer(10));
    assert_eq!(
        engine.advance(false, CopyReport::Completed(10)),
        CopyTurn { event: Some(Event::Progress(10, 100)), action: CopyAction::Transfer(10) }
    );
    assert_eq!(
        engine.advance(true, CopyReport::Completed(10)),
        CopyTurn { event: Some(Event::Progress(20, 100)), action: CopyAction::Discard }
    );
    assert_eq!(engine.phase(), CopyPhase::Discarding);
    assert_eq!(
        engine.advance(true, CopyReport::Failed("permission denied".to_string())),
        CopyTurn { event: Some(Event::Cancelled), action: CopyAction::Stop }
    );
    assert_eq!(engine.phase(), CopyPhase::Finished);
    assert_eq!(
        engine.advance(false, CopyReport::Completed(5)),
        CopyTurn { event: None, action: CopyAction::Stop }
    );
    assert_eq!(engine.written(), 20);
}

#[test]
fn cancelling_before_the_first_chunk() {
    let mut engine = CopyEngine::new(100, 10);
    assert_eq!(engine.start(true), CopyAction::Discard);
    assert_eq!(
        engine.advance(false, CopyReport::Completed(0)),
        CopyTurn { event: Some(Event::Cancelled), action: CopyAction::Stop }
    );
    assert_eq!(engine.start(false), CopyAction::Stop);
}

#[test]
fn cancellation_after_the_end_of_input_is_not_seen() {
    let mut engine = CopyEngine::new(4, 8);
    engine.start(false);
    engine.advance(false, CopyReport::Completed(4));
    assert_eq!(
        engine.advance(true, CopyReport::Completed(0)),
        CopyTurn { event: None, action: CopyAction::Flush }
    );
    assert_eq!(
        engine.advance(true, CopyReport::Completed(0)),
        CopyTurn { event: Some(Event::Done), action: CopyAction::Stop }
    );
}

#[test]
fn io_failures_end_the_copy() {
    let io = |m: &str| {
        Some(Event::Failed(JobError { kind: ErrorKind::Io, message: m.to_string() }))
    };
    let mut engine = CopyEngine::new(100, 10);
    engine.start(false);
    assert_eq!(
        engine.advance(false, CopyReport::Failed("disk full".to_string())),
        CopyTurn { event: io("disk full"), action: CopyAction::Stop }
    );
    assert_eq!(engine.phase(), CopyPhase::Finished);

    let mut engine = CopyEngine::new(4, 10);
    engine.start(false);
    engine.advance(false, CopyReport::Completed(4));
    engine.advance(false, CopyReport::Completed(0));
    assert_eq!(
        engine.advance(false, CopyReport::Failed("sync failed".to_string())),
        CopyTurn { event: io("sync failed"), action: CopyAction::Stop }
    );

    let mut engine = CopyEngine::new(4, 10);
    engine.start(false);
    assert_eq!(
        engine.advance(false, CopyReport::Completed(5)),
        CopyTurn {
            event: io("source holds more than its reported length"),
            action: CopyAction::Stop
        }
    );
    assert_eq!(engine.written(), 0);
    assert_eq!(engine.total(), 4);
}

#[test]
fn source_is_validated_before_the_copy() {
    let probe = |exists, is_file, name: Option<&str>| SourceProbe {
        shown: "/tmp/fw.uf2".to_string(),
        exists,
        is_file,
        file_name: name.map(|n| n.to_string()),
    };
    assert_eq!(validate_source(probe(true, true, Some("fw.uf2"))), Ok("fw.uf2".to_string()));
    let missing = Err(JobError {
        kind: ErrorKind::Validation,
        message: "Source file doesn't exist: /tmp/fw.uf2".to_string(),
    });
    assert_eq!(validate_source(probe(false, false, Some("fw.uf2"))), missing);
    assert_eq!(validate_source(probe(true, false, Some("fw.uf2"))), missing);
    assert_eq!(validate_source(probe(false, true, None)), missing);
    assert_eq!(
        validate_source(probe(true, true, None)),
        Err(JobError {
            kind: ErrorKind::Validation,
            message: "Invalid source filename".to_string()
        })
    );
}
