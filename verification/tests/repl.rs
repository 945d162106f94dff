use badge_flasher::bytes::{find, has_suffix, split_chunks};
use badge_flasher::repl::{
    banner_bytes, execute_steps, interrupt_steps, negotiate_steps, parse_response, reset_steps,
    scan_result, ReplError, Session, SessionState, Step,
};
use badge_flasher::scanner::{ReadOutcome, Scan, Scanner};

fn feed_all(scanner: &mut Scanner, stream: &[u8]) -> (Scan, usize) {
    let mut reads = 0;
    for b in stream {
        reads += 1;
        match scanner.feed(ReadOutcome::Byte(*b)) {
            Scan::Pending => {}
            done => return (done, reads),
        }
    }
    (Scan::Pending, reads)
}

#[test]
fn suffix_and_find_on_bytes() {
    assert!(has_suffix(b"hello>", b">"));
    assert!(has_suffix(b"abc", b""));
    assert!(!has_suffix(b">", b"\x04>"));
    assert_eq!(find(b"xxOKyyOK", b"OK"), Some(2));
    assert_eq!(find(b"xxO", b"OK"), None);
    assert_eq!(find(b"", b""), Some(0));
}

#[test]
fn chunks_cover_the_data_in_order() {
    let data: Vec<u8> = (0..600u32).map(|i| (i % 251) as u8).collect();
    let pieces = split_chunks(&data, 256);
    assert_eq!(pieces.len(), 3);
    assert_eq!(pieces[0], data[0..256].to_vec());
    assert_eq!(pieces[1], data[256..512].to_vec());
    assert_eq!(pieces[2], data[512..600].to_vec());
    assert_eq!(split_chunks(&[], 256).len(), 0);
    assert_eq!(split_chunks(&data[0..512], 256).len(), 2);
}

#[test]
fn scanner_returns_exact_prefix_ending_in_target() {
    let mut scanner = Scanner::new(b"\x04>".to_vec(), 10_000);
    let (scan, reads) = feed_all(&mut scanner, b"OKhello\x04>trailing\x04>");
    assert_eq!(scan, Scan::Matched(b"OKhello\x04>".to_vec()));
    assert_eq!(reads, 9);
}

#[test]
fn scanner_retries_on_empty_reads_and_platform_timeouts() {
    let mut scanner = Scanner::new(b">".to_vec(), 1_000);
    assert_eq!(scanner.feed(ReadOutcome::NoData), Scan::Pending);
    assert_eq!(scanner.feed(ReadOutcome::TimedOut), Scan::Pending);
    assert_eq!(scanner.feed(ReadOutcome::Byte(b'\r')), Scan::Pending);
    assert_eq!(scanner.captured(), &b"\r".to_vec());
    assert_eq!(scanner.feed(ReadOutcome::Byte(b'>')), Scan::Matched(b"\r>".to_vec()));
}

#[test]
fn scanner_fails_at_once_on_other_errors() {
    let mut scanner = Scanner::new(b">".to_vec(), 1_000);
    assert_eq!(
        scanner.feed(ReadOutcome::Failed("device unplugged".to_string())),
        Scan::Broken("device unplugged".to_string())
    );
}

#[test]
fn scanner_budget_is_exact_to_the_nanosecond() {
    let scanner = Scanner::new(b"raw REPL; CTRL-B to exit".to_vec(), 2_000);
    assert!(!scanner.expired(0));
    assert!(!scanner.expired(2_000_000_000));
    assert!(scanner.expired(2_000_000_001));
    assert_eq!(scanner.poll(2_000_000_000), Scan::Pending);
    assert_eq!(scanner.poll(2_000_000_001), Scan::Expired);
    let zero = Scanner::new(Vec::new(), 0);
    assert!(!zero.expired(0));
    assert!(zero.expired(1));
}

#[test]
fn negotiation_marker_never_arriving_times_out() {
    let mut session = Session::new();
    assert!(session.interrupt().is_some());
    assert_eq!(session.finish(Ok(Vec::new())), Ok(Vec::new()));
    let steps = session.negotiate().expect("negotiation follows the interrupt");
    let (target, timeout_ms) = match &steps[0] {
        Step::ReadUntil { target, timeout_ms } => (target.clone(), *timeout_ms),
        other => panic!("unexpected step {:?}", other),
    };
    assert_eq!(timeout_ms, 2_000);
    let mut scanner = Scanner::new(target, timeout_ms);
    let mut elapsed: u128 = 0;
    let mut outcome = Scan::Pending;
    for b in b"MicroPython v1.25.0; no console here\r\n>>> ".iter().cycle() {
        outcome = scanner.poll(elapsed);
        if outcome != Scan::Pending {
            break;
        }
        assert_eq!(scanner.feed(ReadOutcome::Byte(*b)), Scan::Pending);
        elapsed += 1_000_000;
    }
    assert_eq!(outcome, Scan::Expired);
    assert_eq!(elapsed, 2_001_000_000);
    let result = scan_result(outcome).expect("an expired scan is a result");
    assert_eq!(session.finish(result), Err(ReplError::Timeout));
    assert_eq!(session.current(), SessionState::Disconnected);
    assert!(session.execute(b"print(1)").is_none());
}

#[test]
fn scripts_reproduce_the_wire_bytes() {
    assert_eq!(banner_bytes(), b"raw REPL; CTRL-B to exit".to_vec());
    assert_eq!(
        interrupt_steps(),
        vec![
            Step::Write(vec![0x03]),
            Step::Write(vec![0x03]),
            Step::Pause(100),
            Step::Write(vec![0x01]),
        ]
    );
    assert_eq!(
        negotiate_steps(),
        vec![
            Step::ReadUntil { target: b"raw REPL; CTRL-B to exit".to_vec(), timeout_ms: 2_000 },
            Step::ReadUntil { target: b">".to_vec(), timeout_ms: 1_000 },
        ]
    );
    assert_eq!(reset_steps(), vec![Step::Write(vec![0x04])]);
}

#[test]
fn execute_writes_in_256_byte_chunks() {
    let command: Vec<u8> = (0..600u32).map(|i| b'a' + (i % 26) as u8).collect();
    let steps = execute_steps(&command);
    assert_eq!(
        steps,
        vec![
            Step::Write(command[0..256].to_vec()),
            Step::Pause(1),
            Step::Write(command[256..512].to_vec()),
            Step::Pause(1),
            Step::Write(command[512..600].to_vec()),
            Step::Pause(1),
            Step::Write(vec![0x04]),
            Step::ReadUntil { target: vec![0x04, b'>'], timeout_ms: 10_000 },
        ]
    );
    assert_eq!(
        execute_steps(b""),
        vec![
            Step::Write(vec![0x04]),
            Step::ReadUntil { target: vec![0x04, b'>'], timeout_ms: 10_000 },
        ]
    );
}

#[test]
fn response_is_the_bytes_between_marker_and_terminator() {
    assert_eq!(parse_response(b"OKhello\r\n\x04\x04>".to_vec()), Ok(b"hello\r\n\x04".to_vec()));
    assert_eq!(parse_response(b"OK\x04>".to_vec()), Ok(Vec::new()));
    assert_eq!(parse_response(b"noiseOKaOKb\x04>".to_vec()), Ok(b"aOKb".to_vec()));
}

#[test]
fn response_without_ok_carries_the_captured_bytes() {
    let raw = b"Traceback (most recent call last):\r\n\x04>".to_vec();
    assert_eq!(parse_response(raw.clone()), Err(ReplError::Framing(raw)));
    let cut = b"OK but no terminator".to_vec();
    assert_eq!(parse_response(cut.clone()), Err(ReplError::Framing(cut)));
    assert_eq!(parse_response(Vec::new()), Err(ReplError::Framing(Vec::new())));
}

#[test]
fn session_walks_the_protocol_states() {
    let mut session = Session::new();
    assert_eq!(session.current(), SessionState::Disconnected);
    assert!(session.execute(b"x").is_none());
    assert!(session.negotiate().is_none());
    assert!(session.reset().is_none());

    assert!(session.interrupt().is_some());
    assert_eq!(session.current(), SessionState::Interrupting);
    assert!(session.is_busy());
    assert!(session.negotiate().is_none());
    assert_eq!(session.finish(Ok(Vec::new())), Ok(Vec::new()));
    assert!(!session.is_busy());

    assert!(session.negotiate().is_some());
    assert_eq!(session.current(), SessionState::Negotiating);
    assert_eq!(session.finish(Ok(b"\r\n>".to_vec())), Ok(b"\r\n>".to_vec()));
    assert_eq!(session.current(), SessionState::Ready);

    assert!(session.execute(b"print(1)").is_some());
    assert_eq!(session.current(), SessionState::Executing);
    assert!(session.execute(b"print(2)").is_none());
    assert_eq!(session.finish(Ok(b"OK1\r\n\x04\x04>".to_vec())), Ok(b"1\r\n\x04".to_vec()));
    assert_eq!(session.current(), SessionState::Ready);

    assert!(session.reset().is_some());
    assert_eq!(session.current(), SessionState::Exiting);
    assert_eq!(session.finish(Ok(Vec::new())), Ok(Vec::new()));
    assert_eq!(session.current(), SessionState::Disconnected);
}

#[test]
fn session_disconnects_on_a_framing_failure() {
    let mut session = Session::new();
    session.interrupt();
    let _ = session.finish(Ok(Vec::new()));
    session.negotiate();
    let _ = session.finish(Ok(b">".to_vec()));
    assert!(session.execute(b"boom()").is_some());
    let raw = b"NameError\x04>".to_vec();
    assert_eq!(session.finish(Ok(raw.clone())), Err(ReplError::Framing(raw)));
    assert_eq!(session.current(), SessionState::Disconnected);
    assert!(session.execute(b"again()").is_none());
}

#[test]
fn finish_without_an_operation_changes_nothing() {
    let mut session = Session::new();
    assert_eq!(session.finish(Err(ReplError::Timeout)), Err(ReplError::Timeout));
    assert_eq!(session.current(), SessionState::Disconnected);
    assert!(session.interrupt().is_some());
}
