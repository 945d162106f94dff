use badge_flasher::device::{device_label, found_devices, MARKER_FILE};
use badge_flasher::event::{ErrorKind, Event, JobError, SerialStatus};
use badge_flasher::job::{JobKind, JobState, TransferJob};
use badge_flasher::tab::{
    describe_status, push_log, select_next, select_previous, Key, Progress, SerialTab,
    TabRequest, LOG_LIMIT,
};

fn ports(names: &[&str]) -> Vec<String> {
    names.iter().map(|n| n.to_string()).collect()
}

#[test]
fn selection_wraps_round() {
    assert_eq!(select_next(0, 3), 1);
    assert_eq!(select_next(2, 3), 0);
    assert_eq!(select_next(0, 1), 0);
    assert_eq!(select_next(0, 0), 0);
    assert_eq!(select_next(usize::MAX, 3), 0);
    assert_eq!(select_previous(0, 3), 2);
    assert_eq!(select_previous(2, 3), 1);
    assert_eq!(select_previous(0, 1), 0);
    assert_eq!(select_previous(0, 0), 0);
    assert_eq!(select_previous(9, 3), 2);
}

#[test]
fn log_keeps_the_last_hundred_lines() {
    assert_eq!(LOG_LIMIT, 100);
    let mut logs = Vec::new();
    for i in 0..100 {
        push_log(&mut logs, format!("line {}", i));
    }
    assert_eq!(logs.len(), 100);
    assert_eq!(logs[0], "line 0");
    push_log(&mut logs, "line 100".to_string());
    assert_eq!(logs.len(), 100);
    assert_eq!(logs[0], "line 1");
    assert_eq!(logs[99], "line 100");
}

#[test]
fn status_in_words() {
    assert_eq!(describe_status(&SerialStatus::Idle), "Idle");
    assert_eq!(describe_status(&SerialStatus::Scanning), "Scanning...");
    assert_eq!(
        describe_status(&SerialStatus::Downloading("/main.py".to_string())),
        "Downloading: /main.py"
    );
    assert_eq!(describe_status(&SerialStatus::Connecting), "Connecting to device...");
    assert_eq!(
        describe_status(&SerialStatus::Uploading("/main.py".to_string(), 512, 2048)),
        "Uploading /main.py: 512/2048"
    );
    assert_eq!(describe_status(&SerialStatus::Done), "Update Complete!");
    assert_eq!(describe_status(&SerialStatus::Error("boom".to_string())), "Error: boom");
}

#[test]
fn tab_scans_and_selects() {
    let mut tab = SerialTab::new();
    assert_eq!(tab.status, SerialStatus::Idle);
    tab.init(Vec::new());
    assert_eq!(tab.logs, vec!["No serial ports found".to_string()]);
    assert_eq!(tab.handle_input(Key::Down), TabRequest::Nothing);
    assert_eq!(tab.selected_port, 0);
    assert_eq!(tab.handle_input(Key::Char('u')), TabRequest::Nothing);
    assert_eq!(tab.logs[1], "No port selected");

    assert_eq!(tab.handle_input(Key::Char('r')), TabRequest::Rescan);
    tab.selected_port = 5;
    tab.scan_ports(ports(&["/dev/ttyACM0", "/dev/ttyUSB0", "/dev/ttyUSB1"]));
    assert_eq!(tab.selected_port, 0);
    assert_eq!(tab.logs[2], "Found 3 serial ports");
    tab.handle_input(Key::Char('j'));
    assert_eq!(tab.selected_port, 1);
    tab.handle_input(Key::Down);
    tab.handle_input(Key::Down);
    assert_eq!(tab.selected_port, 0);
    tab.handle_input(Key::Char('k'));
    assert_eq!(tab.selected_port, 2);
    tab.handle_input(Key::Up);
    assert_eq!(tab.selected_port, 1);
    assert_eq!(tab.handle_input(Key::Other), TabRequest::Nothing);
    assert_eq!(tab.handle_input(Key::Char('x')), TabRequest::Nothing);
    assert_eq!(tab.selected_port, 1);
}

#[test]
fn tab_starts_one_update_at_a_time() {
    let mut tab = SerialTab::new();
    tab.scan_ports(ports(&["/dev/ttyACM0", "/dev/ttyUSB0"]));
    tab.handle_input(Key::Down);
    tab.progress = Progress { done: 3, total: 4 };
    assert_eq!(tab.handle_input(Key::Char('u')), TabRequest::Start("/dev/ttyUSB0".to_string()));
    assert_eq!(tab.status, SerialStatus::Downloading("Starting...".to_string()));
    assert_eq!(tab.progress, Progress { done: 0, total: 0 });
    assert!(!tab.at_rest());
    assert_eq!(tab.handle_input(Key::Char('u')), TabRequest::Nothing);
    tab.update(vec![Event::Done]);
    assert!(tab.at_rest());
    assert_eq!(tab.handle_input(Key::Char('u')), TabRequest::Start("/dev/ttyUSB0".to_string()));
}

#[test]
fn tab_shows_the_events_of_an_update() {
    let mut tab = SerialTab::new();
    tab.update(vec![
        Event::Log("Starting update on COM3".to_string()),
        Event::Status(SerialStatus::Connecting),
        Event::Progress(1, 2),
    ]);
    assert_eq!(tab.logs, vec!["Starting update on COM3".to_string()]);
    assert_eq!(tab.status, SerialStatus::Connecting);
    assert_eq!(tab.progress, Progress { done: 1, total: 2 });
    tab.update(vec![Event::Failed(JobError {
        kind: ErrorKind::ProtocolTimeout,
        message: "Failed to enter REPL: Timeout waiting for response".to_string(),
    })]);
    assert_eq!(
        tab.status,
        SerialStatus::Error("Failed to enter REPL: Timeout waiting for response".to_string())
    );
    tab.update(vec![Event::Status(SerialStatus::Connecting), Event::Cancelled]);
    assert_eq!(tab.status, SerialStatus::Idle);
    assert_eq!(tab.logs.last().unwrap(), "Update cancelled");
    tab.update(Vec::new());
    assert_eq!(tab.status, SerialStatus::Idle);
}

#[test]
fn job_follows_its_events_to_the_terminal_one() {
    let mut job = TransferJob::new(JobKind::Copy);
    assert_eq!(job.state(), &JobState::Idle);
    job.observe(Event::Progress(5, 10));
    assert_eq!(job.progress(), (0, 0));
    assert!(job.start());
    assert!(job.is_running());
    assert!(!job.start());
    job.observe(Event::Progress(5, 10));
    assert_eq!(job.progress(), (5, 10));
    job.observe(Event::Progress(11, 10));
    assert_eq!(job.progress(), (5, 10));
    job.observe(Event::Log("ignored".to_string()));
    job.observe(Event::Progress(10, 10));
    job.observe(Event::Done);
    assert_eq!(job.state(), &JobState::Success);
    job.observe(Event::Cancelled);
    assert_eq!(job.state(), &JobState::Success);
    assert_eq!(job.progress(), (10, 10));
    assert!(job.start());
    assert_eq!(job.progress(), (0, 0));
    job.observe(Event::Failed(JobError { kind: ErrorKind::Io, message: "disk full".to_string() }));
    assert_eq!(job.state(), &JobState::Failed("disk full".to_string()));
}

#[test]
fn cancel_request_is_idempotent_and_safe_in_any_state() {
    let mut job = TransferJob::new(JobKind::Serial);
    job.request_cancel();
    assert!(!job.cancel_requested());
    job.start();
    job.request_cancel();
    assert!(job.cancel_requested());
    job.request_cancel();
    assert!(job.cancel_requested());
    assert!(job.is_running());
    job.observe(Event::Cancelled);
    assert_eq!(job.state(), &JobState::Cancelled);
    job.request_cancel();
    assert_eq!(job.state(), &JobState::Cancelled);
    job.start();
    assert!(!job.cancel_requested());
}

#[test]
fn device_label_is_the_first_line_of_the_marker_file() {
    assert_eq!(MARKER_FILE, "INFO_UF2.TXT");
    assert_eq!(device_label(None), "RP2040");
    assert_eq!(device_label(Some("")), "RP2040");
    assert_eq!(device_label(Some("UF2 Bootloader v3.0\nModel: Raspberry Pi RP2\n")), "UF2 Bootloader v3.0");
    assert_eq!(device_label(Some("UF2 Bootloader v3.0\r\nModel\r\n")), "UF2 Bootloader v3.0");
    assert_eq!(device_label(Some("one line")), "one line");
    assert_eq!(device_label(Some("bare\r")), "bare\r");
    assert_eq!(device_label(Some("\nsecond")), "");
    assert_eq!(device_label(Some("\r\nsecond")), "");
    assert_eq!(device_label(Some("a\r\r\nb")), "a\r");
    for text in ["x\ny", "x\r\ny", "", "x", "x\r", "\n", "\r\n", "a\r\r\nb"] {
        let expected = text.lines().next().unwrap_or("RP2040");
        assert_eq!(device_label(Some(text)), expected);
    }
}

#[test]
fn scan_summary() {
    assert_eq!(
        found_devices(0),
        "No RP2040 bootloader devices found. Plug the board and press 'r' to rescan."
    );
    assert_eq!(found_devices(1), "Found 1 device(s)");
    assert_eq!(found_devices(12), "Found 12 device(s)");
}
