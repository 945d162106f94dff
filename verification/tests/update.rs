use badge_flasher::event::{ErrorKind, Event, JobError, SerialStatus};
use badge_flasher::manifest::{EntryKind, TreeEntry};
use badge_flasher::pusher::push_commands;
use badge_flasher::repl::{
    execute_steps, interrupt_steps, negotiate_steps, reset_steps, ReplError, Step,
};
use badge_flasher::update::{
    FetchError, Stage, UpdateAction, UpdateInput, UpdateJob, UpdateTurn, BAUD_RATE,
    PORT_TIMEOUT_MS,
};

fn file(path: &str) -> TreeEntry {
    TreeEntry {
        name: path.rsplit('/').next().unwrap().to_string(),
        path: path.to_string(),
        kind: EntryKind::File,
        download_url: Some(format!("https://raw.example/{}", path)),
    }
}

fn log(text: &str) -> Event {
    Event::Log(text.to_string())
}

fn failed(kind: ErrorKind, message: &str) -> Vec<Event> {
    vec![Event::Failed(JobError { kind, message: message.to_string() })]
}

fn execute(command: &str) -> UpdateAction {
    UpdateAction::Perform(execute_steps(command.as_bytes()))
}

fn ok_response() -> UpdateInput {
    UpdateInput::Performed(Ok(b"OK\x04\x04>".to_vec()))
}

/// A job that has listed and downloaded `/main.py` and `/lib/a.py` and waits
/// for the port to open.
fn job_at_opening() -> UpdateJob {
    let mut job = UpdateJob::new("/dev/ttyACM0".to_string());
    job.step(false, UpdateInput::Begin);
    job.step(
        false,
        UpdateInput::Listing(Ok(vec![
            file("code/embedded/main.py"),
            file("code/embedded/lib/a.py"),
        ])),
    );
    job.step(false, UpdateInput::Content(Ok(b"print(1)\n".to_vec())));
    job.step(false, UpdateInput::Content(Ok(b"x = 2\n".to_vec())));
    assert_eq!(job.stage(), Stage::Opening);
    job
}

fn job_at_negotiating() -> UpdateJob {
    let mut job = job_at_opening();
    job.step(false, UpdateInput::Opened(Ok(())));
    job.step(false, UpdateInput::Performed(Ok(Vec::new())));
    assert_eq!(job.stage(), Stage::Negotiating);
    job
}

#[test]
fn update_runs_from_listing_to_done() {
    let mut job = UpdateJob::new("/dev/ttyACM0".to_string());
    assert_eq!(job.stage(), Stage::Idle);
    assert_eq!(
        job.step(false, UpdateInput::Begin),
        UpdateTurn {
            events: vec![
                log("Starting update on /dev/ttyACM0"),
                Event::Status(SerialStatus::Downloading("Manifest".to_string())),
            ],
            action: UpdateAction::List("code/embedded".to_string()),
        }
    );
    let listing = vec![
        file("code/embedded/main.py"),
        TreeEntry {
            name: "lib".to_string(),
            path: "code/embedded/lib".to_string(),
            kind: EntryKind::Dir,
            download_url: None,
        },
    ];
    assert_eq!(
        job.step(false, UpdateInput::Listing(Ok(listing))),
        UpdateTurn {
            events: Vec::new(),
            action: UpdateAction::List("code/embedded/lib".to_string()),
        }
    );
    assert_eq!(
        job.step(false, UpdateInput::Listing(Ok(vec![file("code/embedded/lib/a.py")]))),
        UpdateTurn {
            events: vec![
                log("Found 2 files to update"),
                Event::Status(SerialStatus::Downloading("/main.py".to_string())),
                Event::Progress(0, 2),
            ],
            action: UpdateAction::Download(
                "https://raw.example/code/embedded/main.py".to_string()
            ),
        }
    );
    assert_eq!(
        job.step(false, UpdateInput::Content(Ok(b"print(1)\n".to_vec()))),
        UpdateTurn {
            events: vec![
                Event::Status(SerialStatus::Downloading("/lib/a.py".to_string())),
                Event::Progress(1, 2),
            ],
            action: UpdateAction::Download(
                "https://raw.example/code/embedded/lib/a.py".to_string()
            ),
        }
    );
    assert_eq!(
        job.step(false, UpdateInput::Content(Ok(b"x = 2\n".to_vec()))),
        UpdateTurn {
            events: vec![Event::Status(SerialStatus::Connecting)],
            action: UpdateAction::Open {
                port: "/dev/ttyACM0".to_string(),
                baud: 115_200,
                timeout_ms: 1_000,
            },
        }
    );
    assert_eq!((BAUD_RATE, PORT_TIMEOUT_MS), (115_200, 1_000));
    assert_eq!(
        job.step(false, UpdateInput::Opened(Ok(()))),
        UpdateTurn { events: Vec::new(), action: UpdateAction::Perform(interrupt_steps()) }
    );
    assert_eq!(
        job.step(false, UpdateInput::Performed(Ok(Vec::new()))),
        UpdateTurn { events: Vec::new(), action: UpdateAction::Perform(negotiate_steps()) }
    );
    let first = push_commands("/main.py", b"print(1)\n");
    assert_eq!(first.len(), 4);
    assert_eq!(
        job.step(false, UpdateInput::Performed(Ok(b"\r\n>".to_vec()))),
        UpdateTurn {
            events: vec![
                log("Entered Raw REPL"),
                Event::Status(SerialStatus::Uploading("/main.py".to_string(), 0, 9)),
                Event::Progress(0, 2),
            ],
            action: execute(&first[0]),
        }
    );
    for command in &first[1..] {
        assert_eq!(
            job.step(false, ok_response()),
            UpdateTurn { events: Vec::new(), action: execute(command) }
        );
    }
    let second = push_commands("/lib/a.py", b"x = 2\n");
    assert_eq!(second[0], "import os\ntry:\n os.mkdir('/lib')\nexcept:\n pass");
    assert_eq!(
        job.step(false, ok_response()),
        UpdateTurn {
            events: vec![
                log("Uploaded /main.py"),
                Event::Status(SerialStatus::Uploading("/lib/a.py".to_string(), 0, 6)),
                Event::Progress(1, 2),
            ],
            action: execute(&second[0]),
        }
    );
    for command in &second[1..] {
        assert_eq!(
            job.step(false, ok_response()),
            UpdateTurn { events: Vec::new(), action: execute(command) }
        );
    }
    assert_eq!(
        job.step(false, ok_response()),
        UpdateTurn {
            events: vec![log("Uploaded /lib/a.py"), log("Resetting device...")],
            action: UpdateAction::Perform(reset_steps()),
        }
    );
    assert_eq!(job.stage(), Stage::Resetting);
    assert_eq!(
        job.step(true, UpdateInput::Performed(Err(ReplError::Io("gone".to_string())))),
        UpdateTurn { events: vec![Event::Progress(2, 2), Event::Done], action: UpdateAction::Stop }
    );
    assert_eq!(job.stage(), Stage::Finished);
    assert_eq!(
        job.step(false, UpdateInput::Begin),
        UpdateTurn { events: Vec::new(), action: UpdateAction::Stop }
    );
}

#[test]
fn empty_manifest_goes_straight_to_the_port_and_the_restart() {
    let mut job = UpdateJob::new("COM3".to_string());
    job.step(false, UpdateInput::Begin);
    assert_eq!(
        job.step(false, UpdateInput::Listing(Ok(Vec::new()))),
        UpdateTurn {
            events: vec![log("Found 0 files to update"), Event::Status(SerialStatus::Connecting)],
            action: UpdateAction::Open { port: "COM3".to_string(), baud: 115_200, timeout_ms: 1_000 },
        }
    );
    job.step(false, UpdateInput::Opened(Ok(())));
    job.step(false, UpdateInput::Performed(Ok(Vec::new())));
    assert_eq!(
        job.step(false, UpdateInput::Performed(Ok(b">".to_vec()))),
        UpdateTurn {
            events: vec![log("Entered Raw REPL"), log("Resetting device...")],
            action: UpdateAction::Perform(vec![Step::Write(vec![0x04])]),
        }
    );
    assert_eq!(
        job.step(false, UpdateInput::Performed(Ok(Vec::new()))),
        UpdateTurn { events: vec![Event::Progress(0, 0), Event::Done], action: UpdateAction::Stop }
    );
}

#[test]
fn negotiation_timeout_ends_the_job_with_protocol_timeout() {
    let mut job = job_at_negotiating();
    assert_eq!(
        job.step(false, UpdateInput::Performed(Err(ReplError::Timeout))),
        UpdateTurn {
            events: failed(
                ErrorKind::ProtocolTimeout,
                "Failed to enter REPL: Timeout waiting for response"
            ),
            action: UpdateAction::Stop,
        }
    );
    assert_eq!(job.stage(), Stage::Finished);
}

#[test]
fn manifest_failure_is_a_network_error() {
    let mut job = UpdateJob::new("COM3".to_string());
    job.step(false, UpdateInput::Begin);
    assert_eq!(
        job.step(false, UpdateInput::Listing(Err("dns failure".to_string()))),
        UpdateTurn {
            events: failed(ErrorKind::Network, "dns failure"),
            action: UpdateAction::Stop,
        }
    );
}

#[test]
fn download_failures_name_the_file() {
    let begin = || {
        let mut job = UpdateJob::new("COM3".to_string());
        job.step(false, UpdateInput::Begin);
        job.step(false, UpdateInput::Listing(Ok(vec![file("code/embedded/main.py")])));
        job
    };
    let mut job = begin();
    assert_eq!(
        job.step(false, UpdateInput::Content(Err(FetchError::Request("404".to_string())))),
        UpdateTurn {
            events: failed(ErrorKind::Network, "Failed to download /main.py: 404"),
            action: UpdateAction::Stop,
        }
    );
    let mut job = begin();
    assert_eq!(
        job.step(false, UpdateInput::Content(Err(FetchError::Body("cut".to_string())))),
        UpdateTurn {
            events: failed(ErrorKind::Network, "Failed to read /main.py: cut"),
            action: UpdateAction::Stop,
        }
    );
}

#[test]
fn port_and_console_failures() {
    let mut job = job_at_opening();
    assert_eq!(
        job.step(false, UpdateInput::Opened(Err("busy".to_string()))),
        UpdateTurn {
            events: failed(ErrorKind::Io, "Failed to open port: busy"),
            action: UpdateAction::Stop,
        }
    );
    let mut job = job_at_opening();
    job.step(false, UpdateInput::Opened(Ok(())));
    assert_eq!(
        job.step(false, UpdateInput::Performed(Err(ReplError::Io("broken pipe".to_string())))),
        UpdateTurn {
            events: failed(ErrorKind::Io, "Failed to enter REPL: broken pipe"),
            action: UpdateAction::Stop,
        }
    );
}

#[test]
fn push_failure_names_the_file_and_stops_the_job() {
    let mut job = job_at_negotiating();
    job.step(false, UpdateInput::Performed(Ok(b">".to_vec())));
    assert_eq!(job.stage(), Stage::Pushing);
    assert_eq!(
        job.step(false, UpdateInput::Performed(Ok(b"Traceback\r\n\x04>".to_vec()))),
        UpdateTurn {
            events: failed(
                ErrorKind::ProtocolFraming,
                "Failed to upload /main.py: Execution failed (no OK)"
            ),
            action: UpdateAction::Stop,
        }
    );
    assert_eq!(job.stage(), Stage::Finished);

    let mut job = job_at_negotiating();
    job.step(false, UpdateInput::Performed(Ok(b">".to_vec())));
    job.step(false, ok_response());
    assert_eq!(
        job.step(false, UpdateInput::Performed(Err(ReplError::Timeout))),
        UpdateTurn {
            events: failed(
                ErrorKind::ProtocolTimeout,
                "Failed to upload /main.py: Timeout waiting for response"
            ),
            action: UpdateAction::Stop,
        }
    );
}

#[test]
fn cancellation_is_seen_between_actions() {
    let cancelled = UpdateTurn { events: vec![Event::Cancelled], action: UpdateAction::Stop };
    let mut job = UpdateJob::new("COM3".to_string());
    assert_eq!(job.step(true, UpdateInput::Begin), cancelled);
    assert_eq!(job.stage(), Stage::Finished);

    let mut job = job_at_opening();
    assert_eq!(job.step(true, UpdateInput::Opened(Ok(()))), cancelled);

    let mut job = job_at_negotiating();
    job.step(false, UpdateInput::Performed(Ok(b">".to_vec())));
    assert_eq!(job.step(true, ok_response()), cancelled);
    assert_eq!(
        job.step(true, ok_response()),
        UpdateTurn { events: Vec::new(), action: UpdateAction::Stop }
    );
}

#[test]
fn failure_wins_over_cancellation() {
    let mut job = job_at_negotiating();
    assert_eq!(
        job.step(true, UpdateInput::Performed(Err(ReplError::Timeout))),
        UpdateTurn {
            events: failed(
                ErrorKind::ProtocolTimeout,
                "Failed to enter REPL: Timeout waiting for response"
            ),
            action: UpdateAction::Stop,
        }
    );
}

#[test]
fn unexpected_report_ends_the_job() {
    let mut job = UpdateJob::new("COM3".to_string());
    assert_eq!(
        job.step(false, UpdateInput::Opened(Ok(()))),
        UpdateTurn {
            events: failed(ErrorKind::Validation, "unexpected report"),
            action: UpdateAction::Stop,
        }
    );
}

#[test]
fn nested_file_takes_two_directory_round_trips_before_the_write() {
    let mut job = UpdateJob::new("COM3".to_string());
    job.step(false, UpdateInput::Begin);
    job.step(false, UpdateInput::Listing(Ok(vec![file("code/embedded/a/b/c.py")])));
    job.step(false, UpdateInput::Content(Ok(b"pass\n".to_vec())));
    job.step(false, UpdateInput::Opened(Ok(())));
    job.step(false, UpdateInput::Performed(Ok(Vec::new())));
    let mut turn = job.step(false, UpdateInput::Performed(Ok(b">".to_vec())));
    let mut round_trips = Vec::new();
    while job.stage() == Stage::Pushing {
        round_trips.push(turn.action);
        turn = job.step(false, ok_response());
    }
    assert_eq!(
        round_trips,
        vec![
            execute("import os\ntry:\n os.mkdir('/a')\nexcept:\n pass"),
            execute("import os\ntry:\n os.mkdir('/a/b')\nexcept:\n pass"),
            execute("import ubinascii"),
            execute("f=open('/a/b/c.py','wb');w=f.write"),
            execute("w(ubinascii.a2b_base64('cGFzcwo='))"),
            execute("f.close()"),
        ]
    );
}
