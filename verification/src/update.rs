//! The serial update from its start to its one terminal event: list the
//! firmware tree, download every file, open the port, enter the raw console,
//! push every file, restart the device.
//!
//! The job does none of this itself. Each turn it is told what came of the
//! last action, together with the cancellation flag as it stands, and gives
//! the events to emit and the next action. Cancellation is seen between
//! actions only, never in the middle of a round trip.

use vstd::prelude::*;
use vstd::string::StringExecFns;
use vstd::utf8::encode_utf8;
use crate::event::{events_view, failure, ErrorKind, Event, EventView, SerialStatus, StatusView};
use crate::manifest::{
    entries_view, files_view, subtree, walk_step, DeviceFile, EntryView, FileView, ManifestWalk,
    TreeEntry, WalkAction, WalkActionView, WalkModel,
};
use crate::pusher::{lemma_push_has_commands, push_commands, push_texts};
use crate::repl::{
    execute_script, interrupt_script, negotiate_script, parse, reply_view, reset_script,
    script_view, Fault, ReplError, Session, SessionState, Step, StepView,
};
use crate::text::{decimal, decimal_text, texts};

verus! {

/// The speed of the serial port, in bits per second.
pub const BAUD_RATE: u32 = 115_200;

/// The read timeout of the serial port itself, in milliseconds.
pub const PORT_TIMEOUT_MS: u64 = 1_000;

/// Where an update stands: which action is out.
#[derive(Debug, Clone, Copy, PartialEq, Eq, Structural)]
pub enum Stage {
    /// Not started.
    Idle,
    /// A directory listing.
    Listing,
    /// The download of a file.
    Downloading,
    /// The opening of the serial port.
    Opening,
    /// The interrupt script.
    Interrupting,
    /// The wait for banner and prompt.
    Negotiating,
    /// A command of the push of a file.
    Pushing,
    /// The soft restart.
    Resetting,
    /// The terminal event was emitted.
    Finished,
}

/// Why the content of a file could not be had.
#[derive(Debug, Clone, PartialEq, Eq)]
pub enum FetchError {
    /// The request failed.
    Request(String),
    /// The response could not be read to its end.
    Body(String),
}

/// The mathematical value of a [`FetchError`].
pub enum FetchFault {
    Request(Seq<char>),
    Body(Seq<char>),
}

impl View for FetchError {
    type V = FetchFault;

    open spec fn view(&self) -> FetchFault {
        match self {
            FetchError::Request(m) => FetchFault::Request(m@),
            FetchError::Body(m) => FetchFault::Body(m@),
        }
    }
}

/// What came of the last action.
#[derive(Debug, PartialEq, Eq)]
pub enum UpdateInput {
    /// Nothing yet: the job is to start.
    Begin,
    /// The listing asked for, or the message of the failure to get it.
    Listing(Result<Vec<TreeEntry>, String>),
    /// The content asked for, or why it could not be had.
    Content(Result<Vec<u8>, FetchError>),
    /// The port is open, or the message of the failure to open it.
    Opened(Result<(), String>),
    /// The script was performed: the bytes that its last marker wait
    /// captured, or its first failure.
    Performed(Result<Vec<u8>, ReplError>),
}

/// The mathematical value of an [`UpdateInput`].
pub enum InputView {
    Begin,
    Listing(Result<Seq<EntryView>, Seq<char>>),
    Content(Result<Seq<u8>, FetchFault>),
    Opened(Result<(), Seq<char>>),
    Performed(Result<Seq<u8>, Fault>),
}

impl View for UpdateInput {
    type V = InputView;

    open spec fn view(&self) -> InputView {
        match self {
            UpdateInput::Begin => InputView::Begin,
            UpdateInput::Listing(r) => InputView::Listing(
                match r {
                    Ok(entries) => Ok(entries_view(entries@)),
                    Err(m) => Err(m@),
                },
            ),
            UpdateInput::Content(r) => InputView::Content(
                match r {
                    Ok(bytes) => Ok(bytes@),
                    Err(e) => Err(e@),
                },
            ),
            UpdateInput::Opened(r) => InputView::Opened(
                match r {
                    Ok(_) => Ok(()),
                    Err(m) => Err(m@),
                },
            ),
            UpdateInput::Performed(r) => InputView::Performed(reply_view(*r)),
        }
    }
}

/// What the driver is to do next.
#[derive(Debug, Clone, PartialEq, Eq)]
pub enum UpdateAction {
    /// Fetch the listing of the directory at this path of the repository.
    List(String),
    /// Fetch the content at this address.
    Download(String),
    /// Open the serial port.
    Open { port: String, baud: u32, timeout_ms: u64 },
    /// Perform this script on the open port.
    Perform(Vec<Step>),
    /// Nothing more: the job is over.
    Stop,
}

/// The mathematical value of an [`UpdateAction`].
pub enum ActionView {
    List(Seq<char>),
    Download(Seq<char>),
    Open { port: Seq<char>, baud: u32, timeout_ms: u64 },
    Perform(Seq<StepView>),
    Stop,
}

impl View for UpdateAction {
    type V = ActionView;

    open spec fn view(&self) -> ActionView {
        match self {
            UpdateAction::List(path) => ActionView::List(path@),
            UpdateAction::Download(url) => ActionView::Download(url@),
            UpdateAction::Open { port, baud, timeout_ms } => ActionView::Open {
                port: port@,
                baud: *baud,
                timeout_ms: *timeout_ms,
            },
            UpdateAction::Perform(steps) => ActionView::Perform(script_view(steps@)),
            UpdateAction::Stop => ActionView::Stop,
        }
    }
}

/// What one turn gives: the events to emit, in order, and then the next
/// action.
#[derive(Debug, Clone, PartialEq, Eq)]
pub struct UpdateTurn {
    pub events: Vec<Event>,
    pub action: UpdateAction,
}

/// The mathematical value of an [`UpdateJob`].
pub struct UpdateModel {
    /// The name of the serial port.
    pub port: Seq<char>,
    pub stage: Stage,
    /// The walk of the remote tree.
    pub walk: WalkModel,
    /// The manifest, once the walk is complete.
    pub files: Seq<FileView>,
    /// The contents downloaded so far, in the order of the manifest.
    pub contents: Seq<Seq<u8>>,
    /// The index of the file that is downloaded or pushed.
    pub file: nat,
    /// The index of the command in flight among those of the file pushed.
    pub command: nat,
}

/// The result of a turn: the state after it, the events, the action.
pub type Outcome = (UpdateModel, Seq<EventView>, ActionView);

impl UpdateModel {
    /// The same job at another stage.
    pub open spec fn at(self, stage: Stage) -> UpdateModel {
        UpdateModel { stage, ..self }
    }

    /// The job ends with `event`.
    pub open spec fn halt(self, event: EventView) -> Outcome {
        (self.at(Stage::Finished), seq![event], ActionView::Stop)
    }

    /// The job ends with a failure.
    pub open spec fn fail(self, kind: ErrorKind, text: Seq<char>) -> Outcome {
        self.halt(EventView::Failed(kind, text))
    }

    /// The job ends because a report came that the action in flight cannot
    /// give.
    pub open spec fn misuse(self) -> Outcome {
        self.fail(ErrorKind::Validation, "unexpected report"@)
    }

    /// The download of file `i` begins.
    pub open spec fn download(self, i: nat) -> Outcome {
        (
            UpdateModel { stage: Stage::Downloading, file: i, ..self },
            seq![
                EventView::Status(StatusView::Downloading(self.files[i as int].path)),
                EventView::Progress(i as u64, self.files.len() as u64),
            ],
            ActionView::Download(self.files[i as int].download_url),
        )
    }

    /// The opening of the port begins.
    pub open spec fn connect(self) -> Outcome {
        (
            self.at(Stage::Opening),
            seq![EventView::Status(StatusView::Connecting)],
            ActionView::Open { port: self.port, baud: BAUD_RATE, timeout_ms: PORT_TIMEOUT_MS },
        )
    }

    /// The commands that push file `i`.
    pub open spec fn commands(self, i: nat) -> Seq<Seq<char>> {
        push_texts(self.files[i as int].path, self.contents[i as int])
    }

    /// The action that runs command `j` of file `i`.
    pub open spec fn run(self, i: nat, j: nat) -> ActionView {
        ActionView::Perform(execute_script(encode_utf8(self.commands(i)[j as int])))
    }

    /// The push of file `i` begins.
    pub open spec fn push(self, i: nat) -> Outcome {
        (
            UpdateModel { stage: Stage::Pushing, file: i, command: 0, ..self },
            seq![
                EventView::Status(
                    StatusView::Uploading(
                        self.files[i as int].path,
                        0,
                        self.contents[i as int].len() as u64,
                    ),
                ),
                EventView::Progress(i as u64, self.files.len() as u64),
            ],
            self.run(i, 0),
        )
    }

    /// The soft restart begins.
    pub open spec fn restart(self) -> Outcome {
        (
            self.at(Stage::Resetting),
            seq![EventView::Log("Resetting device..."@)],
            ActionView::Perform(reset_script()),
        )
    }

    /// With file `i` next: its download, or the opening of the port when all
    /// files are downloaded.
    pub open spec fn download_or_connect(self, i: nat) -> Outcome {
        if i < self.files.len() {
            self.download(i)
        } else {
            self.connect()
        }
    }

    /// With file `i` next: its push, or the soft restart when all files are
    /// pushed.
    pub open spec fn push_or_restart(self, i: nat) -> Outcome {
        if i < self.files.len() {
            self.push(i)
        } else {
            self.restart()
        }
    }
}

/// `events` before those of `then`.
pub open spec fn after(events: Seq<EventView>, then: Outcome) -> Outcome {
    (then.0, events + then.1, then.2)
}

/// The line that opens the log of an update.
pub open spec fn starting_text(port: Seq<char>) -> Seq<char> {
    "Starting update on "@ + port
}

/// The line that tells how many files the manifest holds.
pub open spec fn found_text(count: nat) -> Seq<char> {
    "Found "@ + decimal_text(count) + " files to update"@
}

/// The message of a failure that concerns `subject`: `lead`, the subject, a
/// colon, the detail.
pub open spec fn about_text(lead: Seq<char>, subject: Seq<char>, detail: Seq<char>) -> Seq<char> {
    lead + subject + ": "@ + detail
}

/// One turn of the update.
///
/// A failure of the action in flight ends the job with that failure, under
/// the kind that belongs to it; nothing is retried and nothing after it is
/// begun. Where the action was done and the cancellation flag is up, the job
/// ends with `Cancelled`. Otherwise the next action is begun, in the order
/// of the module's description. The outcome of the soft restart is not
/// looked at: the job is done once it was asked for.
pub open spec fn update_step(m: UpdateModel, cancel: bool, input: InputView) -> Outcome {
    match m.stage {
        Stage::Finished => (m, Seq::empty(), ActionView::Stop),
        Stage::Idle => match input {
            InputView::Begin => if cancel {
                m.halt(EventView::Cancelled)
            } else {
                (
                    m.at(Stage::Listing),
                    seq![
                        EventView::Log(starting_text(m.port)),
                        EventView::Status(StatusView::Downloading("Manifest"@)),
                    ],
                    ActionView::List(subtree()),
                )
            },
            _ => m.misuse(),
        },
        Stage::Listing => match input {
            InputView::Listing(listing) => {
                let walked = walk_step(m.walk, listing);
                let next = UpdateModel { walk: walked.0, ..m };
                match walked.1 {
                    WalkActionView::Failed(kind, text) => next.fail(kind, text),
                    WalkActionView::Stop => next.misuse(),
                    WalkActionView::List(path) => if cancel {
                        next.halt(EventView::Cancelled)
                    } else {
                        (next, Seq::empty(), ActionView::List(path))
                    },
                    WalkActionView::Finished(files) => if cancel {
                        next.halt(EventView::Cancelled)
                    } else {
                        after(
                            seq![EventView::Log(found_text(files.len()))],
                            UpdateModel {
                                files,
                                contents: Seq::empty(),
                                ..next
                            }.download_or_connect(0),
                        )
                    },
                }
            },
            _ => m.misuse(),
        },
        Stage::Downloading => match input {
            InputView::Content(Ok(bytes)) => if cancel {
                m.halt(EventView::Cancelled)
            } else {
                UpdateModel { contents: m.contents.push(bytes), ..m }.download_or_connect(
                    m.file + 1,
                )
            },
            InputView::Content(Err(FetchFault::Request(text))) => m.fail(
                ErrorKind::Network,
                about_text("Failed to download "@, m.files[m.file as int].path, text),
            ),
            InputView::Content(Err(FetchFault::Body(text))) => m.fail(
                ErrorKind::Network,
                about_text("Failed to read "@, m.files[m.file as int].path, text),
            ),
            _ => m.misuse(),
        },
        Stage::Opening => match input {
            InputView::Opened(Ok(_)) => if cancel {
                m.halt(EventView::Cancelled)
            } else {
                (m.at(Stage::Interrupting), Seq::empty(), ActionView::Perform(interrupt_script()))
            },
            InputView::Opened(Err(text)) => m.fail(
                ErrorKind::Io,
                "Failed to open port: "@ + text,
            ),
            _ => m.misuse(),
        },
        Stage::Interrupting => match input {
            InputView::Performed(Ok(_)) => if cancel {
                m.halt(EventView::Cancelled)
            } else {
                (m.at(Stage::Negotiating), Seq::empty(), ActionView::Perform(negotiate_script()))
            },
            InputView::Performed(Err(fault)) => m.fail(
                fault.kind(),
                "Failed to enter REPL: "@ + fault.text(),
            ),
            _ => m.misuse(),
        },
        Stage::Negotiating => match input {
            InputView::Performed(Ok(_)) => if cancel {
                m.halt(EventView::Cancelled)
            } else {
                after(seq![EventView::Log("Entered Raw REPL"@)], m.push_or_restart(0))
            },
            InputView::Performed(Err(fault)) => m.fail(
                fault.kind(),
                "Failed to enter REPL: "@ + fault.text(),
            ),
            _ => m.misuse(),
        },
        Stage::Pushing => {
            let name = m.files[m.file as int].path;
            match input {
                InputView::Performed(Ok(captured)) => match parse(captured) {
                    Err(fault) => m.fail(
                        fault.kind(),
                        about_text("Failed to upload "@, name, fault.text()),
                    ),
                    Ok(_) => if cancel {
                        m.halt(EventView::Cancelled)
                    } else if m.command + 1 < m.commands(m.file).len() {
                        (
                            UpdateModel { command: m.command + 1, ..m },
                            Seq::empty(),
                            m.run(m.file, m.command + 1),
                        )
                    } else {
                        after(
                            seq![EventView::Log("Uploaded "@ + name)],
                            m.push_or_restart(m.file + 1),
                        )
                    },
                },
                InputView::Performed(Err(fault)) => m.fail(
                    fault.kind(),
                    about_text("Failed to upload "@, name, fault.text()),
                ),
                _ => m.misuse(),
            }
        },
        Stage::Resetting => match input {
            InputView::Performed(_) => (
                m.at(Stage::Finished),
                seq![
                    EventView::Progress(m.files.len() as u64, m.files.len() as u64),
                    EventView::Done,
                ],
                ActionView::Stop,
            ),
            _ => m.misuse(),
        },
    }
}

/// The mathematical value of a list of contents.
pub open spec fn contents_view(contents: Seq<Vec<u8>>) -> Seq<Seq<u8>> {
    contents.map_values(|c: Vec<u8>| c@)
}

/// The walk of a job that has not listed anything.
pub open spec fn fresh_walk() -> WalkModel {
    WalkModel { pending: Seq::empty(), files: Seq::empty(), open: true }
}

fn about(lead: &str, subject: &str, detail: &str) -> (r: String)
    ensures
        r@ == about_text(lead@, subject@, detail@),
{
    let mut text = String::from_str(lead);
    text.append(subject);
    text.append(": ");
    text.append(detail);
    text
}

fn joined(lead: &str, detail: &str) -> (r: String)
    ensures
        r@ == lead@ + detail@,
{
    let mut text = String::from_str(lead);
    text.append(detail);
    text
}

fn emit(events: &mut Vec<Event>, event: Event)
    ensures
        events_view(final(events)@) == events_view(old(events)@).push(event@),
{
    events.push(event);
}

fn no_events() -> (r: Vec<Event>)
    ensures
        events_view(r@) == Seq::<EventView>::empty(),
{
    Vec::new()
}

/// The state of one serial update.
pub struct UpdateJob {
    port: String,
    stage: Stage,
    walk: ManifestWalk,
    files: Vec<DeviceFile>,
    contents: Vec<Vec<u8>>,
    file: usize,
    // the commands that push the file at `file`, while it is pushed
    commands: Vec<String>,
    command: usize,
    session: Session,
}

impl View for UpdateJob {
    type V = UpdateModel;

    closed spec fn view(&self) -> UpdateModel {
        UpdateModel {
            port: self.port@,
            stage: self.stage,
            walk: self.walk@,
            files: files_view(self.files@),
            contents: contents_view(self.contents@),
            file: self.file as nat,
            command: self.command as nat,
        }
    }
}

impl UpdateJob {
    /// What holds of a job between turns: the downloads are as far as the
    /// stage says, the commands held are those of the file that is pushed,
    /// and the console session is where the action in flight has brought it.
    pub closed spec fn wf(&self) -> bool {
        let n = self.files@.len();
        match self.stage {
            Stage::Idle => self.walk@ == fresh_walk() && self.session.idle_in(
                SessionState::Disconnected,
            ),
            Stage::Listing => self.walk@.open && self.session.idle_in(SessionState::Disconnected),
            Stage::Downloading => self.file < n && self.contents@.len() == self.file
                && self.session.idle_in(SessionState::Disconnected),
            Stage::Opening => self.contents@.len() == n && self.session.idle_in(
                SessionState::Disconnected,
            ),
            Stage::Interrupting => self.contents@.len() == n && self.session.busy()
                && self.session.state() == SessionState::Interrupting,
            Stage::Negotiating => self.contents@.len() == n && self.session.busy()
                && self.session.state() == SessionState::Negotiating,
            Stage::Pushing => self.contents@.len() == n && self.file < n && self.command
                < self.commands@.len() && texts(self.commands@) == self@.commands(self.file as nat)
                && self.session.busy() && self.session.state() == SessionState::Executing,
            Stage::Resetting => self.contents@.len() == n && self.session.busy()
                && self.session.state() == SessionState::Exiting,
            Stage::Finished => true,
        }
    }

    /// A job for the serial port named `port`, not started.
    pub fn new(port: String) -> (r: UpdateJob)
        ensures
            r.wf(),
            r@ == (UpdateModel {
                port: port@,
                stage: Stage::Idle,
                walk: fresh_walk(),
                files: Seq::empty(),
                contents: Seq::empty(),
                file: 0,
                command: 0,
            }),
    {
        let (walk, _) = ManifestWalk::begin();
        let job = UpdateJob {
            port,
            stage: Stage::Idle,
            walk,
            files: Vec::new(),
            contents: Vec::new(),
            file: 0,
            commands: Vec::new(),
            command: 0,
            session: Session::new(),
        };
        assert(job@.files =~= Seq::<FileView>::empty());
        assert(job@.contents =~= Seq::<Seq<u8>>::empty());
        job
    }

    /// Where the job stands.
    pub fn stage(&self) -> (r: Stage)
        ensures
            r == self@.stage,
    {
        self.stage
    }

    fn halt(&mut self, event: Event) -> (r: UpdateTurn)
        ensures
            final(self).wf(),
            (final(self)@, events_view(r.events@), r.action@) == old(self)@.halt(event@),
    {
        self.stage = Stage::Finished;
        let mut events = no_events();
        emit(&mut events, event);
        UpdateTurn { events, action: UpdateAction::Stop }
    }

    fn fail(&mut self, kind: ErrorKind, message: String) -> (r: UpdateTurn)
        ensures
            final(self).wf(),
            (final(self)@, events_view(r.events@), r.action@) == old(self)@.fail(kind, message@),
    {
        self.halt(failure(kind, message))
    }

    fn misuse(&mut self) -> (r: UpdateTurn)
        ensures
            final(self).wf(),
            (final(self)@, events_view(r.events@), r.action@) == old(self)@.misuse(),
    {
        self.fail(ErrorKind::Validation, String::from_str("unexpected report"))
    }

    fn download_or_connect(&mut self, i: usize, events: Vec<Event>) -> (r: UpdateTurn)
        requires
            i <= old(self).files@.len(),
            old(self).contents@.len() == i,
            old(self).session.idle_in(SessionState::Disconnected),
        ensures
            final(self).wf(),
            (final(self)@, events_view(r.events@), r.action@) == after(
                events_view(events@),
                old(self)@.download_or_connect(i as nat),
            ),
    {
        let mut events = events;
        if i < self.files.len() {
            let path = self.files[i].path.clone();
            let url = self.files[i].download_url.clone();
            emit(&mut events, Event::Status(SerialStatus::Downloading(path)));
            emit(&mut events, Event::Progress(i as u64, self.files.len() as u64));
            self.stage = Stage::Downloading;
            self.file = i;
            UpdateTurn { events, action: UpdateAction::Download(url) }
        } else {
            emit(&mut events, Event::Status(SerialStatus::Connecting));
            self.stage = Stage::Opening;
            UpdateTurn {
                events,
                action: UpdateAction::Open {
                    port: self.port.clone(),
                    baud: BAUD_RATE,
                    timeout_ms: PORT_TIMEOUT_MS,
                },
            }
        }
    }

    fn push_or_restart(&mut self, i: usize, events: Vec<Event>) -> (r: UpdateTurn)
        requires
            i <= old(self).files@.len(),
            old(self).contents@.len() == old(self).files@.len(),
            old(self).session.idle_in(SessionState::Ready),
        ensures
            final(self).wf(),
            (final(self)@, events_view(r.events@), r.action@) == after(
                events_view(events@),
                old(self)@.push_or_restart(i as nat),
            ),
    {
        let mut events = events;
        if i < self.files.len() {
            let path = self.files[i].path.clone();
            let size = self.contents[i].len() as u64;
            let commands = push_commands(path.as_str(), self.contents[i].as_slice());
            proof {
                lemma_push_has_commands(self@.files[i as int].path, self@.contents[i as int]);
            }
            let steps = self.session.execute(commands[0].as_str().as_bytes()).unwrap();
            emit(&mut events, Event::Status(SerialStatus::Uploading(path, 0, size)));
            emit(&mut events, Event::Progress(i as u64, self.files.len() as u64));
            self.commands = commands;
            self.stage = Stage::Pushing;
            self.file = i;
            self.command = 0;
            UpdateTurn { events, action: UpdateAction::Perform(steps) }
        } else {
            let steps = self.session.reset().unwrap();
            emit(&mut events, Event::Log(String::from_str("Resetting device...")));
            self.stage = Stage::Resetting;
            UpdateTurn { events, action: UpdateAction::Perform(steps) }
        }
    }
}

impl UpdateJob {
    fn on_begin(&mut self, cancel: bool) -> (r: UpdateTurn)
        requires
            old(self).wf(),
            old(self)@.stage == Stage::Idle,
        ensures
            final(self).wf(),
            (final(self)@, events_view(r.events@), r.action@) == update_step(
                old(self)@,
                cancel,
                InputView::Begin,
            ),
    {
        if cancel {
            return self.halt(Event::Cancelled);
        }
        let mut events = no_events();
        emit(&mut events, Event::Log(joined("Starting update on ", self.port.as_str())));
        emit(
            &mut events,
            Event::Status(SerialStatus::Downloading(String::from_str("Manifest"))),
        );
        self.stage = Stage::Listing;
        proof {
            assert(events_view(events@) =~= seq![
                EventView::Log(starting_text(self@.port)),
                EventView::Status(StatusView::Downloading("Manifest"@)),
            ]);
        }
        UpdateTurn { events, action: UpdateAction::List(String::from_str("code/embedded")) }
    }

    fn on_listing(&mut self, cancel: bool, listing: Result<Vec<TreeEntry>, String>) -> (r:
        UpdateTurn)
        requires
            old(self).wf(),
            old(self)@.stage == Stage::Listing,
        ensures
            final(self).wf(),
            (final(self)@, events_view(r.events@), r.action@) == update_step(
                old(self)@,
                cancel,
                UpdateInput::Listing(listing)@,
            ),
    {
        let walked = self.walk.supply(listing);
        match walked {
            WalkAction::Failed(error) => self.fail(error.kind, error.message),
            WalkAction::Stop => self.misuse(),
            WalkAction::List(path) => {
                if cancel {
                    self.halt(Event::Cancelled)
                } else {
                    UpdateTurn { events: no_events(), action: UpdateAction::List(path) }
                }
            },
            WalkAction::Finished(files) => {
                if cancel {
                    self.halt(Event::Cancelled)
                } else {
                    let mut events = no_events();
                    let mut line = joined("Found ", decimal(files.len() as u64).as_str());
                    line.append(" files to update");
                    emit(&mut events, Event::Log(line));
                    self.files = files;
                    self.contents = Vec::new();
                    proof {
                        assert(self@.contents =~= Seq::<Seq<u8>>::empty());
                        assert(events_view(events@) =~= seq![
                            EventView::Log(found_text(self@.files.len())),
                        ]);
                    }
                    self.download_or_connect(0, events)
                }
            },
        }
    }

    fn on_content(&mut self, cancel: bool, content: Result<Vec<u8>, FetchError>) -> (r:
        UpdateTurn)
        requires
            old(self).wf(),
            old(self)@.stage == Stage::Downloading,
        ensures
            final(self).wf(),
            (final(self)@, events_view(r.events@), r.action@) == update_step(
                old(self)@,
                cancel,
                UpdateInput::Content(content)@,
            ),
    {
        match content {
            Ok(bytes) => {
                if cancel {
                    self.halt(Event::Cancelled)
                } else {
                    self.contents.push(bytes);
                    proof {
                        assert(self@.contents =~= old(self)@.contents.push(bytes@));
                    }
                    assert(self.file < self.files.len());
                    let next = self.file + 1;
                    self.download_or_connect(next, no_events())
                }
            },
            Err(FetchError::Request(text)) => {
                let message = about(
                    "Failed to download ",
                    self.files[self.file].path.as_str(),
                    text.as_str(),
                );
                self.fail(ErrorKind::Network, message)
            },
            Err(FetchError::Body(text)) => {
                let message = about(
                    "Failed to read ",
                    self.files[self.file].path.as_str(),
                    text.as_str(),
                );
                self.fail(ErrorKind::Network, message)
            },
        }
    }

    fn on_opened(&mut self, cancel: bool, opened: Result<(), String>) -> (r: UpdateTurn)
        requires
            old(self).wf(),
            old(self)@.stage == Stage::Opening,
        ensures
            final(self).wf(),
            (final(self)@, events_view(r.events@), r.action@) == update_step(
                old(self)@,
                cancel,
                UpdateInput::Opened(opened)@,
            ),
    {
        match opened {
            Ok(_) => {
                if cancel {
                    self.halt(Event::Cancelled)
                } else {
                    let steps = self.session.interrupt().unwrap();
                    self.stage = Stage::Interrupting;
                    UpdateTurn { events: no_events(), action: UpdateAction::Perform(steps) }
                }
            },
            Err(text) => {
                let message = joined("Failed to open port: ", text.as_str());
                self.fail(ErrorKind::Io, message)
            },
        }
    }

    fn on_entered(&mut self, cancel: bool, done: Result<Vec<u8>, ReplError>) -> (r: UpdateTurn)
        requires
            old(self).wf(),
            old(self)@.stage == Stage::Interrupting || old(self)@.stage == Stage::Negotiating,
        ensures
            final(self).wf(),
            (final(self)@, events_view(r.events@), r.action@) == update_step(
                old(self)@,
                cancel,
                UpdateInput::Performed(done)@,
            ),
    {
        let reply = self.session.finish(done);
        match reply {
            Err(error) => {
                let message = joined("Failed to enter REPL: ", error.describe().as_str());
                self.fail(error.kind(), message)
            },
            Ok(_) => {
                if cancel {
                    self.halt(Event::Cancelled)
                } else if self.stage == Stage::Interrupting {
                    let steps = self.session.negotiate().unwrap();
                    self.stage = Stage::Negotiating;
                    UpdateTurn { events: no_events(), action: UpdateAction::Perform(steps) }
                } else {
                    let mut events = no_events();
                    emit(&mut events, Event::Log(String::from_str("Entered Raw REPL")));
                    proof {
                        assert(events_view(events@) =~= seq![
                            EventView::Log("Entered Raw REPL"@),
                        ]);
                    }
                    self.push_or_restart(0, events)
                }
            },
        }
    }

    fn on_pushed(&mut self, cancel: bool, done: Result<Vec<u8>, ReplError>) -> (r: UpdateTurn)
        requires
            old(self).wf(),
            old(self)@.stage == Stage::Pushing,
        ensures
            final(self).wf(),
            (final(self)@, events_view(r.events@), r.action@) == update_step(
                old(self)@,
                cancel,
                UpdateInput::Performed(done)@,
            ),
    {
        assert(self.file < self.files.len());
        assert(self.command < self.commands.len());
        let reply = self.session.finish(done);
        match reply {
            Err(error) => {
                let message = about(
                    "Failed to upload ",
                    self.files[self.file].path.as_str(),
                    error.describe().as_str(),
                );
                self.fail(error.kind(), message)
            },
            Ok(_) => {
                if cancel {
                    self.halt(Event::Cancelled)
                } else if self.command + 1 < self.commands.len() {
                    let next = self.command + 1;
                    let steps = self.session.execute(
                        self.commands[next].as_str().as_bytes(),
                    ).unwrap();
                    self.command = next;
                    UpdateTurn { events: no_events(), action: UpdateAction::Perform(steps) }
                } else {
                    let mut events = no_events();
                    emit(
                        &mut events,
                        Event::Log(joined("Uploaded ", self.files[self.file].path.as_str())),
                    );
                    proof {
                        assert(events_view(events@) =~= seq![
                            EventView::Log("Uploaded "@ + self@.files[self.file as int].path),
                        ]);
                    }
                    let next = self.file + 1;
                    self.push_or_restart(next, events)
                }
            },
        }
    }

    fn on_reset(&mut self) -> (r: UpdateTurn)
        requires
            old(self).wf(),
            old(self)@.stage == Stage::Resetting,
        ensures
            final(self).wf(),
            (final(self)@, events_view(r.events@), r.action@) == (
                old(self)@.at(Stage::Finished),
                seq![
                    EventView::Progress(
                        old(self)@.files.len() as u64,
                        old(self)@.files.len() as u64,
                    ),
                    EventView::Done,
                ],
                ActionView::Stop,
            ),
    {
        let count = self.files.len() as u64;
        let mut events = no_events();
        emit(&mut events, Event::Progress(count, count));
        emit(&mut events, Event::Done);
        self.stage = Stage::Finished;
        proof {
            assert(events_view(events@) =~= seq![
                EventView::Progress(count, count),
                EventView::Done,
            ]);
        }
        UpdateTurn { events, action: UpdateAction::Stop }
    }

    /// Takes what came of the last action, with the cancellation flag as it
    /// stands, and gives the events to emit and the next action. The first
    /// turn takes [`UpdateInput::Begin`].
    pub fn step(&mut self, cancel: bool, input: UpdateInput) -> (r: UpdateTurn)
        requires
            old(self).wf(),
        ensures
            final(self).wf(),
            (final(self)@, events_view(r.events@), r.action@) == update_step(
                old(self)@,
                cancel,
                input@,
            ),
    {
        match self.stage {
            Stage::Finished => UpdateTurn { events: no_events(), action: UpdateAction::Stop },
            Stage::Idle => match input {
                UpdateInput::Begin => self.on_begin(cancel),
                _ => self.misuse(),
            },
            Stage::Listing => match input {
                UpdateInput::Listing(listing) => self.on_listing(cancel, listing),
                _ => self.misuse(),
            },
            Stage::Downloading => match input {
                UpdateInput::Content(content) => self.on_content(cancel, content),
                _ => self.misuse(),
            },
            Stage::Opening => match input {
                UpdateInput::Opened(opened) => self.on_opened(cancel, opened),
                _ => self.misuse(),
            },
            Stage::Interrupting => match input {
                UpdateInput::Performed(done) => self.on_entered(cancel, done),
                _ => self.misuse(),
            },
            Stage::Negotiating => match input {
                UpdateInput::Performed(done) => self.on_entered(cancel, done),
                _ => self.misuse(),
            },
            Stage::Pushing => match input {
                UpdateInput::Performed(done) => self.on_pushed(cancel, done),
                _ => self.misuse(),
            },
            Stage::Resetting => match input {
                UpdateInput::Performed(_) => self.on_reset(),
                _ => self.misuse(),
            },
        }
    }
}

/// One turn as the driver supplies it: the cancellation flag, and what came
/// of the last action.
pub struct UpdateTick {
    pub cancel: bool,
    pub input: InputView,
}

/// The events that an update emits over the turns `ticks`, in order.
pub open spec fn update_events(m: UpdateModel, ticks: Seq<UpdateTick>) -> Seq<EventView>
    decreases ticks.len(),
{
    if ticks.len() == 0 {
        Seq::empty()
    } else {
        let turn = update_step(m, ticks[0].cancel, ticks[0].input);
        turn.1 + update_events(turn.0, ticks.drop_first())
    }
}

/// A turn ends the job exactly when it emits a terminal event, which is then
/// the last event of the turn, and exactly then the action is to stop.
pub proof fn lemma_turn_ends_with_terminal(m: UpdateModel, cancel: bool, input: InputView)
    requires
        m.stage != Stage::Finished,
    ensures
        ({
            let turn = update_step(m, cancel, input);
            &&& forall|i: int| 0 <= i < turn.1.len() - 1 ==> !(#[trigger] turn.1[i]).is_terminal()
            &&& turn.0.stage == Stage::Finished <==> turn.1.len() > 0
                && turn.1.last().is_terminal()
            &&& turn.0.stage == Stage::Finished <==> turn.2 is Stop
        }),
{
}

/// Whether a report says that the action failed.
pub open spec fn is_failure(input: InputView) -> bool {
    match input {
        InputView::Begin => false,
        InputView::Listing(r) => r is Err,
        InputView::Content(r) => r is Err,
        InputView::Opened(r) => r is Err,
        InputView::Performed(r) => r is Err,
    }
}

/// Nothing is retried and nothing is begun after a failure: whatever action
/// but the soft restart fails, the turn emits the failure as its only event,
/// the job is over, and the action is to stop. Cancellation does not turn a
/// failure into `Cancelled`.
pub proof fn lemma_failure_ends_the_job(m: UpdateModel, cancel: bool, input: InputView)
    requires
        m.stage != Stage::Finished,
        m.stage != Stage::Resetting,
        is_failure(input),
    ensures
        ({
            let turn = update_step(m, cancel, input);
            &&& turn.0.stage == Stage::Finished
            &&& turn.1.len() == 1
            &&& turn.1[0] is Failed
            &&& turn.2 is Stop
        }),
{
}

/// A job that is over emits nothing more.
pub proof fn lemma_update_at_rest(m: UpdateModel, ticks: Seq<UpdateTick>)
    requires
        m.stage == Stage::Finished,
    ensures
        update_events(m, ticks) == Seq::<EventView>::empty(),
    decreases ticks.len(),
{
    if ticks.len() > 0 {
        lemma_update_at_rest(m, ticks.drop_first());
    }
}

/// An update emits at most one terminal event, and nothing after it: a
/// terminal event is the last of its run.
pub proof fn lemma_update_terminal_is_last(m: UpdateModel, ticks: Seq<UpdateTick>, i: int)
    requires
        0 <= i < update_events(m, ticks).len(),
        update_events(m, ticks)[i].is_terminal(),
    ensures
        i == update_events(m, ticks).len() - 1,
    decreases ticks.len(),
{
    let turn = update_step(m, ticks[0].cancel, ticks[0].input);
    if m.stage == Stage::Finished {
        lemma_update_at_rest(m, ticks);
    } else {
        lemma_turn_ends_with_terminal(m, ticks[0].cancel, ticks[0].input);
        if i < turn.1.len() {
            lemma_update_at_rest(turn.0, ticks.drop_first());
        } else {
            lemma_update_terminal_is_last(turn.0, ticks.drop_first(), i - turn.1.len());
        }
    }
}

} // verus!
