//! What a job tells its caller: progress, log lines, status changes, and
//! exactly one terminal event.

use vstd::prelude::*;

verus! {

/// The kinds of failure. Every one of them ends the job that raised it;
/// nothing is retried.
#[derive(Debug, Clone, Copy, PartialEq, Eq, Structural)]
pub enum ErrorKind {
    /// Bad source or destination, found before any work began.
    Validation,
    /// A local or device file operation failed.
    Io,
    /// The device did not respond within the bound. The session is unusable.
    ProtocolTimeout,
    /// The device responded without the success marker. Part of a file may
    /// already be written: running the same command again blindly is unsafe.
    ProtocolFraming,
    /// The manifest or a file's content could not be downloaded.
    Network,
}

/// A failure with its kind and a message for people.
#[derive(Debug, Clone, PartialEq, Eq)]
pub struct JobError {
    pub kind: ErrorKind,
    pub message: String,
}

/// What the serial update is doing.
#[derive(Debug, Clone, PartialEq, Eq)]
pub enum SerialStatus {
    Idle,
    Scanning,
    /// Downloading the named file.
    Downloading(String),
    Connecting,
    /// Uploading the named file: bytes written, bytes in all.
    Uploading(String, u64, u64),
    Done,
    Error(String),
}

/// The mathematical value of a [`SerialStatus`].
pub enum StatusView {
    Idle,
    Scanning,
    Downloading(Seq<char>),
    Connecting,
    Uploading(Seq<char>, u64, u64),
    Done,
    Error(Seq<char>),
}

impl View for SerialStatus {
    type V = StatusView;

    open spec fn view(&self) -> StatusView {
        match self {
            SerialStatus::Idle => StatusView::Idle,
            SerialStatus::Scanning => StatusView::Scanning,
            SerialStatus::Downloading(name) => StatusView::Downloading(name@),
            SerialStatus::Connecting => StatusView::Connecting,
            SerialStatus::Uploading(name, written, total) => StatusView::Uploading(
                name@,
                *written,
                *total,
            ),
            SerialStatus::Done => StatusView::Done,
            SerialStatus::Error(message) => StatusView::Error(message@),
        }
    }
}

/// One event of a job. `Done`, `Failed` and `Cancelled` are terminal: a job
/// emits exactly one of them, and nothing after it.
#[derive(Debug, Clone, PartialEq, Eq)]
pub enum Event {
    /// So much of the whole is done.
    Progress(u64, u64),
    Log(String),
    Status(SerialStatus),
    Done,
    Failed(JobError),
    /// The job stopped because its caller asked it to. Never a failure.
    Cancelled,
}

/// The mathematical value of an [`Event`].
pub enum EventView {
    Progress(u64, u64),
    Log(Seq<char>),
    Status(StatusView),
    Done,
    Failed(ErrorKind, Seq<char>),
    Cancelled,
}

impl View for Event {
    type V = EventView;

    open spec fn view(&self) -> EventView {
        match self {
            Event::Progress(done, total) => EventView::Progress(*done, *total),
            Event::Log(line) => EventView::Log(line@),
            Event::Status(status) => EventView::Status(status@),
            Event::Done => EventView::Done,
            Event::Failed(error) => EventView::Failed(error.kind, error.message@),
            Event::Cancelled => EventView::Cancelled,
        }
    }
}

impl EventView {
    /// Whether the event ends its job.
    pub open spec fn is_terminal(self) -> bool {
        self is Done || self is Failed || self is Cancelled
    }
}

impl Event {
    /// Whether the event ends its job.
    pub fn is_terminal(&self) -> (r: bool)
        ensures
            r == self@.is_terminal(),
    {
        match self {
            Event::Done => true,
            Event::Failed(_) => true,
            Event::Cancelled => true,
            _ => false,
        }
    }
}

/// The mathematical value of a list of events.
pub open spec fn events_view(events: Seq<Event>) -> Seq<EventView> {
    events.map_values(|e: Event| e@)
}

/// A failure of kind `kind` with the message `message`.
pub fn failure(kind: ErrorKind, message: String) -> (r: Event)
    ensures
        r@ == EventView::Failed(kind, message@),
{
    Event::Failed(JobError { kind, message })
}

} // verus!
