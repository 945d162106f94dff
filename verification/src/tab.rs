//! The state behind the serial update view: the ports found, the one
//! selected, the status and progress of the update, and a bounded log.
//!
//! Keys and events come in as plain values; what needs the outside world, a
//! rescan of the ports or the start of an update, goes out as a request.

use vstd::prelude::*;
use vstd::string::StringExecFns;
use crate::event::{events_view, Event, EventView, SerialStatus, StatusView};
use crate::text::{decimal, decimal_text, texts};

verus! {

/// The log keeps this many lines, the most recent ones.
pub const LOG_LIMIT: usize = 100;

/// The log after `line` was added: the oldest line goes once the log is over
/// its limit.
pub open spec fn logged(logs: Seq<Seq<char>>, line: Seq<char>) -> Seq<Seq<char>> {
    if logs.len() + 1 > LOG_LIMIT {
        logs.push(line).drop_first()
    } else {
        logs.push(line)
    }
}

/// The index after `selected` among `len` items, the first after the last.
pub open spec fn next_index(selected: nat, len: nat) -> nat {
    if selected + 1 < len {
        selected + 1
    } else {
        0
    }
}

/// The index before `selected` among `len` items, the last before the first.
pub open spec fn previous_index(selected: nat, len: nat) -> nat {
    if len == 0 {
        0
    } else if selected == 0 || selected >= len {
        (len - 1) as nat
    } else {
        (selected - 1) as nat
    }
}

/// The index after `selected` among `len` items.
pub fn select_next(selected: usize, len: usize) -> (r: usize)
    ensures
        r == next_index(selected as nat, len as nat),
        len > 0 ==> r < len,
{
    if len > 0 && selected < len - 1 {
        selected + 1
    } else {
        0
    }
}

/// The index before `selected` among `len` items.
pub fn select_previous(selected: usize, len: usize) -> (r: usize)
    ensures
        r == previous_index(selected as nat, len as nat),
        len > 0 ==> r < len,
{
    if len == 0 {
        0
    } else if selected == 0 || selected >= len {
        len - 1
    } else {
        selected - 1
    }
}

/// Adds `line` to a bounded log.
pub fn push_log(logs: &mut Vec<String>, line: String)
    ensures
        texts(final(logs)@) == logged(texts(old(logs)@), line@),
{
    logs.push(line);
    if logs.len() > LOG_LIMIT {
        logs.remove(0);
    }
}

/// The status in words.
pub open spec fn status_text(status: StatusView) -> Seq<char> {
    match status {
        StatusView::Idle => "Idle"@,
        StatusView::Scanning => "Scanning..."@,
        StatusView::Downloading(name) => "Downloading: "@ + name,
        StatusView::Connecting => "Connecting to device..."@,
        StatusView::Uploading(name, written, total) => "Uploading "@ + name + ": "@
            + decimal_text(written as nat) + "/"@ + decimal_text(total as nat),
        StatusView::Done => "Update Complete!"@,
        StatusView::Error(message) => "Error: "@ + message,
    }
}

/// The status in words.
pub fn describe_status(status: &SerialStatus) -> (r: String)
    ensures
        r@ == status_text(status@),
{
    match status {
        SerialStatus::Idle => String::from_str("Idle"),
        SerialStatus::Scanning => String::from_str("Scanning..."),
        SerialStatus::Downloading(name) => {
            let mut text = String::from_str("Downloading: ");
            text.append(name.as_str());
            text
        },
        SerialStatus::Connecting => String::from_str("Connecting to device..."),
        SerialStatus::Uploading(name, written, total) => {
            let mut text = String::from_str("Uploading ");
            text.append(name.as_str());
            text.append(": ");
            text.append(decimal(*written).as_str());
            text.append("/");
            text.append(decimal(*total).as_str());
            text
        },
        SerialStatus::Done => String::from_str("Update Complete!"),
        SerialStatus::Error(message) => {
            let mut text = String::from_str("Error: ");
            text.append(message.as_str());
            text
        },
    }
}

/// A key, as far as the view tells keys apart.
#[derive(Debug, Clone, Copy, PartialEq, Eq, Structural)]
pub enum Key {
    Char(char),
    Up,
    Down,
    Other,
}

/// What a key asks of the outside world.
#[derive(Debug, Clone, PartialEq, Eq)]
pub enum TabRequest {
    Nothing,
    /// Look for serial ports again and hand them to
    /// [`SerialTab::scan_ports`].
    Rescan,
    /// Start an update on the port of this name.
    Start(String),
}

/// The mathematical value of a [`TabRequest`].
pub enum RequestView {
    Nothing,
    Rescan,
    Start(Seq<char>),
}

impl View for TabRequest {
    type V = RequestView;

    open spec fn view(&self) -> RequestView {
        match self {
            TabRequest::Nothing => RequestView::Nothing,
            TabRequest::Rescan => RequestView::Rescan,
            TabRequest::Start(port) => RequestView::Start(port@),
        }
    }
}

/// How far an update is: so much of the whole is done.
#[derive(Debug, Clone, Copy, PartialEq, Eq, Structural)]
pub struct Progress {
    pub done: u64,
    pub total: u64,
}

/// The state of the serial update view.
#[derive(Debug, Clone, PartialEq, Eq)]
pub struct SerialTab {
    pub ports: Vec<String>,
    pub selected_port: usize,
    pub status: SerialStatus,
    pub logs: Vec<String>,
    pub progress: Progress,
}

/// The mathematical value of a [`SerialTab`].
pub struct TabModel {
    pub ports: Seq<Seq<char>>,
    pub selected_port: nat,
    pub status: StatusView,
    pub logs: Seq<Seq<char>>,
    pub progress: Progress,
}

impl View for SerialTab {
    type V = TabModel;

    open spec fn view(&self) -> TabModel {
        TabModel {
            ports: texts(self.ports@),
            selected_port: self.selected_port as nat,
            status: self.status@,
            logs: texts(self.logs@),
            progress: self.progress,
        }
    }
}

impl TabModel {
    /// The view with `line` added to its log.
    pub open spec fn log(self, line: Seq<char>) -> TabModel {
        TabModel { logs: logged(self.logs, line), ..self }
    }

    /// The line that tells how many ports a scan found.
    pub open spec fn scan_text(count: nat) -> Seq<char> {
        if count == 0 {
            "No serial ports found"@
        } else {
            "Found "@ + decimal_text(count) + " serial ports"@
        }
    }

    /// The view after a scan found `found`: the ports are replaced, the
    /// count is logged, and the first port is selected.
    pub open spec fn scanned(self, found: Seq<Seq<char>>) -> TabModel {
        TabModel { ports: found, selected_port: 0, ..self }.log(Self::scan_text(found.len()))
    }

    /// Whether an update can be started: none is under way.
    pub open spec fn at_rest(self) -> bool {
        self.status is Idle || self.status is Done || self.status is Error
    }

    /// The view after `key`, and what the key asks for. `r` asks for a
    /// rescan; `j` and `k`, or down and up, move the selection, wrapping
    /// round; `u` starts an update on the selected port unless one is under
    /// way, and logs a line where there is no port to select.
    pub open spec fn keyed(self, key: Key) -> (TabModel, RequestView) {
        match key {
            Key::Char('r') => (self, RequestView::Rescan),
            Key::Char('j') | Key::Down => (
                if self.ports.len() > 0 {
                    TabModel {
                        selected_port: next_index(self.selected_port, self.ports.len()),
                        ..self
                    }
                } else {
                    self
                },
                RequestView::Nothing,
            ),
            Key::Char('k') | Key::Up => (
                if self.ports.len() > 0 {
                    TabModel {
                        selected_port: previous_index(self.selected_port, self.ports.len()),
                        ..self
                    }
                } else {
                    self
                },
                RequestView::Nothing,
            ),
            Key::Char('u') => if !self.at_rest() {
                (self, RequestView::Nothing)
            } else if self.selected_port < self.ports.len() {
                (
                    TabModel {
                        status: StatusView::Downloading("Starting..."@),
                        progress: Progress { done: 0, total: 0 },
                        ..self
                    },
                    RequestView::Start(self.ports[self.selected_port as int]),
                )
            } else {
                (self.log("No port selected"@), RequestView::Nothing)
            },
            _ => (self, RequestView::Nothing),
        }
    }

    /// The view after one event of the update: log lines are logged, status
    /// and progress are shown, and the terminal event settles the status.
    pub open spec fn shown(self, event: EventView) -> TabModel {
        match event {
            EventView::Log(line) => self.log(line),
            EventView::Status(status) => TabModel { status, ..self },
            EventView::Progress(done, total) => TabModel {
                progress: Progress { done, total },
                ..self
            },
            EventView::Done => TabModel { status: StatusView::Done, ..self },
            EventView::Failed(_, text) => TabModel { status: StatusView::Error(text), ..self },
            EventView::Cancelled => TabModel { status: StatusView::Idle, ..self }.log(
                "Update cancelled"@,
            ),
        }
    }

    /// The view after the events `events`, in order.
    pub open spec fn shown_all(self, events: Seq<EventView>) -> TabModel
        decreases events.len(),
    {
        if events.len() == 0 {
            self
        } else {
            self.shown(events[0]).shown_all(events.drop_first())
        }
    }
}

impl SerialTab {
    /// A view with no ports, an idle status and an empty log.
    pub fn new() -> (r: SerialTab)
        ensures
            r@ == (TabModel {
                ports: Seq::empty(),
                selected_port: 0,
                status: StatusView::Idle,
                logs: Seq::empty(),
                progress: Progress { done: 0, total: 0 },
            }),
    {
        let tab = SerialTab {
            ports: Vec::new(),
            selected_port: 0,
            status: SerialStatus::Idle,
            logs: Vec::new(),
            progress: Progress { done: 0, total: 0 },
        };
        assert(tab@.logs =~= Seq::<Seq<char>>::empty());
        tab
    }

    /// Takes the ports that the first scan found.
    pub fn init(&mut self, found: Vec<String>)
        ensures
            final(self)@ == old(self)@.scanned(texts(found@)),
    {
        self.scan_ports(found);
    }

    /// Takes the ports that a scan found.
    pub fn scan_ports(&mut self, found: Vec<String>)
        ensures
            final(self)@ == old(self)@.scanned(texts(found@)),
    {
        let count = found.len();
        self.ports = found;
        self.selected_port = 0;
        if count == 0 {
            self.log(String::from_str("No serial ports found"));
        } else {
            let mut line = String::from_str("Found ");
            line.append(decimal(count as u64).as_str());
            line.append(" serial ports");
            self.log(line);
        }
    }

    /// Adds a line to the log.
    pub fn log(&mut self, msg: String)
        ensures
            final(self)@ == old(self)@.log(msg@),
    {
        push_log(&mut self.logs, msg);
    }

    /// Takes the events that the update has emitted since the last call.
    pub fn update(&mut self, events: Vec<Event>)
        ensures
            final(self)@ == old(self)@.shown_all(events_view(events@)),
    {
        let ghost all = events_view(events@);
        proof {
            assert(all.skip(0) =~= all);
        }
        for event in it: events
            invariant
                events_view(it.seq()) == all,
                self@.shown_all(all.skip(it.index() as int)) == old(self)@.shown_all(all),
        {
            proof {
                let left = all.skip(it.index() as int);
                assert(left.drop_first() =~= all.skip(it.index() + 1));
            }
            match event {
                Event::Log(line) => self.log(line),
                Event::Status(status) => {
                    self.status = status;
                },
                Event::Progress(done, total) => {
                    self.progress = Progress { done, total };
                },
                Event::Done => {
                    self.status = SerialStatus::Done;
                },
                Event::Failed(error) => {
                    self.status = SerialStatus::Error(error.message);
                },
                Event::Cancelled => {
                    self.status = SerialStatus::Idle;
                    self.log(String::from_str("Update cancelled"));
                },
            }
        }
    }

    /// Whether an update can be started.
    pub fn at_rest(&self) -> (r: bool)
        ensures
            r == self@.at_rest(),
    {
        match self.status {
            SerialStatus::Idle => true,
            SerialStatus::Done => true,
            SerialStatus::Error(_) => true,
            _ => false,
        }
    }

    /// Takes a key and says what it asks of the outside world.
    pub fn handle_input(&mut self, key: Key) -> (r: TabRequest)
        ensures
            (final(self)@, r@) == old(self)@.keyed(key),
    {
        match key {
            Key::Char('r') => TabRequest::Rescan,
            Key::Char('j') | Key::Down => {
                if self.ports.len() > 0 {
                    self.selected_port = select_next(self.selected_port, self.ports.len());
                }
                TabRequest::Nothing
            },
            Key::Char('k') | Key::Up => {
                if self.ports.len() > 0 {
                    self.selected_port = select_previous(self.selected_port, self.ports.len());
                }
                TabRequest::Nothing
            },
            Key::Char('u') => {
                if !self.at_rest() {
                    TabRequest::Nothing
                } else if self.selected_port < self.ports.len() {
                    let port = self.ports[self.selected_port].clone();
                    self.status = SerialStatus::Downloading(String::from_str("Starting..."));
                    self.progress = Progress { done: 0, total: 0 };
                    TabRequest::Start(port)
                } else {
                    self.log(String::from_str("No port selected"));
                    TabRequest::Nothing
                }
            },
            _ => TabRequest::Nothing,
        }
    }
}

} // verus!
