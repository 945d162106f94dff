//! A transfer job as its caller sees it: started, cancelled on request, and
//! followed through the events it emits up to its one terminal event.

use vstd::prelude::*;
use crate::event::{Event, EventView};

verus! {

/// Which transfer a job performs.
#[derive(Debug, Clone, Copy, PartialEq, Eq, Structural)]
pub enum JobKind {
    /// Copying an image to a mounted bootloader volume.
    Copy,
    /// Pushing a file tree over the serial console.
    Serial,
}

/// Where a job stands.
#[derive(Debug, Clone, PartialEq, Eq)]
pub enum JobState {
    Idle,
    Running,
    Success,
    /// Failed, with the message of the failure.
    Failed(String),
    Cancelled,
}

/// The mathematical value of a [`JobState`].
pub enum JobStateView {
    Idle,
    Running,
    Success,
    Failed(Seq<char>),
    Cancelled,
}

impl View for JobState {
    type V = JobStateView;

    open spec fn view(&self) -> JobStateView {
        match self {
            JobState::Idle => JobStateView::Idle,
            JobState::Running => JobStateView::Running,
            JobState::Success => JobStateView::Success,
            JobState::Failed(m) => JobStateView::Failed(m@),
            JobState::Cancelled => JobStateView::Cancelled,
        }
    }
}

/// The mathematical value of a [`TransferJob`].
pub struct JobModel {
    pub kind: JobKind,
    pub state: JobStateView,
    /// Whether the caller has asked the running job to stop.
    pub cancel_requested: bool,
    pub written: u64,
    pub total: u64,
}

impl JobModel {
    /// Progress never passes the total.
    pub open spec fn wf(self) -> bool {
        self.written <= self.total
    }

    /// The job after it was asked to start: it runs, from nothing, unless it
    /// was running already.
    pub open spec fn started(self) -> JobModel {
        if self.state is Running {
            self
        } else {
            JobModel {
                state: JobStateView::Running,
                cancel_requested: false,
                written: 0,
                total: 0,
                ..self
            }
        }
    }

    /// The job after its caller asked it to stop. Only a running job takes
    /// note.
    pub open spec fn cancel_asked(self) -> JobModel {
        if self.state is Running {
            JobModel { cancel_requested: true, ..self }
        } else {
            self
        }
    }

    /// The job after `event` was taken from its event stream. Only a running
    /// job has events; progress that passes its own total is not taken.
    pub open spec fn observed(self, event: EventView) -> JobModel {
        if !(self.state is Running) {
            self
        } else {
            match event {
                EventView::Progress(written, total) => if written <= total {
                    JobModel { written, total, ..self }
                } else {
                    self
                },
                EventView::Done => JobModel { state: JobStateView::Success, ..self },
                EventView::Failed(_, text) => JobModel {
                    state: JobStateView::Failed(text),
                    ..self
                },
                EventView::Cancelled => JobModel { state: JobStateView::Cancelled, ..self },
                _ => self,
            }
        }
    }
}

/// One transfer job of one target device.
pub struct TransferJob {
    kind: JobKind,
    state: JobState,
    cancel_requested: bool,
    written: u64,
    total: u64,
}

impl View for TransferJob {
    type V = JobModel;

    closed spec fn view(&self) -> JobModel {
        JobModel {
            kind: self.kind,
            state: self.state@,
            cancel_requested: self.cancel_requested,
            written: self.written,
            total: self.total,
        }
    }
}

impl TransferJob {
    #[verifier::type_invariant]
    spec fn inv(self) -> bool {
        self.written <= self.total
    }

    /// An idle job of the given kind.
    pub fn new(kind: JobKind) -> (r: TransferJob)
        ensures
            r@ == (JobModel {
                kind,
                state: JobStateView::Idle,
                cancel_requested: false,
                written: 0,
                total: 0,
            }),
    {
        TransferJob { kind, state: JobState::Idle, cancel_requested: false, written: 0, total: 0 }
    }

    /// Whether the job is running.
    pub fn is_running(&self) -> (r: bool)
        ensures
            r == (self@.state is Running),
    {
        match self.state {
            JobState::Running => true,
            _ => false,
        }
    }

    /// Where the job stands.
    pub fn state(&self) -> (r: &JobState)
        ensures
            r@ == self@.state,
    {
        &self.state
    }

    /// Whether the job was asked to stop.
    pub fn cancel_requested(&self) -> (r: bool)
        ensures
            r == self@.cancel_requested,
    {
        self.cancel_requested
    }

    /// Written and total, with written never above total.
    pub fn progress(&self) -> (r: (u64, u64))
        ensures
            r == (self@.written, self@.total),
            self@.wf(),
    {
        proof {
            use_type_invariant(self);
        }
        (self.written, self.total)
    }

    /// Starts the job. A device has one job at a time: while the job runs it
    /// is not started again, and `false` is returned.
    pub fn start(&mut self) -> (r: bool)
        ensures
            r == !(old(self)@.state is Running),
            final(self)@ == old(self)@.started(),
    {
        proof {
            use_type_invariant(&*self);
        }
        if self.is_running() {
            false
        } else {
            self.written = 0;
            self.total = 0;
            self.cancel_requested = false;
            self.state = JobState::Running;
            true
        }
    }

    /// Asks the job to stop. Asking again changes nothing, and neither does
    /// asking a job that does not run.
    pub fn request_cancel(&mut self)
        ensures
            final(self)@ == old(self)@.cancel_asked(),
    {
        proof {
            use_type_invariant(&*self);
        }
        if self.is_running() {
            self.cancel_requested = true;
        }
    }

    /// Takes one event of the job's event stream.
    pub fn observe(&mut self, event: Event)
        ensures
            final(self)@ == old(self)@.observed(event@),
    {
        proof {
            use_type_invariant(&*self);
        }
        if !self.is_running() {
            return ;
        }
        match event {
            Event::Progress(written, total) => {
                if written <= total {
                    self.written = 0;
                    self.total = total;
                    self.written = written;
                }
            },
            Event::Done => {
                self.state = JobState::Success;
            },
            Event::Failed(error) => {
                self.state = JobState::Failed(error.message);
            },
            Event::Cancelled => {
                self.state = JobState::Cancelled;
            },
            _ => {},
        }
    }
}

/// Asking twice to stop is asking once.
pub proof fn lemma_cancel_request_is_idempotent(m: JobModel)
    ensures
        m.cancel_asked().cancel_asked() == m.cancel_asked(),
{
}

/// Once a terminal event was taken the job no longer runs, and no further
/// event changes it.
pub proof fn lemma_terminal_event_settles(m: JobModel, terminal: EventView, later: EventView)
    requires
        terminal.is_terminal(),
    ensures
        !(m.observed(terminal).state is Running),
        m.observed(terminal).observed(later) == m.observed(terminal),
        m.observed(terminal).cancel_asked() == m.observed(terminal),
{
}

} // verus!
