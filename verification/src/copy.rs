//! Copying a firmware image to a mounted bootloader volume in chunks, with
//! progress after every chunk and cancellation before every chunk.
//!
//! The engine moves no bytes. It tells its driver what to do next, and the
//! driver reports what came of it, together with the cancellation flag as it
//! stands at that moment.

use vstd::prelude::*;
use vstd::string::StringExecFns;
use crate::event::{failure, ErrorKind, Event, EventView, JobError};

verus! {

/// The image is copied in chunks of this many bytes.
pub const COPY_CHUNK: usize = 8192;

/// What was found out about the source of a copy before it starts.
#[derive(Debug, Clone, PartialEq, Eq)]
pub struct SourceProbe {
    /// The path as it is shown to people.
    pub shown: String,
    pub exists: bool,
    pub is_file: bool,
    /// The last component of the path, where it has one.
    pub file_name: Option<String>,
}

/// The message for a source that is missing or no regular file.
pub open spec fn missing_text(shown: Seq<char>) -> Seq<char> {
    "Source file doesn't exist: "@ + shown
}

/// The message for a source whose path has no file name.
pub open spec fn unnamed_text() -> Seq<char> {
    "Invalid source filename"@
}

/// Checks the source of a copy before any work begins, and gives the name
/// under which the image is written at the root of the target volume. The
/// source must exist, be a regular file, and have a file name, in this order;
/// otherwise the copy is refused, with a validation error.
pub fn validate_source(probe: SourceProbe) -> (r: Result<String, JobError>)
    ensures
        match r {
            Ok(name) => probe.exists && probe.is_file && probe.file_name == Some(name),
            Err(error) => error.kind == ErrorKind::Validation && if !probe.exists
                || !probe.is_file {
                error.message@ == missing_text(probe.shown@)
            } else {
                probe.file_name is None && error.message@ == unnamed_text()
            },
        },
{
    if !probe.exists || !probe.is_file {
        let mut message = String::from_str("Source file doesn't exist: ");
        message.append(probe.shown.as_str());
        return Err(JobError { kind: ErrorKind::Validation, message });
    }
    match probe.file_name {
        Some(name) => Ok(name),
        None => Err(
            JobError {
                kind: ErrorKind::Validation,
                message: String::from_str("Invalid source filename"),
            },
        ),
    }
}

/// Where a copy stands.
#[derive(Debug, Clone, Copy, PartialEq, Eq, Structural)]
pub enum CopyPhase {
    /// Not started.
    Idle,
    /// A chunk transfer is out.
    Copying,
    /// The end of the input was reached and the flush is out.
    Flushing,
    /// Cancellation was seen and the removal of the partial file is out.
    Discarding,
    /// The terminal event was emitted.
    Finished,
}

/// What the driver is to do next.
#[derive(Debug, Clone, Copy, PartialEq, Eq, Structural)]
pub enum CopyAction {
    /// Read up to this many bytes from the source and write all of them to
    /// the destination.
    Transfer(usize),
    /// Flush the destination durably.
    Flush,
    /// Remove the destination file; a failure to do so is not an error.
    Discard,
    /// Nothing more: the job is over.
    Stop,
}

/// What came of the last action.
#[derive(Debug, Clone, PartialEq, Eq)]
pub enum CopyReport {
    /// It was done. After a transfer the number is that of the bytes copied,
    /// zero at the end of the input; otherwise it means nothing.
    Completed(usize),
    /// It failed; the message is the driver's.
    Failed(String),
}

/// The mathematical value of a [`CopyReport`].
pub enum ReportView {
    Completed(usize),
    Failed(Seq<char>),
}

impl View for CopyReport {
    type V = ReportView;

    open spec fn view(&self) -> ReportView {
        match self {
            CopyReport::Completed(n) => ReportView::Completed(*n),
            CopyReport::Failed(m) => ReportView::Failed(m@),
        }
    }
}

/// The mathematical value of a [`CopyEngine`].
pub struct CopyModel {
    pub total: u64,
    pub chunk: usize,
    pub written: u64,
    pub phase: CopyPhase,
}

impl CopyModel {
    /// Never more is written than the source was said to hold, and chunks
    /// are not empty.
    pub open spec fn wf(self) -> bool {
        self.written <= self.total && self.chunk > 0
    }

    /// The same copy in another phase.
    pub open spec fn at(self, phase: CopyPhase) -> CopyModel {
        CopyModel { phase, ..self }
    }
}

/// The event of an optional event.
pub open spec fn event_view(event: Option<Event>) -> Option<EventView> {
    match event {
        Some(e) => Some(e@),
        None => None,
    }
}

/// The message of the failure of a source that delivers more bytes than it
/// was said to hold.
pub open spec fn overrun_text() -> Seq<char> {
    "source holds more than its reported length"@
}

/// The first turn: cancellation is looked for before the first chunk.
pub open spec fn copy_start(m: CopyModel, cancel: bool) -> (CopyModel, CopyAction) {
    if m.phase != CopyPhase::Idle {
        (m, CopyAction::Stop)
    } else if cancel {
        (m.at(CopyPhase::Discarding), CopyAction::Discard)
    } else {
        (m.at(CopyPhase::Copying), CopyAction::Transfer(m.chunk))
    }
}

/// One turn of the copy: the state after `report`, the event to emit, and
/// the next action.
///
/// A chunk that was copied is counted and reported as progress, and
/// cancellation is looked for before the next chunk is asked for. The end of
/// the input leads to the flush, and only the flush to `Done`. Once
/// cancellation was seen the partial file is removed and `Cancelled` follows,
/// whatever came of the removal. Any failure ends the job with an I/O error,
/// and so does a source that delivers more than it was said to hold.
pub open spec fn copy_step(m: CopyModel, cancel: bool, report: ReportView) -> (
    CopyModel,
    Option<EventView>,
    CopyAction,
) {
    let over = m.at(CopyPhase::Finished);
    match m.phase {
        CopyPhase::Copying => match report {
            ReportView::Failed(text) => (
                over,
                Some(EventView::Failed(ErrorKind::Io, text)),
                CopyAction::Stop,
            ),
            ReportView::Completed(n) => if n == 0 {
                (m.at(CopyPhase::Flushing), None, CopyAction::Flush)
            } else if n > m.total - m.written {
                (over, Some(EventView::Failed(ErrorKind::Io, overrun_text())), CopyAction::Stop)
            } else {
                let written = (m.written + n) as u64;
                let progress = Some(EventView::Progress(written, m.total));
                if cancel {
                    (
                        CopyModel { written, phase: CopyPhase::Discarding, ..m },
                        progress,
                        CopyAction::Discard,
                    )
                } else {
                    (CopyModel { written, ..m }, progress, CopyAction::Transfer(m.chunk))
                }
            },
        },
        CopyPhase::Flushing => match report {
            ReportView::Failed(text) => (
                over,
                Some(EventView::Failed(ErrorKind::Io, text)),
                CopyAction::Stop,
            ),
            ReportView::Completed(_) => (over, Some(EventView::Done), CopyAction::Stop),
        },
        CopyPhase::Discarding => (over, Some(EventView::Cancelled), CopyAction::Stop),
        _ => (m, None, CopyAction::Stop),
    }
}

/// What one turn gives: an event to emit, if any, and then the next action.
#[derive(Debug, Clone, PartialEq, Eq)]
pub struct CopyTurn {
    pub event: Option<Event>,
    pub action: CopyAction,
}

/// The state of one copy.
pub struct CopyEngine {
    total: u64,
    chunk: usize,
    written: u64,
    phase: CopyPhase,
}

impl View for CopyEngine {
    type V = CopyModel;

    closed spec fn view(&self) -> CopyModel {
        CopyModel {
            total: self.total,
            chunk: self.chunk,
            written: self.written,
            phase: self.phase,
        }
    }
}

impl CopyEngine {
    #[verifier::type_invariant]
    spec fn inv(self) -> bool {
        self.written <= self.total && self.chunk > 0
    }

    /// A copy of `total` bytes in chunks of `chunk` bytes, not started.
    pub fn new(total: u64, chunk: usize) -> (r: CopyEngine)
        requires
            chunk > 0,
        ensures
            r@ == (CopyModel { total, chunk, written: 0, phase: CopyPhase::Idle }),
    {
        CopyEngine { total, chunk, written: 0, phase: CopyPhase::Idle }
    }

    /// Bytes written so far; never more than [`CopyEngine::total`].
    pub fn written(&self) -> (r: u64)
        ensures
            r == self@.written,
            self@.wf(),
    {
        proof {
            use_type_invariant(self);
        }
        self.written
    }

    /// Bytes that the source was said to hold.
    pub fn total(&self) -> (r: u64)
        ensures
            r == self@.total,
    {
        self.total
    }

    /// Where the copy stands.
    pub fn phase(&self) -> (r: CopyPhase)
        ensures
            r == self@.phase,
    {
        self.phase
    }

    /// Starts the copy, once source and destination are open. `cancel` is
    /// the cancellation flag as it stands.
    pub fn start(&mut self, cancel: bool) -> (r: CopyAction)
        ensures
            (final(self)@, r) == copy_start(old(self)@, cancel),
    {
        proof {
            use_type_invariant(&*self);
        }
        if self.phase != CopyPhase::Idle {
            CopyAction::Stop
        } else if cancel {
            self.phase = CopyPhase::Discarding;
            CopyAction::Discard
        } else {
            self.phase = CopyPhase::Copying;
            CopyAction::Transfer(self.chunk)
        }
    }

    fn finish(&mut self, event: Event) -> (r: CopyTurn)
        ensures
            final(self)@ == old(self)@.at(CopyPhase::Finished),
            r.event == Some(event),
            r.action == CopyAction::Stop,
    {
        proof {
            use_type_invariant(&*self);
        }
        self.phase = CopyPhase::Finished;
        CopyTurn { event: Some(event), action: CopyAction::Stop }
    }

    /// Takes the report on the last action, with the cancellation flag as it
    /// stands, and gives the event to emit and the next action.
    pub fn advance(&mut self, cancel: bool, report: CopyReport) -> (r: CopyTurn)
        ensures
            (final(self)@, event_view(r.event), r.action) == copy_step(
                old(self)@,
                cancel,
                report@,
            ),
    {
        proof {
            use_type_invariant(&*self);
        }
        match self.phase {
            CopyPhase::Copying => match report {
                CopyReport::Failed(message) => self.finish(failure(ErrorKind::Io, message)),
                CopyReport::Completed(n) => {
                    if n == 0 {
                        self.phase = CopyPhase::Flushing;
                        CopyTurn { event: None, action: CopyAction::Flush }
                    } else if n as u64 > self.total - self.written {
                        let message = String::from_str(
                            "source holds more than its reported length",
                        );
                        self.finish(failure(ErrorKind::Io, message))
                    } else {
                        self.written = self.written + n as u64;
                        let progress = Some(Event::Progress(self.written, self.total));
                        if cancel {
                            self.phase = CopyPhase::Discarding;
                            CopyTurn { event: progress, action: CopyAction::Discard }
                        } else {
                            CopyTurn { event: progress, action: CopyAction::Transfer(self.chunk) }
                        }
                    }
                },
            },
            CopyPhase::Flushing => match report {
                CopyReport::Failed(message) => self.finish(failure(ErrorKind::Io, message)),
                CopyReport::Completed(_) => self.finish(Event::Done),
            },
            CopyPhase::Discarding => self.finish(Event::Cancelled),
            _ => CopyTurn { event: None, action: CopyAction::Stop },
        }
    }
}

/// One turn as the driver supplies it: the cancellation flag, and the report
/// on the last action.
pub struct CopyInput {
    pub cancel: bool,
    pub report: ReportView,
}

/// The events of an optional event.
pub open spec fn emitted(event: Option<EventView>) -> Seq<EventView> {
    match event {
        Some(e) => seq![e],
        None => Seq::empty(),
    }
}

/// The state of a copy after the turns `inputs`.
pub open spec fn copy_after(m: CopyModel, inputs: Seq<CopyInput>) -> CopyModel
    decreases inputs.len(),
{
    if inputs.len() == 0 {
        m
    } else {
        copy_after(copy_step(m, inputs[0].cancel, inputs[0].report).0, inputs.drop_first())
    }
}

/// The events that a copy emits over the turns `inputs`, in order.
pub open spec fn copy_events(m: CopyModel, inputs: Seq<CopyInput>) -> Seq<EventView>
    decreases inputs.len(),
{
    if inputs.len() == 0 {
        Seq::empty()
    } else {
        let turn = copy_step(m, inputs[0].cancel, inputs[0].report);
        emitted(turn.1) + copy_events(turn.0, inputs.drop_first())
    }
}

/// Turns can be taken in two runs, one after the other.
pub proof fn lemma_copy_split(m: CopyModel, a: Seq<CopyInput>, b: Seq<CopyInput>)
    ensures
        copy_after(m, a + b) == copy_after(copy_after(m, a), b),
        copy_events(m, a + b) == copy_events(m, a) + copy_events(copy_after(m, a), b),
    decreases a.len(),
{
    if a.len() > 0 {
        let turn = copy_step(m, a[0].cancel, a[0].report);
        assert((a + b).drop_first() =~= a.drop_first() + b);
        lemma_copy_split(turn.0, a.drop_first(), b);
    }
}

/// A copy that is over, or was never started, emits nothing and stays as it
/// is.
pub proof fn lemma_copy_at_rest(m: CopyModel, inputs: Seq<CopyInput>)
    requires
        m.phase == CopyPhase::Finished || m.phase == CopyPhase::Idle,
    ensures
        copy_events(m, inputs) == Seq::<EventView>::empty(),
        copy_after(m, inputs) == m,
    decreases inputs.len(),
{
    if inputs.len() > 0 {
        lemma_copy_at_rest(m, inputs.drop_first());
    }
}

/// A turn of a copy under way ends it exactly when it emits a terminal event,
/// and exactly then the action is to stop.
pub proof fn lemma_copy_stops_with_terminal(m: CopyModel, cancel: bool, report: ReportView)
    requires
        m.phase != CopyPhase::Idle,
        m.phase != CopyPhase::Finished,
    ensures
        ({
            let turn = copy_step(m, cancel, report);
            &&& turn.0.phase == CopyPhase::Finished <==> turn.1 is Some && turn.1->0.is_terminal()
            &&& turn.0.phase == CopyPhase::Finished <==> turn.2 == CopyAction::Stop
        }),
{
}

/// A copy emits at most one terminal event, and nothing after it: a terminal
/// event is the last of its run.
pub proof fn lemma_terminal_event_is_last(m: CopyModel, inputs: Seq<CopyInput>, i: int)
    requires
        0 <= i < copy_events(m, inputs).len(),
        copy_events(m, inputs)[i].is_terminal(),
    ensures
        i == copy_events(m, inputs).len() - 1,
    decreases inputs.len(),
{
    let turn = copy_step(m, inputs[0].cancel, inputs[0].report);
    let head = emitted(turn.1);
    if i < head.len() {
        lemma_copy_at_rest(turn.0, inputs.drop_first());
    } else {
        lemma_terminal_event_is_last(turn.0, inputs.drop_first(), i - head.len());
    }
}

/// Progress only grows and never passes the total: every progress event of
/// a run carries the copy's total and a count above the count at which the
/// run began and not above the total, and later events carry larger counts.
/// Total and chunk size stay as they are.
pub proof fn lemma_progress_increases(m: CopyModel, inputs: Seq<CopyInput>)
    requires
        m.wf(),
    ensures
        copy_after(m, inputs).wf(),
        copy_after(m, inputs).total == m.total,
        copy_after(m, inputs).chunk == m.chunk,
        forall|i: int|
            #![trigger copy_events(m, inputs)[i]]
            0 <= i < copy_events(m, inputs).len() && copy_events(m, inputs)[i] is Progress ==> {
                &&& copy_events(m, inputs)[i]->Progress_1 == m.total
                &&& m.written < copy_events(m, inputs)[i]->Progress_0 <= m.total
            },
        forall|i: int, j: int|
            #![trigger copy_events(m, inputs)[i], copy_events(m, inputs)[j]]
            0 <= i < j < copy_events(m, inputs).len() && copy_events(m, inputs)[i] is Progress
                && copy_events(m, inputs)[j] is Progress ==> copy_events(
                m,
                inputs,
            )[i]->Progress_0 < copy_events(m, inputs)[j]->Progress_0,
    decreases inputs.len(),
{
    if inputs.len() > 0 {
        let turn = copy_step(m, inputs[0].cancel, inputs[0].report);
        lemma_progress_increases(turn.0, inputs.drop_first());
    }
}

/// The sum of the first `k` of `sizes`.
pub open spec fn sum_to(sizes: Seq<usize>, k: int) -> int
    decreases k,
{
    if k <= 0 {
        0
    } else {
        sum_to(sizes, k - 1) + sizes[k - 1]
    }
}

/// The turns of a copy that nobody cancels and in which nothing fails: one
/// report for each chunk of the given sizes, the report of the end of the
/// input, and the report of the flush.
pub open spec fn plain_turns(sizes: Seq<usize>) -> Seq<CopyInput> {
    Seq::new(
        sizes.len() + 2,
        |i: int|
            CopyInput {
                cancel: false,
                report: ReportView::Completed(
                    if i < sizes.len() {
                        sizes[i]
                    } else {
                        0
                    },
                ),
            },
    )
}

/// The events of a whole copy: progress with the running sum after each
/// chunk, then `Done`.
pub open spec fn plain_events(total: u64, sizes: Seq<usize>, from: int) -> Seq<EventView> {
    Seq::new(
        (sizes.len() - from + 1) as nat,
        |i: int|
            if from + i < sizes.len() {
                EventView::Progress(sum_to(sizes, from + i + 1) as u64, total)
            } else {
                EventView::Done
            },
    )
}

proof fn lemma_sums_grow(sizes: Seq<usize>, a: int, b: int)
    requires
        0 <= a <= b <= sizes.len(),
    ensures
        sum_to(sizes, a) <= sum_to(sizes, b),
    decreases b - a,
{
    if a < b {
        lemma_sums_grow(sizes, a, b - 1);
    }
}

proof fn lemma_whole_copy_from(total: u64, chunk: usize, sizes: Seq<usize>, from: int)
    requires
        chunk > 0,
        0 <= from <= sizes.len(),
        forall|i: int| 0 <= i < sizes.len() ==> sizes[i] > 0,
        sum_to(sizes, sizes.len() as int) == total,
    ensures
        copy_events(
            CopyModel {
                total,
                chunk,
                written: sum_to(sizes, from) as u64,
                phase: CopyPhase::Copying,
            },
            plain_turns(sizes).skip(from),
        ) == plain_events(total, sizes, from),
    decreases sizes.len() - from,
{
    let m = CopyModel {
        total,
        chunk,
        written: sum_to(sizes, from) as u64,
        phase: CopyPhase::Copying,
    };
    let turns = plain_turns(sizes).skip(from);
    lemma_sums_grow(sizes, 0, from);
    lemma_sums_grow(sizes, from, sizes.len() as int);
    let turn = copy_step(m, turns[0].cancel, turns[0].report);
    if from < sizes.len() {
        lemma_sums_grow(sizes, from + 1, sizes.len() as int);
        assert(turns.drop_first() =~= plain_turns(sizes).skip(from + 1));
        lemma_whole_copy_from(total, chunk, sizes, from + 1);
        let next = plain_events(total, sizes, from + 1);
        assert forall|i: int| 0 <= i < next.len() implies next[i] == plain_events(
            total,
            sizes,
            from,
        )[i + 1] by {}
    } else {
        let last = turns.drop_first();
        let end = copy_step(turn.0, last[0].cancel, last[0].report);
        assert(copy_events(end.0, last.drop_first()) =~= Seq::<EventView>::empty());
        assert(copy_events(turn.0, last) =~= seq![EventView::Done]);
    }
}

/// A copy that nobody cancels, in which nothing fails, and whose source
/// delivers the length it was said to hold, in chunks of whatever sizes,
/// emits one progress event for each chunk, carrying the running sum of the
/// sizes, and then `Done`. The counts grow from chunk to chunk, and the last
/// of them is the total.
pub proof fn lemma_whole_copy(total: u64, chunk: usize, sizes: Seq<usize>)
    requires
        chunk > 0,
        forall|i: int| 0 <= i < sizes.len() ==> sizes[i] > 0,
        sum_to(sizes, sizes.len() as int) == total,
    ensures
        copy_events(
            CopyModel { total, chunk, written: 0, phase: CopyPhase::Copying },
            plain_turns(sizes),
        ) == plain_events(total, sizes, 0),
        plain_events(total, sizes, 0).len() == sizes.len() + 1,
        plain_events(total, sizes, 0).last() == EventView::Done,
        sizes.len() > 0 ==> plain_events(total, sizes, 0)[sizes.len() - 1] == EventView::Progress(
            total,
            total,
        ),
        forall|i: int, j: int|
            0 <= i < j < sizes.len() ==> (#[trigger] plain_events(
                total,
                sizes,
                0,
            )[i])->Progress_0 < (#[trigger] plain_events(total, sizes, 0)[j])->Progress_0,
{
    assert(plain_turns(sizes).skip(0) =~= plain_turns(sizes));
    lemma_whole_copy_from(total, chunk, sizes, 0);
    let events = plain_events(total, sizes, 0);
    assert forall|i: int, j: int| 0 <= i < j < sizes.len() implies (#[trigger] events[i])->Progress_0
        < (#[trigger] events[j])->Progress_0 by {
        lemma_sums_grow(sizes, 0, i + 1);
        lemma_sums_grow(sizes, i + 1, j);
        lemma_sums_grow(sizes, j + 1, sizes.len() as int);
    }
}

/// Cancellation seen before a chunk ends the copy with `Cancelled`, after
/// the removal of the partial destination file was asked for: when the flag
/// is up as a copied chunk is reported, the next action is the removal, the
/// event after it is `Cancelled` whatever came of the removal, and the run
/// holds neither `Done` nor a failure.
pub proof fn lemma_cancelled_copy(m: CopyModel, inputs: Seq<CopyInput>, k: int)
    requires
        m.wf(),
        0 <= k,
        k + 1 < inputs.len(),
        copy_after(m, inputs.take(k)).phase == CopyPhase::Copying,
        inputs[k].cancel,
        inputs[k].report matches ReportView::Completed(n) && 0 < n <= m.total - copy_after(
            m,
            inputs.take(k),
        ).written,
    ensures
        copy_step(copy_after(m, inputs.take(k)), true, inputs[k].report).2 == CopyAction::Discard,
        copy_events(m, inputs).len() > 0,
        copy_events(m, inputs).last() == EventView::Cancelled,
        forall|i: int|
            0 <= i < copy_events(m, inputs).len() ==> !(#[trigger] copy_events(m, inputs)[i]
                is Done) && !(copy_events(m, inputs)[i] is Failed),
{
    let before = inputs.take(k);
    let here = seq![inputs[k], inputs[k + 1]];
    let rest = inputs.skip(k + 2);
    let at = copy_after(m, before);
    lemma_progress_increases(m, before);
    assert(inputs =~= before + (here + rest));
    lemma_copy_split(m, before, here + rest);
    lemma_copy_split(at, here, rest);
    let first = copy_step(at, true, inputs[k].report);
    let second = copy_step(first.0, inputs[k + 1].cancel, inputs[k + 1].report);
    let tail = here.drop_first();
    assert(copy_events(second.0, tail.drop_first()) =~= Seq::<EventView>::empty());
    assert(copy_after(second.0, tail.drop_first()) == second.0);
    assert(copy_events(first.0, tail) =~= seq![EventView::Cancelled]);
    assert(copy_after(first.0, tail) == second.0);
    lemma_copy_at_rest(second.0, rest);
    let all = copy_events(m, inputs);
    assert forall|i: int| 0 <= i < all.len() implies !(#[trigger] all[i] is Done) && !(all[i]
        is Failed) by {
        if all[i].is_terminal() {
            lemma_terminal_event_is_last(m, inputs, i);
        }
    }
}

} // verus!
