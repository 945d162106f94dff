//! The raw command console of the device: a half-duplex protocol framed by
//! byte markers, with no sequence numbers, checksums or retransmission.
//!
//! Every operation is a short script of writes, pauses and marker waits that
//! a driver performs on the serial connection in order, stopping at the first
//! failure. A [`Session`] hands the scripts out, takes what came of them, and
//! keeps the protocol state.

use vstd::prelude::*;
use vstd::string::StringExecFns;
use crate::bytes::{
    ascii, ascii_bytes, chunk, chunk_count, ends_with, find, has_suffix, index_of,
    lemma_occurs_has_first, occurs, split_chunks,
};
use crate::event::ErrorKind;
use crate::scanner::{Scan, Verdict};

verus! {

/// Control byte that interrupts whatever runs on the device.
pub const INTERRUPT: u8 = 0x03;

/// Control byte that enters the raw command console.
pub const ENTER_RAW: u8 = 0x01;

/// Control byte that ends a command and has it executed; sent alone, it asks
/// the device for a soft restart.
pub const EXECUTE: u8 = 0x04;

/// The prompt byte `>`.
pub const PROMPT: u8 = 0x3e;

/// Pause after the interrupt bytes, in milliseconds.
pub const SETTLE_MS: u64 = 100;

/// Budget for the console banner, in milliseconds.
pub const BANNER_TIMEOUT_MS: u64 = 2_000;

/// Budget for the prompt after the banner, in milliseconds.
pub const PROMPT_TIMEOUT_MS: u64 = 1_000;

/// Budget for the response to a command, in milliseconds.
pub const RESPONSE_TIMEOUT_MS: u64 = 10_000;

/// A command is written in pieces of this many bytes.
pub const COMMAND_CHUNK: usize = 256;

/// Pause after each piece of a command, in milliseconds.
pub const CHUNK_PAUSE_MS: u64 = 1;

/// The banner `raw REPL; CTRL-B to exit` that the console prints on entry.
pub open spec fn banner() -> Seq<u8> {
    ascii("raw REPL; CTRL-B to exit"@)
}

/// The prompt `>` alone.
pub open spec fn prompt() -> Seq<u8> {
    seq![PROMPT]
}

/// The success marker `OK` of a response.
pub open spec fn ok_marker() -> Seq<u8> {
    ascii("OK"@)
}

/// The two bytes that end a response: the execute byte, then the prompt.
pub open spec fn terminator() -> Seq<u8> {
    seq![EXECUTE, PROMPT]
}

/// Why a console operation failed.
#[derive(Debug, Clone, PartialEq, Eq)]
pub enum ReplError {
    /// No response within the budget. The session is unusable.
    Timeout,
    /// A response arrived without the success marker; the raw bytes captured
    /// are attached.
    Framing(Vec<u8>),
    /// The connection failed; the message is the driver's.
    Io(String),
}

/// The mathematical value of a [`ReplError`].
pub enum Fault {
    Timeout,
    Framing(Seq<u8>),
    Io(Seq<char>),
}

impl View for ReplError {
    type V = Fault;

    open spec fn view(&self) -> Fault {
        match self {
            ReplError::Timeout => Fault::Timeout,
            ReplError::Framing(raw) => Fault::Framing(raw@),
            ReplError::Io(m) => Fault::Io(m@),
        }
    }
}

impl Fault {
    /// The kind of failure that the fault is reported as.
    pub open spec fn kind(self) -> ErrorKind {
        match self {
            Fault::Timeout => ErrorKind::ProtocolTimeout,
            Fault::Framing(_) => ErrorKind::ProtocolFraming,
            Fault::Io(_) => ErrorKind::Io,
        }
    }

    /// The fault in words.
    pub open spec fn text(self) -> Seq<char> {
        match self {
            Fault::Timeout => "Timeout waiting for response"@,
            Fault::Framing(_) => "Execution failed (no OK)"@,
            Fault::Io(message) => message,
        }
    }
}

impl ReplError {
    /// The kind of failure that the error is reported as.
    pub fn kind(&self) -> (r: ErrorKind)
        ensures
            r == self@.kind(),
    {
        match self {
            ReplError::Timeout => ErrorKind::ProtocolTimeout,
            ReplError::Framing(_) => ErrorKind::ProtocolFraming,
            ReplError::Io(_) => ErrorKind::Io,
        }
    }

    /// The error in words.
    pub fn describe(&self) -> (r: String)
        ensures
            r@ == self@.text(),
    {
        match self {
            ReplError::Timeout => String::from_str("Timeout waiting for response"),
            ReplError::Framing(_) => String::from_str("Execution failed (no OK)"),
            ReplError::Io(message) => message.clone(),
        }
    }
}

/// The mathematical value of what an operation came to.
pub open spec fn reply_view(r: Result<Vec<u8>, ReplError>) -> Result<Seq<u8>, Fault> {
    match r {
        Ok(bytes) => Ok(bytes@),
        Err(e) => Err(e@),
    }
}

/// One thing for the driver to do on the connection.
#[derive(Debug, Clone, PartialEq, Eq)]
pub enum Step {
    /// Write all of these bytes.
    Write(Vec<u8>),
    /// Sleep this many milliseconds.
    Pause(u64),
    /// Read byte by byte until the bytes read end in `target`, for at most
    /// `timeout_ms` milliseconds.
    ReadUntil { target: Vec<u8>, timeout_ms: u64 },
}

/// The mathematical value of a [`Step`].
pub enum StepView {
    Write(Seq<u8>),
    Pause(u64),
    ReadUntil { target: Seq<u8>, timeout_ms: u64 },
}

impl View for Step {
    type V = StepView;

    open spec fn view(&self) -> StepView {
        match self {
            Step::Write(bytes) => StepView::Write(bytes@),
            Step::Pause(ms) => StepView::Pause(*ms),
            Step::ReadUntil { target, timeout_ms } => StepView::ReadUntil {
                target: target@,
                timeout_ms: *timeout_ms,
            },
        }
    }
}

/// The mathematical value of a script.
pub open spec fn script_view(steps: Seq<Step>) -> Seq<StepView> {
    steps.map_values(|s: Step| s@)
}

/// The banner as bytes.
pub fn banner_bytes() -> (r: Vec<u8>)
    ensures
        r@ == banner(),
{
    proof {
        reveal_strlit("raw REPL; CTRL-B to exit");
    }
    ascii_bytes("raw REPL; CTRL-B to exit")
}

/// The script that interrupts the device and asks for the raw console: the
/// interrupt byte twice, a pause for the device to settle, the entry byte.
pub open spec fn interrupt_script() -> Seq<StepView> {
    seq![
        StepView::Write(seq![INTERRUPT]),
        StepView::Write(seq![INTERRUPT]),
        StepView::Pause(SETTLE_MS),
        StepView::Write(seq![ENTER_RAW]),
    ]
}

/// The script that waits for the console: the banner, then the prompt.
pub open spec fn negotiate_script() -> Seq<StepView> {
    seq![
        StepView::ReadUntil { target: banner(), timeout_ms: BANNER_TIMEOUT_MS },
        StepView::ReadUntil { target: prompt(), timeout_ms: PROMPT_TIMEOUT_MS },
    ]
}

/// The script that runs `command`: each piece of at most [`COMMAND_CHUNK`]
/// bytes followed by a pause, then the execute byte, then the wait for the
/// terminator.
pub open spec fn execute_script(command: Seq<u8>) -> Seq<StepView> {
    let pieces = chunk_count(command.len(), COMMAND_CHUNK as nat);
    Seq::new(
        2 * pieces + 2,
        |i: int|
            if i == 2 * pieces {
                StepView::Write(seq![EXECUTE])
            } else if i == 2 * pieces + 1 {
                StepView::ReadUntil { target: terminator(), timeout_ms: RESPONSE_TIMEOUT_MS }
            } else if i % 2 == 0 {
                StepView::Write(chunk(command, COMMAND_CHUNK as nat, i / 2))
            } else {
                StepView::Pause(CHUNK_PAUSE_MS)
            },
    )
}

/// The script that asks the device for a soft restart: the execute byte
/// alone. No response is awaited.
pub open spec fn reset_script() -> Seq<StepView> {
    seq![StepView::Write(seq![EXECUTE])]
}

/// The steps of [`interrupt_script`].
pub fn interrupt_steps() -> (r: Vec<Step>)
    ensures
        script_view(r@) == interrupt_script(),
{
    let r = vec![
        Step::Write(vec![INTERRUPT]),
        Step::Write(vec![INTERRUPT]),
        Step::Pause(SETTLE_MS),
        Step::Write(vec![ENTER_RAW]),
    ];
    assert(r@[0]@ == StepView::Write(seq![INTERRUPT])) by {
        assert(r@[0]->Write_0@ =~= seq![INTERRUPT]);
    }
    assert(r@[3]@ == StepView::Write(seq![ENTER_RAW])) by {
        assert(r@[3]->Write_0@ =~= seq![ENTER_RAW]);
    }
    r
}

/// The steps of [`negotiate_script`].
pub fn negotiate_steps() -> (r: Vec<Step>)
    ensures
        script_view(r@) == negotiate_script(),
{
    let r = vec![
        Step::ReadUntil { target: banner_bytes(), timeout_ms: BANNER_TIMEOUT_MS },
        Step::ReadUntil { target: vec![PROMPT], timeout_ms: PROMPT_TIMEOUT_MS },
    ];
    assert(r@[1]->ReadUntil_target@ =~= prompt());
    r
}

/// The steps of [`execute_script`] for `command`.
pub fn execute_steps(command: &[u8]) -> (r: Vec<Step>)
    ensures
        script_view(r@) == execute_script(command@),
{
    let pieces = split_chunks(command, COMMAND_CHUNK);
    let ghost whole = pieces@;
    let mut steps: Vec<Step> = Vec::new();
    for piece in it: pieces
        invariant
            it.seq() == whole,
            steps@.len() == 2 * it.index(),
            forall|i: int|
                0 <= i < steps@.len() ==> (#[trigger] steps@[i])@ == if i % 2 == 0 {
                    StepView::Write(whole[i / 2]@)
                } else {
                    StepView::Pause(CHUNK_PAUSE_MS)
                },
    {
        steps.push(Step::Write(piece));
        steps.push(Step::Pause(CHUNK_PAUSE_MS));
    }
    let ghost count = whole.len() as int;
    steps.push(Step::Write(vec![EXECUTE]));
    steps.push(Step::ReadUntil { target: vec![EXECUTE, PROMPT], timeout_ms: RESPONSE_TIMEOUT_MS });
    proof {
        assert(steps@[2 * count]->Write_0@ =~= seq![EXECUTE]);
    }
    steps
}

/// The steps of [`reset_script`].
pub fn reset_steps() -> (r: Vec<Step>)
    ensures
        script_view(r@) == reset_script(),
{
    let r = vec![Step::Write(vec![EXECUTE])];
    assert(r@[0]->Write_0@ =~= seq![EXECUTE]);
    r
}

/// Whether captured bytes are a complete response that reports success: they
/// end in the terminator and hold the success marker.
pub open spec fn well_framed(captured: Seq<u8>) -> bool {
    ends_with(captured, terminator()) && occurs(captured, ok_marker())
}

/// What a response says: the bytes strictly between the first success marker
/// and the terminator, or a framing fault with all that was captured.
pub open spec fn parse(captured: Seq<u8>) -> Result<Seq<u8>, Fault> {
    if well_framed(captured) {
        Ok(
            captured.subrange(
                index_of(captured, ok_marker()) + ok_marker().len(),
                captured.len() - terminator().len(),
            ),
        )
    } else {
        Err(Fault::Framing(captured))
    }
}

/// In a well-framed response the first success marker ends before the
/// terminator begins.
pub proof fn lemma_marker_before_terminator(captured: Seq<u8>)
    requires
        well_framed(captured),
    ensures
        0 <= index_of(captured, ok_marker()),
        index_of(captured, ok_marker()) + 2 <= captured.len() - 2,
{
    reveal_strlit("OK");
    lemma_occurs_has_first(captured, ok_marker());
    let i = index_of(captured, ok_marker());
    let n = captured.len() as int;
    assert(ok_marker()[0] == 0x4f && ok_marker()[1] == 0x4b);
}

/// Reads a captured response. Without the success marker, or cut short of the
/// terminator, it is a framing failure that carries the captured bytes.
pub fn parse_response(captured: Vec<u8>) -> (r: Result<Vec<u8>, ReplError>)
    ensures
        reply_view(r) == parse(captured@),
{
    proof {
        reveal_strlit("OK");
    }
    let marker = ascii_bytes("OK");
    let end = vec![EXECUTE, PROMPT];
    if !has_suffix(captured.as_slice(), end.as_slice()) {
        return Err(ReplError::Framing(captured));
    }
    match find(captured.as_slice(), marker.as_slice()) {
        None => Err(ReplError::Framing(captured)),
        Some(at) => {
            proof {
                lemma_marker_before_terminator(captured@);
            }
            let stop: usize = captured.len() - 2;
            let mut out: Vec<u8> = Vec::new();
            let mut i: usize = at + 2;
            while i < stop
                invariant
                    at + 2 <= i <= stop <= captured.len(),
                    out@ == captured@.subrange(at + 2, i as int),
                decreases stop - i,
            {
                out.push(captured[i]);
                i += 1;
            }
            Ok(out)
        },
    }
}

/// A response that ends in the terminator but holds no success marker is a
/// framing failure that carries exactly the captured bytes; it is never a
/// success.
pub proof fn lemma_unmarked_response_fails(captured: Seq<u8>)
    requires
        ends_with(captured, terminator()),
        !occurs(captured, ok_marker()),
    ensures
        parse(captured) == Err::<Seq<u8>, Fault>(Fault::Framing(captured)),
{
}

/// What a finished marker wait means for the operation it belongs to: the
/// captured bytes on a match, a timeout when the budget ran out, an I/O
/// failure when the stream broke. A wait that is still pending means nothing
/// yet.
pub fn scan_result(scan: Scan) -> (r: Option<Result<Vec<u8>, ReplError>>)
    ensures
        match scan@ {
            Verdict::Pending => r is None,
            Verdict::Matched(bytes) => r is Some && reply_view(r->0) == Ok::<Seq<u8>, Fault>(bytes),
            Verdict::Expired => r is Some && reply_view(r->0) == Err::<Seq<u8>, Fault>(
                Fault::Timeout,
            ),
            Verdict::Broken(m) => r is Some && reply_view(r->0) == Err::<Seq<u8>, Fault>(
                Fault::Io(m),
            ),
        },
{
    match scan {
        Scan::Pending => None,
        Scan::Matched(bytes) => Some(Ok(bytes)),
        Scan::Expired => Some(Err(ReplError::Timeout)),
        Scan::Broken(m) => Some(Err(ReplError::Io(m))),
    }
}

/// Where a console session stands.
#[derive(Debug, Clone, Copy, PartialEq, Eq, Structural)]
pub enum SessionState {
    /// No console: nothing was negotiated, or the session ended or failed.
    Disconnected,
    /// The interrupt script was handed out.
    Interrupting,
    /// The wait for banner and prompt was handed out.
    Negotiating,
    /// The console is ready for a command.
    Ready,
    /// A command was handed out and its response is awaited.
    Executing,
    /// The soft restart was handed out.
    Exiting,
}

/// The state after an operation that was begun in `state` came to `outcome`,
/// and what the operation yields. Any failure disconnects. A response is read
/// only after a command; a framing failure in it disconnects too.
pub open spec fn settle(state: SessionState, outcome: Result<Seq<u8>, Fault>) -> (
    SessionState,
    Result<Seq<u8>, Fault>,
) {
    match outcome {
        Err(fault) => (SessionState::Disconnected, Err(fault)),
        Ok(captured) => match state {
            SessionState::Negotiating => (SessionState::Ready, Ok(captured)),
            SessionState::Executing => match parse(captured) {
                Ok(output) => (SessionState::Ready, Ok(output)),
                Err(fault) => (SessionState::Disconnected, Err(fault)),
            },
            SessionState::Exiting => (SessionState::Disconnected, Ok(captured)),
            other => (other, Ok(captured)),
        },
    }
}

/// The protocol state of one connection. At most one operation is in flight:
/// a script is handed out only while none is, and [`Session::finish`] takes
/// what came of it.
pub struct Session {
    state: SessionState,
    busy: bool,
}

impl Session {
    /// The protocol state.
    pub closed spec fn state(&self) -> SessionState {
        self.state
    }

    /// Whether a script was handed out and its outcome is awaited.
    pub closed spec fn busy(&self) -> bool {
        self.busy
    }

    /// No operation is in flight and the state is `state`.
    pub open spec fn idle_in(&self, state: SessionState) -> bool {
        !self.busy() && self.state() == state
    }

    /// A session that is disconnected and idle.
    pub fn new() -> (s: Session)
        ensures
            s.idle_in(SessionState::Disconnected),
    {
        Session { state: SessionState::Disconnected, busy: false }
    }

    /// The protocol state.
    pub fn current(&self) -> (r: SessionState)
        ensures
            r == self.state(),
    {
        self.state
    }

    /// Whether an operation is in flight.
    pub fn is_busy(&self) -> (r: bool)
        ensures
            r == self.busy(),
    {
        self.busy
    }

    fn begin(&mut self, from: SessionState, to: SessionState) -> (r: bool)
        ensures
            r == old(self).idle_in(from),
            r ==> final(self).state() == to && final(self).busy(),
            !r ==> *final(self) == *old(self),
    {
        if !self.busy && self.state == from {
            self.state = to;
            self.busy = true;
            true
        } else {
            false
        }
    }

    /// Begins the interrupt. Accepted only on an idle, disconnected session;
    /// a refusal changes nothing.
    pub fn interrupt(&mut self) -> (r: Option<Vec<Step>>)
        ensures
            r is Some == old(self).idle_in(SessionState::Disconnected),
            r is Some ==> script_view(r->0@) == interrupt_script() && final(self).state()
                == SessionState::Interrupting && final(self).busy(),
            r is None ==> *final(self) == *old(self),
    {
        if self.begin(SessionState::Disconnected, SessionState::Interrupting) {
            Some(interrupt_steps())
        } else {
            None
        }
    }

    /// Begins the wait for banner and prompt. Accepted only once the
    /// interrupt has gone out; a refusal changes nothing.
    pub fn negotiate(&mut self) -> (r: Option<Vec<Step>>)
        ensures
            r is Some == old(self).idle_in(SessionState::Interrupting),
            r is Some ==> script_view(r->0@) == negotiate_script() && final(self).state()
                == SessionState::Negotiating && final(self).busy(),
            r is None ==> *final(self) == *old(self),
    {
        if self.begin(SessionState::Interrupting, SessionState::Negotiating) {
            Some(negotiate_steps())
        } else {
            None
        }
    }

    /// Begins a command. Accepted only on an idle session whose console is
    /// ready; a refusal changes nothing.
    pub fn execute(&mut self, command: &[u8]) -> (r: Option<Vec<Step>>)
        ensures
            r is Some == old(self).idle_in(SessionState::Ready),
            r is Some ==> script_view(r->0@) == execute_script(command@) && final(self).state()
                == SessionState::Executing && final(self).busy(),
            r is None ==> *final(self) == *old(self),
    {
        if self.begin(SessionState::Ready, SessionState::Executing) {
            Some(execute_steps(command))
        } else {
            None
        }
    }

    /// Begins the soft restart. Accepted only on an idle session whose
    /// console is ready; a refusal changes nothing.
    pub fn reset(&mut self) -> (r: Option<Vec<Step>>)
        ensures
            r is Some == old(self).idle_in(SessionState::Ready),
            r is Some ==> script_view(r->0@) == reset_script() && final(self).state()
                == SessionState::Exiting && final(self).busy(),
            r is None ==> *final(self) == *old(self),
    {
        if self.begin(SessionState::Ready, SessionState::Exiting) {
            Some(reset_steps())
        } else {
            None
        }
    }

    /// Takes what came of the script in flight: the bytes that its last
    /// marker wait captured (none where it has no wait), or the first
    /// failure. With nothing in flight the outcome is handed back and nothing
    /// changes.
    pub fn finish(&mut self, outcome: Result<Vec<u8>, ReplError>) -> (r: Result<
        Vec<u8>,
        ReplError,
    >)
        ensures
            !final(self).busy(),
            old(self).busy() ==> (final(self).state(), reply_view(r)) == settle(
                old(self).state(),
                reply_view(outcome),
            ),
            !old(self).busy() ==> final(self).state() == old(self).state() && reply_view(r)
                == reply_view(outcome),
    {
        if !self.busy {
            return outcome;
        }
        self.busy = false;
        match outcome {
            Err(e) => {
                self.state = SessionState::Disconnected;
                Err(e)
            },
            Ok(captured) => match self.state {
                SessionState::Negotiating => {
                    self.state = SessionState::Ready;
                    Ok(captured)
                },
                SessionState::Executing => {
                    let parsed = parse_response(captured);
                    match parsed {
                        Ok(output) => {
                            self.state = SessionState::Ready;
                            Ok(output)
                        },
                        Err(e) => {
                            self.state = SessionState::Disconnected;
                            Err(e)
                        },
                    }
                },
                SessionState::Exiting => {
                    self.state = SessionState::Disconnected;
                    Ok(captured)
                },
                _ => Ok(captured),
            },
        }
    }
}

/// A command whose response ends in the terminator but holds no success
/// marker fails with a framing failure that carries the captured bytes, and
/// leaves the session disconnected. It never succeeds.
pub proof fn lemma_unmarked_execution_fails(captured: Seq<u8>)
    requires
        ends_with(captured, terminator()),
        !occurs(captured, ok_marker()),
    ensures
        settle(SessionState::Executing, Ok(captured)) == (
            SessionState::Disconnected,
            Err::<Seq<u8>, Fault>(Fault::Framing(captured)),
        ),
{
}

} // verus!
