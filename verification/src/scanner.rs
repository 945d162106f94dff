//! Waiting for a byte marker on a stream, one byte at a time, within a time
//! budget.
//!
//! The scanner does no reading itself. Before every read its driver hands
//! the time elapsed to [`Scanner::poll`], and after it the outcome of the
//! read to [`Scanner::feed`]; whichever first gives something other than
//! [`Scan::Pending`] ends the scan.

use vstd::prelude::*;
use crate::bytes::{ends_with, has_suffix};

verus! {

/// What one single-byte read on the stream came to.
#[derive(Debug, Clone, PartialEq, Eq)]
pub enum ReadOutcome {
    /// One byte arrived.
    Byte(u8),
    /// The read returned without data.
    NoData,
    /// The platform's own read timeout ran out.
    TimedOut,
    /// The read failed for any other reason.
    Failed(String),
}

/// What a read means to the scanner: a byte, nothing yet, or a fatal failure.
pub enum Poll {
    Byte(u8),
    Idle,
    Failed(Seq<char>),
}

impl View for ReadOutcome {
    type V = Poll;

    /// A read without data and a platform read timeout both mean "nothing yet".
    open spec fn view(&self) -> Poll {
        match self {
            ReadOutcome::Byte(b) => Poll::Byte(*b),
            ReadOutcome::NoData => Poll::Idle,
            ReadOutcome::TimedOut => Poll::Idle,
            ReadOutcome::Failed(m) => Poll::Failed(m@),
        }
    }
}

/// Where a scan stands after a read, or how it ended.
#[derive(Debug, Clone, PartialEq, Eq)]
pub enum Scan {
    /// The marker has not appeared yet: read on.
    Pending,
    /// The bytes read so far end in the marker; they are handed over.
    Matched(Vec<u8>),
    /// The time budget ran out.
    Expired,
    /// The stream failed; the message is the driver's.
    Broken(String),
}

/// The mathematical value of a [`Scan`].
pub enum Verdict {
    Pending,
    Matched(Seq<u8>),
    Expired,
    Broken(Seq<char>),
}

impl View for Scan {
    type V = Verdict;

    open spec fn view(&self) -> Verdict {
        match self {
            Scan::Pending => Verdict::Pending,
            Scan::Matched(v) => Verdict::Matched(v@),
            Scan::Expired => Verdict::Expired,
            Scan::Broken(m) => Verdict::Broken(m@),
        }
    }
}

/// Nanoseconds in a millisecond.
pub const NANOS_PER_MILLI: u128 = 1_000_000;

/// The bytes seen once `poll` has been taken in.
pub open spec fn absorb(seen: Seq<u8>, poll: Poll) -> Seq<u8> {
    match poll {
        Poll::Byte(b) => seen.push(b),
        _ => seen,
    }
}

/// What taking in `poll` after `seen` decides: a match the instant the bytes
/// end in `target`, a failure at once, and otherwise nothing.
pub open spec fn verdict(seen: Seq<u8>, target: Seq<u8>, poll: Poll) -> Verdict {
    match poll {
        Poll::Byte(b) => if ends_with(seen.push(b), target) {
            Verdict::Matched(seen.push(b))
        } else {
            Verdict::Pending
        },
        Poll::Idle => Verdict::Pending,
        Poll::Failed(m) => Verdict::Broken(m),
    }
}

/// Accumulates the bytes of a stream until they end in a marker.
pub struct Scanner {
    target: Vec<u8>,
    timeout_ms: u64,
    seen: Vec<u8>,
}

impl Scanner {
    /// The marker waited for.
    pub closed spec fn target(&self) -> Seq<u8> {
        self.target@
    }

    /// The time budget, in nanoseconds.
    pub closed spec fn budget(&self) -> nat {
        (self.timeout_ms * NANOS_PER_MILLI) as nat
    }

    /// The bytes taken in so far.
    pub closed spec fn seen(&self) -> Seq<u8> {
        self.seen@
    }

    /// A scanner for `target` with a budget of `timeout_ms` milliseconds and
    /// nothing seen.
    pub fn new(target: Vec<u8>, timeout_ms: u64) -> (s: Scanner)
        ensures
            s.target() == target@,
            s.budget() == timeout_ms * NANOS_PER_MILLI,
            s.seen() == Seq::<u8>::empty(),
    {
        Scanner { target, timeout_ms, seen: Vec::new() }
    }

    /// Whether the budget is spent once `elapsed_nanos` nanoseconds have
    /// passed since the scan began.
    pub fn expired(&self, elapsed_nanos: u128) -> (r: bool)
        ensures
            r == (elapsed_nanos > self.budget()),
    {
        let budget: u128 = (self.timeout_ms as u128) * NANOS_PER_MILLI;
        elapsed_nanos > budget
    }

    /// Looks at the clock before a read: a spent budget ends the scan, and no
    /// further read is made.
    pub fn poll(&self, elapsed_nanos: u128) -> (r: Scan)
        ensures
            r@ == if elapsed_nanos > self.budget() {
                Verdict::Expired
            } else {
                Verdict::Pending
            },
    {
        if self.expired(elapsed_nanos) {
            Scan::Expired
        } else {
            Scan::Pending
        }
    }

    /// The bytes taken in so far.
    pub fn captured(&self) -> (r: &Vec<u8>)
        ensures
            r@ == self.seen(),
    {
        &self.seen
    }

    /// Takes in the outcome of one read.
    pub fn feed(&mut self, outcome: ReadOutcome) -> (r: Scan)
        ensures
            r@ == verdict(old(self).seen(), old(self).target(), outcome@),
            final(self).target() == old(self).target(),
            final(self).budget() == old(self).budget(),
            final(self).seen() == if r is Matched {
                Seq::<u8>::empty()
            } else {
                absorb(old(self).seen(), outcome@)
            },
    {
        match outcome {
            ReadOutcome::Byte(b) => {
                self.seen.push(b);
                if has_suffix(self.seen.as_slice(), self.target.as_slice()) {
                    let mut out: Vec<u8> = Vec::new();
                    core::mem::swap(&mut self.seen, &mut out);
                    Scan::Matched(out)
                } else {
                    Scan::Pending
                }
            },
            ReadOutcome::NoData => Scan::Pending,
            ReadOutcome::TimedOut => Scan::Pending,
            ReadOutcome::Failed(m) => Scan::Broken(m),
        }
    }
}

/// One turn of a driver's loop: the time elapsed when it asked, and what the
/// read that followed came to.
pub struct Tick {
    pub elapsed: nat,
    pub poll: Poll,
}

/// The verdict of a whole scan: the driver asks the clock before every read,
/// stops at the first overdue tick, and otherwise takes the read in.
/// `Pending` means that the ticks ran out before the scan ended.
pub open spec fn run(target: Seq<u8>, budget: nat, seen: Seq<u8>, ticks: Seq<Tick>) -> Verdict
    decreases ticks.len(),
{
    if ticks.len() == 0 {
        Verdict::Pending
    } else if ticks[0].elapsed > budget {
        Verdict::Expired
    } else {
        match verdict(seen, target, ticks[0].poll) {
            Verdict::Pending => run(
                target,
                budget,
                absorb(seen, ticks[0].poll),
                ticks.drop_first(),
            ),
            v => v,
        }
    }
}

/// The bytes that the reads of `ticks` delivered, in order.
pub open spec fn delivered(ticks: Seq<Tick>) -> Seq<u8>
    decreases ticks.len(),
{
    if ticks.len() == 0 {
        Seq::empty()
    } else {
        absorb(Seq::empty(), ticks[0].poll) + delivered(ticks.drop_first())
    }
}

/// No non-empty prefix of `seen` ends in `target`.
pub open spec fn unmatched(seen: Seq<u8>, target: Seq<u8>) -> bool {
    forall|k: int| 1 <= k <= seen.len() ==> !ends_with(#[trigger] seen.take(k), target)
}

proof fn lemma_match_extends(
    target: Seq<u8>,
    budget: nat,
    seen: Seq<u8>,
    ticks: Seq<Tick>,
    p: Seq<u8>,
)
    requires
        unmatched(seen, target),
        run(target, budget, seen, ticks) == Verdict::Matched(p),
    ensures
        p.len() > seen.len(),
        p.is_prefix_of(seen + delivered(ticks)),
        ends_with(p, target),
        unmatched(p.drop_last(), target),
    decreases ticks.len(),
{
    let poll = ticks[0].poll;
    let rest = ticks.drop_first();
    let next = absorb(seen, poll);
    match verdict(seen, target, poll) {
        Verdict::Pending => {
            assert(unmatched(next, target)) by {
                assert forall|k: int| 1 <= k <= next.len() implies !ends_with(
                    #[trigger] next.take(k),
                    target,
                ) by {
                    if k <= seen.len() {
                        assert(next.take(k) =~= seen.take(k));
                    } else {
                        assert(next.take(k) =~= next);
                    }
                }
            }
            lemma_match_extends(target, budget, next, rest, p);
        },
        _ => {
            assert(p.drop_last() =~= seen);
        },
    }
}

/// A scan that ends in a match hands over a prefix of what the stream
/// delivered: it is not empty, it ends in the marker, and no shorter prefix
/// does, so the scan stopped the instant the marker was complete.
pub proof fn lemma_match_is_first_prefix(
    target: Seq<u8>,
    budget: nat,
    ticks: Seq<Tick>,
    p: Seq<u8>,
)
    requires
        run(target, budget, Seq::empty(), ticks) == Verdict::Matched(p),
    ensures
        p.len() >= 1,
        p.is_prefix_of(delivered(ticks)),
        ends_with(p, target),
        forall|k: int| 1 <= k < p.len() ==> !ends_with(#[trigger] p.take(k), target),
{
    lemma_match_extends(target, budget, Seq::empty(), ticks, p);
    assert forall|k: int| 1 <= k < p.len() implies !ends_with(#[trigger] p.take(k), target) by {
        assert(p.drop_last().take(k) =~= p.take(k));
    }
}

proof fn lemma_marker_found_from(
    target: Seq<u8>,
    budget: nat,
    seen: Seq<u8>,
    ticks: Seq<Tick>,
    n: int,
)
    requires
        forall|i: int| 0 <= i < ticks.len() ==> ticks[i].elapsed <= budget,
        forall|i: int| 0 <= i < ticks.len() ==> !(ticks[i].poll is Failed),
        seen.len() < n <= seen.len() + delivered(ticks).len(),
        ends_with((seen + delivered(ticks)).take(n), target),
    ensures
        run(target, budget, seen, ticks) is Matched,
    decreases ticks.len(),
{
    let poll = ticks[0].poll;
    let rest = ticks.drop_first();
    let next = absorb(seen, poll);
    assert(seen + delivered(ticks) =~= next + delivered(rest));
    match verdict(seen, target, poll) {
        Verdict::Pending => {
            if next.len() == n {
                assert((next + delivered(rest)).take(n) =~= next);
            }
            lemma_marker_found_from(target, budget, next, rest, n);
        },
        _ => {},
    }
}

/// When every read is made within the budget, none fails, and some non-empty
/// prefix of what the stream delivers ends in the marker, the scan ends in a
/// match.
pub proof fn lemma_marker_in_time_is_matched(
    target: Seq<u8>,
    budget: nat,
    ticks: Seq<Tick>,
    n: int,
)
    requires
        forall|i: int| 0 <= i < ticks.len() ==> ticks[i].elapsed <= budget,
        forall|i: int| 0 <= i < ticks.len() ==> !(ticks[i].poll is Failed),
        1 <= n <= delivered(ticks).len(),
        ends_with(delivered(ticks).take(n), target),
    ensures
        run(target, budget, Seq::empty(), ticks) is Matched,
{
    lemma_marker_found_from(target, budget, Seq::empty(), ticks, n);
}

proof fn lemma_overdue_from(
    target: Seq<u8>,
    budget: nat,
    seen: Seq<u8>,
    ticks: Seq<Tick>,
    i: int,
)
    requires
        0 <= i < ticks.len(),
        ticks[i].elapsed > budget,
    ensures
        run(target, budget, seen, ticks) == match run(target, budget, seen, ticks.take(i)) {
            Verdict::Pending => Verdict::Expired,
            v => v,
        },
    decreases i,
{
    if i > 0 && ticks[0].elapsed <= budget {
        let poll = ticks[0].poll;
        assert(ticks.take(i).drop_first() =~= ticks.drop_first().take(i - 1));
        if verdict(seen, target, poll) is Pending {
            lemma_overdue_from(target, budget, absorb(seen, poll), ticks.drop_first(), i - 1);
        }
    }
}

/// A tick past the budget ends the scan: what the scan comes to is decided by
/// the ticks before it, and where those leave it pending it expires. No read
/// after an overdue tick is taken in.
pub proof fn lemma_overdue_tick_ends_scan(
    target: Seq<u8>,
    budget: nat,
    ticks: Seq<Tick>,
    i: int,
)
    requires
        0 <= i < ticks.len(),
        ticks[i].elapsed > budget,
    ensures
        run(target, budget, Seq::empty(), ticks) == match run(
            target,
            budget,
            Seq::empty(),
            ticks.take(i),
        ) {
            Verdict::Pending => Verdict::Expired,
            v => v,
        },
        !(run(target, budget, Seq::empty(), ticks) is Pending),
{
    lemma_overdue_from(target, budget, Seq::empty(), ticks, i);
}

} // verus!
