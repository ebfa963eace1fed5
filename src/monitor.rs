//! The cadence of the background monitors: short sleeps, each after a look
//! at the stop signal, and one poll per interval.
use vstd::prelude::*;

verus! {

/// Length of one sleep slice, in milliseconds.
pub const SLICE_MILLIS: u64 = 200;

/// Sleep slices per poll interval (one second in all).
pub const SLICES_PER_POLL: u8 = 5;

/// Timeout of one reachability probe, in seconds.
pub const PROBE_TIMEOUT_SECS: u64 = 5;

/// Payload length of one reachability probe, in bytes.
pub const PROBE_PAYLOAD_LEN: usize = 32;

/// What a monitor does next.
#[derive(Clone, Copy, Debug, PartialEq, Eq, Structural)]
pub enum PollAction {
    /// Sleep one slice.
    Sleep,
    /// Poll the adapter or send a probe, and emit what it gives.
    Poll,
    /// Stop for good; the statistics monitor releases the adapter here.
    Halt,
}

/// Where a monitor stands in its poll interval.
#[derive(Clone, Copy, Debug, PartialEq, Eq, Structural)]
pub struct Poller {
    pub slices: u8,
    pub halted: bool,
}

impl Poller {
    pub open spec fn wf(self) -> bool {
        self.slices <= SLICES_PER_POLL
    }

    /// A monitor at the start of its first interval.
    pub fn new() -> (r: Poller)
        ensures
            r.wf(),
            r == (Poller { slices: 0, halted: false }),
    {
        Poller { slices: 0, halted: false }
    }

    /// The next action, given what the stop signal reads now.
    pub fn next_action(&mut self, stop_requested: bool) -> (r: PollAction)
        requires
            old(self).wf(),
        ensures
            final(self).wf(),
            (*final(self), r) == poll_step(*old(self), stop_requested),
    {
        if self.halted || stop_requested {
            self.halted = true;
            PollAction::Halt
        } else if self.slices < SLICES_PER_POLL {
            self.slices = self.slices + 1;
            PollAction::Sleep
        } else {
            self.slices = 0;
            PollAction::Poll
        }
    }
}

/// One step of a monitor: once the stop signal is seen it halts and stays
/// halted; else it sleeps out the slices of its interval, then polls.
pub open spec fn poll_step(p: Poller, stop_requested: bool) -> (Poller, PollAction) {
    if p.halted || stop_requested {
        (Poller { halted: true, ..p }, PollAction::Halt)
    } else if p.slices < SLICES_PER_POLL {
        (Poller { slices: (p.slices + 1) as u8, ..p }, PollAction::Sleep)
    } else {
        (Poller { slices: 0, ..p }, PollAction::Poll)
    }
}

/// The state after a run of steps, one per stop-signal reading.
pub open spec fn poll_run(p: Poller, readings: Seq<bool>) -> Poller
    decreases readings.len(),
{
    if readings.len() == 0 {
        p
    } else {
        poll_step(poll_run(p, readings.drop_last()), readings.last()).0
    }
}

/// A monitor that has halted never polls again, whatever the signal reads
/// later; so it emits nothing after it has seen the stop signal.
pub proof fn lemma_halted_stays_halted(p: Poller, readings: Seq<bool>, next: bool)
    requires
        p.halted,
    ensures
        poll_run(p, readings).halted,
        poll_step(poll_run(p, readings), next).1 == PollAction::Halt,
    decreases readings.len(),
{
    if readings.len() > 0 {
        lemma_halted_stays_halted(p, readings.drop_last(), readings.last());
    }
}

/// A running monitor polls at most once per interval: between two polls
/// it sleeps all the slices of the interval, and it sees the stop signal
/// at each of them.
pub proof fn lemma_poll_follows_full_interval(p: Poller, stop_requested: bool)
    requires
        p.wf(),
        poll_step(p, stop_requested).1 == PollAction::Poll,
    ensures
        !stop_requested,
        p.slices == SLICES_PER_POLL,
        poll_step(p, stop_requested).0.slices == 0,
{
}

} // verus!
