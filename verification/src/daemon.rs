//! The daemon loop: poll at a fixed interval until cancellation is asked
//! for, then save once and stop. The caller sleeps, polls and saves; what
//! comes next is decided here.

use vstd::prelude::*;

verus! {

/// The seconds between two polls, unless the caller chooses otherwise.
pub const DEFAULT_INTERVAL_SECS: u64 = 5;

/// The states of the loop.
#[derive(Clone, Copy, Debug, PartialEq, Eq, Structural)]
pub enum LoopState {
    /// Polling.
    Running,
    /// Cancellation was seen and the final save was asked for. Nothing
    /// leaves this state.
    ShuttingDown,
}

/// What the caller does in one iteration.
#[derive(Clone, Copy, Debug, PartialEq, Eq, Structural)]
pub enum LoopStep {
    /// Run one poll cycle, then sleep for this many seconds, whether the
    /// cycle succeeded or not.
    Poll { sleep_secs: u64 },
    /// Save the registry, then end.
    Save,
    /// End; the save has been asked for before.
    Exit,
}

/// The step that follows in `state` when cancellation is or is not pending,
/// with the state after it.
pub open spec fn turn(state: LoopState, interval: u64, cancelled: bool) -> (LoopState, LoopStep) {
    match state {
        LoopState::Running => if cancelled {
            (LoopState::ShuttingDown, LoopStep::Save)
        } else {
            (LoopState::Running, LoopStep::Poll { sleep_secs: interval })
        },
        LoopState::ShuttingDown => (LoopState::ShuttingDown, LoopStep::Exit),
    }
}

/// The state after the loop went through `signals`, one iteration each.
pub open spec fn state_after(state: LoopState, interval: u64, signals: Seq<bool>) -> LoopState
    decreases signals.len(),
{
    if signals.len() == 0 {
        state
    } else {
        turn(state_after(state, interval, signals.drop_last()), interval, signals.last()).0
    }
}

/// How many saves the loop asked for while it went through `signals`.
pub open spec fn saves(state: LoopState, interval: u64, signals: Seq<bool>) -> nat
    decreases signals.len(),
{
    if signals.len() == 0 {
        0
    } else {
        let before = state_after(state, interval, signals.drop_last());
        saves(state, interval, signals.drop_last()) + if turn(before, interval, signals.last()).1
            == LoopStep::Save {
            1nat
        } else {
            0nat
        }
    }
}

/// Whatever the signals, the loop asks for a save exactly once if
/// cancellation was ever pending, and never otherwise; and once it shuts
/// down it stays so.
pub proof fn lemma_saves_once(interval: u64, signals: Seq<bool>)
    ensures
        signals.contains(true) ==> saves(LoopState::Running, interval, signals) == 1
            && state_after(LoopState::Running, interval, signals) == LoopState::ShuttingDown,
        !signals.contains(true) ==> saves(LoopState::Running, interval, signals) == 0
            && state_after(LoopState::Running, interval, signals) == LoopState::Running,
    decreases signals.len(),
{
    if signals.len() > 0 {
        let front = signals.drop_last();
        lemma_saves_once(interval, front);
        if front.contains(true) {
            let i = choose|i: int| 0 <= i < front.len() && front[i] == true;
            assert(signals[i] == true);
        }
        if signals.last() {
            assert(signals[signals.len() - 1] == true);
        }
        if signals.contains(true) && !front.contains(true) {
            let i = choose|i: int| 0 <= i < signals.len() && signals[i] == true;
            if i < front.len() {
                assert(front[i] == true);
            }
        }
    }
}

/// The loop that drives the monitor.
#[derive(Clone, Copy, Debug)]
pub struct DaemonLoop {
    state: LoopState,
    interval: u64,
}

impl DaemonLoop {
    /// The state that the loop is in.
    pub closed spec fn state(&self) -> LoopState {
        self.state
    }

    /// The seconds between two polls.
    pub closed spec fn interval(&self) -> u64 {
        self.interval
    }

    /// A running loop that sleeps `interval_secs` seconds between polls.
    pub fn new(interval_secs: u64) -> (daemon: Self)
        ensures
            daemon.state() == LoopState::Running,
            daemon.interval() == interval_secs,
    {
        DaemonLoop { state: LoopState::Running, interval: interval_secs }
    }

    /// Whether the loop still polls.
    pub fn is_running(&self) -> (running: bool)
        ensures
            running == (self.state() == LoopState::Running),
    {
        self.state == LoopState::Running
    }

    /// One iteration: given whether cancellation is pending, says what the
    /// caller does now.
    pub fn next(&mut self, cancelled: bool) -> (step: LoopStep)
        ensures
            final(self).interval() == old(self).interval(),
            (final(self).state(), step) == turn(old(self).state(), old(self).interval(), cancelled),
    {
        match self.state {
            LoopState::Running => {
                if cancelled {
                    self.state = LoopState::ShuttingDown;
                    LoopStep::Save
                } else {
                    LoopStep::Poll { sleep_secs: self.interval }
                }
            },
            LoopState::ShuttingDown => LoopStep::Exit,
        }
    }
}

} // verus!
