//! Waiting for the panel to leave its busy state, bounded by a timer.
//!
//! The caller loads the timer with the time limit and starts it, then reads
//! what [`EpdWait::reading_needed`] asks for and feeds it to
//! [`EpdWait::step`] until the wait is [`EpdWait::Done`]; finally it carries
//! out [`EpdWait::finish_ops`] of the outcome.

use vstd::prelude::*;

use crate::panel::{PanelOp, PanelStep};

verus! {

/// Where a wait for the busy line stands.
#[derive(Debug, Clone, Copy, PartialEq, Eq, Structural)]
pub enum EpdWait {
    /// Read whether the busy line is low.
    CheckBusy,
    /// The busy line was low: read whether the timer's interrupt has fired.
    CheckTimer,
    /// Polling has stopped: read whether the busy line is low once more.
    Confirm,
    /// The wait is over; `true` when the panel is ready, `false` on time-out.
    Done(bool),
}

/// What the caller reads for the next step.
#[derive(Debug, Clone, Copy, PartialEq, Eq, Structural)]
pub enum WaitReading {
    /// Whether the busy line is low.
    BusyLineLow,
    /// Whether the timer's interrupt has fired.
    TimerFired,
    /// Nothing: the wait is over.
    Nothing,
}

/// The state after `state` given `reading` (the answer to what `state` asked).
/// Polling goes on while the busy line is low and the timer has not fired;
/// then a last reading of the busy line decides: low means time-out, high
/// means ready.
pub open spec fn wait_next(state: EpdWait, reading: bool) -> EpdWait {
    match state {
        EpdWait::CheckBusy => if reading {
            EpdWait::CheckTimer
        } else {
            EpdWait::Confirm
        },
        EpdWait::CheckTimer => if reading {
            EpdWait::Confirm
        } else {
            EpdWait::CheckBusy
        },
        EpdWait::Confirm => EpdWait::Done(!reading),
        EpdWait::Done(ready) => EpdWait::Done(ready),
    }
}

/// What finishing a wait does: the timer's interrupt is cleared in either
/// outcome, and a ready panel is given 200 ms more.
pub open spec fn finish_steps(ready: bool) -> Seq<PanelStep> {
    if ready {
        seq![PanelStep::ClearTimerInterrupt, PanelStep::DelayMs(200)]
    } else {
        seq![PanelStep::ClearTimerInterrupt]
    }
}

impl EpdWait {
    /// What the caller must read before the next step.
    pub fn reading_needed(&self) -> (reading: WaitReading)
        ensures
            reading == (match *self {
                EpdWait::CheckBusy => WaitReading::BusyLineLow,
                EpdWait::CheckTimer => WaitReading::TimerFired,
                EpdWait::Confirm => WaitReading::BusyLineLow,
                EpdWait::Done(_) => WaitReading::Nothing,
            }),
    {
        match self {
            EpdWait::CheckBusy => WaitReading::BusyLineLow,
            EpdWait::CheckTimer => WaitReading::TimerFired,
            EpdWait::Confirm => WaitReading::BusyLineLow,
            EpdWait::Done(_) => WaitReading::Nothing,
        }
    }

    /// Advances the wait by one reading.
    pub fn step(self, reading: bool) -> (next: EpdWait)
        ensures
            next == wait_next(self, reading),
    {
        match self {
            EpdWait::CheckBusy => if reading {
                EpdWait::CheckTimer
            } else {
                EpdWait::Confirm
            },
            EpdWait::CheckTimer => if reading {
                EpdWait::Confirm
            } else {
                EpdWait::CheckBusy
            },
            EpdWait::Confirm => EpdWait::Done(!reading),
            EpdWait::Done(ready) => EpdWait::Done(ready),
        }
    }

    /// The operations that end a wait whose outcome is `ready`.
    pub fn finish_ops(ready: bool) -> (ops: Vec<PanelOp>)
        ensures
            ops.deep_view() == finish_steps(ready),
    {
        let mut ops: Vec<PanelOp> = Vec::new();
        ops.push(PanelOp::ClearTimerInterrupt);
        if ready {
            ops.push(PanelOp::DelayMs(200));
        }
        assert(ops.deep_view() =~= finish_steps(ready));
        ops
    }
}

/// A wait ends only from `Confirm`, and it ends ready exactly when that last
/// reading found the busy line high; a finished wait stays as it is.
pub proof fn law_wait_outcome(state: EpdWait, reading: bool, ready: bool)
    ensures
        (state !is Done && wait_next(state, reading) == EpdWait::Done(ready)) <==> (state
            == EpdWait::Confirm && ready == !reading),
        state is Done ==> wait_next(state, reading) == state,
{
}

/// Polling, for every reading: while the busy line reads low and the timer
/// has not fired, the wait goes back to reading the busy line; a high busy line
/// or a fired timer ends polling and asks for one last reading of the busy
/// line, which alone decides the outcome. No state other than `Confirm` ever
/// reads the outcome.
pub proof fn law_wait_polls_until_high_or_timeout(reading: bool)
    ensures
        wait_next(wait_next(EpdWait::CheckBusy, true), false) == EpdWait::CheckBusy,
        wait_next(EpdWait::CheckBusy, false) == EpdWait::Confirm,
        wait_next(EpdWait::CheckTimer, true) == EpdWait::Confirm,
        wait_next(EpdWait::CheckBusy, reading) !is Done,
        wait_next(EpdWait::CheckTimer, reading) !is Done,
        wait_next(EpdWait::Confirm, reading) == EpdWait::Done(!reading),
{
}

/// Finishing, for either outcome: the timer's interrupt is cleared first, and
/// the only other step is the 200 ms settling delay, taken exactly when the
/// panel is ready.
pub proof fn law_finish_clears_timer(ready: bool)
    ensures
        finish_steps(ready)[0] == PanelStep::ClearTimerInterrupt,
        finish_steps(ready).len() == (if ready { 2int } else { 1int }),
        ready ==> finish_steps(ready)[1] == PanelStep::DelayMs(200),
{
}

} // verus!
