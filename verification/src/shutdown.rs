//! The two-phase shutdown of a stage process.
//!
//! A process broadcasts two signals to its tasks. The soft signal asks them to
//! take no new work from outside and to finish what they hold. The forced
//! signal asks them to return at once. A watcher wakes on every interrupt and
//! on a regular tick, and this module decides what each wake-up leads to:
//!
//! * the first interrupt raises the soft signal and starts the grace period;
//! * a second interrupt, or a tick after the grace period has run out, raises
//!   the forced signal;
//! * an interrupt under a grace period of less than a millisecond raises the
//!   forced signal directly;
//! * a tick that finds nobody listening for the soft signal any more ends the
//!   watch, which raises the forced signal too.
//!
//! Time is a reading of a monotonic clock in nanoseconds.

use vstd::prelude::*;

verus! {

/// The shortest grace period that counts as one, in nanoseconds.
pub const MIN_GRACE_NANOS: u128 = 1_000_000;

/// Where the process stands.
#[derive(Clone, Copy, Debug, PartialEq, Eq, Structural)]
pub enum ShutdownPhase {
    /// No interrupt has been seen.
    Running,
    /// The soft signal was raised when the clock read `since`.
    Draining { since: u128 },
}

/// What woke the watcher.
#[derive(Clone, Copy, Debug, PartialEq, Eq, Structural)]
pub enum Wakeup {
    Interrupt,
    Tick,
}

/// What the watcher sees when it wakes.
#[derive(Clone, Copy, Debug, PartialEq, Eq, Structural)]
pub struct Observation {
    pub wakeup: Wakeup,
    /// The clock's reading.
    pub now: u128,
    /// Whether every listener for the soft signal has gone.
    pub listeners_gone: bool,
}

/// Why the forced signal is raised.
#[derive(Clone, Copy, Debug, PartialEq, Eq, Structural)]
pub enum ForcedReason {
    /// An interrupt came and there is no grace period to speak of.
    NoGracePeriod,
    /// An interrupt came while the process was draining.
    SecondInterrupt,
    /// The process drained for longer than the grace period.
    GraceElapsed,
    /// Nobody listens for the soft signal any more.
    NobodyListening,
}

/// What a wake-up leads to.
#[derive(Clone, Copy, Debug, PartialEq, Eq, Structural)]
pub enum ShutdownStep {
    /// The watch goes on in `phase`; the soft signal is to be raised now if
    /// `raise_soft` is set.
    Continue { phase: ShutdownPhase, raise_soft: bool },
    /// The watch ends and the forced signal is raised.
    Force { reason: ForcedReason },
}

/// The time spent draining up to `now`; zero if the clock reads less than at
/// the start.
pub open spec fn drained_for(since: u128, now: u128) -> int {
    if now >= since {
        now - since
    } else {
        0
    }
}

/// What a wake-up leads to, from the phase, the grace period and what is seen.
pub open spec fn next_step(phase: ShutdownPhase, grace: u128, seen: Observation) -> ShutdownStep {
    match seen.wakeup {
        Wakeup::Interrupt => {
            if grace < MIN_GRACE_NANOS {
                ShutdownStep::Force { reason: ForcedReason::NoGracePeriod }
            } else {
                match phase {
                    ShutdownPhase::Draining { .. } => ShutdownStep::Force {
                        reason: ForcedReason::SecondInterrupt,
                    },
                    ShutdownPhase::Running => ShutdownStep::Continue {
                        phase: ShutdownPhase::Draining { since: seen.now },
                        raise_soft: true,
                    },
                }
            }
        },
        Wakeup::Tick => match phase {
            ShutdownPhase::Running => {
                if seen.listeners_gone {
                    ShutdownStep::Force { reason: ForcedReason::NobodyListening }
                } else {
                    ShutdownStep::Continue { phase: ShutdownPhase::Running, raise_soft: false }
                }
            },
            ShutdownPhase::Draining { since } => {
                if drained_for(since, seen.now) > grace {
                    ShutdownStep::Force { reason: ForcedReason::GraceElapsed }
                } else {
                    ShutdownStep::Continue { phase, raise_soft: false }
                }
            },
        },
    }
}

/// Decides what a wake-up leads to.
pub fn step(phase: ShutdownPhase, grace: u128, seen: Observation) -> (r: ShutdownStep)
    ensures
        r == next_step(phase, grace, seen),
{
    match seen.wakeup {
        Wakeup::Interrupt => {
            if grace < MIN_GRACE_NANOS {
                ShutdownStep::Force { reason: ForcedReason::NoGracePeriod }
            } else {
                match phase {
                    ShutdownPhase::Draining { .. } => ShutdownStep::Force {
                        reason: ForcedReason::SecondInterrupt,
                    },
                    ShutdownPhase::Running => ShutdownStep::Continue {
                        phase: ShutdownPhase::Draining { since: seen.now },
                        raise_soft: true,
                    },
                }
            }
        },
        Wakeup::Tick => match phase {
            ShutdownPhase::Running => {
                if seen.listeners_gone {
                    ShutdownStep::Force { reason: ForcedReason::NobodyListening }
                } else {
                    ShutdownStep::Continue { phase: ShutdownPhase::Running, raise_soft: false }
                }
            },
            ShutdownPhase::Draining { since } => {
                let drained: u128 = if seen.now >= since {
                    seen.now - since
                } else {
                    0
                };
                if drained > grace {
                    ShutdownStep::Force { reason: ForcedReason::GraceElapsed }
                } else {
                    ShutdownStep::Continue { phase, raise_soft: false }
                }
            },
        },
    }
}

/// What a watch has come to after some wake-ups.
pub struct Watch {
    /// The phase, while the watch goes on.
    pub phase: ShutdownPhase,
    /// How often the soft signal was raised.
    pub soft_raised: nat,
    /// Why the forced signal was raised, once it was; the watch is over then.
    pub forced: Option<ForcedReason>,
}

/// A watch that has yet to wake.
pub open spec fn fresh_watch() -> Watch {
    Watch { phase: ShutdownPhase::Running, soft_raised: 0, forced: None }
}

/// The watch after one more wake-up. A watch that is over stays as it is.
pub open spec fn watch_after(w: Watch, grace: u128, seen: Observation) -> Watch {
    if w.forced is Some {
        w
    } else {
        match next_step(w.phase, grace, seen) {
            ShutdownStep::Continue { phase, raise_soft } => Watch {
                phase,
                soft_raised: if raise_soft {
                    w.soft_raised + 1
                } else {
                    w.soft_raised
                },
                forced: None,
            },
            ShutdownStep::Force { reason } => Watch {
                phase: w.phase,
                soft_raised: w.soft_raised,
                forced: Some(reason),
            },
        }
    }
}

/// The watch after the wake-ups of `seen`, in order.
pub open spec fn watch_run(grace: u128, seen: Seq<Observation>) -> Watch
    decreases seen.len(),
{
    if seen.len() == 0 {
        fresh_watch()
    } else {
        watch_after(watch_run(grace, seen.drop_last()), grace, seen.last())
    }
}

/// Whatever wakes the watcher and in whatever order: the soft signal is
/// raised at most once, it has been raised exactly when the process is
/// draining, and a process drains only under a grace period that counts.
pub proof fn law_soft_raised_once(grace: u128, seen: Seq<Observation>)
    ensures
        watch_run(grace, seen).soft_raised <= 1,
        watch_run(grace, seen).soft_raised == 1 <==> watch_run(grace, seen).phase is Draining,
        watch_run(grace, seen).phase is Draining ==> grace >= MIN_GRACE_NANOS,
    decreases seen.len(),
{
    if seen.len() > 0 {
        law_soft_raised_once(grace, seen.drop_last());
    }
}

/// Once the process drains, it does not outlast its grace period: a second
/// interrupt, or any tick that comes when more than the grace period has gone
/// by since the soft signal, raises the forced signal.
pub proof fn law_draining_escalates(since: u128, grace: u128, seen: Observation)
    requires
        seen.wakeup is Interrupt || seen.now - since > grace,
    ensures
        next_step(ShutdownPhase::Draining { since }, grace, seen) is Force,
{
}

/// While no interrupt comes and somebody listens, nothing is raised.
pub proof fn law_quiet_while_running(grace: u128, seen: Observation)
    requires
        seen.wakeup is Tick,
        !seen.listeners_gone,
    ensures
        next_step(ShutdownPhase::Running, grace, seen) == (ShutdownStep::Continue {
            phase: ShutdownPhase::Running,
            raise_soft: false,
        }),
{
}

} // verus!
