use sui_data_loader::shutdown::{
    step, ForcedReason, Observation, ShutdownPhase, ShutdownStep, Wakeup, MIN_GRACE_NANOS,
};

const SECOND: u128 = 1_000_000_000;

fn tick(now: u128) -> Observation {
    Observation { wakeup: Wakeup::Tick, now, listeners_gone: false }
}

fn interrupt(now: u128) -> Observation {
    Observation { wakeup: Wakeup::Interrupt, now, listeners_gone: false }
}

#[test]
fn ticks_change_nothing_while_running() {
    assert_eq!(
        step(ShutdownPhase::Running, 5 * SECOND, tick(100)),
        ShutdownStep::Continue { phase: ShutdownPhase::Running, raise_soft: false }
    );
}

#[test]
fn first_interrupt_raises_the_soft_signal() {
    assert_eq!(
        step(ShutdownPhase::Running, 5 * SECOND, interrupt(42)),
        ShutdownStep::Continue { phase: ShutdownPhase::Draining { since: 42 }, raise_soft: true }
    );
}

#[test]
fn second_interrupt_forces() {
    assert_eq!(
        step(ShutdownPhase::Draining { since: 42 }, 5 * SECOND, interrupt(43)),
        ShutdownStep::Force { reason: ForcedReason::SecondInterrupt }
    );
}

#[test]
fn grace_period_runs_out_strictly_after_its_length() {
    let phase = ShutdownPhase::Draining { since: 42 };
    assert_eq!(
        step(phase, 5 * SECOND, tick(42 + 5 * SECOND)),
        ShutdownStep::Continue { phase, raise_soft: false }
    );
    assert_eq!(
        step(phase, 5 * SECOND, tick(43 + 5 * SECOND)),
        ShutdownStep::Force { reason: ForcedReason::GraceElapsed }
    );
}

#[test]
fn clock_that_reads_less_than_at_the_start_counts_as_no_time() {
    let phase = ShutdownPhase::Draining { since: 42 };
    assert_eq!(step(phase, MIN_GRACE_NANOS, tick(0)), ShutdownStep::Continue { phase, raise_soft: false });
}

#[test]
fn interrupt_without_grace_period_forces_at_once() {
    assert_eq!(
        step(ShutdownPhase::Running, MIN_GRACE_NANOS - 1, interrupt(1)),
        ShutdownStep::Force { reason: ForcedReason::NoGracePeriod }
    );
    assert_eq!(
        step(ShutdownPhase::Running, 0, interrupt(1)),
        ShutdownStep::Force { reason: ForcedReason::NoGracePeriod }
    );
    assert_eq!(
        step(ShutdownPhase::Running, MIN_GRACE_NANOS, interrupt(1)),
        ShutdownStep::Continue { phase: ShutdownPhase::Draining { since: 1 }, raise_soft: true }
    );
}

#[test]
fn watch_ends_when_nobody_listens() {
    let seen = Observation { wakeup: Wakeup::Tick, now: 9, listeners_gone: true };
    assert_eq!(
        step(ShutdownPhase::Running, 5 * SECOND, seen),
        ShutdownStep::Force { reason: ForcedReason::NobodyListening }
    );
    let phase = ShutdownPhase::Draining { since: 1 };
    assert_eq!(step(phase, 5 * SECOND, seen), ShutdownStep::Continue { phase, raise_soft: false });
}

#[test]
fn soft_signal_is_raised_once_in_a_whole_watch() {
    let grace = 2 * SECOND;
    let seen = [tick(0), tick(1), interrupt(2), tick(3), tick(2 + grace), tick(3 + grace), tick(9 * SECOND)];
    let mut phase = ShutdownPhase::Running;
    let mut soft = 0;
    let mut forced = None;
    for (i, s) in seen.iter().enumerate() {
        match step(phase, grace, *s) {
            ShutdownStep::Continue { phase: next, raise_soft } => {
                phase = next;
                if raise_soft {
                    soft += 1;
                }
            }
            ShutdownStep::Force { reason } => {
                forced = Some((i, reason));
                break;
            }
        }
    }
    assert_eq!(soft, 1);
    assert_eq!(forced, Some((5, ForcedReason::GraceElapsed)));
}
