//! What the tasks of a stage do next.
//!
//! A stage is a chain of tasks joined by bounded channels. The task at the
//! head takes records from outside (the chain node, or a broker topic) and
//! passes them on; the tasks behind it work off what reaches them. Each task
//! runs a loop, and the functions of this module are the decisions of one
//! turn of such a loop. They are the same for every stage.
//!
//! The soft signal reaches the head task: it takes nothing more from outside,
//! passes on what it holds and closes its channel. The closing then travels
//! down the chain: a task whose inbox is empty and closed returns. The forced
//! signal reaches the working tasks: they return at once, leaving what is in
//! the channels to be delivered again after a restart.

use vstd::prelude::*;
use crate::error::MalformedRecord;

verus! {

/// What went wrong in a stage.
#[derive(Clone, Copy, Debug, PartialEq, Eq, Structural)]
pub enum Failure {
    /// The network, the broker or the store let an operation down.
    TransientIO,
    /// A record could not be decoded.
    Malformed(MalformedRecord),
    /// Nothing can be done about it.
    Fatal,
}

/// What follows from a failure.
#[derive(Clone, Copy, Debug, PartialEq, Eq, Structural)]
pub enum Disposition {
    /// Try the operation again, after a pause.
    Retry,
    /// Drop the record and acknowledge its message.
    SkipAndAcknowledge,
    /// End the stage with an error.
    Exit,
}

/// A transient failure is retried while the budget lasts and ends the stage
/// after that; a malformed record is skipped; a fatal failure ends the stage.
pub open spec fn disposition_of(failure: Failure, attempts: u32, budget: u32) -> Disposition {
    match failure {
        Failure::TransientIO => if attempts < budget {
            Disposition::Retry
        } else {
            Disposition::Exit
        },
        Failure::Malformed(_) => Disposition::SkipAndAcknowledge,
        Failure::Fatal => Disposition::Exit,
    }
}

/// Decides what follows from a failure, `attempts` retries having been made
/// of the `budget` that the operation has.
pub fn dispose(failure: Failure, attempts: u32, budget: u32) -> (r: Disposition)
    ensures
        r == disposition_of(failure, attempts, budget),
{
    match failure {
        Failure::TransientIO => if attempts < budget {
            Disposition::Retry
        } else {
            Disposition::Exit
        },
        Failure::Malformed(_) => Disposition::SkipAndAcknowledge,
        Failure::Fatal => Disposition::Exit,
    }
}

/// How an operation is tried again: how often, and how long to pause before
/// each new attempt. The pause doubles from one attempt to the next and never
/// exceeds its bound.
#[derive(Clone, Copy, Debug, PartialEq, Eq, Structural)]
pub struct RetryPolicy {
    /// How many retries an operation has.
    pub budget: u32,
    /// The pause before the first retry, in milliseconds.
    pub first_pause: u64,
    /// The longest pause, in milliseconds.
    pub longest_pause: u64,
}

/// What to do after a failed attempt.
#[derive(Clone, Copy, Debug, PartialEq, Eq, Structural)]
pub enum RetryStep {
    /// Pause for this many milliseconds, then try again.
    Retry { pause: u64 },
    /// Drop the record and acknowledge its message.
    SkipAndAcknowledge,
    /// End the stage with an error.
    Exit,
}

/// The smaller of two numbers.
pub open spec fn least(a: int, b: int) -> int {
    if a <= b {
        a
    } else {
        b
    }
}

/// The pause before retry number `attempts`, counted from zero: the first
/// pause doubled that many times, held at the bound.
pub open spec fn pause_before(first: u64, longest: u64, attempts: nat) -> int
    decreases attempts,
{
    if attempts == 0 {
        least(first as int, longest as int)
    } else {
        least(2 * pause_before(first, longest, (attempts - 1) as nat), longest as int)
    }
}

/// What follows a failed attempt under a policy, `attempts` retries having
/// been made.
pub open spec fn retry_step_of(failure: Failure, attempts: u32, policy: RetryPolicy) -> RetryStep {
    match disposition_of(failure, attempts, policy.budget) {
        Disposition::Retry => RetryStep::Retry {
            pause: pause_before(policy.first_pause, policy.longest_pause, attempts as nat) as u64,
        },
        Disposition::SkipAndAcknowledge => RetryStep::SkipAndAcknowledge,
        Disposition::Exit => RetryStep::Exit,
    }
}

/// No pause is longer than the bound, and none is shorter than the one
/// before it.
pub proof fn law_pauses_bounded(first: u64, longest: u64, attempts: nat)
    ensures
        0 <= pause_before(first, longest, attempts) <= longest,
        pause_before(first, longest, attempts) <= pause_before(first, longest, attempts + 1),
    decreases attempts,
{
    if attempts > 0 {
        law_pauses_bounded(first, longest, (attempts - 1) as nat);
    }
}

proof fn lemma_pause_settles(first: u64, longest: u64, reached: nat, later: nat)
    requires
        reached <= later,
        pause_before(first, longest, reached) == longest || pause_before(first, longest, reached)
            == 0,
    ensures
        pause_before(first, longest, later) == pause_before(first, longest, reached),
    decreases later - reached,
{
    if reached < later {
        lemma_pause_settles(first, longest, reached, (later - 1) as nat);
    }
}

/// The pause before retry number `attempts`, in milliseconds.
pub fn pause_for(policy: RetryPolicy, attempts: u32) -> (pause: u64)
    ensures
        pause == pause_before(policy.first_pause, policy.longest_pause, attempts as nat),
{
    let longest = policy.longest_pause;
    let mut pause = if policy.first_pause <= longest {
        policy.first_pause
    } else {
        longest
    };
    let mut done: u32 = 0;
    while done < attempts && pause != 0 && pause != longest
        invariant
            done <= attempts,
            longest == policy.longest_pause,
            pause == pause_before(policy.first_pause, longest, done as nat),
            pause <= longest,
        decreases attempts - done,
    {
        pause = if pause > longest / 2 {
            longest
        } else {
            pause * 2
        };
        done += 1;
    }
    proof {
        if done < attempts {
            lemma_pause_settles(policy.first_pause, longest, done as nat, attempts as nat);
        }
    }
    pause
}

/// Decides what follows a failed attempt, `attempts` retries having been
/// made.
pub fn retry_step(failure: Failure, attempts: u32, policy: RetryPolicy) -> (r: RetryStep)
    ensures
        r == retry_step_of(failure, attempts, policy),
{
    proof {
        law_pauses_bounded(policy.first_pause, policy.longest_pause, attempts as nat);
    }
    match dispose(failure, attempts, policy.budget) {
        Disposition::Retry => RetryStep::Retry { pause: pause_for(policy, attempts) },
        Disposition::SkipAndAcknowledge => RetryStep::SkipAndAcknowledge,
        Disposition::Exit => RetryStep::Exit,
    }
}

/// The state of the channel that a task writes to.
#[derive(Clone, Copy, Debug, PartialEq, Eq, Structural)]
pub enum Outlet {
    /// A record can be written.
    Room,
    /// The channel holds as many records as it takes.
    Full,
    /// Nobody reads the channel any more.
    Gone,
}

/// The state of the channel that a task reads from.
#[derive(Clone, Copy, Debug, PartialEq, Eq, Structural)]
pub enum Inbox {
    /// A record can be taken.
    Ready,
    /// There is no record now; more may come.
    Empty,
    /// There is no record and none will come.
    Closed,
}

/// What the head task of a stage does next.
#[derive(Clone, Copy, Debug, PartialEq, Eq, Structural)]
pub enum IntakeAction {
    /// Take more records from outside.
    Pull,
    /// Write the oldest record in hand to the channel.
    Deliver,
    /// Wait for room in the channel.
    Suspend,
    /// Close the channel and return.
    Close,
}

/// What a working task does next.
#[derive(Clone, Copy, Debug, PartialEq, Eq, Structural)]
pub enum WorkAction {
    /// Take the next record and handle it.
    Take,
    /// Wait for a record, or for room.
    Wait,
    /// Return.
    Return,
}

/// The head task passes on what it has in hand before anything else, waiting
/// when the channel is full; with nothing in hand it takes more from outside,
/// unless the soft signal is up, in which case it closes. It closes at once
/// when nobody reads its channel.
pub open spec fn intake_action(soft: bool, in_hand: nat, outlet: Outlet) -> IntakeAction {
    if outlet is Gone {
        IntakeAction::Close
    } else if in_hand > 0 {
        if outlet is Room {
            IntakeAction::Deliver
        } else {
            IntakeAction::Suspend
        }
    } else if soft {
        IntakeAction::Close
    } else {
        IntakeAction::Pull
    }
}

/// Decides the next move of a head task that has `in_hand` records fetched
/// and not yet passed on.
pub fn intake_step(soft: bool, in_hand: usize, outlet: Outlet) -> (r: IntakeAction)
    ensures
        r == intake_action(soft, in_hand as nat, outlet),
{
    match outlet {
        Outlet::Gone => IntakeAction::Close,
        Outlet::Room => if in_hand > 0 {
            IntakeAction::Deliver
        } else if soft {
            IntakeAction::Close
        } else {
            IntakeAction::Pull
        },
        Outlet::Full => if in_hand > 0 {
            IntakeAction::Suspend
        } else if soft {
            IntakeAction::Close
        } else {
            IntakeAction::Pull
        },
    }
}

/// A working task returns under the forced signal, and when its inbox is
/// closed; otherwise it takes what is there, or waits.
pub open spec fn work_action(forced: bool, inbox: Inbox) -> WorkAction {
    if forced {
        WorkAction::Return
    } else {
        match inbox {
            Inbox::Ready => WorkAction::Take,
            Inbox::Empty => WorkAction::Wait,
            Inbox::Closed => WorkAction::Return,
        }
    }
}

/// Decides the next move of a task that publishes, transforms or loads.
pub fn work_step(forced: bool, inbox: Inbox) -> (r: WorkAction)
    ensures
        r == work_action(forced, inbox),
{
    if forced {
        WorkAction::Return
    } else {
        match inbox {
            Inbox::Ready => WorkAction::Take,
            Inbox::Empty => WorkAction::Wait,
            Inbox::Closed => WorkAction::Return,
        }
    }
}

/// The confirming task takes a token only while its window has room. Under
/// the forced signal it still works off the tokens that are queued, and
/// returns when there is none.
pub open spec fn confirm_action(forced: bool, inbox: Inbox, window_full: bool) -> WorkAction {
    match inbox {
        Inbox::Ready => if window_full {
            WorkAction::Wait
        } else {
            WorkAction::Take
        },
        Inbox::Empty => if forced {
            WorkAction::Return
        } else {
            WorkAction::Wait
        },
        Inbox::Closed => WorkAction::Return,
    }
}

/// Decides the next move of the confirming task.
pub fn confirm_step(forced: bool, inbox: Inbox, window_full: bool) -> (r: WorkAction)
    ensures
        r == confirm_action(forced, inbox, window_full),
{
    match inbox {
        Inbox::Ready => if window_full {
            WorkAction::Wait
        } else {
            WorkAction::Take
        },
        Inbox::Empty => if forced {
            WorkAction::Return
        } else {
            WorkAction::Wait
        },
        Inbox::Closed => WorkAction::Return,
    }
}

/// A head task and a working task with the channel between them, in numbers.
pub struct Stage {
    /// How many records the channel takes.
    pub capacity: nat,
    /// Records taken from outside so far.
    pub pulled: nat,
    /// Records that the head task has in hand.
    pub in_hand: nat,
    /// Records in the channel.
    pub queued: nat,
    /// Records that the working task has handled.
    pub handled: nat,
    /// The head task has closed the channel.
    pub closed: bool,
    /// The working task has returned.
    pub returned: bool,
}

/// One move of one of the two tasks.
pub enum Move {
    /// The head task moves; if it pulls, `batch` records come in.
    Intake { batch: nat },
    /// The working task moves.
    Work,
}

impl Stage {
    /// What the head task finds when it looks at its channel.
    pub open spec fn outlet(self) -> Outlet {
        if self.returned {
            Outlet::Gone
        } else if self.queued < self.capacity {
            Outlet::Room
        } else {
            Outlet::Full
        }
    }

    /// What the working task finds when it looks at its channel.
    pub open spec fn inbox(self) -> Inbox {
        if self.queued > 0 {
            Inbox::Ready
        } else if self.closed {
            Inbox::Closed
        } else {
            Inbox::Empty
        }
    }

    /// The records that are in the stage and not yet handled.
    pub open spec fn buffered(self) -> nat {
        self.in_hand + self.queued
    }

    /// Both tasks have ended.
    pub open spec fn finished(self) -> bool {
        self.closed && self.returned
    }

    /// What holds of a stage on which the forced signal was never raised: the
    /// head task closes with nothing in hand, and the working task returns
    /// with nothing left in a closed channel.
    pub open spec fn orderly(self) -> bool {
        &&& self.queued <= self.capacity
        &&& self.closed ==> self.in_hand == 0
        &&& self.returned ==> self.closed && self.queued == 0
    }

    /// The stage after one move, under the two signals.
    pub open spec fn after(self, soft: bool, forced: bool, m: Move) -> Stage {
        match m {
            Move::Intake { batch } => if self.closed {
                self
            } else {
                match intake_action(soft, self.in_hand, self.outlet()) {
                    IntakeAction::Pull => Stage {
                        pulled: self.pulled + batch,
                        in_hand: self.in_hand + batch,
                        ..self
                    },
                    IntakeAction::Deliver => Stage {
                        in_hand: (self.in_hand - 1) as nat,
                        queued: self.queued + 1,
                        ..self
                    },
                    IntakeAction::Suspend => self,
                    IntakeAction::Close => Stage { closed: true, ..self },
                }
            },
            Move::Work => if self.returned {
                self
            } else {
                match work_action(forced, self.inbox()) {
                    WorkAction::Take => Stage {
                        queued: (self.queued - 1) as nat,
                        handled: self.handled + 1,
                        ..self
                    },
                    WorkAction::Wait => self,
                    WorkAction::Return => Stage { returned: true, ..self },
                }
            },
        }
    }

    /// The stage after the moves of `moves`, in order.
    pub open spec fn run(self, soft: bool, forced: bool, moves: Seq<Move>) -> Stage
        decreases moves.len(),
    {
        if moves.len() == 0 {
            self
        } else {
            self.run(soft, forced, moves.drop_last()).after(soft, forced, moves.last())
        }
    }
}

/// The channel never holds more records than it takes, whatever the tasks do
/// and whatever signals are up: a head task whose channel is full waits.
pub proof fn law_queue_bounded(stage: Stage, soft: bool, forced: bool, moves: Seq<Move>)
    requires
        stage.queued <= stage.capacity,
    ensures
        stage.run(soft, forced, moves).queued <= stage.capacity,
        stage.run(soft, forced, moves).capacity == stage.capacity,
    decreases moves.len(),
{
    if moves.len() > 0 {
        law_queue_bounded(stage, soft, forced, moves.drop_last());
    }
}

/// As long as the forced signal stays down, every record taken from outside
/// is either handled or still in the stage: none is lost and none is made
/// up, whatever the soft signal does and however the two tasks take turns.
pub proof fn law_no_record_lost(stage: Stage, soft: bool, moves: Seq<Move>)
    requires
        stage.orderly(),
    ensures
        stage.run(soft, false, moves).orderly(),
        stage.run(soft, false, moves).handled + stage.run(soft, false, moves).buffered()
            - stage.run(soft, false, moves).pulled == stage.handled + stage.buffered()
            - stage.pulled,
    decreases moves.len(),
{
    if moves.len() > 0 {
        law_no_record_lost(stage, soft, moves.drop_last());
    }
}

/// After the soft signal, and as long as the forced signal stays down,
/// nothing more is taken from outside, and what was buffered when the signal
/// came is handled or still buffered, however the two tasks take turns. When
/// both tasks have ended, as many records have been handled since the signal
/// as were buffered when it came: all of them, and no other.
pub proof fn law_soft_drain(stage: Stage, moves: Seq<Move>)
    requires
        stage.orderly(),
    ensures
        stage.run(true, false, moves).orderly(),
        stage.run(true, false, moves).pulled == stage.pulled,
        stage.run(true, false, moves).handled + stage.run(true, false, moves).buffered()
            == stage.handled + stage.buffered(),
        stage.run(true, false, moves).finished() ==> stage.run(true, false, moves).handled
            == stage.handled + stage.buffered(),
    decreases moves.len(),
{
    if moves.len() > 0 {
        law_soft_drain(stage, moves.drop_last());
    }
}

/// Under the forced signal a working task that has not returned returns at
/// its next move, and handles nothing more, ever.
pub proof fn law_forced_stops(stage: Stage, soft: bool, moves: Seq<Move>)
    ensures
        stage.run(soft, true, moves).handled == stage.handled,
        !stage.returned ==> stage.after(soft, true, Move::Work).returned,
    decreases moves.len(),
{
    if moves.len() > 0 {
        law_forced_stops(stage, soft, moves.drop_last());
    }
}

} // verus!
