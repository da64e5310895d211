use std::collections::VecDeque;
use sui_data_loader::error::{MalformedRecord, RecordField};
use sui_data_loader::raw::{RawContent, RawObject, RawOwner};
use sui_data_loader::stage::{
    confirm_step, dispose, intake_step, pause_for, retry_step, work_step, Disposition, Failure, Inbox,
    IntakeAction, Outlet, RetryPolicy, RetryStep, WorkAction,
};
use sui_data_loader::transformer::{transform, Fetched, SkipReason, Transformed};

fn raw(type_: &str) -> RawObject {
    RawObject {
        id: Some("0x1".to_string()),
        version: Some(1),
        digest: Some("d".to_string()),
        type_: Some(type_.to_string()),
        owner: Some(RawOwner { address_owner: Some("0xabc".to_string()), object_owner: None, shared: None }),
        previous_transaction: Some("tx".to_string()),
        storage_rebate: None,
        content: Some(RawContent { data_type: None, fields: None }),
        bcs: Some(vec![]),
    }
}

#[test]
fn failures_and_what_follows() {
    assert_eq!(dispose(Failure::TransientIO, 0, 3), Disposition::Retry);
    assert_eq!(dispose(Failure::TransientIO, 2, 3), Disposition::Retry);
    assert_eq!(dispose(Failure::TransientIO, 3, 3), Disposition::Exit);
    assert_eq!(dispose(Failure::TransientIO, 0, 0), Disposition::Exit);
    assert_eq!(
        dispose(Failure::Malformed(MalformedRecord::InvalidTypePath), 9, 3),
        Disposition::SkipAndAcknowledge
    );
    assert_eq!(dispose(Failure::Fatal, 0, 3), Disposition::Exit);
}

#[test]
fn found_object_goes_downstream_with_a_token() {
    let t = transform(&Fetched::Found(raw("0x2::coin::Coin<0x2::sui::SUI>")));
    assert!(t.emits_token());
    match t {
        Transformed::Emit(o) => {
            assert_eq!(o.type_.struct_, "Coin");
            assert_eq!(o.owner, Some("0xabc".to_string()));
        }
        other => panic!("{:?}", other),
    }
}

#[test]
fn malformed_object_is_skipped_with_a_token() {
    let t = transform(&Fetched::Found(raw("Coin")));
    assert_eq!(t, Transformed::Skip(SkipReason::Malformed(MalformedRecord::InvalidTypePath)));
    assert!(t.emits_token());
    let mut r = raw("a::b::c");
    r.digest = None;
    assert_eq!(
        transform(&Fetched::Found(r)),
        Transformed::Skip(SkipReason::Malformed(MalformedRecord::MissingField(RecordField::Digest)))
    );
}

#[test]
fn deleted_object_is_skipped_with_a_token() {
    let t = transform(&Fetched::Deleted);
    assert_eq!(t, Transformed::Skip(SkipReason::Deleted));
    assert!(t.emits_token());
}

#[test]
fn exhausted_retries_stop_the_stage_without_a_token() {
    let t = transform(&Fetched::RetriesExhausted);
    assert_eq!(t, Transformed::Fatal);
    assert!(!t.emits_token());
}

#[test]
fn head_task_decisions() {
    assert_eq!(intake_step(false, 0, Outlet::Room), IntakeAction::Pull);
    assert_eq!(intake_step(false, 0, Outlet::Full), IntakeAction::Pull);
    assert_eq!(intake_step(false, 2, Outlet::Room), IntakeAction::Deliver);
    assert_eq!(intake_step(false, 2, Outlet::Full), IntakeAction::Suspend);
    assert_eq!(intake_step(true, 2, Outlet::Room), IntakeAction::Deliver);
    assert_eq!(intake_step(true, 2, Outlet::Full), IntakeAction::Suspend);
    assert_eq!(intake_step(true, 0, Outlet::Room), IntakeAction::Close);
    assert_eq!(intake_step(true, 0, Outlet::Full), IntakeAction::Close);
    assert_eq!(intake_step(false, 0, Outlet::Gone), IntakeAction::Close);
    assert_eq!(intake_step(false, 3, Outlet::Gone), IntakeAction::Close);
}

#[test]
fn working_task_decisions() {
    assert_eq!(work_step(false, Inbox::Ready), WorkAction::Take);
    assert_eq!(work_step(false, Inbox::Empty), WorkAction::Wait);
    assert_eq!(work_step(false, Inbox::Closed), WorkAction::Return);
    assert_eq!(work_step(true, Inbox::Ready), WorkAction::Return);
    assert_eq!(work_step(true, Inbox::Empty), WorkAction::Return);
    assert_eq!(work_step(true, Inbox::Closed), WorkAction::Return);
}

#[test]
fn confirming_task_decisions() {
    assert_eq!(confirm_step(false, Inbox::Ready, false), WorkAction::Take);
    assert_eq!(confirm_step(false, Inbox::Ready, true), WorkAction::Wait);
    assert_eq!(confirm_step(true, Inbox::Ready, false), WorkAction::Take);
    assert_eq!(confirm_step(true, Inbox::Ready, true), WorkAction::Wait);
    assert_eq!(confirm_step(false, Inbox::Empty, false), WorkAction::Wait);
    assert_eq!(confirm_step(true, Inbox::Empty, false), WorkAction::Return);
    assert_eq!(confirm_step(false, Inbox::Closed, true), WorkAction::Return);
}

/// A head task and a working task over one bounded queue, moved in turns.
struct Chain {
    source: VecDeque<u32>,
    in_hand: VecDeque<u32>,
    queue: VecDeque<u32>,
    capacity: usize,
    closed: bool,
    returned: bool,
    handled: Vec<u32>,
    deepest: usize,
}

impl Chain {
    fn new(records: u32, capacity: usize) -> Chain {
        Chain {
            source: (0..records).collect(),
            in_hand: VecDeque::new(),
            queue: VecDeque::new(),
            capacity,
            closed: false,
            returned: false,
            handled: Vec::new(),
            deepest: 0,
        }
    }

    fn head(&mut self, soft: bool) {
        if self.closed {
            return;
        }
        let outlet = if self.returned {
            Outlet::Gone
        } else if self.queue.len() < self.capacity {
            Outlet::Room
        } else {
            Outlet::Full
        };
        match intake_step(soft, self.in_hand.len(), outlet) {
            IntakeAction::Pull => {
                for _ in 0..3 {
                    if let Some(r) = self.source.pop_front() {
                        self.in_hand.push_back(r);
                    }
                }
            }
            IntakeAction::Deliver => {
                let r = self.in_hand.pop_front().unwrap();
                self.queue.push_back(r);
                self.deepest = self.deepest.max(self.queue.len());
            }
            IntakeAction::Suspend => {}
            IntakeAction::Close => self.closed = true,
        }
    }

    fn worker(&mut self, forced: bool) {
        if self.returned {
            return;
        }
        let inbox = if !self.queue.is_empty() {
            Inbox::Ready
        } else if self.closed {
            Inbox::Closed
        } else {
            Inbox::Empty
        };
        match work_step(forced, inbox) {
            WorkAction::Take => {
                let r = self.queue.pop_front().unwrap();
                self.handled.push(r);
            }
            WorkAction::Wait => {}
            WorkAction::Return => self.returned = true,
        }
    }
}

#[test]
fn blocked_downstream_fills_the_queue_and_no_more() {
    let mut chain = Chain::new(100, 4);
    for _ in 0..1000 {
        chain.head(false);
    }
    assert_eq!(chain.queue.len(), 4);
    assert_eq!(chain.deepest, 4);
    assert!(chain.in_hand.len() <= 3);
    assert!(chain.source.len() >= 100 - 4 - 3);
}

#[test]
fn soft_signal_drains_what_is_buffered_and_nothing_else() {
    let mut chain = Chain::new(100, 4);
    for _ in 0..7 {
        chain.head(false);
        chain.head(false);
        chain.worker(false);
    }
    let handled_before = chain.handled.len();
    let buffered: Vec<u32> = chain.queue.iter().chain(chain.in_hand.iter()).copied().collect();
    let waiting_outside = chain.source.len();
    assert!(!buffered.is_empty());
    let mut turns = 0;
    while !(chain.closed && chain.returned) {
        chain.head(true);
        chain.worker(false);
        turns += 1;
        assert!(turns < 1000);
    }
    assert_eq!(chain.handled[handled_before..], buffered[..]);
    assert_eq!(chain.source.len(), waiting_outside);
    assert!(chain.queue.is_empty() && chain.in_hand.is_empty());
    assert!(chain.deepest <= 4);
}

#[test]
fn forced_signal_stops_the_worker_at_its_next_move() {
    let mut chain = Chain::new(100, 4);
    for _ in 0..7 {
        chain.head(false);
        chain.head(false);
        chain.worker(false);
    }
    let handled = chain.handled.clone();
    assert!(!chain.queue.is_empty());
    chain.worker(true);
    assert!(chain.returned);
    for _ in 0..10 {
        chain.head(true);
        chain.worker(true);
    }
    assert_eq!(chain.handled, handled);
    assert!(chain.closed);
}

#[test]
fn pauses_double_up_to_their_bound() {
    let policy = RetryPolicy { budget: 10, first_pause: 100, longest_pause: 1500 };
    let pauses: Vec<u64> = (0..7).map(|n| pause_for(policy, n)).collect();
    assert_eq!(pauses, vec![100, 200, 400, 800, 1500, 1500, 1500]);
    assert_eq!(pause_for(policy, u32::MAX), 1500);
    let policy = RetryPolicy { budget: 10, first_pause: 0, longest_pause: 1500 };
    assert_eq!(pause_for(policy, 0), 0);
    assert_eq!(pause_for(policy, u32::MAX), 0);
    let policy = RetryPolicy { budget: 10, first_pause: 7, longest_pause: 3 };
    assert_eq!(pause_for(policy, 0), 3);
    assert_eq!(pause_for(policy, 5), 3);
    let policy = RetryPolicy { budget: 10, first_pause: 1, longest_pause: u64::MAX };
    assert_eq!(pause_for(policy, 63), 1u64 << 63);
    assert_eq!(pause_for(policy, 64), u64::MAX);
    assert_eq!(pause_for(policy, 65), u64::MAX);
}

#[test]
fn retries_end_with_the_budget() {
    let policy = RetryPolicy { budget: 2, first_pause: 50, longest_pause: 60 };
    assert_eq!(retry_step(Failure::TransientIO, 0, policy), RetryStep::Retry { pause: 50 });
    assert_eq!(retry_step(Failure::TransientIO, 1, policy), RetryStep::Retry { pause: 60 });
    assert_eq!(retry_step(Failure::TransientIO, 2, policy), RetryStep::Exit);
    assert_eq!(retry_step(Failure::Fatal, 0, policy), RetryStep::Exit);
    assert_eq!(
        retry_step(Failure::Malformed(MalformedRecord::ConflictingOwner), 0, policy),
        RetryStep::SkipAndAcknowledge
    );
}
