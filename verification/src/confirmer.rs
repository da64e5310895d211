//! The window of messages that await their acknowledgement.
//!
//! A delivered message stays with the broker until it is acknowledged. The
//! confirming task takes completion tokens from its channel and acknowledges
//! the messages they stand for; the handles of those that it has taken and
//! not yet settled form its window. The window is bounded: when it is full
//! the task takes no further token, which leaves the token in the channel and
//! lets the channel fill up behind it. No token is dropped.
//!
//! A delivery handle is the broker's own; here it is the number under which
//! the caller keeps it.

use vstd::prelude::*;

verus! {

/// What happens to a window.
pub enum WindowEvent {
    /// A token with this handle is offered.
    Admit(u64),
    /// The message with this handle is acknowledged.
    Settle(u64),
}

/// A window takes a handle that it does not hold, while it has room.
pub open spec fn admits(limit: nat, outstanding: Set<u64>, handle: u64) -> bool {
    outstanding.len() < limit && !outstanding.contains(handle)
}

/// The handles of a window after an event.
pub open spec fn window_after(limit: nat, outstanding: Set<u64>, event: WindowEvent) -> Set<u64> {
    match event {
        WindowEvent::Admit(handle) => if admits(limit, outstanding, handle) {
            outstanding.insert(handle)
        } else {
            outstanding
        },
        WindowEvent::Settle(handle) => outstanding.remove(handle),
    }
}

/// The handles of a window after the events of `events`, in order.
pub open spec fn window_run(limit: nat, start: Set<u64>, events: Seq<WindowEvent>) -> Set<u64>
    decreases events.len(),
{
    if events.len() == 0 {
        start
    } else {
        window_after(limit, window_run(limit, start, events.drop_last()), events.last())
    }
}

/// A handle leaves the window by its own acknowledgement and in no other
/// way: whatever else is offered or acknowledged, a message that was taken
/// in and not acknowledged is still outstanding. It is these messages that a
/// broker delivers again when the subscription is taken up anew.
pub proof fn law_unsettled_stays(
    limit: nat,
    start: Set<u64>,
    events: Seq<WindowEvent>,
    handle: u64,
)
    requires
        start.contains(handle),
        forall|i: int| 0 <= i < events.len() ==> events[i] != WindowEvent::Settle(handle),
    ensures
        window_run(limit, start, events).contains(handle),
    decreases events.len(),
{
    if events.len() > 0 {
        law_unsettled_stays(limit, start, events.drop_last(), handle);
    }
}

/// The window never outgrows its limit.
pub proof fn law_window_bounded(limit: nat, start: Set<u64>, events: Seq<WindowEvent>)
    requires
        start.finite(),
        start.len() <= limit,
    ensures
        window_run(limit, start, events).finite(),
        window_run(limit, start, events).len() <= limit,
    decreases events.len(),
{
    if events.len() > 0 {
        law_window_bounded(limit, start, events.drop_last());
    }
}

/// A bounded set of delivery handles.
pub struct AckWindow {
    capacity: usize,
    pending: Vec<u64>,
}

impl AckWindow {
    /// The window's invariant: it holds no more handles than it takes, and
    /// none twice.
    pub closed spec fn well_formed(&self) -> bool {
        &&& self.pending@.len() <= self.capacity
        &&& self.pending@.no_duplicates()
    }

    /// The handles that await their acknowledgement.
    pub closed spec fn outstanding(&self) -> Set<u64> {
        self.pending@.to_set()
    }

    /// A well-formed window holds finitely many handles, and no more than it
    /// takes.
    pub proof fn law_within_limit(&self)
        requires
            self.well_formed(),
        ensures
            self.outstanding().finite(),
            self.outstanding().len() <= self.limit(),
    {
        self.lemma_count();
    }

    proof fn lemma_count(&self)
        requires
            self.well_formed(),
        ensures
            self.outstanding().finite(),
            self.outstanding().len() == self.pending@.len(),
    {
        self.pending@.unique_seq_to_set();
        vstd::seq_lib::seq_to_set_is_finite(self.pending@);
    }

    /// How many handles the window takes.
    pub closed spec fn limit(&self) -> nat {
        self.capacity as nat
    }

    /// An empty window for up to `capacity` handles.
    pub fn new(capacity: usize) -> (w: Self)
        ensures
            w.well_formed(),
            w.outstanding() == Set::<u64>::empty(),
            w.limit() == capacity,
    {
        let w = AckWindow { capacity, pending: Vec::new() };
        proof {
            assert(w.outstanding() =~= Set::<u64>::empty());
        }
        w
    }

    /// The number of handles in the window; never more than its capacity.
    pub fn len(&self) -> (n: usize)
        requires
            self.well_formed(),
        ensures
            n == self.outstanding().len(),
            n <= self.limit(),
    {
        proof {
            self.lemma_count();
        }
        self.pending.len()
    }

    /// The capacity that the window was made with.
    pub fn capacity(&self) -> (n: usize)
        ensures
            n == self.limit(),
    {
        self.capacity
    }

    /// Whether the window can take no further handle.
    pub fn is_full(&self) -> (full: bool)
        requires
            self.well_formed(),
        ensures
            full == (self.outstanding().len() >= self.limit()),
    {
        proof {
            self.lemma_count();
        }
        self.pending.len() >= self.capacity
    }

    /// Whether `handle` awaits its acknowledgement.
    pub fn contains(&self, handle: u64) -> (found: bool)
        ensures
            found == self.outstanding().contains(handle),
    {
        self.position(handle).is_some()
    }

    fn position(&self, handle: u64) -> (at: Option<usize>)
        ensures
            at matches Some(i) ==> i < self.pending@.len() && self.pending@[i as int] == handle,
            at is None ==> !self.pending@.contains(handle),
    {
        let mut i: usize = 0;
        while i < self.pending.len()
            invariant
                i <= self.pending@.len(),
                forall|j: int| 0 <= j < i ==> self.pending@[j] != handle,
            decreases self.pending@.len() - i,
        {
            if self.pending[i] == handle {
                return Some(i);
            }
            i += 1;
        }
        None
    }

    /// Takes `handle` into the window if there is room for it and it is not
    /// there already. A handle that is not taken leaves the window as it was:
    /// the caller keeps the token and waits.
    pub fn try_admit(&mut self, handle: u64) -> (admitted: bool)
        requires
            old(self).well_formed(),
        ensures
            final(self).well_formed(),
            admitted == admits(old(self).limit(), old(self).outstanding(), handle),
            final(self).outstanding() == window_after(
                old(self).limit(),
                old(self).outstanding(),
                WindowEvent::Admit(handle),
            ),
            final(self).limit() == old(self).limit(),
    {
        proof {
            old(self).lemma_count();
        }
        if self.pending.len() >= self.capacity || self.position(handle).is_some() {
            return false;
        }
        let ghost before = self.pending@;
        self.pending.push(handle);
        proof {
            assert forall|h: u64|
                self.pending@.contains(h) <==> (before.contains(h) || h == handle) by {
                if before.contains(h) {
                    let i = choose|i: int| 0 <= i < before.len() && before[i] == h;
                    assert(self.pending@[i] == h);
                }
                if h == handle {
                    assert(self.pending@[before.len() as int] == h);
                }
            }
            assert(self.outstanding() =~= old(self).outstanding().insert(handle));
            assert(self.pending@.no_duplicates());
        }
        true
    }

    /// Takes `handle` out of the window, once its message is acknowledged.
    /// Says whether it was there. No other handle leaves.
    pub fn settle(&mut self, handle: u64) -> (found: bool)
        requires
            old(self).well_formed(),
        ensures
            final(self).well_formed(),
            found == old(self).outstanding().contains(handle),
            final(self).outstanding() == window_after(
                old(self).limit(),
                old(self).outstanding(),
                WindowEvent::Settle(handle),
            ),
            final(self).limit() == old(self).limit(),
    {
        match self.position(handle) {
            Some(at) => {
                let ghost before = self.pending@;
                self.pending.remove(at);
                proof {
                    let after = self.pending@;
                    assert(after =~= before.remove(at as int));
                    assert forall|h: u64| after.contains(h) <==> (before.contains(h) && h
                        != handle) by {
                        if after.contains(h) {
                            let i = choose|i: int| 0 <= i < after.len() && after[i] == h;
                            if i < at {
                                assert(before[i] == h);
                            } else {
                                assert(before[i + 1] == h);
                            }
                        }
                        if before.contains(h) && h != handle {
                            let i = choose|i: int| 0 <= i < before.len() && before[i] == h;
                            if i < at {
                                assert(after[i] == h);
                            } else {
                                assert(after[i - 1] == h);
                            }
                        }
                    }
                    assert(self.outstanding() =~= old(self).outstanding().remove(handle));
                }
                true
            },
            None => {
                proof {
                    assert(self.outstanding() =~= old(self).outstanding().remove(handle));
                }
                false
            },
        }
    }
}

} // verus!
