//! The turns that are running: one for a thread, each with a handle by which it
//! can be interrupted.
use std::collections::HashMap;
use vstd::prelude::*;

use crate::runtime::thread::{ThreadId, TurnId};

verus! {

broadcast use vstd::std_specs::hash::group_hash_axioms;

/// The turns that are running. `T` is what a turn is interrupted with.
#[verifier::reject_recursive_types(T)]
pub struct ActiveTurns<T> {
    by_thread: HashMap<u128, u128>,
    by_turn: HashMap<u128, T>,
}

impl<T> ActiveTurns<T> {
    /// The turn that is running for each thread.
    pub closed spec fn turns(&self) -> Map<u128, u128> {
        self.by_thread@
    }

    /// What each turn is interrupted with.
    pub closed spec fn handles(&self) -> Map<u128, T> {
        self.by_turn@
    }

    pub fn new() -> (r: Self)
        ensures
            r.turns() == Map::<u128, u128>::empty(),
            r.handles() == Map::<u128, T>::empty(),
    {
        ActiveTurns { by_thread: HashMap::new(), by_turn: HashMap::new() }
    }

    /// Takes a turn, unless one is running for the thread.
    pub fn insert(&mut self, thread_id: ThreadId, turn_id: TurnId, handle: T) -> (r: bool)
        ensures
            r == !old(self).turns().contains_key(thread_id.value),
            if r {
                final(self).turns() == old(self).turns().insert(thread_id.value, turn_id.value)
                    && final(self).handles() == old(self).handles().insert(turn_id.value, handle)
            } else {
                final(self).turns() == old(self).turns() && final(self).handles() == old(
                    self,
                ).handles()
            },
    {
        if self.by_thread.contains_key(&thread_id.value) {
            return false;
        }
        self.by_thread.insert(thread_id.value, turn_id.value);
        self.by_turn.insert(turn_id.value, handle);
        true
    }

    /// Takes a turn out. A thread whose running turn is another one keeps it.
    pub fn remove(&mut self, thread_id: &ThreadId, turn_id: &TurnId)
        ensures
            final(self).turns() == (if old(self).turns().contains_pair(
                thread_id.value,
                turn_id.value,
            ) {
                old(self).turns().remove(thread_id.value)
            } else {
                old(self).turns()
            }),
            final(self).handles() == old(self).handles().remove(turn_id.value),
    {
        let running = match self.by_thread.get(&thread_id.value) {
            Some(turn) => *turn == turn_id.value,
            None => false,
        };
        if running {
            self.by_thread.remove(&thread_id.value);
        }
        self.by_turn.remove(&turn_id.value);
    }

    /// What a turn is interrupted with.
    pub fn cancellation(&self, turn_id: &TurnId) -> (r: Option<&T>)
        ensures
            match r {
                Some(handle) => self.handles().contains_pair(turn_id.value, *handle),
                None => !self.handles().contains_key(turn_id.value),
            },
    {
        self.by_turn.get(&turn_id.value)
    }
}

/// A turn that was taken and taken out again leaves everything as it was, if it was
/// not known before.
pub proof fn law_finished_turns_leave_no_trace<T>(
    before: ActiveTurns<T>,
    during: ActiveTurns<T>,
    finished: ActiveTurns<T>,
    thread: u128,
    turn: u128,
    handle: T,
)
    requires
        !before.turns().contains_key(thread),
        !before.handles().contains_key(turn),
        during.turns() == before.turns().insert(thread, turn),
        during.handles() == before.handles().insert(turn, handle),
        finished.turns() == (if during.turns().contains_pair(thread, turn) {
            during.turns().remove(thread)
        } else {
            during.turns()
        }),
        finished.handles() == during.handles().remove(turn),
    ensures
        finished.turns() == before.turns(),
        finished.handles() == before.handles(),
{
    assert(finished.turns() =~= before.turns());
    assert(finished.handles() =~= before.handles());
}

} // verus!
