//! The admission controller's bookkeeping: a pool of permits that bounds how many tasks are
//! in flight, and a registry of keys that lets one task per key execute at a time.
//!
//! The controller decides; whoever drives it waits and runs the tasks. A task is entered
//! (it takes a permit and is counted under its key), begins (it takes its key's lock),
//! and finishes (it gives both back). A task that gives up while it waits for the lock
//! withdraws.
use vstd::prelude::*;
use vstd::string::StringExecFns;
use crate::admission::laws::{acquire_keeps_wf, begin_keeps_wf, finish_keeps_wf, withdraw_keeps_wf};
use crate::admission::lemmas::{position_found, running_within_len, sum_bounds_each};
use crate::admission::model::{
    holders_weight, position_from, running_weight, sum_over, AdmissionModel, SlotModel,
};

pub mod laws;
pub mod lemmas;
pub mod model;

verus! {

/// The registry's entry for one key.
struct KeySlot {
    key: String,
    holders: usize,
    running: bool,
}

impl KeySlot {
    closed spec fn model(self) -> SlotModel {
        SlotModel { key: self.key@, holders: self.holders as nat, running: self.running }
    }
}

/// The controller. Its steps are single calls, so that whoever shares it behind one lock
/// has each step as one critical section.
pub struct AdmissionController {
    capacity: usize,
    admitted: usize,
    slots: Vec<KeySlot>,
}

impl View for AdmissionController {
    type V = AdmissionModel;

    closed spec fn view(&self) -> AdmissionModel {
        AdmissionModel {
            capacity: self.capacity as nat,
            admitted: self.admitted as nat,
            slots: Seq::new(self.slots@.len(), |i: int| self.slots@[i].model()),
        }
    }
}

impl AdmissionController {
    /// A controller with a pool of `capacity` permits and an empty registry.
    pub fn new(capacity: usize) -> (controller: AdmissionController)
        ensures
            controller@ == AdmissionModel::empty(capacity as nat),
            controller@.wf(),
    {
        let controller = AdmissionController { capacity, admitted: 0, slots: Vec::new() };
        proof {
            assert(controller@.slots =~= Seq::empty());
        }
        controller
    }

    /// The size of the permit pool.
    pub fn capacity(&self) -> (n: usize)
        ensures
            n == self@.capacity,
    {
        self.capacity
    }

    /// How many permits are out.
    pub fn in_flight(&self) -> (n: usize)
        ensures
            n == self@.admitted,
    {
        self.admitted
    }

    /// How many keys the registry holds.
    pub fn registered(&self) -> (n: usize)
        ensures
            n == self@.slots.len(),
    {
        self.slots.len()
    }

    fn locate(&self, key: &String) -> (at: usize)
        ensures
            at == self@.position(key@),
            at <= self.slots.len(),
            at < self.slots.len() ==> self.slots@[at as int].key@ == key@,
    {
        let mut i: usize = 0;
        proof {
            position_found(self@.slots, key@, 0);
        }
        while i < self.slots.len()
            invariant
                i <= self.slots.len(),
                self@.position(key@) == position_from(self@.slots, key@, i as int),
            decreases self.slots.len() - i,
        {
            if self.slots[i].key == *key {
                return i;
            }
            i += 1;
        }
        i
    }

    /// Whether the registry has an entry for `key`.
    pub fn contains(&self, key: &str) -> (found: bool)
        ensures
            found == self@.contains(key@),
    {
        let key = String::from_str(key);
        self.locate(&key) < self.slots.len()
    }

    /// How many admitted tasks have `key`.
    pub fn holders(&self, key: &str) -> (n: usize)
        ensures
            n == self@.holders(key@),
    {
        let key = String::from_str(key);
        let at = self.locate(&key);
        if at < self.slots.len() {
            self.slots[at].holders
        } else {
            0
        }
    }

    /// Whether a task with `key` is executing.
    pub fn is_running(&self, key: &str) -> (running: bool)
        ensures
            running == self@.is_running(key@),
    {
        let key = String::from_str(key);
        let at = self.locate(&key);
        at < self.slots.len() && self.slots[at].running
    }

    /// How many tasks are executing.
    pub fn running(&self) -> (n: usize)
        ensures
            n == self@.running(),
    {
        let mut n: usize = 0;
        let mut i: usize = 0;
        while i < self.slots.len()
            invariant
                i <= self.slots.len(),
                n == sum_over(self@.slots, i as int, running_weight()),
                n <= i,
            decreases self.slots.len() - i,
        {
            proof {
                running_within_len(self@.slots, i as int + 1);
            }
            if self.slots[i].running {
                n += 1;
            }
            i += 1;
        }
        n
    }

    /// Enters a task with `key`, if a permit is free: it takes the permit and is counted
    /// under its key. Says whether it was entered; if not, the caller waits for a permit and
    /// asks again.
    pub fn acquire(&mut self, key: &str) -> (entered: bool)
        requires
            old(self)@.wf(),
        ensures
            entered == old(self)@.can_acquire(),
            final(self)@ == old(self)@.acquire(key@),
            final(self)@.wf(),
    {
        proof {
            acquire_keeps_wf(self@, key@);
        }
        if self.admitted >= self.capacity {
            return false;
        }
        let key = String::from_str(key);
        let at = self.locate(&key);
        if at < self.slots.len() {
            proof {
                sum_bounds_each(self@.slots, self@.slots.len() as int, at as int, holders_weight());
            }
            let slot = &self.slots[at];
            let more = KeySlot { key, holders: slot.holders + 1, running: slot.running };
            self.slots.set(at, more);
        } else {
            self.slots.push(KeySlot { key, holders: 1, running: false });
        }
        self.admitted += 1;
        proof {
            assert(self@.slots =~= old(self)@.acquire(key@).slots);
        }
        true
    }

    /// Lets a waiting task with `key` start executing, if none of its key is executing. Says
    /// whether it started; if not, the caller waits for the key and asks again.
    pub fn begin(&mut self, key: &str) -> (started: bool)
        requires
            old(self)@.wf(),
        ensures
            started == old(self)@.can_begin(key@),
            final(self)@ == old(self)@.begin(key@),
            final(self)@.wf(),
    {
        proof {
            begin_keeps_wf(self@, key@);
        }
        let key = String::from_str(key);
        let at = self.locate(&key);
        if at >= self.slots.len() || self.slots[at].running {
            return false;
        }
        let holders = self.slots[at].holders;
        self.slots.set(at, KeySlot { key, holders, running: true });
        proof {
            assert(self@.slots =~= old(self)@.begin(key@).slots);
        }
        true
    }

    /// Takes one holder from the entry at `at`, and the entry with it where that was its
    /// last; `running` is what the entry says afterwards where it stays.
    fn release(&mut self, at: usize, running: bool)
        requires
            at < old(self).slots.len(),
            old(self).slots@[at as int].holders >= 1,
            old(self).admitted >= 1,
        ensures
            final(self)@.capacity == old(self)@.capacity,
            final(self)@.admitted == old(self)@.admitted - 1,
            final(self)@.slots == (if old(self)@.slots[at as int].holders <= 1 {
                old(self)@.slots.remove(at as int)
            } else {
                old(self)@.slots.update(
                    at as int,
                    SlotModel {
                        holders: (old(self)@.slots[at as int].holders - 1) as nat,
                        running,
                        ..old(self)@.slots[at as int]
                    },
                )
            }),
    {
        if self.slots[at].holders <= 1 {
            self.slots.remove(at);
            proof {
                assert(self@.slots =~= old(self)@.slots.remove(at as int));
            }
        } else {
            let slot = &self.slots[at];
            let fewer = KeySlot { key: slot.key.clone(), holders: slot.holders - 1, running };
            self.slots.set(at, fewer);
            proof {
                assert(self@.slots =~= old(self)@.slots.update(
                    at as int,
                    SlotModel {
                        holders: (old(self)@.slots[at as int].holders - 1) as nat,
                        running,
                        ..old(self)@.slots[at as int]
                    },
                ));
            }
        }
        self.admitted -= 1;
    }

    /// Ends the executing task with `key`: its permit and its key are free again, and the
    /// registry forgets the key where no other task has it. Says whether such a task was
    /// executing.
    pub fn finish(&mut self, key: &str) -> (ended: bool)
        requires
            old(self)@.wf(),
        ensures
            ended == old(self)@.is_running(key@),
            final(self)@ == old(self)@.finish(key@),
            final(self)@.wf(),
    {
        proof {
            finish_keeps_wf(self@, key@);
        }
        let key = String::from_str(key);
        let at = self.locate(&key);
        if at >= self.slots.len() || !self.slots[at].running {
            return false;
        }
        proof {
            assert(self@.slots[at as int].holders >= 1);
        }
        self.release(at, false);
        true
    }

    /// Takes back a task with `key` that waits for its turn: its permit is free again and
    /// the registry counts it no more. Says whether such a task was waiting.
    pub fn withdraw(&mut self, key: &str) -> (left: bool)
        requires
            old(self)@.wf(),
        ensures
            left == old(self)@.can_withdraw(key@),
            final(self)@ == old(self)@.withdraw(key@),
            final(self)@.wf(),
    {
        proof {
            withdraw_keeps_wf(self@, key@);
        }
        let key = String::from_str(key);
        let at = self.locate(&key);
        if at >= self.slots.len() || (self.slots[at].running && self.slots[at].holders < 2) {
            return false;
        }
        proof {
            assert(self@.slots[at as int].holders >= 1);
        }
        let running = self.slots[at].running;
        self.release(at, running);
        proof {
            let before = old(self)@;
            if before.slots[at as int].holders > 1 {
                assert(SlotModel {
                    holders: (before.slots[at as int].holders - 1) as nat,
                    running,
                    ..before.slots[at as int]
                } == SlotModel {
                    holders: (before.slots[at as int].holders - 1) as nat,
                    ..before.slots[at as int]
                });
            }
        }
        true
    }
}

} // verus!
