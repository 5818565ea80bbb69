//! The controller's state and its steps, as mathematics.
use vstd::prelude::*;

verus! {

/// What the registry holds for one key.
pub struct SlotModel {
    /// The key.
    pub key: Seq<char>,
    /// How many admitted tasks have this key, the executing one among them.
    pub holders: nat,
    /// Whether one of them is executing.
    pub running: bool,
}

/// The controller's state.
pub struct AdmissionModel {
    /// The size of the permit pool.
    pub capacity: nat,
    /// How many permits are out.
    pub admitted: nat,
    /// The registry, in the order in which its keys came.
    pub slots: Seq<SlotModel>,
}

/// The sum of `weight` over the first `n` slots.
pub open spec fn sum_over(slots: Seq<SlotModel>, n: int, weight: spec_fn(SlotModel) -> nat) -> nat
    decreases n,
{
    if n <= 0 || n > slots.len() {
        0
    } else {
        sum_over(slots, n - 1, weight) + weight(slots[n - 1])
    }
}

/// The first index at or after `i` whose slot has the key; the length where there is none.
pub open spec fn position_from(slots: Seq<SlotModel>, key: Seq<char>, i: int) -> int
    decreases slots.len() - i,
{
    if i < 0 || i >= slots.len() || slots[i].key == key {
        i
    } else {
        position_from(slots, key, i + 1)
    }
}

/// An entry counts for as many as it has holders.
pub open spec fn holders_weight() -> spec_fn(SlotModel) -> nat {
    |slot: SlotModel| slot.holders
}

/// An entry counts for one where its key executes.
pub open spec fn running_weight() -> spec_fn(SlotModel) -> nat {
    |slot: SlotModel|
        if slot.running {
            1nat
        } else {
            0nat
        }
}

impl AdmissionModel {
    /// The state before any task came.
    pub open spec fn empty(capacity: nat) -> AdmissionModel {
        AdmissionModel { capacity, admitted: 0, slots: Seq::empty() }
    }

    /// Where the key stands in the registry; the registry's length where it does not.
    pub open spec fn position(self, key: Seq<char>) -> int {
        position_from(self.slots, key, 0)
    }

    /// The registry has an entry for the key.
    pub open spec fn contains(self, key: Seq<char>) -> bool {
        self.position(key) < self.slots.len()
    }

    /// How many admitted tasks have the key.
    pub open spec fn holders(self, key: Seq<char>) -> nat {
        if self.contains(key) {
            self.slots[self.position(key)].holders
        } else {
            0
        }
    }

    /// A task with the key is executing.
    pub open spec fn is_running(self, key: Seq<char>) -> bool {
        self.contains(key) && self.slots[self.position(key)].running
    }

    /// How many tasks are executing.
    pub open spec fn running(self) -> nat {
        sum_over(self.slots, self.slots.len() as int, running_weight())
    }

    /// How many tasks the registry counts, over all keys.
    pub open spec fn total_holders(self) -> nat {
        sum_over(self.slots, self.slots.len() as int, holders_weight())
    }

    /// The invariant: no more permits are out than the pool has; every admitted task is
    /// counted under exactly one key; no key stands twice; and no entry is without a holder.
    pub open spec fn wf(self) -> bool {
        &&& self.admitted <= self.capacity
        &&& self.total_holders() == self.admitted
        &&& forall|i: int| 0 <= i < self.slots.len() ==> (#[trigger] self.slots[i]).holders >= 1
        &&& forall|i: int, j: int|
            0 <= i < j < self.slots.len() ==> (#[trigger] self.slots[i]).key != (
            #[trigger] self.slots[j]).key
    }

    /// A permit is free.
    pub open spec fn can_acquire(self) -> bool {
        self.admitted < self.capacity
    }

    /// A task with the key takes a permit and is entered in the registry: under a new entry,
    /// or as one more holder of the entry that is there. Nothing changes where no permit is
    /// free.
    pub open spec fn acquire(self, key: Seq<char>) -> AdmissionModel {
        if !self.can_acquire() {
            self
        } else if self.contains(key) {
            let at = self.position(key);
            AdmissionModel {
                admitted: self.admitted + 1,
                slots: self.slots.update(
                    at,
                    SlotModel { holders: self.slots[at].holders + 1, ..self.slots[at] },
                ),
                ..self
            }
        } else {
            AdmissionModel {
                admitted: self.admitted + 1,
                slots: self.slots.push(SlotModel { key, holders: 1, running: false }),
                ..self
            }
        }
    }

    /// A task with the key may start executing: the key is entered and none of its tasks is
    /// executing.
    pub open spec fn can_begin(self, key: Seq<char>) -> bool {
        self.contains(key) && !self.is_running(key)
    }

    /// A waiting task with the key starts executing. Nothing changes where it may not.
    pub open spec fn begin(self, key: Seq<char>) -> AdmissionModel {
        if !self.can_begin(key) {
            self
        } else {
            let at = self.position(key);
            AdmissionModel {
                slots: self.slots.update(at, SlotModel { running: true, ..self.slots[at] }),
                ..self
            }
        }
    }

    /// The registry without one holder of the entry at `at`, and without the entry where
    /// that was its last.
    pub open spec fn released(self, at: int) -> Seq<SlotModel> {
        if self.slots[at].holders <= 1 {
            self.slots.remove(at)
        } else {
            self.slots.update(
                at,
                SlotModel {
                    holders: (self.slots[at].holders - 1) as nat,
                    running: false,
                    ..self.slots[at]
                },
            )
        }
    }

    /// The executing task with the key ends: its permit goes back to the pool, its key is
    /// free again, and the entry goes where it was the last holder. Nothing changes where no
    /// task with the key is executing.
    pub open spec fn finish(self, key: Seq<char>) -> AdmissionModel {
        if !self.is_running(key) {
            self
        } else {
            AdmissionModel {
                admitted: (self.admitted - 1) as nat,
                slots: self.released(self.position(key)),
                ..self
            }
        }
    }

    /// A task with the key waits for its turn.
    pub open spec fn can_withdraw(self, key: Seq<char>) -> bool {
        self.contains(key) && (!self.is_running(key) || self.holders(key) >= 2)
    }

    /// A waiting task with the key gives up: its permit goes back to the pool and the
    /// registry counts one holder less. The executing task, if there is one, goes on.
    /// Nothing changes where no task with the key waits.
    pub open spec fn withdraw(self, key: Seq<char>) -> AdmissionModel {
        if !self.can_withdraw(key) {
            self
        } else {
            let at = self.position(key);
            AdmissionModel {
                admitted: (self.admitted - 1) as nat,
                slots: if self.slots[at].holders <= 1 {
                    self.slots.remove(at)
                } else {
                    self.slots.update(
                        at,
                        SlotModel {
                            holders: (self.slots[at].holders - 1) as nat,
                            ..self.slots[at]
                        },
                    )
                },
                ..self
            }
        }
    }
}

/// One step of the controller.
pub enum Step {
    /// A task with the key asks for a permit.
    Acquire(Seq<char>),
    /// A task with the key asks for its turn.
    Begin(Seq<char>),
    /// The executing task with the key ends.
    Finish(Seq<char>),
    /// A waiting task with the key gives up.
    Withdraw(Seq<char>),
}

impl AdmissionModel {
    /// The state after `step`.
    pub open spec fn step(self, step: Step) -> AdmissionModel {
        match step {
            Step::Acquire(key) => self.acquire(key),
            Step::Begin(key) => self.begin(key),
            Step::Finish(key) => self.finish(key),
            Step::Withdraw(key) => self.withdraw(key),
        }
    }

    /// The state after the first `n` of `steps`.
    pub open spec fn after(self, steps: Seq<Step>, n: int) -> AdmissionModel
        decreases n,
    {
        if n <= 0 || n > steps.len() {
            self
        } else {
            self.after(steps, n - 1).step(steps[n - 1])
        }
    }
}

} // verus!
