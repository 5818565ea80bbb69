//! What holds of the controller in every state that it can reach.
use vstd::prelude::*;
use crate::admission::lemmas::{
    all_held, distinct_keys, position_after_push, position_after_remove, position_after_update,
    position_found, remove_keeps_order, running_within_holders, sum_push, sum_remove, sum_update,
};
use crate::admission::model::{holders_weight, AdmissionModel, SlotModel, Step};

verus! {

/// The state before any task came satisfies the invariant.
pub proof fn empty_is_wf(capacity: nat)
    ensures
        AdmissionModel::empty(capacity).wf(),
{
}

/// Entering a task keeps the invariant.
pub proof fn acquire_keeps_wf(m: AdmissionModel, key: Seq<char>)
    requires
        m.wf(),
    ensures
        m.acquire(key).wf(),
{
    let after = m.acquire(key);
    if m.can_acquire() {
        position_found(m.slots, key, 0);
        let at = m.position(key);
        if m.contains(key) {
            let slot = SlotModel { holders: m.slots[at].holders + 1, ..m.slots[at] };
            sum_update(m.slots, m.slots.len() as int, at, slot, holders_weight());
            assert forall|i: int| 0 <= i < after.slots.len() implies (
            #[trigger] after.slots[i]).holders >= 1 by {
                assert(m.slots[i].holders >= 1);
            }
            assert forall|i: int, j: int| 0 <= i < j < after.slots.len() implies (
            #[trigger] after.slots[i]).key != (#[trigger] after.slots[j]).key by {
                assert(m.slots[i].key != m.slots[j].key);
            }
        } else {
            let slot = SlotModel { key, holders: 1, running: false };
            sum_push(m.slots, slot, holders_weight());
            assert forall|i: int| 0 <= i < after.slots.len() implies (
            #[trigger] after.slots[i]).holders >= 1 by {
                if i < m.slots.len() {
                    assert(m.slots[i].holders >= 1);
                }
            }
            assert forall|i: int, j: int| 0 <= i < j < after.slots.len() implies (
            #[trigger] after.slots[i]).key != (#[trigger] after.slots[j]).key by {
                if j < m.slots.len() {
                    assert(m.slots[i].key != m.slots[j].key);
                } else {
                    assert(m.slots[i].key != key);
                }
            }
        }
    }
}

/// Starting a task keeps the invariant.
pub proof fn begin_keeps_wf(m: AdmissionModel, key: Seq<char>)
    requires
        m.wf(),
    ensures
        m.begin(key).wf(),
{
    let after = m.begin(key);
    if m.can_begin(key) {
        position_found(m.slots, key, 0);
        let at = m.position(key);
        let slot = SlotModel { running: true, ..m.slots[at] };
        sum_update(m.slots, m.slots.len() as int, at, slot, holders_weight());
        assert forall|i: int| 0 <= i < after.slots.len() implies (
        #[trigger] after.slots[i]).holders >= 1 by {
            assert(m.slots[i].holders >= 1);
        }
        assert forall|i: int, j: int| 0 <= i < j < after.slots.len() implies (
        #[trigger] after.slots[i]).key != (#[trigger] after.slots[j]).key by {
            assert(m.slots[i].key != m.slots[j].key);
        }
    }
}

/// Taking one holder from the entry at `at` keeps the invariant.
proof fn release_keeps_wf(m: AdmissionModel, at: int, running: bool)
    requires
        m.wf(),
        0 <= at < m.slots.len(),
    ensures
        ({
            let slots = if m.slots[at].holders <= 1 {
                m.slots.remove(at)
            } else {
                m.slots.update(
                    at,
                    SlotModel {
                        holders: (m.slots[at].holders - 1) as nat,
                        running,
                        ..m.slots[at]
                    },
                )
            };
            m.admitted >= 1 && (AdmissionModel {
                admitted: (m.admitted - 1) as nat,
                slots,
                ..m
            }).wf()
        }),
{
    assert(m.slots[at].holders >= 1);
    assert(distinct_keys(m.slots));
    assert(all_held(m.slots));
    if m.slots[at].holders <= 1 {
        sum_remove(m.slots, m.slots.len() - 1, at, holders_weight());
        remove_keeps_order(m.slots, at);
    } else {
        let slot = SlotModel {
            holders: (m.slots[at].holders - 1) as nat,
            running,
            ..m.slots[at]
        };
        let slots = m.slots.update(at, slot);
        sum_update(m.slots, m.slots.len() as int, at, slot, holders_weight());
        assert forall|i: int| 0 <= i < slots.len() implies (#[trigger] slots[i]).holders >= 1 by {
            assert(m.slots[i].holders >= 1);
        }
        assert forall|i: int, j: int| 0 <= i < j < slots.len() implies (#[trigger] slots[i]).key != (
        #[trigger] slots[j]).key by {
            assert(m.slots[i].key != m.slots[j].key);
        }
    }
}

/// Ending a task keeps the invariant.
pub proof fn finish_keeps_wf(m: AdmissionModel, key: Seq<char>)
    requires
        m.wf(),
    ensures
        m.finish(key).wf(),
        m.is_running(key) ==> m.admitted >= 1,
{
    if m.is_running(key) {
        position_found(m.slots, key, 0);
        release_keeps_wf(m, m.position(key), false);
    }
}

/// A task that gives up keeps the invariant.
pub proof fn withdraw_keeps_wf(m: AdmissionModel, key: Seq<char>)
    requires
        m.wf(),
    ensures
        m.withdraw(key).wf(),
        m.can_withdraw(key) ==> m.admitted >= 1,
{
    if m.can_withdraw(key) {
        position_found(m.slots, key, 0);
        let at = m.position(key);
        release_keeps_wf(m, at, m.slots[at].running);
        if m.slots[at].holders > 1 {
            assert(SlotModel {
                holders: (m.slots[at].holders - 1) as nat,
                running: m.slots[at].running,
                ..m.slots[at]
            } == SlotModel { holders: (m.slots[at].holders - 1) as nat, ..m.slots[at] });
        }
    }
}

/// Capacity bound: in every state that satisfies the invariant, no more tasks execute than
/// permits are out, and no more permits are out than the pool holds.
pub proof fn running_within_capacity(m: AdmissionModel)
    requires
        m.wf(),
    ensures
        m.running() <= m.admitted <= m.capacity,
{
    assert(all_held(m.slots));
    running_within_holders(m.slots, m.slots.len() as int);
}

/// No leak, as an invariant: the registry has an entry for a key exactly where an admitted
/// task has that key.
pub proof fn entry_iff_held(m: AdmissionModel, key: Seq<char>)
    requires
        m.wf(),
    ensures
        m.contains(key) <==> m.holders(key) >= 1,
{
    position_found(m.slots, key, 0);
    if m.contains(key) {
        assert(m.slots[m.position(key)].holders >= 1);
    }
}

/// What entering a task changes: one more permit is out and the key has one more holder.
/// Which keys execute stays as it was, and so does the count of every other key.
pub proof fn acquire_counts(m: AdmissionModel, key: Seq<char>, other: Seq<char>)
    requires
        m.wf(),
        m.can_acquire(),
    ensures
        m.acquire(key).admitted == m.admitted + 1,
        m.acquire(key).holders(key) == m.holders(key) + 1,
        m.acquire(key).is_running(other) == m.is_running(other),
        other != key ==> m.acquire(key).holders(other) == m.holders(other),
{
    position_found(m.slots, key, 0);
    position_found(m.slots, other, 0);
    let at = m.position(key);
    if m.contains(key) {
        let slot = SlotModel { holders: m.slots[at].holders + 1, ..m.slots[at] };
        position_after_update(m.slots, at, slot, key, 0);
        position_after_update(m.slots, at, slot, other, 0);
    } else {
        let slot = SlotModel { key, holders: 1, running: false };
        position_after_push(m.slots, slot, key, 0);
        position_after_push(m.slots, slot, other, 0);
    }
}

/// Mutual exclusion, first half: a task that begins is the one task of its key that
/// executes, and no second one may begin while it does.
pub proof fn begin_is_exclusive(m: AdmissionModel, key: Seq<char>)
    requires
        m.wf(),
        m.can_begin(key),
    ensures
        m.begin(key).is_running(key),
        !m.begin(key).can_begin(key),
        m.begin(key).running() == m.running() + 1,
        m.begin(key).holders(key) == m.holders(key),
        m.begin(key).admitted == m.admitted,
{
    position_found(m.slots, key, 0);
    let at = m.position(key);
    let slot = SlotModel { running: true, ..m.slots[at] };
    position_after_update(m.slots, at, slot, key, 0);
    sum_update(m.slots, m.slots.len() as int, at, slot, crate::admission::model::running_weight());
}

/// Mutual exclusion, second half: a key that executes goes on executing whatever other
/// step is taken, with this key or another; only its own task's end frees it.
pub proof fn running_until_finished(m: AdmissionModel, key: Seq<char>, other: Seq<char>)
    requires
        m.wf(),
        m.is_running(key),
    ensures
        m.acquire(other).is_running(key),
        m.begin(other).is_running(key),
        m.begin(key) == m,
        m.withdraw(other).is_running(key),
        other != key ==> m.finish(other).is_running(key),
        !m.finish(key).is_running(key),
{
    position_found(m.slots, key, 0);
    position_found(m.slots, other, 0);
    let at = m.position(key);
    let to = m.position(other);
    if m.can_acquire() {
        acquire_counts(m, other, key);
    }
    if m.can_begin(other) {
        position_after_update(m.slots, to, SlotModel { running: true, ..m.slots[to] }, key, 0);
    }
    assert(distinct_keys(m.slots));
    if m.can_withdraw(other) {
        if m.slots[to].holders <= 1 {
            position_after_remove(m.slots, to, key);
        } else {
            position_after_update(
                m.slots,
                to,
                SlotModel { holders: (m.slots[to].holders - 1) as nat, ..m.slots[to] },
                key,
                0,
            );
        }
    }
    if other != key && m.is_running(other) {
        if m.slots[to].holders <= 1 {
            position_after_remove(m.slots, to, key);
        } else {
            position_after_update(
                m.slots,
                to,
                SlotModel {
                    holders: (m.slots[to].holders - 1) as nat,
                    running: false,
                    ..m.slots[to]
                },
                key,
                0,
            );
        }
    }
    if m.slots[at].holders <= 1 {
        position_after_remove(m.slots, at, key);
    } else {
        position_after_update(
            m.slots,
            at,
            SlotModel { holders: (m.slots[at].holders - 1) as nat, running: false, ..m.slots[at] },
            key,
            0,
        );
    }
}

/// Tasks with different keys do not wait for each other: what is done with one key leaves
/// another key's entry, and whether its task may begin, as they were.
pub proof fn keys_are_independent(m: AdmissionModel, key: Seq<char>, other: Seq<char>)
    requires
        m.wf(),
        other != key,
    ensures
        m.begin(other).can_begin(key) == m.can_begin(key),
        m.begin(other).holders(key) == m.holders(key),
        m.finish(other).can_begin(key) == m.can_begin(key),
        m.finish(other).holders(key) == m.holders(key),
        m.withdraw(other).can_begin(key) == m.can_begin(key),
        m.withdraw(other).holders(key) == m.holders(key),
{
    position_found(m.slots, key, 0);
    position_found(m.slots, other, 0);
    let to = m.position(other);
    assert(distinct_keys(m.slots));
    if m.can_begin(other) {
        position_after_update(m.slots, to, SlotModel { running: true, ..m.slots[to] }, key, 0);
    }
    if m.is_running(other) {
        if m.slots[to].holders <= 1 {
            position_after_remove(m.slots, to, key);
        } else {
            position_after_update(
                m.slots,
                to,
                SlotModel {
                    holders: (m.slots[to].holders - 1) as nat,
                    running: false,
                    ..m.slots[to]
                },
                key,
                0,
            );
        }
    }
    if m.can_withdraw(other) {
        if m.slots[to].holders <= 1 {
            position_after_remove(m.slots, to, key);
        } else {
            position_after_update(
                m.slots,
                to,
                SlotModel { holders: (m.slots[to].holders - 1) as nat, ..m.slots[to] },
                key,
                0,
            );
        }
    }
}

/// No leak, step by step: a task that ends or gives up takes its permit and its count with
/// it, and where it was the last of its key the entry is gone.
pub proof fn release_counts(m: AdmissionModel, key: Seq<char>)
    requires
        m.wf(),
    ensures
        m.is_running(key) ==> m.finish(key).admitted == m.admitted - 1 && m.finish(key).holders(
            key,
        ) == m.holders(key) - 1 && m.finish(key).running() == m.running() - 1,
        m.is_running(key) ==> (m.finish(key).contains(key) <==> m.holders(key) >= 2),
        m.can_withdraw(key) ==> m.withdraw(key).admitted == m.admitted - 1 && m.withdraw(
            key,
        ).holders(key) == m.holders(key) - 1 && m.withdraw(key).running() == m.running(),
        m.can_withdraw(key) ==> (m.withdraw(key).contains(key) <==> m.holders(key) >= 2),
{
    position_found(m.slots, key, 0);
    let at = m.position(key);
    let running = crate::admission::model::running_weight();
    assert(distinct_keys(m.slots));
    if m.contains(key) {
        assert(m.slots[at].holders >= 1);
        finish_keeps_wf(m, key);
        withdraw_keeps_wf(m, key);
        if m.slots[at].holders <= 1 {
            position_after_remove(m.slots, at, key);
            sum_remove(m.slots, m.slots.len() - 1, at, running);
        } else {
            let ended = SlotModel {
                holders: (m.slots[at].holders - 1) as nat,
                running: false,
                ..m.slots[at]
            };
            let left = SlotModel { holders: (m.slots[at].holders - 1) as nat, ..m.slots[at] };
            position_after_update(m.slots, at, ended, key, 0);
            position_after_update(m.slots, at, left, key, 0);
            sum_update(m.slots, m.slots.len() as int, at, ended, running);
            sum_update(m.slots, m.slots.len() as int, at, left, running);
        }
    }
}

/// Every state that the controller reaches, from an empty registry and by whatever steps in
/// whatever order, satisfies the invariant.
pub proof fn reachable_is_wf(capacity: nat, steps: Seq<Step>, n: int)
    requires
        0 <= n <= steps.len(),
    ensures
        AdmissionModel::empty(capacity).after(steps, n).wf(),
        AdmissionModel::empty(capacity).after(steps, n).capacity == capacity,
    decreases n,
{
    if n > 0 {
        reachable_is_wf(capacity, steps, n - 1);
        let before = AdmissionModel::empty(capacity).after(steps, n - 1);
        match steps[n - 1] {
            Step::Acquire(key) => acquire_keeps_wf(before, key),
            Step::Begin(key) => begin_keeps_wf(before, key),
            Step::Finish(key) => finish_keeps_wf(before, key),
            Step::Withdraw(key) => withdraw_keeps_wf(before, key),
        }
    }
}

/// Capacity bound: whatever tasks are submitted and in whatever order their steps come, at
/// no moment do more tasks execute than the pool has permits.
pub proof fn capacity_is_never_exceeded(capacity: nat, steps: Seq<Step>, n: int)
    requires
        0 <= n <= steps.len(),
    ensures
        AdmissionModel::empty(capacity).after(steps, n).running() <= capacity,
{
    reachable_is_wf(capacity, steps, n);
    running_within_capacity(AdmissionModel::empty(capacity).after(steps, n));
}

/// Per-key mutual exclusion: from the moment a task of a key executes until a step ends it,
/// whatever else happens, no other task of that key is let in.
pub proof fn one_task_per_key_at_a_time(m: AdmissionModel, key: Seq<char>, steps: Seq<Step>, n: int)
    requires
        m.wf(),
        m.is_running(key),
        0 <= n <= steps.len(),
        forall|i: int| 0 <= i < n ==> steps[i] != Step::Finish(key),
    ensures
        m.after(steps, n).wf(),
        m.after(steps, n).is_running(key),
        !m.after(steps, n).can_begin(key),
    decreases n,
{
    if n > 0 {
        one_task_per_key_at_a_time(m, key, steps, n - 1);
        let before = m.after(steps, n - 1);
        match steps[n - 1] {
            Step::Acquire(other) => {
                acquire_keeps_wf(before, other);
                running_until_finished(before, key, other);
            },
            Step::Begin(other) => {
                begin_keeps_wf(before, other);
                running_until_finished(before, key, other);
            },
            Step::Finish(other) => {
                finish_keeps_wf(before, other);
                assert(other != key);
                running_until_finished(before, key, other);
            },
            Step::Withdraw(other) => {
                withdraw_keeps_wf(before, other);
                running_until_finished(before, key, other);
            },
        }
    }
}

/// No leak: in every state that the controller reaches, a key without admitted task has no
/// entry in the registry, and a key with one has.
pub proof fn registry_never_leaks(capacity: nat, steps: Seq<Step>, n: int, key: Seq<char>)
    requires
        0 <= n <= steps.len(),
    ensures
        AdmissionModel::empty(capacity).after(steps, n).contains(key) <==> AdmissionModel::empty(
            capacity,
        ).after(steps, n).holders(key) >= 1,
{
    reachable_is_wf(capacity, steps, n);
    entry_iff_held(AdmissionModel::empty(capacity).after(steps, n), key);
}

} // verus!
