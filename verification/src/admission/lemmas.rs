//! Facts about sums and positions in the registry, on which the laws rest.
use vstd::prelude::*;
use crate::admission::model::{holders_weight, position_from, running_weight, sum_over, SlotModel};

verus! {

/// No key stands twice.
pub open spec fn distinct_keys(slots: Seq<SlotModel>) -> bool {
    forall|i: int, j: int|
        0 <= i < j < slots.len() ==> (#[trigger] slots[i]).key != (#[trigger] slots[j]).key
}

/// Every entry has a holder.
pub open spec fn all_held(slots: Seq<SlotModel>) -> bool {
    forall|i: int| 0 <= i < slots.len() ==> (#[trigger] slots[i]).holders >= 1
}

pub(crate) proof fn position_found(slots: Seq<SlotModel>, key: Seq<char>, i: int)
    requires
        0 <= i <= slots.len(),
    ensures
        i <= position_from(slots, key, i) <= slots.len(),
        position_from(slots, key, i) < slots.len() ==> slots[position_from(slots, key, i)].key
            == key,
        forall|j: int| i <= j < position_from(slots, key, i) ==> (#[trigger] slots[j]).key != key,
    decreases slots.len() - i,
{
    if i < slots.len() && slots[i].key != key {
        position_found(slots, key, i + 1);
    }
}

/// Where a key stands at `at`, and nowhere before, that is its position.
pub(crate) proof fn position_is(slots: Seq<SlotModel>, key: Seq<char>, at: int)
    requires
        0 <= at <= slots.len(),
        at < slots.len() ==> slots[at].key == key,
        forall|j: int| 0 <= j < at ==> (#[trigger] slots[j]).key != key,
    ensures
        position_from(slots, key, 0) == at,
{
    position_found(slots, key, 0);
}

pub(crate) proof fn sum_agrees(a: Seq<SlotModel>, b: Seq<SlotModel>, n: int, weight: spec_fn(SlotModel) -> nat)
    requires
        0 <= n <= a.len(),
        n <= b.len(),
        forall|i: int| 0 <= i < n ==> a[i] == b[i],
    ensures
        sum_over(a, n, weight) == sum_over(b, n, weight),
    decreases n,
{
    if n > 0 {
        sum_agrees(a, b, n - 1, weight);
    }
}

pub(crate) proof fn sum_update(slots: Seq<SlotModel>, n: int, at: int, slot: SlotModel, weight: spec_fn(SlotModel) -> nat)
    requires
        0 <= at < slots.len(),
        0 <= n <= slots.len(),
    ensures
        sum_over(slots.update(at, slot), n, weight) + (if at < n {
            weight(slots[at])
        } else {
            0
        }) == sum_over(slots, n, weight) + (if at < n {
            weight(slot)
        } else {
            0
        }),
    decreases n,
{
    if n > 0 {
        sum_update(slots, n - 1, at, slot, weight);
    }
}

pub(crate) proof fn sum_push(slots: Seq<SlotModel>, slot: SlotModel, weight: spec_fn(SlotModel) -> nat)
    ensures
        sum_over(slots.push(slot), slots.len() as int + 1, weight) == sum_over(
            slots,
            slots.len() as int,
            weight,
        ) + weight(slot),
{
    sum_agrees(slots.push(slot), slots, slots.len() as int, weight);
}

pub(crate) proof fn sum_remove(slots: Seq<SlotModel>, n: int, at: int, weight: spec_fn(SlotModel) -> nat)
    requires
        0 <= at < slots.len(),
        0 <= n < slots.len(),
    ensures
        sum_over(slots.remove(at), n, weight) + (if at < n {
            weight(slots[at])
        } else {
            0
        }) == (if at < n {
            sum_over(slots, n + 1, weight)
        } else {
            sum_over(slots, n, weight)
        }),
    decreases n,
{
    if n > 0 {
        sum_remove(slots, n - 1, at, weight);
        if at == n - 1 {
            assert(sum_over(slots, n + 1, weight) == sum_over(slots, n, weight) + weight(slots[n]));
        }
    }
}

/// No more tasks execute than the registry counts, since a key that executes has a holder.
pub(crate) proof fn running_within_holders(slots: Seq<SlotModel>, n: int)
    requires
        0 <= n <= slots.len(),
        all_held(slots),
    ensures
        sum_over(slots, n, running_weight()) <= sum_over(slots, n, holders_weight()),
    decreases n,
{
    if n > 0 {
        running_within_holders(slots, n - 1);
        assert(slots[n - 1].holders >= 1);
    }
}

/// A change to an entry that keeps its key moves no key.
pub(crate) proof fn position_after_update(slots: Seq<SlotModel>, at: int, slot: SlotModel, key: Seq<char>, i: int)
    requires
        0 <= at < slots.len(),
        slot.key == slots[at].key,
        0 <= i <= slots.len(),
    ensures
        position_from(slots.update(at, slot), key, i) == position_from(slots, key, i),
    decreases slots.len() - i,
{
    if i < slots.len() && slots[i].key != key {
        position_after_update(slots, at, slot, key, i + 1);
    }
}

/// A new entry at the end moves no key that was there.
pub(crate) proof fn position_after_push(slots: Seq<SlotModel>, slot: SlotModel, key: Seq<char>, i: int)
    requires
        0 <= i <= slots.len(),
    ensures
        position_from(slots.push(slot), key, i) == if position_from(slots, key, i) < slots.len()
            || slot.key == key {
            position_from(slots, key, i)
        } else {
            slots.len() as int + 1
        },
    decreases slots.len() - i,
{
    position_found(slots, key, i);
    let pushed = slots.push(slot);
    if i < slots.len() {
        if slots[i].key != key {
            position_after_push(slots, slot, key, i + 1);
        }
    } else {
        if slot.key != key {
            assert(position_from(pushed, key, i + 1) == i + 1);
        }
    }
}

/// Where the entry at `at` goes, the other keys stay in the registry, each with its entry,
/// and the key of that entry is gone.
pub(crate) proof fn position_after_remove(slots: Seq<SlotModel>, at: int, key: Seq<char>)
    requires
        0 <= at < slots.len(),
        distinct_keys(slots),
    ensures
        ({
            let before = position_from(slots, key, 0);
            let after = position_from(slots.remove(at), key, 0);
            if slots[at].key == key {
                after == slots.len() - 1
            } else if before < slots.len() {
                after < slots.len() - 1 && slots.remove(at)[after] == slots[before]
            } else {
                after == slots.len() - 1
            }
        }),
{
    let removed = slots.remove(at);
    let before = position_from(slots, key, 0);
    position_found(slots, key, 0);
    if slots[at].key == key {
        assert forall|j: int| 0 <= j < removed.len() implies (#[trigger] removed[j]).key != key by {
            if j < at {
                assert(slots[j].key != slots[at].key);
            } else {
                assert(removed[j] == slots[j + 1]);
                assert(slots[at].key != slots[j + 1].key);
            }
        }
        position_is(removed, key, removed.len() as int);
    } else if before < slots.len() {
        let target = if before < at {
            before
        } else {
            before - 1
        };
        assert(removed[target] == slots[before]);
        assert forall|j: int| 0 <= j < target implies (#[trigger] removed[j]).key != key by {
            if j < at {
                assert(removed[j] == slots[j]);
            } else {
                assert(removed[j] == slots[j + 1]);
            }
        }
        position_is(removed, key, target);
    } else {
        assert forall|j: int| 0 <= j < removed.len() implies (#[trigger] removed[j]).key != key by {
            if j < at {
                assert(removed[j] == slots[j]);
            } else {
                assert(removed[j] == slots[j + 1]);
            }
        }
        position_is(removed, key, removed.len() as int);
    }
}

/// Where an entry goes, the keys that stay are still distinct and still held.
pub(crate) proof fn remove_keeps_order(slots: Seq<SlotModel>, at: int)
    requires
        0 <= at < slots.len(),
        distinct_keys(slots),
        all_held(slots),
    ensures
        distinct_keys(slots.remove(at)),
        all_held(slots.remove(at)),
{
    let removed = slots.remove(at);
    assert forall|i: int, j: int| 0 <= i < j < removed.len() implies (#[trigger] removed[i]).key != (
    #[trigger] removed[j]).key by {
        let a = if i < at { i } else { i + 1 };
        let b = if j < at { j } else { j + 1 };
        assert(removed[i] == slots[a]);
        assert(removed[j] == slots[b]);
        assert(slots[a].key != slots[b].key);
    }
    assert forall|i: int| 0 <= i < removed.len() implies (#[trigger] removed[i]).holders >= 1 by {
        let a = if i < at { i } else { i + 1 };
        assert(removed[i] == slots[a]);
        assert(slots[a].holders >= 1);
    }
}

/// No entry weighs more than the sum over a prefix that holds it.
pub(crate) proof fn sum_bounds_each(slots: Seq<SlotModel>, n: int, at: int, weight: spec_fn(SlotModel) -> nat)
    requires
        0 <= at < n <= slots.len(),
    ensures
        weight(slots[at]) <= sum_over(slots, n, weight),
    decreases n,
{
    if at < n - 1 {
        sum_bounds_each(slots, n - 1, at, weight);
    }
}

/// A sum of weights that are at most one is at most the number of entries.
pub(crate) proof fn running_within_len(slots: Seq<SlotModel>, n: int)
    requires
        0 <= n <= slots.len(),
    ensures
        sum_over(slots, n, running_weight()) <= n,
    decreases n,
{
    if n > 0 {
        running_within_len(slots, n - 1);
    }
}

} // verus!
