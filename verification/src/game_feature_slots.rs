//! The slots in which a player puts the game features of their choice, and
//! the price of each slot.
use crate::error::Error;
use crate::sorting::{is_stable_order, stable_order};
use vstd::prelude::*;

verus! {

/// A slot and its price in coins.
#[derive(Debug, Clone, Copy, PartialEq, Eq, Structural)]
pub struct Slot {
    pub index: i16,
    pub coins: i32,
}

/// Checks a slot before it is stored: neither its index nor its price can
/// be negative.
pub fn check_slot(slot: &Slot) -> (r: Result<(), Error>)
    ensures
        r == (if slot.index < 0 || slot.coins < 0 {
            Err::<(), Error>(Error::BadParameter)
        } else {
            Ok(())
        }),
{
    if slot.index < 0 {
        return Err(Error::BadParameter);
    }
    if slot.coins < 0 {
        return Err(Error::BadParameter);
    }
    Ok(())
}

/// The indices of the slots, as sort keys.
pub open spec fn index_keys(slots: Seq<Slot>) -> Seq<i64> {
    slots.map_values(|s: Slot| s.index as i64)
}

/// The sort keys of the list are its `index` fields, without loss.
pub proof fn lemma_index_keys_are_fields(slots: Seq<Slot>)
    ensures
        index_keys(slots).len() == slots.len(),
        forall|i: int| 0 <= i < slots.len() ==> #[trigger] index_keys(slots)[i] as int == slots[i].index as int,
{
}

/// The slots listed by increasing index, keeping the order of the input
/// among equal indices.
pub fn sorted_by_index(slots: Vec<Slot>) -> (r: Vec<Slot>)
    ensures
        exists|order: Seq<usize>|
            is_stable_order(order, index_keys(slots@)) && r@ == order.map_values(
                |k: usize| slots@[k as int],
            ),
        r@.len() == slots@.len(),
        forall|k: int, l: int| 0 <= k < l < r@.len() ==> #[trigger] r@[k].index <= #[trigger] r@[l].index,
        forall|i: int| 0 <= i < slots@.len() ==> #[trigger] index_keys(slots@)[i] as int == slots@[i].index as int,
{
    let mut keys: Vec<i64> = Vec::new();
    let mut i: usize = 0;
    while i < slots.len()
        invariant
            i <= slots@.len(),
            keys@ == index_keys(slots@.take(i as int)),
        decreases slots.len() - i,
    {
        keys.push(slots[i].index as i64);
        proof {
            assert(index_keys(slots@.take(i + 1)) =~= index_keys(slots@.take(i as int)).push(
                slots@[i as int].index as i64,
            ));
        }
        i = i + 1;
    }
    proof {
        assert(slots@.take(i as int) =~= slots@);
    }
    let order: Vec<usize> = stable_order(keys.as_slice());
    let mut result: Vec<Slot> = Vec::new();
    let mut k: usize = 0;
    while k < order.len()
        invariant
            is_stable_order(order@, index_keys(slots@)),
            k <= order@.len(),
            result@ == order@.take(k as int).map_values(|j: usize| slots@[j as int]),
        decreases order.len() - k,
    {
        let j: usize = order[k];
        result.push(slots[j]);
        proof {
            assert(order@.take(k + 1).map_values(|j: usize| slots@[j as int]) =~= order@.take(
                k as int,
            ).map_values(|j: usize| slots@[j as int]).push(slots@[j as int]));
        }
        k = k + 1;
    }
    proof {
        assert(order@.take(k as int) =~= order@);
        lemma_index_keys_are_fields(slots@);
        assert forall|a: int, b: int| 0 <= a < b < result@.len() implies #[trigger] result@[a].index
            <= #[trigger] result@[b].index by {
            let x = order@[a] as int;
            let y = order@[b] as int;
            assert(result@[a] == slots@[x]);
            assert(result@[b] == slots@[y]);
            assert(index_keys(slots@)[x] <= index_keys(slots@)[y]);
        }
    }
    result
}

} // verus!
