//! The inventory of a player: the game feature slots they bought, the game
//! features they bought, and which feature they put in each slot.
use crate::error::Error;
use crate::sql::{max_tuples, statement_with_tuples, tuple_list, TupleShape};
use crate::sorting::{is_stable_order, is_stable_text_order, stable_order, stable_text_order, texts};
use crate::sorting::lemma_lexicographic_total;
use crate::text::lexicographic_lt;
use vstd::prelude::*;

verus! {

/// A slot of a player and the feature in it, if any.
pub struct GameFeatureSlotState {
    pub slot_index: i16,
    pub feature: Option<String>,
}

impl GameFeatureSlotState {
    /// A copy of this state.
    pub fn duplicate(&self) -> (r: GameFeatureSlotState)
        ensures
            r == *self,
    {
        GameFeatureSlotState {
            slot_index: self.slot_index,
            feature: match &self.feature {
                Some(f) => Some(f.clone()),
                None => None,
            },
        }
    }
}

/// The choice of a player to put a feature in a slot.
pub struct GameFeatureSlotSelection {
    pub slot_index: i16,
    pub feature: String,
}

/// The number of coins taken from the wallet for a purchase of price
/// `cost`.
pub fn purchase_amount(cost: i32) -> (r: i64)
    ensures
        r == -(cost as int),
{
    -(cost as i64)
}

/// The result of a purchase of a slot or a feature, from its price if it
/// exists: `Err(Error::Unprocessable)` for a slot or a feature that is not
/// for sale, otherwise the amount to take from the wallet.
pub fn purchase_for(cost: Option<i32>) -> (r: Result<i64, Error>)
    ensures
        match cost {
            Some(c) => r == Ok::<i64, Error>(-(c as int) as i64),
            None => r == Err::<i64, Error>(Error::Unprocessable),
        },
{
    match cost {
        Some(c) => Ok(purchase_amount(c)),
        None => Err(Error::Unprocessable),
    }
}

/// The statement selecting the features of a player: the player as first
/// parameter, then a slot index and a feature name per selection. The
/// names that match no feature select no feature.
pub fn selection_statement(selection_count: usize) -> (r: String)
    requires
        selection_count <= max_tuples(),
    ensures
        r@ == "insert into user_selected_game_features
      select $1, selection.slot_index, game_feature.id
      from (values"@ + tuple_list(TupleShape::SmallintPairAfterFirst, selection_count as nat)
            + ") as selection(slot_index, feature_name)
               left join game_feature
               on selection.feature_name = game_feature.name
               on conflict (user_id, slot_index)
               do update set feature_id = excluded.feature_id"@,
{
    statement_with_tuples(
        "insert into user_selected_game_features
      select $1, selection.slot_index, game_feature.id
      from (values",
        TupleShape::SmallintPairAfterFirst,
        selection_count,
        ") as selection(slot_index, feature_name)
               left join game_feature
               on selection.feature_name = game_feature.name
               on conflict (user_id, slot_index)
               do update set feature_id = excluded.feature_id",
    )
}

/// Checks that each selection was stored: `Err(Error::Unprocessable)` when
/// the number of stored rows differs from the number of selections.
pub fn check_selection_stored(inserted: u64, selection_count: usize) -> (r: Result<(), Error>)
    ensures
        r == (if inserted as int == selection_count as int {
            Ok::<(), Error>(())
        } else {
            Err(Error::Unprocessable)
        }),
{
    if inserted != selection_count as u64 {
        return Err(Error::Unprocessable);
    }
    Ok(())
}

/// The slot indices of slot states, as sort keys.
pub open spec fn slot_keys(slots: Seq<GameFeatureSlotState>) -> Seq<i64> {
    slots.map_values(|s: GameFeatureSlotState| s.slot_index as i64)
}

/// The sort keys of the list are its `slot_index` fields, without loss.
pub proof fn lemma_slot_keys_are_fields(slots: Seq<GameFeatureSlotState>)
    ensures
        slot_keys(slots).len() == slots.len(),
        forall|i: int| 0 <= i < slots.len() ==> #[trigger] slot_keys(slots)[i] as int == slots[i].slot_index as int,
{
}

/// The slots of a player listed by increasing index, keeping the order of
/// the input among equal indices.
pub fn sorted_by_slot_index(slots: Vec<GameFeatureSlotState>) -> (r: Vec<GameFeatureSlotState>)
    ensures
        exists|order: Seq<usize>|
            is_stable_order(order, slot_keys(slots@)) && r@ == order.map_values(
                |k: usize| slots@[k as int],
            ),
        r@.len() == slots@.len(),
        forall|k: int, l: int| 0 <= k < l < r@.len() ==> #[trigger] r@[k].slot_index <= #[trigger] r@[l].slot_index,
        forall|i: int| 0 <= i < slots@.len() ==> #[trigger] slot_keys(slots@)[i] as int == slots@[i].slot_index as int,
{
    let mut keys: Vec<i64> = Vec::new();
    let mut i: usize = 0;
    while i < slots.len()
        invariant
            i <= slots@.len(),
            keys@ == slot_keys(slots@.take(i as int)),
        decreases slots.len() - i,
    {
        keys.push(slots[i].slot_index as i64);
        proof {
            assert(slot_keys(slots@.take(i + 1)) =~= slot_keys(slots@.take(i as int)).push(
                slots@[i as int].slot_index as i64,
            ));
        }
        i = i + 1;
    }
    proof {
        assert(slots@.take(i as int) =~= slots@);
    }
    let order: Vec<usize> = stable_order(keys.as_slice());
    let mut result: Vec<GameFeatureSlotState> = Vec::new();
    let mut k: usize = 0;
    while k < order.len()
        invariant
            is_stable_order(order@, slot_keys(slots@)),
            k <= order@.len(),
            result@ == order@.take(k as int).map_values(|j: usize| slots@[j as int]),
        decreases order.len() - k,
    {
        let j: usize = order[k];
        result.push(slots[j].duplicate());
        proof {
            assert(order@.take(k + 1).map_values(|j: usize| slots@[j as int]) =~= order@.take(
                k as int,
            ).map_values(|j: usize| slots@[j as int]).push(slots@[j as int]));
        }
        k = k + 1;
    }
    proof {
        assert(order@.take(k as int) =~= order@);
        lemma_slot_keys_are_fields(slots@);
        assert forall|a: int, b: int| 0 <= a < b < result@.len() implies #[trigger] result@[a].slot_index
            <= #[trigger] result@[b].slot_index by {
            let x = order@[a] as int;
            let y = order@[b] as int;
            assert(result@[a] == slots@[x]);
            assert(result@[b] == slots@[y]);
            assert(slot_keys(slots@)[x] <= slot_keys(slots@)[y]);
        }
    }
    result
}

/// The names of features listed in lexicographic order.
pub fn sorted_names(names: Vec<String>) -> (r: Vec<String>)
    ensures
        exists|order: Seq<usize>|
            is_stable_text_order(order, texts(names@)) && r@ == order.map_values(
                |k: usize| names@[k as int],
            ),
        r@.len() == names@.len(),
        forall|k: int, l: int|
            0 <= k < l < r@.len() ==> !lexicographic_lt(#[trigger] r@[l]@, #[trigger] r@[k]@),
        forall|i: int| 0 <= i < names@.len() ==> #[trigger] texts(names@)[i] == names@[i]@,
{
    let order: Vec<usize> = stable_text_order(&names);
    let mut result: Vec<String> = Vec::new();
    let mut k: usize = 0;
    while k < order.len()
        invariant
            is_stable_text_order(order@, texts(names@)),
            k <= order@.len(),
            result@ == order@.take(k as int).map_values(|j: usize| names@[j as int]),
        decreases order.len() - k,
    {
        let j: usize = order[k];
        result.push(names[j].clone());
        proof {
            assert(order@.take(k + 1).map_values(|j: usize| names@[j as int]) =~= order@.take(
                k as int,
            ).map_values(|j: usize| names@[j as int]).push(names@[j as int]));
        }
        k = k + 1;
    }
    proof {
        assert(order@.take(k as int) =~= order@);
        assert forall|a: int, b: int| 0 <= a < b < result@.len() implies !lexicographic_lt(
            #[trigger] result@[b]@,
            #[trigger] result@[a]@,
        ) by {
            let x = order@[a] as int;
            let y = order@[b] as int;
            assert(result@[a] == names@[x]);
            assert(result@[b] == names@[y]);
            assert(texts(names@)[x] == names@[x]@);
            assert(texts(names@)[y] == names@[y]@);
            lemma_lexicographic_total(names@[x]@, names@[y]@);
        }
    }
    result
}

} // verus!
