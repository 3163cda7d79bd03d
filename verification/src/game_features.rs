//! The game features that a player can buy, and their prices.
use crate::error::Error;
use crate::sorting::{is_stable_text_order, stable_text_order, texts};
use crate::sorting::lemma_lexicographic_total;
use crate::text::lexicographic_lt;
use vstd::prelude::*;

verus! {

/// A game feature and its price in coins.
pub struct Feature {
    pub name: String,
    pub coins: i32,
}

impl Feature {
    /// A copy of this feature.
    pub fn duplicate(&self) -> (r: Feature)
        ensures
            r == *self,
    {
        Feature { name: self.name.clone(), coins: self.coins }
    }
}

/// Checks a feature before it is stored: its price can not be negative.
pub fn check_feature(feature: &Feature) -> (r: Result<(), Error>)
    ensures
        r == (if feature.coins < 0 {
            Err::<(), Error>(Error::BadParameter)
        } else {
            Ok(())
        }),
{
    if feature.coins < 0 {
        return Err(Error::BadParameter);
    }
    Ok(())
}

/// The names of the features.
pub open spec fn names(features: Seq<Feature>) -> Seq<Seq<char>> {
    features.map_values(|f: Feature| f.name@)
}

/// The features listed by name, keeping the order of the input among
/// equal names.
pub fn sorted_by_name(features: Vec<Feature>) -> (r: Vec<Feature>)
    ensures
        exists|order: Seq<usize>|
            is_stable_text_order(order, names(features@)) && r@ == order.map_values(
                |k: usize| features@[k as int],
            ),
        r@.len() == features@.len(),
        forall|k: int, l: int|
            0 <= k < l < r@.len() ==> !lexicographic_lt(#[trigger] r@[l].name@, #[trigger] r@[k].name@),
        forall|i: int| 0 <= i < features@.len() ==> #[trigger] names(features@)[i] == features@[i].name@,
{
    let mut keys: Vec<String> = Vec::new();
    let mut i: usize = 0;
    while i < features.len()
        invariant
            i <= features@.len(),
            texts(keys@) == names(features@.take(i as int)),
        decreases features.len() - i,
    {
        let ghost before = keys@;
        let name: String = features[i].name.clone();
        keys.push(name);
        proof {
            assert(keys@ == before.push(name));
            assert(texts(keys@) =~= texts(before).push(name@));
            assert(names(features@.take(i + 1)) =~= names(features@.take(i as int)).push(
                features@[i as int].name@,
            ));
        }
        i = i + 1;
    }
    proof {
        assert(features@.take(i as int) =~= features@);
    }
    let order: Vec<usize> = stable_text_order(&keys);
    let mut result: Vec<Feature> = Vec::new();
    let mut k: usize = 0;
    while k < order.len()
        invariant
            is_stable_text_order(order@, names(features@)),
            k <= order@.len(),
            result@ == order@.take(k as int).map_values(|j: usize| features@[j as int]),
        decreases order.len() - k,
    {
        let j: usize = order[k];
        result.push(features[j].duplicate());
        proof {
            assert(order@.take(k + 1).map_values(|j: usize| features@[j as int]) =~= order@.take(
                k as int,
            ).map_values(|j: usize| features@[j as int]).push(features@[j as int]));
        }
        k = k + 1;
    }
    proof {
        assert(order@.take(k as int) =~= order@);
        assert forall|a: int, b: int| 0 <= a < b < result@.len() implies !lexicographic_lt(
            #[trigger] result@[b].name@,
            #[trigger] result@[a].name@,
        ) by {
            let x = order@[a] as int;
            let y = order@[b] as int;
            assert(result@[a] == features@[x]);
            assert(result@[b] == features@[y]);
            assert(names(features@)[x] == features@[x].name@);
            assert(names(features@)[y] == features@[y].name@);
            lemma_lexicographic_total(features@[x].name@, features@[y].name@);
        }
    }
    result
}

} // verus!
