//! The products that can be purchased in the store, and the coins that
//! each one gives.
use crate::error::Error;
use crate::sorting::{is_stable_order, stable_order};
use vstd::prelude::*;

verus! {

/// A product of the store and the coins it gives.
pub struct Product {
    pub id: String,
    pub coins: i32,
}

impl Product {
    /// A copy of this product.
    pub fn duplicate(&self) -> (r: Product)
        ensures
            r == *self,
    {
        Product { id: self.id.clone(), coins: self.coins }
    }
}

/// Checks a product before it is stored: the coins it gives can not be
/// negative.
pub fn check_product(product: &Product) -> (r: Result<(), Error>)
    ensures
        r == (if product.coins < 0 {
            Err::<(), Error>(Error::BadParameter)
        } else {
            Ok(())
        }),
{
    if product.coins < 0 {
        return Err(Error::BadParameter);
    }
    Ok(())
}

/// The coins of the products, as sort keys.
pub open spec fn coin_keys(products: Seq<Product>) -> Seq<i64> {
    products.map_values(|p: Product| p.coins as i64)
}

/// The sort keys of the products are their coins, without loss.
pub proof fn lemma_coin_keys_are_coins(products: Seq<Product>)
    ensures
        coin_keys(products).len() == products.len(),
        forall|i: int| 0 <= i < products.len() ==> #[trigger] coin_keys(products)[i] as int == products[i].coins as int,
{
}

/// The products listed by increasing coins, keeping the order of the input
/// among equal amounts.
pub fn sorted_by_coins(products: Vec<Product>) -> (r: Vec<Product>)
    ensures
        exists|order: Seq<usize>|
            is_stable_order(order, coin_keys(products@)) && r@ == order.map_values(
                |k: usize| products@[k as int],
            ),
        r@.len() == products@.len(),
        forall|k: int, l: int| 0 <= k < l < r@.len() ==> #[trigger] r@[k].coins <= #[trigger] r@[l].coins,
        forall|i: int| 0 <= i < products@.len() ==> #[trigger] coin_keys(products@)[i] as int == products@[i].coins as int,
{
    let mut keys: Vec<i64> = Vec::new();
    let mut i: usize = 0;
    while i < products.len()
        invariant
            i <= products@.len(),
            keys@ == coin_keys(products@.take(i as int)),
        decreases products.len() - i,
    {
        keys.push(products[i].coins as i64);
        proof {
            assert(coin_keys(products@.take(i + 1)) =~= coin_keys(products@.take(i as int)).push(
                products@[i as int].coins as i64,
            ));
        }
        i = i + 1;
    }
    proof {
        assert(products@.take(i as int) =~= products@);
    }
    let order: Vec<usize> = stable_order(keys.as_slice());
    let mut result: Vec<Product> = Vec::new();
    let mut k: usize = 0;
    while k < order.len()
        invariant
            is_stable_order(order@, coin_keys(products@)),
            k <= order@.len(),
            result@ == order@.take(k as int).map_values(|j: usize| products@[j as int]),
        decreases order.len() - k,
    {
        let j: usize = order[k];
        result.push(products[j].duplicate());
        proof {
            assert(order@.take(k + 1).map_values(|j: usize| products@[j as int]) =~= order@.take(
                k as int,
            ).map_values(|j: usize| products@[j as int]).push(products@[j as int]));
        }
        k = k + 1;
    }
    proof {
        assert(order@.take(k as int) =~= order@);
        lemma_coin_keys_are_coins(products@);
        assert forall|a: int, b: int| 0 <= a < b < result@.len() implies #[trigger] result@[a].coins
            <= #[trigger] result@[b].coins by {
            let x = order@[a] as int;
            let y = order@[b] as int;
            assert(result@[a] == products@[x]);
            assert(result@[b] == products@[y]);
            assert(coin_keys(products@)[x] <= coin_keys(products@)[y]);
        }
    }
    result
}

} // verus!
