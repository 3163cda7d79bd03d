//! The purchases of coins in the store: a purchase is checked with the
//! store, recorded, consumed, then credited to the wallet.
use crate::error::Error;
use crate::text::string_of;
use vstd::prelude::*;

verus! {

/// How to reach the Google Play store of the application.
pub struct GoogleConfig {
    pub package_id: String,
    /// The path of the file holding the credentials of the service
    /// account.
    pub credentials_path: String,
}

/// The state of a purchase according to the store.
pub struct ProductPurchase {
    pub purchase_state: i32,
    pub consumption_state: i32,
    pub order_id: String,
    pub quantity: Option<i32>,
}

/// The state of a purchase that was paid.
pub open spec fn purchase_state_purchased() -> i32 {
    0
}

/// The consumption state of a purchase that was already consumed.
pub open spec fn consumption_state_consumed() -> i32 {
    1
}

/// Checks a purchase before crediting it: `Err(Error::BadParameter)` unless
/// it was paid and not yet consumed.
pub fn check_purchase(purchase: &ProductPurchase) -> (r: Result<(), Error>)
    ensures
        r == (if purchase.purchase_state != purchase_state_purchased()
            || purchase.consumption_state == consumption_state_consumed() {
            Err::<(), Error>(Error::BadParameter)
        } else {
            Ok(())
        }),
{
    if purchase.purchase_state != 0 || purchase.consumption_state == 1 {
        return Err(Error::BadParameter);
    }
    Ok(())
}

/// Checks that the purchase was recorded for the first time: a purchase
/// already recorded yet not consumed is refused as a bad parameter.
pub fn check_first_record(recorded: bool) -> (r: Result<(), Error>)
    ensures
        r == (if recorded {
            Ok::<(), Error>(())
        } else {
            Err(Error::BadParameter)
        }),
{
    if !recorded {
        return Err(Error::BadParameter);
    }
    Ok(())
}

/// The reason written in the wallet and the quantity of a purchase checked
/// with the store: its order identifier, and one unit when the store gives
/// no quantity.
pub fn checked_purchase_credit(purchase: ProductPurchase) -> (r: (String, i32))
    ensures
        r.0 == purchase.order_id,
        r.1 == match purchase.quantity {
            Some(q) => q,
            None => 1,
        },
{
    let quantity: i32 = match purchase.quantity {
        Some(q) => q,
        None => 1,
    };
    (purchase.order_id, quantity)
}

/// The reason and the quantity of a purchase when no store is configured:
/// one unit, for the reason `purchase`.
pub fn unchecked_purchase_credit() -> (r: (String, i32))
    ensures
        r.0@ == "purchase"@,
        r.1 == 1,
{
    (string_of("purchase"), 1)
}

/// The coins given by one unit of a product, if the product is in the shop:
/// `Err(Error::BadParameter)` otherwise.
pub fn unit_coins(shop_coins: Option<i32>) -> (r: Result<i32, Error>)
    ensures
        match shop_coins {
            Some(c) => r == Ok::<i32, Error>(c),
            None => r == Err::<i32, Error>(Error::BadParameter),
        },
{
    match shop_coins {
        Some(c) => Ok(c),
        None => Err(Error::BadParameter),
    }
}

/// The coins credited for `quantity` units of a product giving `unit`
/// coins each.
pub fn purchase_coins(unit: i32, quantity: i32) -> (r: i64)
    ensures
        r == unit * quantity,
{
    assert(-0x4000_0000_0000_0000 <= unit * quantity <= 0x4000_0000_0000_0000) by (nonlinear_arith)
        requires
            -0x8000_0000 <= unit <= 0x7fff_ffff,
            -0x8000_0000 <= quantity <= 0x7fff_ffff,
    ;
    (unit as i64) * (quantity as i64)
}

/// The address of the store where a purchase is checked.
pub open spec fn spec_purchase_url(package_id: Seq<char>, sku: Seq<char>, token: Seq<char>) -> Seq<
    char,
> {
    "https://androidpublisher.googleapis.com/androidpublisher/v3/applications/"@ + package_id
        + "/purchases/products/"@ + sku + "/tokens/"@ + token
}

/// The address of the store where a purchase is checked.
pub fn purchase_url(package_id: &str, sku: &str, token: &str) -> (r: String)
    ensures
        r@ == spec_purchase_url(package_id@, sku@, token@),
{
    let mut s: String = string_of(
        "https://androidpublisher.googleapis.com/androidpublisher/v3/applications/",
    );
    s.append(package_id);
    s.append("/purchases/products/");
    s.append(sku);
    s.append("/tokens/");
    s.append(token);
    s
}

/// The address of the store where a purchase is consumed.
pub fn consume_url(package_id: &str, sku: &str, token: &str) -> (r: String)
    ensures
        r@ == spec_purchase_url(package_id@, sku@, token@) + ":consume"@,
{
    let mut s: String = purchase_url(package_id, sku, token);
    s.append(":consume");
    s
}

} // verus!
