//! The wallet of coins of each user: every change of the balance is a
//! transaction, and a transaction can not take more coins than the user
//! has.
use crate::error::Error;
use vstd::prelude::*;

verus! {

/// Who asked for a transaction.
#[derive(Debug, Clone, Copy, PartialEq, Eq, Structural)]
pub enum TransactionOrigin {
    Admin,
    App,
}

impl TransactionOrigin {
    /// The origin as stored in the database.
    pub fn text(&self) -> (r: &'static str)
        ensures
            *self == TransactionOrigin::Admin ==> r@ == "admin"@,
            *self == TransactionOrigin::App ==> r@ == "app"@,
    {
        match self {
            TransactionOrigin::Admin => "admin",
            TransactionOrigin::App => "app",
        }
    }
}

/// The balance after a transaction of `amount` coins on a balance of
/// `initial_balance` coins: refused as unprocessable when it takes more
/// coins than there are.
pub open spec fn spec_transaction(initial_balance: i64, amount: i64) -> Result<int, Error> {
    if amount < 0 && -amount > initial_balance {
        Err(Error::Unprocessable)
    } else {
        Ok(initial_balance + amount)
    }
}

/// Whether the transaction can be computed without overflow, as the
/// arithmetic of the service requires.
pub open spec fn transaction_in_range(initial_balance: i64, amount: i64) -> bool {
    &&& amount != i64::MIN
    &&& spec_transaction(initial_balance, amount) matches Ok(b) ==> i64::MIN <= b <= i64::MAX
}

/// The balance after a transaction of `amount` coins on a balance of
/// `initial_balance` coins.
pub fn transaction_balance(initial_balance: i64, amount: i64) -> (r: Result<i64, Error>)
    requires
        transaction_in_range(initial_balance, amount),
    ensures
        match spec_transaction(initial_balance, amount) {
            Ok(b) => r == Ok::<i64, Error>(b as i64),
            Err(e) => r == Err::<i64, Error>(e),
        },
{
    if amount < 0 && -amount > initial_balance {
        return Err(Error::Unprocessable);
    }
    Ok(initial_balance + amount)
}

/// The balance of a user, from the wallet row if there is one: a user
/// without wallet has no coins.
pub fn balance_or_zero(stored: Option<i64>) -> (r: i64)
    ensures
        r == match stored {
            Some(b) => b,
            None => 0,
        },
{
    match stored {
        Some(b) => b,
        None => 0,
    }
}

/// The balance of `user` among the wallets `wallets`, keyed by user: a user
/// without wallet has no coins, as `balance_or_zero` reads it.
pub open spec fn wallet_of(wallets: Map<i64, int>, user: i64) -> int {
    if wallets.dom().contains(user) {
        wallets[user]
    } else {
        0
    }
}

/// The wallets after a transaction of `amount` coins for `user`: the
/// wallet of the user holds the new balance, and a refused transaction
/// writes nothing.
pub open spec fn wallets_after(wallets: Map<i64, int>, user: i64, amount: int) -> Map<i64, int> {
    let balance = wallet_of(wallets, user);
    if amount < 0 && -amount > balance {
        wallets
    } else {
        wallets.insert(user, balance + amount)
    }
}

/// A transaction touches the wallet of its user only: the wallets of the
/// other users keep their balances, none is created or removed, and when no
/// wallet was negative none is afterwards. The new wallets are those that
/// `transaction_balance` computes: the user's wallet set to the new balance,
/// or nothing written when the transaction is refused.
pub proof fn lemma_transaction_touches_own_wallet(
    wallets: Map<i64, int>,
    user: i64,
    initial_balance: i64,
    amount: i64,
)
    requires
        wallet_of(wallets, user) == initial_balance,
        forall|k: i64| #[trigger] wallets.dom().contains(k) ==> wallets[k] >= 0,
    ensures
        ({
            let after = wallets_after(wallets, user, amount as int);
            &&& forall|k: i64| #[trigger] after.dom().contains(k) ==> after[k] >= 0
            &&& forall|k: i64|
                k != user ==> (#[trigger] after.dom().contains(k) == wallets.dom().contains(k))
            &&& forall|k: i64| k != user && #[trigger] wallets.dom().contains(k) ==> after[k] == wallets[k]
            &&& spec_transaction(initial_balance, amount) matches Ok(b) ==> after == wallets.insert(user, b)
            &&& spec_transaction(initial_balance, amount) is Err ==> after == wallets
        }),
{
    let after = wallets_after(wallets, user, amount as int);
    assert forall|k: i64| #[trigger] after.dom().contains(k) implies after[k] >= 0 by {
        if k != user {
            assert(wallets.dom().contains(k));
        }
    }
}

/// The balance after applying a transaction of `amount` coins to `balance`,
/// where a refused transaction leaves the balance as it is.
pub open spec fn settle(balance: int, amount: int) -> int {
    if amount < 0 && -amount > balance {
        balance
    } else {
        balance + amount
    }
}

/// The balance after applying the transactions `amounts` in order.
pub open spec fn settle_all(balance: int, amounts: Seq<int>) -> int
    decreases amounts.len(),
{
    if amounts.len() == 0 {
        balance
    } else {
        settle(settle_all(balance, amounts.drop_last()), amounts.last())
    }
}

/// A wallet never goes below zero: a transaction accepted on a balance
/// that is not negative leaves a balance that is not negative, and a
/// refused transaction is refused because it asks for more coins than
/// there are.
pub proof fn lemma_transaction_keeps_balance_non_negative(initial_balance: i64, amount: i64)
    requires
        initial_balance >= 0,
    ensures
        spec_transaction(initial_balance, amount) matches Ok(b) ==> b >= 0 && b == settle(
            initial_balance as int,
            amount as int,
        ),
        spec_transaction(initial_balance, amount) is Err <==> amount < 0 && -amount > initial_balance,
{
}

/// Over any sequence of transactions on a wallet that starts with no debt,
/// the balance never goes below zero, and it grows by the sum of the
/// credits that were accepted.
pub proof fn lemma_wallet_never_negative(balance: int, amounts: Seq<int>)
    requires
        balance >= 0,
    ensures
        settle_all(balance, amounts) >= 0,
        (forall|k: int| 0 <= k < amounts.len() ==> #[trigger] amounts[k] >= 0) ==> settle_all(
            balance,
            amounts,
        ) == balance + amounts.fold_left(0int, |acc: int, a: int| acc + a),
    decreases amounts.len(),
{
    if amounts.len() > 0 {
        lemma_wallet_never_negative(balance, amounts.drop_last());
        if forall|k: int| 0 <= k < amounts.len() ==> #[trigger] amounts[k] >= 0 {
            assert forall|k: int| 0 <= k < amounts.drop_last().len() implies #[trigger] amounts.drop_last()[k] >= 0 by {
                assert(amounts.drop_last()[k] == amounts[k]);
            }
            assert(amounts.last() == amounts[amounts.len() - 1]);
        }
    }
}

} // verus!
