//! The transfer of the inventory of a player from the former version of
//! the game: it happens once, when the transfer is enabled.
use crate::error::Error;
use crate::sql::{max_tuples, statement_with_tuples, tuple_list, TupleShape};
use vstd::prelude::*;

verus! {

/// The result of a transfer.
#[derive(Debug, Clone, Copy, PartialEq, Eq, Structural)]
pub enum TransferResult {
    /// The transfer is disabled by the configuration; nothing was done.
    Disabled,
    /// The inventory was transferred.
    Done,
    /// The inventory of this player was transferred before.
    AlreadyDone,
}

/// The statistics of the arena of the former version of the game.
#[derive(Debug, Clone, Copy, PartialEq, Eq, Structural)]
pub struct GameStatistics {
    pub game_count: i32,
    pub victory_count: i32,
    pub defeat_count: i32,
}

/// The start of a transfer, knowing whether transfers are enabled by the
/// configuration: `Some(TransferResult::Disabled)` ends it at once when they
/// are not, `None` lets it go on.
pub fn transfer_start(enabled: bool) -> (r: Option<TransferResult>)
    ensures
        !enabled ==> r == Some(TransferResult::Disabled),
        enabled ==> r is None,
{
    if enabled {
        None
    } else {
        Some(TransferResult::Disabled)
    }
}

/// The result of a transfer from the result of the transaction that credits
/// the legacy coins: a second transfer of the same player breaks the unique
/// constraint on the legacy transaction and is reported as already done;
/// any other failure is passed on.
pub fn transfer_outcome(coins_transaction: Result<(), Error>) -> (r: Result<TransferResult, Error>)
    ensures
        match coins_transaction {
            Ok(_) => r == Ok::<TransferResult, Error>(TransferResult::Done),
            Err(Error::UniqueViolation) => r == Ok::<TransferResult, Error>(
                TransferResult::AlreadyDone,
            ),
            Err(e) => r == Err::<TransferResult, Error>(e),
        },
{
    match coins_transaction {
        Ok(_) => Ok(TransferResult::Done),
        Err(e) => {
            if e == Error::UniqueViolation {
                Ok(TransferResult::AlreadyDone)
            } else {
                Err(e)
            }
        },
    }
}

/// The number sent to the client for the result of a transfer.
pub fn transfer_state_code(result: TransferResult) -> (r: i64)
    ensures
        result == TransferResult::Disabled ==> r == 0,
        result == TransferResult::Done ==> r == 1,
        result == TransferResult::AlreadyDone ==> r == 2,
{
    match result {
        TransferResult::Disabled => 0,
        TransferResult::Done => 1,
        TransferResult::AlreadyDone => 2,
    }
}

/// Whether the changes of a transfer are kept: only when it was done.
pub fn commits_transfer(result: TransferResult) -> (r: bool)
    ensures
        r == (result == TransferResult::Done),
{
    result == TransferResult::Done
}

/// The statement giving slots to a player: the player as first parameter,
/// then a slot index per parameter; the slots the player has stay.
pub fn slots_statement(slot_count: usize) -> (r: String)
    requires
        slot_count <= max_tuples(),
    ensures
        r@ == "insert into user_available_game_feature_slots
      values"@ + tuple_list(TupleShape::SharedFirst, slot_count as nat) + " on conflict do nothing"@,
{
    statement_with_tuples(
        "insert into user_available_game_feature_slots
      values",
        TupleShape::SharedFirst,
        slot_count,
        " on conflict do nothing",
    )
}

/// The statement giving features to a player: the player as first
/// parameter, then a feature name per parameter; the features the player
/// has stay.
pub fn features_statement(feature_count: usize) -> (r: String)
    requires
        feature_count <= max_tuples(),
    ensures
        r@ == "insert into user_available_game_features
      select $1, game_feature.id
      from (values "@ + tuple_list(TupleShape::SingleAfterFirst, feature_count as nat)
            + ") as u(feature_name)
                 left join game_feature
                 on u.feature_name = game_feature.name
                 on conflict do nothing"@,
{
    statement_with_tuples(
        "insert into user_available_game_features
      select $1, game_feature.id
      from (values ",
        TupleShape::SingleAfterFirst,
        feature_count,
        ") as u(feature_name)
                 left join game_feature
                 on u.feature_name = game_feature.name
                 on conflict do nothing",
    )
}

} // verus!
