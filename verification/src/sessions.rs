//! The sessions of the players: a device authenticates and receives a
//! session token, valid for a while and extended at each use.
//!
//! Dates are nanoseconds from the UNIX epoch, durations nanoseconds.
use crate::text::{push_signed_decimal, signed_decimal, string_of};
use vstd::prelude::*;

verus! {

/// The answer to an authentication.
pub struct AuthenticationResponse {
    pub session_token: String,
    pub user_id: i64,
}

/// The date at which a session used at `now` expires.
pub fn session_expiry(now: i128, validity: u128) -> (r: i128)
    requires
        validity <= i128::MAX,
        now + validity <= i128::MAX,
    ensures
        r == now + validity,
{
    now + validity as i128
}

/// Whether the removal of expired sessions is skipped at `now`, the last
/// one having run at `last_removal`: it is skipped once `delay` has passed
/// since then.
pub fn session_removal_skipped(last_removal: i128, delay: u128, now: i128) -> (r: bool)
    requires
        delay <= i128::MAX,
        last_removal + delay <= i128::MAX,
    ensures
        r == (last_removal + delay < now),
{
    last_removal + (delay as i128) < now
}

/// The session of a device to reuse, from the sessions of the device that
/// are still valid: the first one, if any.
pub fn reused_session(valid_sessions: Vec<(String, i64)>) -> (r: Option<(String, i64)>)
    ensures
        valid_sessions@.len() == 0 ==> r is None,
        valid_sessions@.len() > 0 ==> r == Some(valid_sessions@[0]),
{
    if valid_sessions.len() == 0 {
        return None;
    }
    let mut sessions = valid_sessions;
    let first = sessions.remove(0);
    Some(first)
}

/// The nickname given to a new user.
pub open spec fn spec_default_nickname(user_id: i64) -> Seq<char> {
    seq!['u', 's', 'e', 'r', '_'] + signed_decimal(user_id as int)
}

/// The nickname given to a new user: `user_` followed by their identifier.
pub fn default_nickname(user_id: i64) -> (r: String)
    ensures
        r@ == spec_default_nickname(user_id),
{
    proof {
        reveal_strlit("user_");
    }
    let mut s: String = string_of("user_");
    push_signed_decimal(&mut s, user_id);
    s
}

} // verus!
