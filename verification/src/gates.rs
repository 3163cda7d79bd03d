//! The decisions of the layers that guard the web services: a request goes
//! through, with what the guard learnt of its sender, or is answered with
//! an HTTP status.
use crate::error::Error;
use vstd::prelude::*;

verus! {

/// The HTTP status of a request without valid credentials.
pub open spec fn unauthorized() -> u16 {
    401
}

/// The HTTP status of a failure of the server.
pub open spec fn internal_server_error() -> u16 {
    500
}

/// What a guard does with a request that identifies its sender by a value
/// of type `T`.
#[derive(Debug, PartialEq, Eq)]
pub enum Gate<T> {
    /// The request goes through, sent by this user or game server.
    Pass(T),
    /// The request is answered with this HTTP status.
    Reject(u16),
}

/// The guard of the services of the players and of the game servers, from
/// the look up of the token of the request (`None` when the request has no
/// readable token): an unknown token is unauthorized, a failed look up is a
/// failure of the server.
pub fn identity_gate<T>(lookup: Option<Result<Option<T>, Error>>) -> (r: Gate<T>)
    ensures
        r == match lookup {
            None => Gate::<T>::Reject(unauthorized()),
            Some(Err(_)) => Gate::<T>::Reject(internal_server_error()),
            Some(Ok(None)) => Gate::<T>::Reject(unauthorized()),
            Some(Ok(Some(id))) => Gate::<T>::Pass(id),
        },
{
    match lookup {
        None => Gate::Reject(401),
        Some(Err(_)) => Gate::Reject(500),
        Some(Ok(None)) => Gate::Reject(401),
        Some(Ok(Some(id))) => Gate::Pass(id),
    }
}

/// The guard of the services of the administrators, from the check of the
/// rights of the request: `None` when the request goes through, otherwise
/// the HTTP status of the answer.
pub fn admin_gate(check: Result<bool, Error>) -> (r: Option<u16>)
    ensures
        r == match check {
            Err(_) => Some(internal_server_error()),
            Ok(true) => None::<u16>,
            Ok(false) => Some(unauthorized()),
        },
{
    match check {
        Err(_) => Some(500),
        Ok(true) => None,
        Ok(false) => Some(401),
    }
}

} // verus!
