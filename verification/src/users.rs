//! The public profile of the users.
use crate::sql::{max_tuples, statement_with_tuples, tuple_list, TupleShape};
use crate::sorting::{is_stable_order, stable_order};
use vstd::prelude::*;

verus! {

/// The profile of a user as seen by another user.
pub struct ProfileResponse {
    pub user_id: i64,
    pub nickname: String,
}

impl ProfileResponse {
    /// A copy of this profile.
    pub fn duplicate(&self) -> (r: ProfileResponse)
        ensures
            r == *self,
    {
        ProfileResponse { user_id: self.user_id, nickname: self.nickname.clone() }
    }
}

/// The statement reading the profiles of `user_count` users as seen by the
/// user given as first parameter: a user sees their own nickname, and the
/// nickname imposed by an administrator on the others, if any.
pub fn profile_statement(user_count: usize) -> (r: String)
    requires
        user_count <= max_tuples(),
    ensures
        r@ == "select u.user_id,
             case when u.user_id = $1
                  then u.nickname
                  else coalesce(o.nickname, u.nickname)
             end
      from user_account u
      left join nickname_override o
      on u.user_id = o.user_id
      where u.user_id in ("@ + tuple_list(TupleShape::BareAfterFirst, user_count as nat) + ")"@,
{
    statement_with_tuples(
        "select u.user_id,
             case when u.user_id = $1
                  then u.nickname
                  else coalesce(o.nickname, u.nickname)
             end
      from user_account u
      left join nickname_override o
      on u.user_id = o.user_id
      where u.user_id in (",
        TupleShape::BareAfterFirst,
        user_count,
        ")",
    )
}

/// The identifiers of the profiles, as sort keys.
pub open spec fn user_keys(profiles: Seq<ProfileResponse>) -> Seq<i64> {
    profiles.map_values(|p: ProfileResponse| p.user_id)
}

/// The sort keys of the list are its `user_id` fields, without loss.
pub proof fn lemma_user_keys_are_fields(profiles: Seq<ProfileResponse>)
    ensures
        user_keys(profiles).len() == profiles.len(),
        forall|i: int| 0 <= i < profiles.len() ==> #[trigger] user_keys(profiles)[i] as int == profiles[i].user_id as int,
{
}

/// The profiles listed by increasing user identifier.
pub fn sorted_by_user_id(profiles: Vec<ProfileResponse>) -> (r: Vec<ProfileResponse>)
    ensures
        exists|order: Seq<usize>|
            is_stable_order(order, user_keys(profiles@)) && r@ == order.map_values(
                |k: usize| profiles@[k as int],
            ),
        r@.len() == profiles@.len(),
        forall|k: int, l: int| 0 <= k < l < r@.len() ==> #[trigger] r@[k].user_id <= #[trigger] r@[l].user_id,
        forall|i: int| 0 <= i < profiles@.len() ==> #[trigger] user_keys(profiles@)[i] as int == profiles@[i].user_id as int,
{
    let mut keys: Vec<i64> = Vec::new();
    let mut i: usize = 0;
    while i < profiles.len()
        invariant
            i <= profiles@.len(),
            keys@ == user_keys(profiles@.take(i as int)),
        decreases profiles.len() - i,
    {
        keys.push(profiles[i].user_id);
        proof {
            assert(user_keys(profiles@.take(i + 1)) =~= user_keys(profiles@.take(i as int)).push(
                profiles@[i as int].user_id,
            ));
        }
        i = i + 1;
    }
    proof {
        assert(profiles@.take(i as int) =~= profiles@);
    }
    let order: Vec<usize> = stable_order(keys.as_slice());
    let mut result: Vec<ProfileResponse> = Vec::new();
    let mut k: usize = 0;
    while k < order.len()
        invariant
            is_stable_order(order@, user_keys(profiles@)),
            k <= order@.len(),
            result@ == order@.take(k as int).map_values(|j: usize| profiles@[j as int]),
        decreases order.len() - k,
    {
        let j: usize = order[k];
        result.push(profiles[j].duplicate());
        proof {
            assert(order@.take(k + 1).map_values(|j: usize| profiles@[j as int]) =~= order@.take(
                k as int,
            ).map_values(|j: usize| profiles@[j as int]).push(profiles@[j as int]));
        }
        k = k + 1;
    }
    proof {
        assert(order@.take(k as int) =~= order@);
        lemma_user_keys_are_fields(profiles@);
        assert forall|a: int, b: int| 0 <= a < b < result@.len() implies #[trigger] result@[a].user_id
            <= #[trigger] result@[b].user_id by {
            let x = order@[a] as int;
            let y = order@[b] as int;
            assert(result@[a] == profiles@[x]);
            assert(result@[b] == profiles@[y]);
            assert(user_keys(profiles@)[x] <= user_keys(profiles@)[y]);
        }
    }
    result
}

} // verus!
