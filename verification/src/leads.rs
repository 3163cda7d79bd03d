//! The administrators (the leads) of the application. They are allowed to
//! edit everything. When there is no administrator, the application is in
//! its initialization state, where the only allowed action is to create
//! one.
use vstd::prelude::*;

verus! {

/// Whether the application is in its initialization state, knowing whether
/// any administrator exists.
pub fn is_in_initialization_state(has_any_lead: bool) -> (r: bool)
    ensures
        r == !has_any_lead,
{
    !has_any_lead
}

/// The next step of the check of the administrator rights of a request.
#[derive(Debug, Clone, Copy, PartialEq, Eq, Structural)]
pub enum AdminCheckStep {
    /// The check is over, with this answer.
    Decided(bool),
    /// The token of the request must be looked up among the administrators.
    LookUpToken,
    /// Whether any administrator exists must be looked up.
    LookUpInitialization,
}

/// Whether a request is allowed: its token is the token of an
/// administrator, or the check allows the initialization state and there is
/// no administrator, whatever the request carries.
pub open spec fn spec_admin_allowed(
    has_token: bool,
    token_valid: bool,
    allow_init: bool,
    has_any_lead: bool,
) -> bool {
    (has_token && token_valid) || (allow_init && !has_any_lead)
}

/// The first step of the check: a request with a readable token has its
/// token looked up; a request without one is refused, unless the check
/// allows the initialization state, in which case whether any administrator
/// exists is looked up.
pub fn admin_check_start(has_token: bool, allow_init: bool) -> (r: AdminCheckStep)
    ensures
        has_token ==> r == AdminCheckStep::LookUpToken,
        !has_token && allow_init ==> r == AdminCheckStep::LookUpInitialization,
        !has_token && !allow_init ==> r == AdminCheckStep::Decided(false),
{
    if has_token {
        AdminCheckStep::LookUpToken
    } else if allow_init {
        AdminCheckStep::LookUpInitialization
    } else {
        AdminCheckStep::Decided(false)
    }
}

/// The step after the look up of the token: a known token is allowed;
/// otherwise, when the check allows the initialization state, whether any
/// administrator exists is looked up.
pub fn admin_check_after_token(token_valid: bool, allow_init: bool) -> (r: AdminCheckStep)
    ensures
        token_valid ==> r == AdminCheckStep::Decided(true),
        !token_valid && allow_init ==> r == AdminCheckStep::LookUpInitialization,
        !token_valid && !allow_init ==> r == AdminCheckStep::Decided(false),
{
    if token_valid {
        AdminCheckStep::Decided(true)
    } else if allow_init {
        AdminCheckStep::LookUpInitialization
    } else {
        AdminCheckStep::Decided(false)
    }
}

/// The answer after the look up of the administrators: allowed in the
/// initialization state only.
pub fn admin_check_after_initialization(has_any_lead: bool) -> (r: bool)
    ensures
        r == is_in_initialization_spec(has_any_lead),
{
    is_in_initialization_state(has_any_lead)
}

/// The initialization state, as a specification.
pub open spec fn is_in_initialization_spec(has_any_lead: bool) -> bool {
    !has_any_lead
}

/// The answer that the steps of the check give, from the looked up facts.
pub open spec fn steps_answer(
    has_token: bool,
    token_valid: bool,
    allow_init: bool,
    has_any_lead: bool,
) -> bool {
    if has_token && token_valid {
        true
    } else if allow_init {
        is_in_initialization_spec(has_any_lead)
    } else {
        false
    }
}

/// The steps of the check answer exactly whether the request is allowed,
/// whatever the looked up facts: the strong check (without `allow_init`)
/// lets in the administrators only, and the weak check also lets in any
/// request, with or without a token, while there is no administrator.
pub proof fn lemma_admin_check_answers(
    has_token: bool,
    token_valid: bool,
    allow_init: bool,
    has_any_lead: bool,
)
    ensures
        steps_answer(has_token, token_valid, allow_init, has_any_lead) == spec_admin_allowed(
            has_token,
            token_valid,
            allow_init,
            has_any_lead,
        ),
        !allow_init ==> (spec_admin_allowed(has_token, token_valid, allow_init, has_any_lead) <==> has_token
            && token_valid),
        allow_init && !has_any_lead ==> spec_admin_allowed(has_token, token_valid, allow_init, has_any_lead),
        has_any_lead ==> (spec_admin_allowed(has_token, token_valid, true, has_any_lead)
            == spec_admin_allowed(has_token, token_valid, false, has_any_lead)),
{
}

/// Whether any administrator exists among the tokens `leads` of the
/// administrators.
pub open spec fn lead_exists(leads: Set<Seq<char>>) -> bool {
    exists|t: Seq<char>| #[trigger] leads.contains(t)
}

/// Once an administrator token is created, the application leaves its
/// initialization state for good: the new token passes both checks, the
/// weak check lets in only administrators, and adding more tokens keeps it
/// so.
pub proof fn lemma_created_lead_ends_initialization(
    leads: Set<Seq<char>>,
    token: Seq<char>,
    has_token: bool,
    token_valid: bool,
    more: Seq<char>,
)
    ensures
        ({
            let after = leads.insert(token);
            &&& lead_exists(after)
            &&& !is_in_initialization_spec(lead_exists(after))
            &&& spec_admin_allowed(true, after.contains(token), false, lead_exists(after))
            &&& spec_admin_allowed(true, after.contains(token), true, lead_exists(after))
            &&& spec_admin_allowed(has_token, token_valid, true, lead_exists(after))
                == (has_token && token_valid)
            &&& lead_exists(after.insert(more))
        }),
{
    let after = leads.insert(token);
    assert(after.contains(token));
    assert(after.insert(more).contains(token));
}

} // verus!
