//! Identity: the claims that a bearer credential carries, who a request acts
//! for, and whether the caller may touch a resource.

use vstd::prelude::*;
use vstd::string::StringExecFns;
use crate::errors::ServerError;

verus! {

/// Mathematical value of a [`JWTPayload`].
pub struct JWTPayloadView {
    pub user_id: Seq<char>,
    pub iat: u64,
}

/// The claims signed into a bearer token: the user and the time of issue.
#[derive(Debug)]
pub struct JWTPayload {
    pub user_id: String,
    iat: u64,
}

impl View for JWTPayload {
    type V = JWTPayloadView;

    closed spec fn view(&self) -> JWTPayloadView {
        JWTPayloadView { user_id: self.user_id@, iat: self.iat }
    }
}

impl JWTPayload {
    /// Claims for `user_id`, issued at `iat` seconds since the Unix epoch.
    pub fn new(user_id: String, iat: u64) -> (claims: JWTPayload)
        ensures
            claims@ == (JWTPayloadView { user_id: user_id@, iat }),
    {
        JWTPayload { user_id, iat }
    }

    /// The user that the claims name.
    pub fn user(&self) -> (user_id: &str)
        ensures
            user_id@ == self@.user_id,
    {
        self.user_id.as_str()
    }

    /// The time of issue, in seconds since the Unix epoch.
    pub fn iat(&self) -> (iat: u64)
        ensures
            iat == self@.iat,
    {
        self.iat
    }
}

/// The current time in seconds since the Unix epoch, as
/// `ohkami::utils::unix_timestamp` reads it from the system clock. Nothing
/// is claimed of the value: two calls may give any two numbers. The call
/// itself is taken on trust; it fails only where the clock stands before
/// the epoch.
#[verifier::external_body]
pub(crate) fn unix_timestamp() -> (now: u64) {
    ohkami::utils::unix_timestamp()
}

/// The claims of a token issued now for `user_id`.
pub fn new_claims_for(user_id: String) -> (claims: JWTPayload)
    ensures
        claims@.user_id == user_id@,
{
    let now = unix_timestamp();
    JWTPayload::new(user_id, now)
}

/// The error is `NotOwner` for this user and this kind of resource.
pub open spec fn is_not_owner(e: ServerError, user_id: Seq<char>, resource: Seq<char>) -> bool {
    e matches ServerError::NotOwner { user_id: u, resource: r } && u@ == user_id && r@ == resource
}

/// The user a request acts for, given the claims of its verified bearer
/// token, or none if the token was missing or did not verify.
pub fn authenticate(claims: Option<JWTPayload>) -> (res: Result<String, ServerError>)
    ensures
        match res {
            Ok(user_id) => claims matches Some(c) && user_id@ == c@.user_id,
            Err(e) => claims is None && e is Unauthenticated,
        },
{
    match claims {
        Some(c) => Ok(c.user_id),
        None => Err(ServerError::Unauthenticated),
    }
}

/// Decides whether `user_id` may change a resource whose owner, as the
/// store reports it, is `owner`. A resource that does not exist belongs to
/// nobody, so a missing owner is refused like a foreign one.
pub fn authorize(owner: Option<String>, user_id: &str, resource: &'static str) -> (res: Result<
    (),
    ServerError,
>)
    ensures
        res is Ok <==> (owner matches Some(o) && o@ == user_id@),
        res matches Err(e) ==> is_not_owner(e, user_id@, resource@),
{
    let user_id = user_id.to_owned();
    match owner {
        Some(o) => {
            if o == user_id {
                Ok(())
            } else {
                Err(ServerError::NotOwner { user_id, resource })
            }
        },
        None => Err(ServerError::NotOwner { user_id, resource }),
    }
}

/// The value of the `Authorization` header that presents a token.
pub fn bearer(token: &str) -> (header: String)
    ensures
        header@ == "Bearer "@ + token@,
{
    let mut header = String::from_str("Bearer ");
    header.append(token);
    header
}

} // verus!
