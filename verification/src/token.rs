//! Bearer-token verification logic: the fixed request parameters for the
//! identity-service call, and the interpretation of its outcome. The HTTPS
//! call itself is performed by the host side, which hands the resulting
//! status code (or the transport failure, as a string) to `verify_outcome`.

use vstd::prelude::*;

verus! {

/// A status code indicates success exactly when it lies in the 2xx range.
pub open spec fn is_success_status(status: int) -> bool {
    200 <= status && status < 300
}

/// Whether an HTTP status code counts as a successful verification.
pub fn status_indicates_success(status: u16) -> (r: bool)
    ensures
        r == is_success_status(status as int),
{
    200 <= status && status < 300
}

/// Turns the outcome of the identity-service request into the verification
/// result: a completed request yields `Ok(true)` exactly for a 2xx status,
/// and a transport failure is propagated unchanged as the error.
pub fn verify_outcome(response: Result<u16, String>) -> (r: Result<bool, String>)
    ensures
        response matches Ok(status) ==> r == Ok::<bool, String>(is_success_status(status as int)),
        response matches Err(e) ==> (r matches Err(msg) && msg@ == e@),
{
    match response {
        Ok(status) => Ok(status_indicates_success(status)),
        Err(e) => Err(e),
    }
}

/// The fixed identity-service endpoint queried to validate a token.
pub fn verify_endpoint() -> (r: &'static str)
    ensures
        r@ == "https://api.github.com/user"@,
{
    "https://api.github.com/user"
}

/// The fixed client-identifying header value sent with every request.
pub fn client_user_agent() -> (r: &'static str)
    ensures
        r@ == "ScriptHub-App"@,
{
    "ScriptHub-App"
}

/// The `Authorization` header value carrying the token as a bearer credential.
pub fn bearer_header_value(token: &str) -> (r: String)
    ensures
        r@ == "Bearer "@ + token@,
{
    let prefix: String = String::from_str("Bearer ");
    prefix.concat(token)
}

} // verus!
