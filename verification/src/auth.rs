//! Admission of requests to the service by their bearer token.

use vstd::prelude::*;

use crate::json::str_eq;

verus! {

/// The `Authorization` header value that admits a request: `Bearer {token}`.
pub open spec fn expected_authorization(token: Seq<char>) -> Seq<char> {
    "Bearer "@ + token
}

/// Whether a request whose `Authorization` header is `header` (`None` where
/// it has none) may use the service whose token is `token`.
pub fn authorized(header: Option<&str>, token: &str) -> (r: bool)
    ensures
        r == match header {
            Some(h) => h@ == expected_authorization(token@),
            None => false,
        },
{
    match header {
        Some(h) => {
            let mut want = String::from_str("Bearer ");
            want.append(token);
            str_eq(h, want.as_str())
        },
        None => false,
    }
}

}
