//! What is known of the system's clock.
use vstd::prelude::*;

verus! {

/// Whether a time, in seconds since the epoch, is one that the system's clock gave. The functions
/// that read the clock say it of what they return; nothing outside of this module can show it of
/// any other time.
pub closed spec fn was_read(seconds: int) -> bool {
    true
}

/// Whether a token was held against a secret and the system's clock, with this outcome: its expiry,
/// or why it was not accepted. The function that does so says it of what it returns; nothing
/// outside of this module can show it of any other outcome.
pub closed spec fn was_judged(
    token: Seq<char>,
    secret: Seq<char>,
    outcome: Result<i64, crate::auth::jwt::TokenFault>,
) -> bool {
    true
}

} // verus!
