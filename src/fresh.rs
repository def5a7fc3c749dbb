//! Values the outside world supplies: fresh identifiers and the time now.
//! Nothing is known of them; the flows that use them are verified for every
//! value they may take.
use vstd::prelude::*;

verus! {

/// Relies on uuid's `Uuid::new_v4`: a random identifier, as its 128 bits.
#[verifier::external_body]
pub(crate) fn new_id() -> (r: u128) {
    uuid::Uuid::new_v4().as_u128()
}

/// Relies on time's `OffsetDateTime::now_utc`: the current time, in whole
/// seconds since the Unix epoch.
#[verifier::external_body]
pub(crate) fn now_timestamp() -> (r: i64) {
    time::OffsetDateTime::now_utc().unix_timestamp()
}

} // verus!
