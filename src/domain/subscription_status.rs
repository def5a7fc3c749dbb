//! The two states of a subscription.
use crate::text::{enclose, same_text};
use vstd::prelude::*;

verus! {

/// Where a subscription stands. It only ever moves from pending to confirmed.
#[derive(PartialEq, Eq, Structural, Clone, Copy, Debug)]
pub enum SubscriptionStatus {
    PendingConfirmation,
    Confirmed,
}

/// The stored name of each status.
pub open spec fn status_name(s: SubscriptionStatus) -> Seq<char> {
    match s {
        SubscriptionStatus::PendingConfirmation => "pending_confirmation"@,
        SubscriptionStatus::Confirmed => "confirmed"@,
    }
}

impl SubscriptionStatus {
    /// The stored name of the status.
    pub fn as_str(&self) -> (r: &'static str)
        ensures
            r@ == status_name(*self),
    {
        match self {
            SubscriptionStatus::PendingConfirmation => "pending_confirmation",
            SubscriptionStatus::Confirmed => "confirmed",
        }
    }

    /// The status whose stored name is `s`.
    pub fn parse(s: &str) -> (r: Result<SubscriptionStatus, String>)
        ensures
            r matches Ok(st) ==> status_name(st) == s@,
            r is Err <==> (s@ != status_name(SubscriptionStatus::PendingConfirmation) && s@
                != status_name(SubscriptionStatus::Confirmed)),
            r matches Err(m) ==> m@ == "`"@ + s@ + "` is not a valid variant of SubscriptionStatus"@,
    {
        if same_text(s, "pending_confirmation") {
            Ok(SubscriptionStatus::PendingConfirmation)
        } else if same_text(s, "confirmed") {
            Ok(SubscriptionStatus::Confirmed)
        } else {
            Err(enclose("`", s, "` is not a valid variant of SubscriptionStatus"))
        }
    }
}

} // verus!
