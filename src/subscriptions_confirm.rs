//! Confirming a subscription with a mailed token.
use crate::domain::subscription_token::is_token;
use crate::domain::SubscriptionToken;
use crate::store::{Store, StoreView};
use vstd::prelude::*;

verus! {

/// Why a confirmation fails.
pub enum SubscriptionConfirmationError {
    /// The token does not have the shape of a token; the message says so.
    InvalidTokenFormat(String),
    /// No stored token has this value: it never existed or was consumed.
    UnauthorizedToken,
}

impl SubscriptionConfirmationError {
    /// The HTTP status of the failure.
    pub fn status_code(&self) -> (r: u16)
        ensures
            r == match self {
                SubscriptionConfirmationError::InvalidTokenFormat(_) => 400u16,
                SubscriptionConfirmationError::UnauthorizedToken => 401u16,
            },
    {
        match self {
            SubscriptionConfirmationError::InvalidTokenFormat(_) => 400,
            SubscriptionConfirmationError::UnauthorizedToken => 401,
        }
    }

    /// The text shown for the failure.
    pub fn message(&self) -> (r: String)
        ensures
            match self {
                SubscriptionConfirmationError::InvalidTokenFormat(m) => r@ == m@,
                SubscriptionConfirmationError::UnauthorizedToken => r@
                    == "Token is not authorized"@,
            },
    {
        match self {
            SubscriptionConfirmationError::InvalidTokenFormat(m) => m.clone(),
            SubscriptionConfirmationError::UnauthorizedToken => String::from_str(
                "Token is not authorized",
            ),
        }
    }
}

/// Why a confirmation leaves the tables unchanged.
pub enum ConfirmRefusal {
    InvalidTokenFormat,
    UnauthorizedToken,
}

/// What confirming with `raw` does: the token's subscriber becomes confirmed
/// and every one of its tokens is deleted, in one step.
pub open spec fn confirm_outcome(s: StoreView, raw: Seq<char>) -> Result<StoreView, ConfirmRefusal> {
    if !is_token(raw) {
        Err(ConfirmRefusal::InvalidTokenFormat)
    } else {
        match s.token_owner(raw) {
            Some(id) => Ok(s.with_confirmed(id).without_tokens_of(id)),
            None => Err(ConfirmRefusal::UnauthorizedToken),
        }
    }
}

impl Store {
    /// Confirms the subscription that the token `raw_token` was issued to.
    pub fn confirm(&mut self, raw_token: String) -> (r: Result<(), SubscriptionConfirmationError>)
        requires
            old(self)@.wf(),
        ensures
            final(self)@.wf(),
            match confirm_outcome(old(self)@, raw_token@) {
                Ok(s) => r is Ok && final(self)@ == s,
                Err(ConfirmRefusal::InvalidTokenFormat) => r matches Err(
                    SubscriptionConfirmationError::InvalidTokenFormat(_),
                ) && final(self)@ == old(self)@,
                Err(ConfirmRefusal::UnauthorizedToken) => r matches Err(
                    SubscriptionConfirmationError::UnauthorizedToken,
                ) && final(self)@ == old(self)@,
            },
            r matches Err(SubscriptionConfirmationError::InvalidTokenFormat(m)) ==> m@
                == "Invalid subscription token: `"@ + raw_token@ + "`"@,
    {
        let token = match SubscriptionToken::parse(raw_token) {
            Ok(t) => t,
            Err(m) => {
                return Err(SubscriptionConfirmationError::InvalidTokenFormat(m));
            },
        };
        let id = match self.token_owner(token.expose_secret().as_str()) {
            Some(id) => id,
            None => {
                return Err(SubscriptionConfirmationError::UnauthorizedToken);
            },
        };
        self.confirm_subscription(id);
        self.delete_tokens_of(id);
        Ok(())
    }
}

} // verus!
