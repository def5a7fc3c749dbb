//! Subscribing: a pending subscription and a new confirmation token.
use crate::domain::subscriber_email::{email_error, email_is_valid};
use crate::domain::subscriber_name::{name_error, name_is_valid};
use crate::domain::{NewSubscriber, SubscriberEmail, SubscriptionStatus, SubscriptionToken};
use crate::fresh::{new_id, now_timestamp};
use crate::store::{Store, StoreView, Subscription, SubscriptionView, TokenView};
use crate::text::enclose;
use vstd::prelude::*;

verus! {

/// Why subscribing fails.
pub enum SubscribeError {
    /// The email or the name was refused; the message says why.
    ValidationError(String),
    /// The address belongs to a confirmed subscription already.
    SubscriptionAlreadyConfirmed,
    /// The storage refused the new rows (an id or a token value is taken).
    UnexpectedError(String),
}

impl SubscribeError {
    /// The HTTP status of the failure.
    pub fn status_code(&self) -> (r: u16)
        ensures
            r == match self {
                SubscribeError::ValidationError(_) => 400u16,
                SubscribeError::SubscriptionAlreadyConfirmed => 422u16,
                SubscribeError::UnexpectedError(_) => 500u16,
            },
    {
        match self {
            SubscribeError::ValidationError(_) => 400,
            SubscribeError::SubscriptionAlreadyConfirmed => 422,
            SubscribeError::UnexpectedError(_) => 500,
        }
    }

    /// The text shown for the failure.
    pub fn message(&self) -> (r: String)
        ensures
            match self {
                SubscribeError::ValidationError(m) => r@ == m@,
                SubscribeError::SubscriptionAlreadyConfirmed => r@
                    == "Subscription has been confirmed already"@,
                SubscribeError::UnexpectedError(m) => r@ == m@,
            },
    {
        match self {
            SubscribeError::ValidationError(m) => m.clone(),
            SubscribeError::SubscriptionAlreadyConfirmed => String::from_str(
                "Subscription has been confirmed already",
            ),
            SubscribeError::UnexpectedError(m) => m.clone(),
        }
    }
}

/// Why a valid subscription request leaves the tables unchanged.
pub enum SubscribeRefusal {
    AlreadyConfirmed,
    IdTaken,
    TokenTaken,
}

/// What subscribing `email` (with `name`) does to the tables, given the id a
/// new subscription would get, the token to store and the time now: the
/// tables after it and the subscriber's id, or why nothing changes.
/// A pending subscription keeps its id and gains one more token; a confirmed
/// one is refused.
pub open spec fn subscribe_outcome(
    s: StoreView,
    email: Seq<char>,
    name: Seq<char>,
    fresh_id: u128,
    token: Seq<char>,
    now: i64,
) -> Result<(StoreView, u128), SubscribeRefusal> {
    match s.email_index(email) {
        Some(i) => if s.subscriptions[i].status == SubscriptionStatus::Confirmed {
            Err(SubscribeRefusal::AlreadyConfirmed)
        } else if s.token_index(token) is Some {
            Err(SubscribeRefusal::TokenTaken)
        } else {
            let id = s.subscriptions[i].id;
            Ok((s.with_token(TokenView { token, subscriber_id: id }), id))
        },
        None => if s.id_index(fresh_id) is Some {
            Err(SubscribeRefusal::IdTaken)
        } else if s.token_index(token) is Some {
            Err(SubscribeRefusal::TokenTaken)
        } else {
            let row = SubscriptionView {
                id: fresh_id,
                email,
                name,
                subscribed_at: now,
                status: SubscriptionStatus::PendingConfirmation,
            };
            Ok(
                (
                    s.with_subscription(row).with_token(
                        TokenView { token, subscriber_id: fresh_id },
                    ),
                    fresh_id,
                ),
            )
        },
    }
}

/// Whether the address belongs to a confirmed subscription.
pub open spec fn is_already_confirmed(s: StoreView, email: Seq<char>) -> bool {
    match s.email_index(email) {
        Some(i) => s.subscriptions[i].status == SubscriptionStatus::Confirmed,
        None => false,
    }
}

/// Subscribing `email` with token `token` took the tables from `before` to
/// `after` and gave subscriber id `id`, for some fresh id and time.
pub open spec fn subscribed(
    before: StoreView,
    email: Seq<char>,
    name: Seq<char>,
    token: Seq<char>,
    after: StoreView,
    id: u128,
) -> bool {
    exists|fresh_id: u128, now: i64|
        #[trigger] subscribe_outcome(before, email, name, fresh_id, token, now) == Ok::<
            (StoreView, u128),
            SubscribeRefusal,
        >((after, id))
}

/// What the confirmation email needs: the address, and the token its link
/// carries.
pub struct ConfirmationRequest {
    pub subscriber_id: u128,
    pub email: SubscriberEmail,
    pub token: SubscriptionToken,
}

/// The link that confirms `token`: `base_url` followed by the confirmation
/// path and the token as its query parameter.
pub fn confirmation_link(base_url: &str, token: &SubscriptionToken) -> (r: String)
    ensures
        r@ == base_url@ + "subscriptions/confirm?subscription_token="@ + token@,
{
    enclose(base_url, "subscriptions/confirm?subscription_token=", token.expose_secret().as_str())
}

impl Store {
    /// Subscribes a validated request, with the id a new subscription gets,
    /// the token to store and the time now, all chosen by the caller. The
    /// tables change exactly as `subscribe_outcome` says, or not at all.
    pub fn subscribe_with(
        &mut self,
        new_subscriber: &NewSubscriber,
        fresh_id: u128,
        token: &SubscriptionToken,
        now: i64,
    ) -> (r: Result<u128, SubscribeError>)
        requires
            old(self)@.wf(),
        ensures
            final(self)@.wf(),
            match subscribe_outcome(
                old(self)@,
                new_subscriber.email@,
                new_subscriber.name@,
                fresh_id,
                token@,
                now,
            ) {
                Ok((s, id)) => r == Ok::<u128, SubscribeError>(id) && final(self)@ == s,
                Err(SubscribeRefusal::AlreadyConfirmed) => r matches Err(
                    SubscribeError::SubscriptionAlreadyConfirmed,
                ) && final(self)@ == old(self)@,
                Err(_) => r matches Err(SubscribeError::UnexpectedError(_)) && final(self)@ == old(
                    self,
                )@,
            },
    {
        let token_text = token.expose_secret();
        match self.find_subscription(new_subscriber.email.as_ref()) {
            Some(i) => {
                let row = self.subscription(i);
                if row.status == SubscriptionStatus::Confirmed {
                    return Err(SubscribeError::SubscriptionAlreadyConfirmed);
                }
                let id = row.id;
                if self.token_taken(token_text.as_str()) {
                    return Err(
                        SubscribeError::UnexpectedError(
                            String::from_str("Failed to store token"),
                        ),
                    );
                }
                self.insert_token(token_text.clone(), id);
                Ok(id)
            },
            None => {
                if self.subscription_id_taken(fresh_id) {
                    return Err(
                        SubscribeError::UnexpectedError(
                            String::from_str("Failed to insert new subscriber"),
                        ),
                    );
                }
                if self.token_taken(token_text.as_str()) {
                    return Err(
                        SubscribeError::UnexpectedError(
                            String::from_str("Failed to store token"),
                        ),
                    );
                }
                let row = Subscription {
                    id: fresh_id,
                    email: String::from_str(new_subscriber.email.as_ref()),
                    name: String::from_str(new_subscriber.name.as_ref()),
                    subscribed_at: now,
                    status: SubscriptionStatus::PendingConfirmation,
                };
                self.insert_subscription(row);
                assert(self@.subscriptions[self@.subscriptions.len() - 1].id == fresh_id);
                self.insert_token(token_text.clone(), fresh_id);
                Ok(fresh_id)
            },
        }
    }

    /// Subscribes `email` with `name`: validates both, then stores the
    /// subscription (pending, under a fresh id, unless one for the address
    /// is pending already) with a freshly generated token. On success the
    /// caller sends the confirmation email that the result describes.
    pub fn subscribe(&mut self, email: String, name: String) -> (r: Result<
        ConfirmationRequest,
        SubscribeError,
    >)
        requires
            old(self)@.wf(),
        ensures
            final(self)@.wf(),
            r matches Err(SubscribeError::ValidationError(_)) <==> !(email_is_valid(email@)
                && name_is_valid(name@)),
            r matches Err(SubscribeError::ValidationError(m)) ==> m@ == if !email_is_valid(
                email@,
            ) {
                email_error(email@)
            } else {
                name_error(name@)
            },
            r matches Err(SubscribeError::SubscriptionAlreadyConfirmed) <==> (email_is_valid(
                email@,
            ) && name_is_valid(name@) && is_already_confirmed(old(self)@, email@)),
            r is Err ==> final(self)@ == old(self)@,
            r matches Err(SubscribeError::UnexpectedError(_)) ==> (old(self)@.tokens.len() > 0 || (
            old(self)@.email_index(email@) is None && old(self)@.subscriptions.len() > 0)),
            r matches Ok(c) ==> c.email@ == email@,
            r matches Ok(c) ==> subscribed(old(self)@, email@, name@, c.token@, final(self)@, c.subscriber_id),
    {
        let ghost email_text = email@;
        let ghost name_text = name@;
        let new_subscriber = match NewSubscriber::try_from(email, name) {
            Ok(n) => n,
            Err(m) => {
                return Err(SubscribeError::ValidationError(m));
            },
        };
        let fresh_id = new_id();
        let token = SubscriptionToken::generate();
        let now = now_timestamp();
        let id = self.subscribe_with(&new_subscriber, fresh_id, &token, now)?;
        assert(subscribe_outcome(old(self)@, email_text, name_text, fresh_id, token@, now) == Ok::<
            (StoreView, u128),
            SubscribeRefusal,
        >((self@, id)));
        let c = ConfirmationRequest { subscriber_id: id, email: new_subscriber.email, token };
        Ok(c)
    }
}

} // verus!
