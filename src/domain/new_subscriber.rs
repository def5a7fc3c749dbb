//! A subscription request whose fields passed validation.
use super::subscriber_email::{email_error, email_is_valid};
use super::subscriber_name::{name_error, name_is_valid};
use super::{SubscriberEmail, SubscriberName};
use vstd::prelude::*;

verus! {

/// Email and name of someone who asks to subscribe, both validated.
pub struct NewSubscriber {
    pub email: SubscriberEmail,
    pub name: SubscriberName,
}

impl NewSubscriber {
    /// Validates the email first, then the name; the error is the first
    /// validation message.
    pub fn try_from(email: String, name: String) -> (r: Result<NewSubscriber, String>)
        ensures
            r is Ok <==> (email_is_valid(email@) && name_is_valid(name@)),
            r matches Ok(n) ==> n.email@ == email@ && n.name@ == name@,
            r matches Err(m) ==> m@ == if !email_is_valid(email@) {
                email_error(email@)
            } else {
                name_error(name@)
            },
    {
        let email = SubscriberEmail::parse(email)?;
        let name = SubscriberName::parse(name)?;
        Ok(NewSubscriber { email, name })
    }
}

} // verus!
