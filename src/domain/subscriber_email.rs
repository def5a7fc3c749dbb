//! Email addresses that passed syntactic validation.
use crate::text::enclose;
use vstd::prelude::*;

verus! {

/// Whether validator's `validate_email` accepts the address.
pub uninterp spec fn email_is_valid(s: Seq<char>) -> bool;

/// Relies on validator's `validate_email`, which refuses every string
/// without an `@` (the empty one among them).
#[verifier::external_body]
fn validate_email(s: &str) -> (r: bool)
    ensures
        r == email_is_valid(s@),
        r ==> exists|i: int| 0 <= i < s@.len() && s@[i] == '@',
{
    validator::validate_email(s)
}

/// The message for an address the validator refuses.
pub open spec fn email_error(s: Seq<char>) -> Seq<char> {
    "`"@ + s + "` email has invalid format"@
}

/// An email address accepted by the validator.
pub struct SubscriberEmail(String);

impl View for SubscriberEmail {
    type V = Seq<char>;

    closed spec fn view(&self) -> Seq<char> {
        self.0@
    }
}

impl SubscriberEmail {
    #[verifier::type_invariant]
    closed spec fn valid(self) -> bool {
        email_is_valid(self.0@)
    }

    /// Accepts `s` exactly when the validator does; the error names it.
    pub fn parse(s: String) -> (r: Result<Self, String>)
        ensures
            r is Ok <==> email_is_valid(s@),
            r matches Ok(e) ==> e@ == s@,
            r matches Err(m) ==> m@ == email_error(s@),
    {
        if validate_email(s.as_str()) {
            Ok(SubscriberEmail(s))
        } else {
            Err(enclose("`", s.as_str(), "` email has invalid format"))
        }
    }

    /// The address.
    pub fn as_ref(&self) -> (r: &str)
        ensures
            r@ == self@,
            email_is_valid(r@),
    {
        proof {
            use_type_invariant(self);
        }
        self.0.as_str()
    }

    /// The address as an owned string.
    pub fn to_string(&self) -> (r: String)
        ensures
            r@ == self@,
    {
        self.0.clone()
    }
}

} // verus!
