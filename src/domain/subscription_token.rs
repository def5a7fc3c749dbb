//! Confirmation tokens: 25 ASCII letters and digits, drawn at random.
use crate::text::{enclose, push_char};
use rand::distributions::Alphanumeric;
use rand::Rng;
use vstd::prelude::*;

verus! {

/// Number of characters in a confirmation token.
pub const TOKEN_LENGTH: usize = 25;

/// An ASCII letter or digit: the class `[[:alnum:]]`.
pub open spec fn is_ascii_alnum(c: char) -> bool {
    ('0' <= c && c <= '9') || ('A' <= c && c <= 'Z') || ('a' <= c && c <= 'z')
}

/// The shape of a token: exactly `TOKEN_LENGTH` ASCII letters and digits.
pub open spec fn is_token(s: Seq<char>) -> bool {
    s.len() == TOKEN_LENGTH && forall|i: int| 0 <= i < s.len() ==> is_ascii_alnum(#[trigger] s[i])
}

/// What parsing makes of a string: the same characters when they have the
/// shape of a token, nothing otherwise.
pub open spec fn parsed_token(s: Seq<char>) -> Option<Seq<char>> {
    if is_token(s) {
        Some(s)
    } else {
        None
    }
}

/// The pattern of a token, unanchored.
pub open spec fn token_pattern() -> Seq<char> {
    "[[:alnum:]]{25}"@
}

/// The pattern of a token, anchored at both ends.
pub open spec fn token_pattern_anchored() -> Seq<char> {
    "^"@ + token_pattern() + "$"@
}

/// The regular expression that matches a token inside a longer text.
pub fn token_regex() -> (r: String)
    ensures
        r@ == token_pattern(),
{
    String::from_str("[[:alnum:]]{25}")
}

/// The regular expression that matches a whole token and nothing else.
pub fn token_regex_anchored() -> (r: String)
    ensures
        r@ == token_pattern_anchored(),
{
    let inner = token_regex();
    enclose("^", inner.as_str(), "$")
}

/// Relies on rand's `Alphanumeric` distribution sampled from `thread_rng`:
/// a byte drawn uniformly from `a-z`, `A-Z` and `0-9`.
#[verifier::external_body]
fn random_alphanumeric() -> (r: u8)
    ensures
        is_ascii_alnum(r as char),
{
    rand::thread_rng().sample(Alphanumeric)
}

/// A confirmation token. Its characters always have the shape of a token.
pub struct SubscriptionToken(String);

impl View for SubscriptionToken {
    type V = Seq<char>;

    closed spec fn view(&self) -> Seq<char> {
        self.0@
    }
}

impl SubscriptionToken {
    #[verifier::type_invariant]
    closed spec fn shaped(self) -> bool {
        is_token(self.0@)
    }

    /// The token whose characters are the given letters and digits, in order.
    pub fn from_alphanumeric(bytes: &Vec<u8>) -> (r: Self)
        requires
            bytes@.len() == TOKEN_LENGTH,
            forall|i: int| 0 <= i < bytes@.len() ==> is_ascii_alnum(#[trigger] bytes@[i] as char),
        ensures
            r@ == bytes@.map_values(|b: u8| b as char),
    {
        let mut s = String::new();
        let mut i: usize = 0;
        while i < bytes.len()
            invariant
                i <= bytes@.len(),
                s@ == bytes@.subrange(0, i as int).map_values(|b: u8| b as char),
            decreases bytes@.len() - i,
        {
            push_char(&mut s, bytes[i] as char);
            i = i + 1;
            assert(s@ =~= bytes@.subrange(0, i as int).map_values(|b: u8| b as char));
        }
        assert(bytes@.subrange(0, i as int) =~= bytes@);
        proof {
            let v = bytes@.map_values(|b: u8| b as char);
            assert forall|j: int| 0 <= j < v.len() implies is_ascii_alnum(#[trigger] v[j]) by {
                assert(is_ascii_alnum(bytes@[j] as char));
            }
        }
        SubscriptionToken(s)
    }

    /// A fresh token of `TOKEN_LENGTH` letters and digits drawn at random;
    /// it depends on nothing but the draws.
    pub fn generate() -> (r: Self)
        ensures
            is_token(r@),
    {
        let mut draws: Vec<u8> = Vec::new();
        let mut i: usize = 0;
        while i < TOKEN_LENGTH
            invariant
                i <= TOKEN_LENGTH,
                draws@.len() == i,
                forall|j: int| 0 <= j < i ==> is_ascii_alnum(#[trigger] draws@[j] as char),
            decreases TOKEN_LENGTH - i,
        {
            let b = random_alphanumeric();
            draws.push(b);
            i = i + 1;
        }
        let r = Self::from_alphanumeric(&draws);
        proof {
            let v = draws@.map_values(|b: u8| b as char);
            assert forall|j: int| 0 <= j < v.len() implies is_ascii_alnum(#[trigger] v[j]) by {
                assert(is_ascii_alnum(draws@[j] as char));
            }
        }
        r
    }

    /// Accepts `s` exactly when it has the shape of a token; the error
    /// names the rejected string.
    pub fn parse(s: String) -> (r: Result<Self, String>)
        ensures
            match r {
                Ok(t) => parsed_token(s@) == Some(t@),
                Err(e) => parsed_token(s@) is None && e@ == "Invalid subscription token: `"@ + s@
                    + "`"@,
            },
    {
        let n = s.as_str().unicode_len();
        let mut ok = n == TOKEN_LENGTH;
        let mut i: usize = 0;
        while ok && i < n
            invariant
                n == s@.len(),
                i <= n,
                ok ==> n == TOKEN_LENGTH,
                ok ==> forall|j: int| 0 <= j < i ==> is_ascii_alnum(#[trigger] s@[j]),
                !ok ==> !is_token(s@),
            decreases n - i,
        {
            let c = s.as_str().get_char(i);
            if !(('0' <= c && c <= '9') || ('A' <= c && c <= 'Z') || ('a' <= c && c <= 'z')) {
                ok = false;
            }
            i = i + 1;
        }
        if ok {
            Ok(SubscriptionToken(s))
        } else {
            Err(enclose("Invalid subscription token: `", s.as_str(), "`"))
        }
    }

    /// The token's characters.
    pub fn expose_secret(&self) -> (r: &String)
        ensures
            r@ == self@,
            is_token(r@),
    {
        proof {
            use_type_invariant(self);
        }
        &self.0
    }
}

} // verus!
