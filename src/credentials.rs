//! Checking a username and password against the stored users, and reading
//! them out of an HTTP `Authorization: Basic` header.
use crate::authentication::AuthError;
use crate::text::same_text;
use argon2::PasswordVerifier;
use base64::Engine;
use vstd::prelude::*;
use vstd::utf8::{decode_utf8, valid_utf8};

verus! {

/// A username and the password offered for it.
pub struct Credentials {
    pub username: String,
    pub password: String,
}

/// A row of the users table.
pub struct StoredUser {
    pub user_id: u128,
    pub username: String,
    pub password_hash: String,
}

/// Whether password-hash's `PasswordHash::new` parses the text as a PHC string.
pub uninterp spec fn hash_is_phc(hash: Seq<char>) -> bool;

/// Whether argon2's `verify_password` accepts the password for the parsed hash.
pub uninterp spec fn argon2_accepts(hash: Seq<char>, password: Seq<char>) -> bool;

/// The result of checking a password against a stored hash.
#[derive(PartialEq, Eq, Structural, Clone, Copy, Debug)]
pub enum PasswordCheck {
    Matches,
    Mismatch,
    MalformedHash,
}

/// Relies on password-hash's `PasswordHash::new`, which parses the PHC
/// string, and then on `Argon2::verify_password`, which recomputes the hash
/// of the password with the parsed parameters and salt and compares.
#[verifier::external_body]
fn check_password(hash: &str, password: &str) -> (r: PasswordCheck)
    ensures
        r == if !hash_is_phc(hash@) {
            PasswordCheck::MalformedHash
        } else if argon2_accepts(hash@, password@) {
            PasswordCheck::Matches
        } else {
            PasswordCheck::Mismatch
        },
{
    match argon2::PasswordHash::new(hash) {
        Err(_) => PasswordCheck::MalformedHash,
        Ok(parsed) => match argon2::Argon2::default().verify_password(password.as_bytes(), &parsed) {
            Ok(()) => PasswordCheck::Matches,
            Err(_) => PasswordCheck::Mismatch,
        },
    }
}

/// The hash checked for an unknown username, so that an unknown user costs
/// as much time as a wrong password.
pub const FALLBACK_HASH: &'static str = "$argon2id$v=19$m=15000,t=2,p=1$5sbY1nJpEqWJ9gQP0SvDbw$ZgUSqWDG8XJozXYqOTrah9Ori8FmepJwhTHZMLradFU";

/// Checks `candidate` against `expected_hash`.
pub fn verify_password_hash(expected_hash: &str, candidate: &str) -> (r: Result<(), AuthError>)
    ensures
        r is Ok <==> hash_is_phc(expected_hash@) && argon2_accepts(expected_hash@, candidate@),
        r matches Err(AuthError::UnexpectedError(_)) <==> !hash_is_phc(expected_hash@),
{
    match check_password(expected_hash, candidate) {
        PasswordCheck::Matches => Ok(()),
        PasswordCheck::Mismatch => Err(AuthError::InvalidCredentials(String::from_str("Invalid password"))),
        PasswordCheck::MalformedHash => Err(
            AuthError::UnexpectedError(
                String::from_str("Failed to parse hash in PHC string format"),
            ),
        ),
    }
}

/// The id and password hash of the user named `username`.
pub open spec fn stored_credentials(users: Seq<StoredUser>, username: Seq<char>) -> Option<(u128, Seq<char>)> {
    if exists|i: int| 0 <= i < users.len() && users[i].username@ == username {
        let i = choose|i: int|
            0 <= i < users.len() && users[i].username@ == username && forall|j: int|
                0 <= j < i ==> users[j].username@ != username;
        Some((users[i].user_id, users[i].password_hash@))
    } else {
        None
    }
}

/// The first user named `username`, as its id and password hash.
pub fn get_stored_credentials(users: &Vec<StoredUser>, username: &str) -> (r: Option<(u128, String)>)
    ensures
        match r {
            Some((id, hash)) => stored_credentials(users@, username@) == Some((id, hash@)),
            None => stored_credentials(users@, username@) is None,
        },
{
    let mut i: usize = 0;
    while i < users.len()
        invariant
            i <= users@.len(),
            forall|j: int| 0 <= j < i ==> users@[j].username@ != username@,
        decreases users@.len() - i,
    {
        if same_text(users[i].username.as_str(), username) {
            proof {
                let u = users@;
                assert(0 <= i < u.len() && u[i as int].username@ == username@);
                let k = choose|k: int|
                    0 <= k < u.len() && u[k].username@ == username@ && forall|j: int|
                        0 <= j < k ==> u[j].username@ != username@;
                assert(u[k].username@ == username@);
                if k < i {
                } else if k > i {
                    assert(u[i as int].username@ != username@);
                }
                assert(k == i);
            }
            return Some((users[i].user_id, users[i].password_hash.clone()));
        }
        i = i + 1;
    }
    None
}

/// The name of the first user with id `user_id`.
pub open spec fn username_of(users: Seq<StoredUser>, user_id: u128) -> Option<Seq<char>> {
    if exists|i: int| 0 <= i < users.len() && users[i].user_id == user_id {
        let i = choose|i: int|
            0 <= i < users.len() && users[i].user_id == user_id && forall|j: int|
                0 <= j < i ==> users[j].user_id != user_id;
        Some(users[i].username@)
    } else {
        None
    }
}

/// The name of the user with id `user_id`; an error when there is none.
pub fn get_username(users: &Vec<StoredUser>, user_id: u128) -> (r: Result<String, String>)
    ensures
        match username_of(users@, user_id) {
            Some(name) => (r matches Ok(n) && n@ == name),
            None => (r matches Err(m) && m@ == "Failed to perform a query to retrieve a username"@),
        },
{
    let mut i: usize = 0;
    while i < users.len()
        invariant
            i <= users@.len(),
            forall|j: int| 0 <= j < i ==> users@[j].user_id != user_id,
        decreases users@.len() - i,
    {
        if users[i].user_id == user_id {
            proof {
                let u = users@;
                assert(0 <= i < u.len() && u[i as int].user_id == user_id);
                let k = choose|k: int|
                    0 <= k < u.len() && u[k].user_id == user_id && forall|j: int|
                        0 <= j < k ==> u[j].user_id != user_id;
                if k > i {
                    assert(u[i as int].user_id != user_id);
                }
                assert(k == i);
            }
            return Ok(users[i].username.clone());
        }
        i = i + 1;
    }
    Err(String::from_str("Failed to perform a query to retrieve a username"))
}

/// What checking `password` for a user gives: the user's id when the
/// password matches the stored hash; for an unknown user the fallback hash
/// is checked and the credentials are refused either way.
pub open spec fn credentials_outcome(stored: Option<(u128, Seq<char>)>, password: Seq<char>) -> Result<u128, bool> {
    let hash = match stored {
        Some((_, h)) => h,
        None => FALLBACK_HASH@,
    };
    if !hash_is_phc(hash) {
        Err(false)
    } else if !argon2_accepts(hash, password) {
        Err(true)
    } else {
        match stored {
            Some((id, _)) => Ok(id),
            None => Err(true),
        }
    }
}

/// Checks the credentials against the users table. `Ok` holds the user's
/// id; a refusal is `InvalidCredentials`, a malformed stored hash
/// `UnexpectedError`.
pub fn validate_credentials(users: &Vec<StoredUser>, credentials: &Credentials) -> (r: Result<u128, AuthError>)
    ensures
        match credentials_outcome(
            stored_credentials(users@, credentials.username@),
            credentials.password@,
        ) {
            Ok(id) => r == Ok::<u128, AuthError>(id),
            Err(true) => r matches Err(AuthError::InvalidCredentials(_)),
            Err(false) => r matches Err(AuthError::UnexpectedError(_)),
        },
{
    let stored = get_stored_credentials(users, credentials.username.as_str());
    match stored {
        Some((id, hash)) => {
            verify_password_hash(hash.as_str(), credentials.password.as_str())?;
            Ok(id)
        },
        None => {
            verify_password_hash(FALLBACK_HASH, credentials.password.as_str())?;
            Err(AuthError::InvalidCredentials(String::from_str("Unknown username")))
        },
    }
}

/// What base64's standard engine decodes the text to, if it is valid.
pub uninterp spec fn base64_decoded(s: Seq<char>) -> Option<Seq<u8>>;

/// Relies on base64's `general_purpose::STANDARD.decode`: the bytes the
/// text encodes with the standard alphabet and padding, or an error.
#[verifier::external_body]
fn decode_base64(s: &str) -> (r: Option<Vec<u8>>)
    ensures
        match r {
            Some(b) => base64_decoded(s@) == Some(b@),
            None => base64_decoded(s@) is None,
        },
{
    base64::engine::general_purpose::STANDARD.decode(s).ok()
}

/// Relies on `String::from_utf8`: the text the bytes encode when they are
/// valid UTF-8, an error otherwise.
#[verifier::external_body]
fn text_from_utf8(b: Vec<u8>) -> (r: Option<String>)
    ensures
        r is Some <==> valid_utf8(b@),
        r matches Some(s) ==> s@ == decode_utf8(b@),
{
    String::from_utf8(b).ok()
}

/// The position of the first `:` in the text.
pub open spec fn first_colon(s: Seq<char>) -> Option<int> {
    if exists|i: int| 0 <= i < s.len() && s[i] == ':' {
        Some(
            choose|i: int|
                0 <= i < s.len() && s[i] == ':' && forall|j: int| 0 <= j < i ==> s[j] != ':',
        )
    } else {
        None
    }
}

fn find_colon(s: &str) -> (r: Option<usize>)
    ensures
        match r {
            Some(i) => first_colon(s@) == Some(i as int),
            None => first_colon(s@) is None,
        },
        r matches Some(i) ==> i < s@.len(),
{
    let n = s.unicode_len();
    let mut i: usize = 0;
    while i < n
        invariant
            n == s@.len(),
            i <= n,
            forall|j: int| 0 <= j < i ==> s@[j] != ':',
        decreases n - i,
    {
        if s.get_char(i) == ':' {
            proof {
                let t = s@;
                let k = choose|k: int|
                    0 <= k < t.len() && t[k] == ':' && forall|j: int| 0 <= j < k ==> t[j] != ':';
                if k > i {
                    assert(t[i as int] != ':');
                }
                assert(k == i);
            }
            return Some(i);
        }
        i = i + 1;
    }
    None
}

/// The scheme prefix of a Basic `Authorization` header.
pub open spec fn basic_prefix() -> Seq<char> {
    "Basic "@
}

/// Why a Basic `Authorization` header is refused.
pub enum BasicAuthRefusal {
    Missing,
    NotBasic,
    NotBase64,
    NotUtf8,
    NoPassword,
}

/// What a Basic `Authorization` header value gives: the username and the
/// password, split at the first `:` of the decoded text.
pub open spec fn basic_outcome(header: Option<Seq<char>>) -> Result<(Seq<char>, Seq<char>), BasicAuthRefusal> {
    match header {
        None => Err(BasicAuthRefusal::Missing),
        Some(h) => if !(h.len() >= basic_prefix().len() && h.subrange(0, basic_prefix().len() as int) == basic_prefix()) {
            Err(BasicAuthRefusal::NotBasic)
        } else {
            match base64_decoded(h.subrange(basic_prefix().len() as int, h.len() as int)) {
                None => Err(BasicAuthRefusal::NotBase64),
                Some(bytes) => if !valid_utf8(bytes) {
                    Err(BasicAuthRefusal::NotUtf8)
                } else {
                    let text = decode_utf8(bytes);
                    match first_colon(text) {
                        None => Err(BasicAuthRefusal::NoPassword),
                        Some(i) => Ok((text.subrange(0, i), text.subrange(i + 1, text.len() as int))),
                    }
                },
            }
        },
    }
}

/// Reads the credentials out of the value of an `Authorization` header
/// (`None` when the request has none). The error says what was wrong.
pub fn basic_authentication(header: Option<&str>) -> (r: Result<Credentials, String>)
    ensures
        match basic_outcome(
            match header {
                Some(h) => Some(h@),
                None => None,
            },
        ) {
            Ok((user, password)) => (r matches Ok(c) && c.username@ == user && c.password@ == password),
            Err(BasicAuthRefusal::Missing) => (r matches Err(m) && m@ == "The 'Authorization' header was missing"@),
            Err(BasicAuthRefusal::NotBasic) => (r matches Err(m) && m@ == "The authorization scheme was not 'Basic'"@),
            Err(BasicAuthRefusal::NotBase64) => (r matches Err(m) && m@ == "Failed to base64-decode 'Basic' credentials"@),
            Err(BasicAuthRefusal::NotUtf8) => (r matches Err(m) && m@ == "The decoded credential string is not a valid UTF-8"@),
            Err(BasicAuthRefusal::NoPassword) => (r matches Err(m) && m@ == "A username must be provided in 'Basic' auth"@),
        },
{
    let h = match header {
        None => {
            return Err(String::from_str("The 'Authorization' header was missing"));
        },
        Some(h) => h,
    };
    proof {
        reveal_strlit("Basic ");
    }
    let n = h.unicode_len();
    if n < 6 {
        return Err(String::from_str("The authorization scheme was not 'Basic'"));
    }
    let scheme = h.substring_char(0, 6);
    if !same_text(scheme, "Basic ") {
        return Err(String::from_str("The authorization scheme was not 'Basic'"));
    }
    let encoded = h.substring_char(6, n);
    let bytes = match decode_base64(encoded) {
        None => {
            return Err(String::from_str("Failed to base64-decode 'Basic' credentials"));
        },
        Some(b) => b,
    };
    let text = match text_from_utf8(bytes) {
        None => {
            return Err(String::from_str("The decoded credential string is not a valid UTF-8"));
        },
        Some(t) => t,
    };
    let len = text.as_str().unicode_len();
    match find_colon(text.as_str()) {
        None => Err(String::from_str("A username must be provided in 'Basic' auth")),
        Some(i) => {
            let username = String::from_str(text.as_str().substring_char(0, i));
            let password = String::from_str(text.as_str().substring_char(i + 1, len));
            Ok(Credentials { username, password })
        },
    }
}

} // verus!
