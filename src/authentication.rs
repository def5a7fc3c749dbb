//! Authentication failures, password rules, and the guard in front of the
//! admin pages.
use crate::text::same_text;
use vstd::prelude::*;

verus! {

/// Why a login attempt fails.
pub enum AuthError {
    /// Unknown user or wrong password.
    InvalidCredentials(String),
    /// Anything else went wrong.
    UnexpectedError(String),
}

impl AuthError {
    /// The text shown for the failure.
    pub fn message(&self) -> (r: String)
        ensures
            match self {
                AuthError::InvalidCredentials(_) => r@ == "Invalid credentials"@,
                AuthError::UnexpectedError(m) => r@ == m@,
            },
    {
        match self {
            AuthError::InvalidCredentials(_) => String::from_str("Invalid credentials"),
            AuthError::UnexpectedError(m) => m.clone(),
        }
    }
}

/// Fewest bytes a new password may have.
pub const MIN_PASSWORD_BYTES: usize = 12;

/// Most bytes a new password may have.
pub const MAX_PASSWORD_BYTES: usize = 128;

/// Checks the length of a new password, in bytes.
pub fn validate_password(password: &str) -> (r: Result<(), &'static str>)
    ensures
        match r {
            Ok(()) => MIN_PASSWORD_BYTES <= password.len() <= MAX_PASSWORD_BYTES,
            Err(m) => if password.len() < MIN_PASSWORD_BYTES {
                m@ == "Password must be at least 12 characters long."@
            } else {
                password.len() > MAX_PASSWORD_BYTES && m@
                    == "Passwords must be at most 128 characters long."@
            },
        },
{
    let n = password.len();
    if n < MIN_PASSWORD_BYTES {
        return Err("Password must be at least 12 characters long.");
    }
    if n > MAX_PASSWORD_BYTES {
        return Err("Passwords must be at most 128 characters long.");
    }
    Ok(())
}

/// What looking the user id up in the request's session gave.
pub enum SessionLookup {
    /// The request carries no session at all.
    NoSession,
    /// The session holds this user id.
    Found(u128),
    /// The session holds no user id.
    Missing,
    /// Reading the session failed.
    Failed,
}

/// What the guard does with a request.
#[derive(PartialEq, Eq, Structural, Clone, Copy, Debug)]
pub enum AccessDecision {
    /// Pass the request on, with the logged-in user's id when one was needed.
    Forward(Option<u128>),
    /// 303 See Other, to the login page.
    RedirectToLogin,
    /// 500 Internal Server Error.
    InternalServerError,
}

/// The login page that the guard redirects to.
pub open spec fn login_path() -> Seq<char> {
    "/login"@
}

/// What the guard decides for a request to a protected path.
pub open spec fn protected_decision(lookup: SessionLookup) -> AccessDecision {
    match lookup {
        SessionLookup::NoSession => AccessDecision::InternalServerError,
        SessionLookup::Found(id) => AccessDecision::Forward(Some(id)),
        SessionLookup::Missing => AccessDecision::RedirectToLogin,
        SessionLookup::Failed => AccessDecision::InternalServerError,
    }
}

/// Makes `AuthorizedSession`s that guard the listed paths.
pub struct AuthorizedSessionLayer {
    protected_paths: &'static [&'static str],
}

/// Whether `path` is one of `paths`.
pub open spec fn listed(paths: Seq<&'static str>, path: Seq<char>) -> bool {
    exists|i: int| 0 <= i < paths.len() && paths[i]@ == path
}

fn is_listed(paths: &'static [&'static str], path: &str) -> (r: bool)
    ensures
        r == listed(paths@, path@),
{
    let mut i: usize = 0;
    while i < paths.len()
        invariant
            i <= paths@.len(),
            forall|j: int| 0 <= j < i ==> paths@[j]@ != path@,
        decreases paths@.len() - i,
    {
        if same_text(paths[i], path) {
            return true;
        }
        i = i + 1;
    }
    false
}

impl AuthorizedSessionLayer {
    /// A layer that guards `protected_paths`.
    pub fn new(protected_paths: &'static [&'static str]) -> (r: Self)
        ensures
            r.paths() == protected_paths@,
    {
        AuthorizedSessionLayer { protected_paths }
    }

    pub closed spec fn paths(&self) -> Seq<&'static str> {
        self.protected_paths@
    }

    /// Wraps `inner` in the guard.
    pub fn layer<S>(&self, inner: S) -> (r: AuthorizedSession<S>)
        ensures
            r.paths() == self.paths(),
            r.wrapped() == inner,
    {
        AuthorizedSession { inner, protected_paths: self.protected_paths }
    }
}

/// A service `inner` behind the guard.
pub struct AuthorizedSession<S> {
    inner: S,
    protected_paths: &'static [&'static str],
}

impl<S> AuthorizedSession<S> {
    pub closed spec fn paths(&self) -> Seq<&'static str> {
        self.protected_paths@
    }

    pub closed spec fn wrapped(&self) -> S {
        self.inner
    }

    /// The wrapped service.
    pub fn inner(&self) -> (r: &S)
        ensures
            *r == self.wrapped(),
    {
        &self.inner
    }

    /// Whether requests to `path` need a logged-in user.
    pub fn is_protected(&self, path: &str) -> (r: bool)
        ensures
            r == listed(self.paths(), path@),
    {
        is_listed(self.protected_paths, path)
    }

    /// What to do with a request to `path`, given what the session lookup
    /// gave. Unprotected paths pass untouched, whatever the session holds.
    pub fn decide(&self, path: &str, lookup: SessionLookup) -> (r: AccessDecision)
        ensures
            r == if listed(self.paths(), path@) {
                protected_decision(lookup)
            } else {
                AccessDecision::Forward(None)
            },
    {
        if !self.is_protected(path) {
            return AccessDecision::Forward(None);
        }
        match lookup {
            SessionLookup::NoSession => AccessDecision::InternalServerError,
            SessionLookup::Found(id) => AccessDecision::Forward(Some(id)),
            SessionLookup::Missing => AccessDecision::RedirectToLogin,
            SessionLookup::Failed => AccessDecision::InternalServerError,
        }
    }
}

} // verus!
