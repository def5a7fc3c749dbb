//! The deployment environment the service runs in.
use crate::text::{enclose, same_text};
use vstd::prelude::*;

verus! {

/// Where the service runs; it picks the configuration file.
#[derive(PartialEq, Eq, Structural, Clone, Copy, Debug)]
pub enum Environment {
    Local,
    Production,
}

/// What `str::to_lowercase` makes of the text.
pub uninterp spec fn lowercase_of(s: Seq<char>) -> Seq<char>;

/// Relies on `str::to_lowercase`: the text with every character lowercased,
/// as the Unicode tables of std say.
#[verifier::external_body]
fn to_lowercase(s: &str) -> (r: String)
    ensures
        r@ == lowercase_of(s@),
{
    s.to_lowercase()
}

/// The name of each environment.
pub open spec fn environment_name(e: Environment) -> Seq<char> {
    match e {
        Environment::Local => "local"@,
        Environment::Production => "production"@,
    }
}

impl Environment {
    /// The environment's name, which is also its configuration file's stem.
    pub fn as_str(&self) -> (r: &'static str)
        ensures
            r@ == environment_name(*self),
    {
        match self {
            Environment::Local => "local",
            Environment::Production => "production",
        }
    }

    /// The environment whose name is `s` once lowercased.
    pub fn try_from(s: String) -> (r: Result<Environment, String>)
        ensures
            match r {
                Ok(e) => environment_name(e) == lowercase_of(s@),
                Err(m) => lowercase_of(s@) != environment_name(Environment::Local)
                    && lowercase_of(s@) != environment_name(Environment::Production) && m@ == "`"@
                    + lowercase_of(s@)
                    + "` is not a supported environment. Use either `local` or `production`."@,
            },
    {
        let lower = to_lowercase(s.as_str());
        Environment::from_lowercase(lower.as_str())
    }

    /// The environment named exactly `s`.
    pub fn from_lowercase(s: &str) -> (r: Result<Environment, String>)
        ensures
            match r {
                Ok(e) => environment_name(e) == s@,
                Err(m) => s@ != environment_name(Environment::Local) && s@ != environment_name(
                    Environment::Production,
                ) && m@ == "`"@ + s@
                    + "` is not a supported environment. Use either `local` or `production`."@,
            },
    {
        if same_text(s, "local") {
            Ok(Environment::Local)
        } else if same_text(s, "production") {
            Ok(Environment::Production)
        } else {
            Err(
                enclose(
                    "`",
                    s,
                    "` is not a supported environment. Use either `local` or `production`.",
                ),
            )
        }
    }
}

} // verus!
