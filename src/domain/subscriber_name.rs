//! Display names of subscribers.
use crate::text::enclose;
use unicode_segmentation::UnicodeSegmentation;
use vstd::prelude::*;

verus! {

/// Most grapheme clusters a name may have.
pub const MAX_NAME_GRAPHEMES: usize = 256;

/// Whether `char::is_whitespace` holds of the character.
pub uninterp spec fn white_space(c: char) -> bool;

/// How many extended grapheme clusters unicode-segmentation finds in the text.
pub uninterp spec fn grapheme_count(s: Seq<char>) -> nat;

/// Relies on `char::is_whitespace`: the Unicode `White_Space` property,
/// the same one `str::trim` strips.
#[verifier::external_body]
fn is_whitespace(c: char) -> (r: bool)
    ensures
        r == white_space(c),
{
    c.is_whitespace()
}

/// Relies on unicode-segmentation's `graphemes(true)`, counted.
#[verifier::external_body]
fn count_graphemes(s: &str) -> (r: usize)
    ensures
        r as nat == grapheme_count(s@),
{
    s.graphemes(true).count()
}

/// The characters a name may not hold.
pub open spec fn forbidden(c: char) -> bool {
    c == '<' || c == '>' || c == '\'' || c == '"' || c == '\\' || c == '(' || c == ')' || c == '{'
        || c == '}' || c == '/'
}

/// Empty, or nothing but white space: what trimming leaves empty.
pub open spec fn is_blank(s: Seq<char>) -> bool {
    forall|i: int| 0 <= i < s.len() ==> white_space(#[trigger] s[i])
}

pub open spec fn has_forbidden(s: Seq<char>) -> bool {
    exists|i: int| 0 <= i < s.len() && forbidden(#[trigger] s[i])
}

/// The rules a name must meet.
pub open spec fn name_is_valid(s: Seq<char>) -> bool {
    !is_blank(s) && grapheme_count(s) <= MAX_NAME_GRAPHEMES && !has_forbidden(s)
}

fn is_forbidden(c: char) -> (r: bool)
    ensures
        r == forbidden(c),
{
    c == '<' || c == '>' || c == '\'' || c == '"' || c == '\\' || c == '(' || c == ')' || c == '{'
        || c == '}' || c == '/'
}

fn blank(s: &str) -> (r: bool)
    ensures
        r == is_blank(s@),
{
    let n = s.unicode_len();
    let mut i: usize = 0;
    while i < n
        invariant
            n == s@.len(),
            i <= n,
            forall|j: int| 0 <= j < i ==> white_space(#[trigger] s@[j]),
        decreases n - i,
    {
        if !is_whitespace(s.get_char(i)) {
            return false;
        }
        i = i + 1;
    }
    true
}

fn any_forbidden(s: &str) -> (r: bool)
    ensures
        r == has_forbidden(s@),
{
    let n = s.unicode_len();
    let mut i: usize = 0;
    while i < n
        invariant
            n == s@.len(),
            i <= n,
            forall|j: int| 0 <= j < i ==> !forbidden(#[trigger] s@[j]),
        decreases n - i,
    {
        if is_forbidden(s.get_char(i)) {
            return true;
        }
        i = i + 1;
    }
    false
}

/// The message for a name that breaks the rules: it names the first rule
/// broken, trying blank, too long and forbidden characters in that order.
pub open spec fn name_error(s: Seq<char>) -> Seq<char> {
    if is_blank(s) {
        "Subscriber name is empty or contains whitespace only: `"@ + s + "`"@
    } else if grapheme_count(s) > MAX_NAME_GRAPHEMES {
        "`"@ + s + "` is longer than 256 graphemes"@
    } else {
        "`"@ + s + "` contains at least one of forbidden characters: <>'\"\\(){}/"@
    }
}

/// A display name that meets the rules.
pub struct SubscriberName(String);

impl View for SubscriberName {
    type V = Seq<char>;

    closed spec fn view(&self) -> Seq<char> {
        self.0@
    }
}

impl SubscriberName {
    #[verifier::type_invariant]
    closed spec fn valid(self) -> bool {
        name_is_valid(self.0@)
    }

    /// Accepts `s` exactly when it meets the rules. The rules are tried in
    /// order (blank, too long, forbidden characters) and the error names
    /// the first one broken.
    pub fn parse(s: String) -> (r: Result<SubscriberName, String>)
        ensures
            r is Ok <==> name_is_valid(s@),
            r matches Ok(n) ==> n@ == s@,
            r matches Err(m) ==> m@ == name_error(s@),
    {
        if blank(s.as_str()) {
            Err(enclose("Subscriber name is empty or contains whitespace only: `", s.as_str(), "`"))
        } else if count_graphemes(s.as_str()) > MAX_NAME_GRAPHEMES {
            Err(enclose("`", s.as_str(), "` is longer than 256 graphemes"))
        } else if any_forbidden(s.as_str()) {
            Err(
                enclose(
                    "`",
                    s.as_str(),
                    "` contains at least one of forbidden characters: <>'\"\\(){}/",
                ),
            )
        } else {
            Ok(SubscriberName(s))
        }
    }

    /// The name.
    pub fn as_ref(&self) -> (r: &str)
        ensures
            r@ == self@,
            name_is_valid(r@),
    {
        proof {
            use_type_invariant(self);
        }
        self.0.as_str()
    }
}

} // verus!
