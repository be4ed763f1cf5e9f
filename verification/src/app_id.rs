//! Identifiers of web apps: eight characters, each an ASCII letter or digit.

use rand::Rng;
use vstd::prelude::*;
use vstd::string::*;
use crate::text::to_text;

verus! {

/// The length of an identifier.
pub const ID_LENGTH: usize = 8;

/// An ASCII letter or digit.
pub open spec fn is_alphanumeric(c: char) -> bool {
    ('0' <= c && c <= '9') || ('a' <= c && c <= 'z') || ('A' <= c && c <= 'Z')
}

/// A text of letters and digits only.
pub open spec fn all_alphanumeric(s: Seq<char>) -> bool {
    forall|i: int| 0 <= i < s.len() ==> is_alphanumeric(#[trigger] s[i])
}

/// A well-formed identifier: eight letters or digits.
pub open spec fn is_app_id(s: Seq<char>) -> bool {
    s.len() == ID_LENGTH && all_alphanumeric(s)
}

/// Samples `rand::distributions::Alphanumeric` from the thread's generator:
/// one character out of `a-z`, `A-Z` and `0-9`. Which one is left open.
#[verifier::external_body]
fn random_alphanumeric() -> (r: char)
    ensures
        is_alphanumeric(r),
{
    char::from(rand::thread_rng().sample(rand::distributions::Alphanumeric))
}

/// A fresh identifier, drawn at random.
pub fn random_id() -> (r: String)
    ensures
        is_app_id(r@),
{
    let mut out: Vec<char> = Vec::new();
    while out.len() < ID_LENGTH
        invariant
            out@.len() <= ID_LENGTH,
            all_alphanumeric(out@),
        decreases ID_LENGTH - out@.len(),
    {
        let c = random_alphanumeric();
        out.push(c);
    }
    to_text(&out)
}

} // verus!
