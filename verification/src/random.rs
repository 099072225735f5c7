//! Random opaque identifiers for sessions and OAuth states.

use rand::RngExt;
use vstd::prelude::*;

verus! {

/// Whether `c` is an ASCII letter or digit.
pub open spec fn is_alphanumeric_char(c: char) -> bool {
    ||| ('a' as u32) <= (c as u32) && (c as u32) <= ('z' as u32)
    ||| ('A' as u32) <= (c as u32) && (c as u32) <= ('Z' as u32)
    ||| ('0' as u32) <= (c as u32) && (c as u32) <= ('9' as u32)
}

/// Every character of `s` is an ASCII letter or digit.
pub open spec fn is_alphanumeric_id(s: Seq<char>) -> bool {
    forall|i: int| 0 <= i < s.len() ==> is_alphanumeric_char(#[trigger] s[i])
}

/// A fresh 32-character random identifier.
///
/// Relies on rand's thread-local generator sampling the `Alphanumeric`
/// distribution, which yields only ASCII letters and digits; nothing can
/// be promised about which ones come out.
#[verifier::external_body]
pub fn generate_random_id() -> (id: String)
    ensures
        id@.len() == 32,
        is_alphanumeric_id(id@),
{
    rand::rng().sample_iter(rand::distr::Alphanumeric).take(32).map(char::from).collect()
}

} // verus!
