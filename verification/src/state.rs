//! The accounts the program keeps, as plain values, and their sizes.
pub mod creator_profile;
pub mod holder_position;
pub mod listing;
pub mod revenue_pool;
pub mod track;

use vstd::prelude::*;

verus! {

/// Bytes of the type tag that precedes every account's fields.
pub const DISCRIMINATOR_LEN: usize = 8;

/// Number of bytes in the UTF-8 encoding of a text, the length the limits
/// count, as the platform's length type holds it.
pub open spec fn byte_len(s: Seq<char>) -> usize {
    vstd::utf8::encode_utf8(s).len() as usize
}

/// The length in bytes of a text, as the limits on names and URIs count it.
pub fn text_len(s: &String) -> (n: usize)
    ensures
        n == byte_len(s@),
{
    s.as_str().len()
}

} // verus!
