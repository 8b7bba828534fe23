//! Randomly generated identifier strings, drawn from the `uuid` crate.

use vstd::prelude::*;

verus! {

/// Identifier values of the `uuid` crate: 128 random bits.
#[verifier::external_type_specification]
#[verifier::external_body]
pub struct ExUuid(uuid::Uuid);

pub open spec fn is_lower_hex_char(c: char) -> bool {
    ('0' <= c && c <= '9') || ('a' <= c && c <= 'f')
}

pub open spec fn seq_is_lower_hex(s: Seq<char>) -> bool {
    forall|i: int| 0 <= i < s.len() ==> is_lower_hex_char(#[trigger] s[i])
}

/// Relies on uuid::Uuid::new_v4: a random UUID, of whose value nothing is
/// promised.
pub assume_specification[ uuid::Uuid::new_v4 ]() -> uuid::Uuid;

/// Relies on uuid::Uuid::simple and its Display impl: the simple format
/// writes the UUID's sixteen bytes as exactly 32 lowercase hexadecimal
/// digits.
#[verifier::external_body]
pub(crate) fn uuid_simple_string(u: &uuid::Uuid) -> (r: String)
    ensures
        r@.len() == 32,
        seq_is_lower_hex(r@),
{
    u.simple().to_string()
}

/// A freshly drawn random identifier: 32 lowercase hexadecimal digits.
pub(crate) fn random_simple_id() -> (r: String)
    ensures
        r@.len() == 32,
        seq_is_lower_hex(r@),
{
    let u = uuid::Uuid::new_v4();
    uuid_simple_string(&u)
}

} // verus!
