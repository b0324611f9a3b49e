//! The 128-bit identifiers that address peers and replicated entities.

use vstd::prelude::*;
use crate::connections::tcp::reader_writer::little_endian_value;

verus! {

/// Whether `id` is laid out as a random (version 4) identifier: version
/// field 4, variant field binary 10.
pub open spec fn is_random_identifier(id: u128) -> bool {
    (id >> 76u32) & 0xf == 4 && (id >> 62u32) & 0x3 == 2
}

/// The identifier whose sixteen bytes, most significant first, are `bytes`.
pub open spec fn identifier_of(bytes: Seq<u8>) -> nat {
    little_endian_value(bytes.reverse())
}

/// A fresh random peer identifier.
///
/// Calls `uuid::Uuid::new_v4` and takes the result as a number
/// (`Uuid::as_u128`). The value is random; what is claimed of every outcome
/// is the layout that `new_v4` forces onto the random bits: it masks them
/// with `0xFFFFFFFFFFFF4FFFBFFFFFFFFFFFFFFF` and sets `0x40008000000000000000`.
/// Where the operating system hands out no random bytes, `new_v4` ends the
/// process.
#[verifier::external_body]
pub(crate) fn fresh_peer_identifier() -> (id: u128)
    ensures
        is_random_identifier(id),
{
    uuid::Uuid::new_v4().as_u128()
}

/// The network identifier that the sixteen bytes of an entity reference
/// spell.
///
/// Calls `uuid::Uuid::from_bytes`, which keeps the bytes as they are, and
/// `Uuid::as_u128`, which reads them as one number, most significant byte
/// first.
#[verifier::external_body]
pub(crate) fn network_identifier(entity_ref: &[u8; 16]) -> (id: u128)
    ensures
        id == identifier_of(entity_ref@),
{
    uuid::Uuid::from_bytes(*entity_ref).as_u128()
}

} // verus!
