//! Connection identifiers.

use vstd::prelude::*;

verus! {

/// The bits that every version 4 (random) UUID has in common: the version
/// nibble and the two variant bits.
pub const UUID_FIXED_MASK: u128 = 0x0000_0000_0000_F000_C000_0000_0000_0000u128;

/// The value of those bits: version 4, variant `10`.
pub const UUID_V4_MARK: u128 = 0x0000_0000_0000_4000_8000_0000_0000_0000u128;

/// Whether `bits` has the shape of a version 4 UUID.
pub open spec fn is_random_uuid(bits: u128) -> bool {
    bits & UUID_FIXED_MASK == UUID_V4_MARK
}

/// Process-unique token of one live connection; the key of the session
/// registry.
#[derive(Clone, Copy, Debug, PartialEq, Eq, Hash, Structural)]
pub struct ConnectionId {
    pub bits: u128,
}

/// Draws a version 4 UUID from `uuid::Uuid::new_v4` and returns it as the
/// integer that `Uuid::as_u128` gives.
///
/// Trusted: whatever the random source yields, `new_v4` forces the version
/// nibble to 4 and the variant bits to `10`, and `as_u128` reads the sixteen
/// bytes back in the same big-endian order. Nothing is claimed of the other
/// 122 bits. `new_v4` panics if the operating system hands out no random
/// bytes.
#[verifier::external_body]
fn random_uuid_bits() -> (bits: u128)
    ensures
        is_random_uuid(bits),
{
    uuid::Uuid::new_v4().as_u128()
}

impl ConnectionId {
    /// The identifier with the given bits.
    pub fn from_bits(bits: u128) -> (id: ConnectionId)
        ensures
            id.bits == bits,
    {
        ConnectionId { bits }
    }

    /// A new random identifier, in the shape of a version 4 UUID.
    pub fn fresh() -> (id: ConnectionId)
        ensures
            is_random_uuid(id.bits),
    {
        ConnectionId { bits: random_uuid_bits() }
    }

    /// The identifier as an integer.
    pub fn bits(&self) -> (bits: u128)
        ensures
            bits == self.bits,
    {
        self.bits
    }

    /// Whether the identifier was drawn as a random UUID, or could have been.
    pub fn is_random(&self) -> (res: bool)
        ensures
            res == is_random_uuid(self.bits),
    {
        self.bits & UUID_FIXED_MASK == UUID_V4_MARK
    }
}

} // verus!
