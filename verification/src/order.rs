//! The two orders in which the bytes of an integer can lie in memory.
use crate::digits::{le_value, number};
use vstd::prelude::*;

verus! {

/// The order in which the bytes of a multi-byte integer lie in memory.
#[derive(Clone, Copy, Debug, PartialEq, Eq, Structural)]
pub enum ByteOrder {
    /// The least significant byte comes first.
    Little,
    /// The most significant byte comes first.
    Big,
}

/// `u16::from_ne_bytes`: the integer whose representation in this machine's
/// memory is `bytes`. Every target stores a `u16` either low byte first or
/// high byte first, and this is all that is claimed: which of the two it is
/// depends on the machine.
#[verifier::external_body]
fn host_u16(bytes: [u8; 2]) -> (value: u16)
    ensures
        value == bytes@[0] + 256 * bytes@[1] || value == bytes@[1] + 256 * bytes@[0],
{
    u16::from_ne_bytes(bytes)
}

impl ByteOrder {
    /// The byte order of a machine that reads the bytes 1 and 0, in this
    /// order, as the `u16` `probe`: low byte first where that is the number
    /// one, high byte first otherwise. For the two numbers that a machine can
    /// read there, 1 and 256, it is the order in which the bytes spell the
    /// number.
    pub fn of_probe(probe: u16) -> (order: ByteOrder)
        ensures
            order == ByteOrder::Little <==> probe == 1,
            probe == 1 || probe == 256 ==> number(seq![1u8, 0u8], order) == probe,
    {
        proof {
            reveal_with_fuel(le_value, 3);
            assert(seq![1u8, 0u8].reverse() =~= seq![0u8, 1u8]);
        }
        if probe == 1 {
            ByteOrder::Little
        } else {
            ByteOrder::Big
        }
    }

    /// The byte order of the machine that runs this code, found by looking at
    /// how it lays out the number one.
    ///
    /// Nothing is promised of the result: it is a fact about the machine, and
    /// either order can come back. [`ByteOrder::of_probe`] says which order
    /// comes of what the machine shows, and every function that relies on the
    /// result has a sibling that takes the order as an argument and says
    /// exactly what it returns.
    pub fn native() -> ByteOrder {
        ByteOrder::of_probe(host_u16([1, 0]))
    }
}

} // verus!
