//! Constants of the wire format.

use vstd::prelude::*;

verus! {

/// Tag of a 64-bit signed integer value.
pub const TYPE_I64: u32 = 0;

/// Tag of a 64-bit floating-point value.
pub const TYPE_F64: u32 = 1;

/// Tag of a string value.
pub const TYPE_STRING: u32 = 2;

/// The magic that opens every table: the ASCII text `MAP1.0`.
pub open spec fn magic() -> Seq<u8> {
    seq![0x4Du8, 0x41u8, 0x50u8, 0x31u8, 0x2Eu8, 0x30u8]
}

} // verus!
