//! The kind of a NAL unit, read from the byte that follows its start code.

use crate::annexb::code_at;
use vstd::prelude::*;

verus! {

/// Kind of a coded slice of an independently decodable picture: a segment may begin here.
pub const UNIT_KEYFRAME: u8 = 5;

/// Kind of the unit that fills the picture slot of the parameter cache.
pub const UNIT_PICTURE_PARAMETERS: u8 = 7;

/// Kind of the unit that fills the sequence slot of the parameter cache.
pub const UNIT_SEQUENCE_PARAMETERS: u8 = 8;

/// The shortest unit that has a kind: a four-byte start code and one byte after it.
pub const MIN_UNIT_LEN: usize = 5;

/// Index of the byte that carries the kind. A unit whose third byte is zero
/// opened with the four-byte start code, any other with the three-byte one.
pub open spec fn kind_index(unit: Seq<u8>) -> int {
    if unit[2] == 0 {
        4
    } else {
        3
    }
}

/// The kind of `unit`: the low five bits of the byte behind the start code,
/// and nothing for a unit of fewer than five bytes.
pub open spec fn unit_kind(unit: Seq<u8>) -> Option<u8> {
    if unit.len() < MIN_UNIT_LEN {
        None
    } else {
        Some(unit[kind_index(unit)] & 0x1f)
    }
}

/// Reads the kind of a complete unit. A unit shorter than five bytes has none.
pub fn get_unit_type(unit: &[u8]) -> (kind: Option<u8>)
    ensures
        kind == unit_kind(unit@),
        kind matches Some(k) ==> k < 32,
{
    if unit.len() < MIN_UNIT_LEN {
        return None;
    }
    let at: usize = if unit[2] == 0 { 4 } else { 3 };
    let byte: u8 = unit[at];
    assert(byte & 0x1f < 32) by (bit_vector);
    Some(byte & 0x1f)
}

/// In a unit that opens with a start code, the byte that carries the kind is
/// the byte right behind the code: before it stands the code's 0x01, and
/// before that nothing but the code's zero bytes.
pub proof fn lemma_kind_byte_follows_start_code(unit: Seq<u8>)
    requires
        code_at(unit, 0),
    ensures
        3 <= kind_index(unit) <= 4,
        unit[kind_index(unit) - 1] == 1,
        forall|j: int| 0 <= j < kind_index(unit) - 1 ==> unit[j] == 0,
{
}

} // verus!
