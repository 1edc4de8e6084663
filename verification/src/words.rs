//! Classification of raw MOSS readout words by their fixed bit patterns.
//!
//! Every byte of the stream belongs to at most one word class; the
//! byte-value ranges of the classes do not overlap. Bytes in the gaps
//! (`0xC4..=0xCF` except none, `0xE1..=0xFE` except `0xFF`) belong to no
//! class and are never legal anywhere in a packet.

use vstd::prelude::*;

verus! {

/// The class of one readout word, determined by the top bits of the byte.
#[derive(Debug, Clone, Copy, PartialEq, Eq, Structural)]
pub enum MossWord {
    /// `1101 uuuu` — opens a packet; the low nibble is the unit id.
    UnitFrameHeader,
    /// `1110 0000` — closes a packet.
    UnitFrameTrailer,
    /// `1100 0000` — selects region 0.
    RegionHeader0,
    /// `1100 0001` — selects region 1.
    RegionHeader1,
    /// `1100 0010` — selects region 2.
    RegionHeader2,
    /// `1100 0011` — selects region 3.
    RegionHeader3,
    /// `00rr rrrr` — first word of a hit triplet, carries `row[8:3]`.
    Data0,
    /// `01rr rccc` — second word, carries `row[2:0]` and `column[8:6]`.
    Data1,
    /// `10cc cccc` — third word, carries `column[5:0]`.
    Data2,
    /// `1111 1111` — filler between triplets, no payload.
    Idle,
    /// A byte that matches no class; always a protocol error.
    Invalid,
}

/// Unit frame header: `b & 0xF0 == 0xD0`.
pub open spec fn is_unit_frame_header(b: u8) -> bool {
    b & 0xF0 == 0xD0
}

/// Unit frame trailer: the single byte `0xE0`.
pub open spec fn is_unit_frame_trailer(b: u8) -> bool {
    b == 0xE0
}

/// Region header for region `r` (0..=3): the byte `0xC0 + r`.
pub open spec fn is_region_header(b: u8) -> bool {
    0xC0 <= b <= 0xC3
}

/// The region selected by a region-header byte.
pub open spec fn region_of_header(b: u8) -> u8 {
    (b - 0xC0) as u8
}

/// First triplet word: top two bits `00`.
pub open spec fn is_data0(b: u8) -> bool {
    b & 0xC0 == 0x00
}

/// Second triplet word: top two bits `01`.
pub open spec fn is_data1(b: u8) -> bool {
    b & 0xC0 == 0x40
}

/// Third triplet word: top two bits `10`.
pub open spec fn is_data2(b: u8) -> bool {
    b & 0xC0 == 0x80
}

/// Idle filler: the single byte `0xFF`.
pub open spec fn is_idle(b: u8) -> bool {
    b == 0xFF
}

/// The word class of a byte. Classes are mutually exclusive: each byte
/// maps to exactly one class (or to `Invalid`).
pub open spec fn spec_classify(b: u8) -> MossWord {
    if b & 0xC0 == 0x00 {
        MossWord::Data0
    } else if b & 0xC0 == 0x40 {
        MossWord::Data1
    } else if b & 0xC0 == 0x80 {
        MossWord::Data2
    } else if b == 0xC0 {
        MossWord::RegionHeader0
    } else if b == 0xC1 {
        MossWord::RegionHeader1
    } else if b == 0xC2 {
        MossWord::RegionHeader2
    } else if b == 0xC3 {
        MossWord::RegionHeader3
    } else if b & 0xF0 == 0xD0 {
        MossWord::UnitFrameHeader
    } else if b == 0xE0 {
        MossWord::UnitFrameTrailer
    } else if b == 0xFF {
        MossWord::Idle
    } else {
        MossWord::Invalid
    }
}

/// Classifies one readout byte by its fixed bit pattern. The result is a
/// pure function of the byte alone.
pub fn classify(b: u8) -> (w: MossWord)
    ensures
        w == spec_classify(b),
{
    if b & 0xC0 == 0x00 {
        MossWord::Data0
    } else if b & 0xC0 == 0x40 {
        MossWord::Data1
    } else if b & 0xC0 == 0x80 {
        MossWord::Data2
    } else if b == 0xC0 {
        MossWord::RegionHeader0
    } else if b == 0xC1 {
        MossWord::RegionHeader1
    } else if b == 0xC2 {
        MossWord::RegionHeader2
    } else if b == 0xC3 {
        MossWord::RegionHeader3
    } else if b & 0xF0 == 0xD0 {
        MossWord::UnitFrameHeader
    } else if b == 0xE0 {
        MossWord::UnitFrameTrailer
    } else if b == 0xFF {
        MossWord::Idle
    } else {
        MossWord::Invalid
    }
}

/// The word classes are mutually exclusive: a region-header byte matches
/// no other class.
pub proof fn lemma_region_header_distinct(b: u8)
    ensures
        0xC0 <= b <= 0xC3 ==> !(b & 0xC0 == 0x00) && !(b & 0xC0 == 0x40) && !(b & 0xC0 == 0x80)
            && b != 0xFF && b != 0xE0,
{
    assert(0xC0 <= b <= 0xC3 ==> !(b & 0xC0 == 0x00) && !(b & 0xC0 == 0x40) && !(b & 0xC0 == 0x80)
        && b != 0xFF && b != 0xE0) by (bit_vector);
}

/// The low nibble of a unit frame header byte is the unit id, 0..=15.
pub fn unit_id_of_header(b: u8) -> (u: u8)
    ensures
        u == b & 0x0F,
        u <= 15,
{
    let u = b & 0x0F;
    assert(b & 0x0F <= 15) by (bit_vector);
    u
}

} // verus!
