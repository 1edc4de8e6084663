//! Pixel hits and per-unit packets, and the assembly of one hit from a
//! three-word data triplet.
//!
//! A hit's coordinates are spread over the triplet: `data0` carries
//! `row[8:3]`, `data1` carries `row[2:0]` and `column[8:6]`, and `data2`
//! carries `column[5:0]`. Each step only masks and shifts, so the finished
//! coordinates always fit the 9 bits reserved per axis.

use vstd::prelude::*;

verus! {

/// One pixel activation: a region (0..=3), a row (0..=511) and a column
/// (0..=511).
#[derive(Debug, Clone, Copy, PartialEq, Eq, Structural)]
pub struct MossHit {
    pub region: u8,
    pub row: u16,
    pub column: u16,
}

impl MossHit {
    /// Builds a hit from its three coordinates.
    pub fn new(region: u8, row: u16, column: u16) -> (h: Self)
        ensures
            h == (MossHit { region, row, column }),
    {
        MossHit { region, row, column }
    }
}

impl Default for MossHit {
    fn default() -> (h: Self)
        ensures
            h == (MossHit { region: 0u8, row: 0u16, column: 0u16 }),
    {
        MossHit { region: 0, row: 0, column: 0 }
    }
}

/// One readout unit's contribution to one event: the unit id (0..=15) and
/// the hits in the order they appeared on the wire.
#[derive(Debug, Clone)]
pub struct MossPacket {
    pub unit_id: u8,
    pub hits: Vec<MossHit>,
}

impl MossPacket {
    /// Builds an empty packet for the given unit.
    pub fn new(unit_id: u8) -> (p: Self)
        ensures
            p.unit_id == unit_id,
            p.hits@ == Seq::<MossHit>::empty(),
    {
        MossPacket { unit_id, hits: Vec::new() }
    }
}

impl Default for MossPacket {
    fn default() -> (p: Self)
        ensures
            p.unit_id == 0,
            p.hits@ == Seq::<MossHit>::empty(),
    {
        MossPacket { unit_id: 0, hits: Vec::new() }
    }
}

impl PartialEq for MossPacket {
    fn eq(&self, other: &Self) -> (r: bool) {
        if self.unit_id != other.unit_id || self.hits.len() != other.hits.len() {
            return false;
        }
        let n = self.hits.len();
        let mut i: usize = 0;
        while i < n
            invariant
                n == self.hits.len() == other.hits.len(),
                i <= n,
                forall|j: int| 0 <= j < i ==> self.hits@[j] == other.hits@[j],
            decreases n - i,
        {
            if self.hits[i] != other.hits[i] {
                return false;
            }
            i = i + 1;
        }
        proof {
            assert(self.hits@ =~= other.hits@);
        }
        true
    }
}

impl vstd::std_specs::cmp::PartialEqSpecImpl for MossPacket {
    open spec fn obeys_eq_spec() -> bool {
        true
    }

    open spec fn eq_spec(&self, other: &Self) -> bool {
        self.unit_id == other.unit_id && self.hits@ == other.hits@
    }
}

/// The mathematical content of a packet: the unit id and the hit sequence.
pub struct SpecPacket {
    pub unit_id: u8,
    pub hits: Seq<MossHit>,
}

impl View for MossPacket {
    type V = SpecPacket;

    open spec fn view(&self) -> SpecPacket {
        SpecPacket { unit_id: self.unit_id, hits: self.hits@ }
    }
}

/// The coordinate ranges every decoded hit satisfies: four regions and
/// nine bits per axis.
pub open spec fn hit_in_range(h: MossHit) -> bool {
    h.region <= 3 && h.row <= 511 && h.column <= 511
}

/// The partial hit opened by a `data0` word: the latched region, `row[8:3]`
/// from the word's low six bits, and a zero column placeholder.
pub open spec fn spec_begin_hit(region: u8, d0: u8) -> MossHit {
    MossHit { region, row: ((d0 & 0x3F) as u16) << 3, column: 0 }
}

/// The effect of a `data1` word on the last hit: it completes the row with
/// `row[2:0]` and sets `column[8:6]`.
pub open spec fn spec_merge_d1(h: MossHit, d1: u8) -> MossHit {
    MossHit {
        region: h.region,
        row: h.row | (((d1 & 0x38) >> 3) as u16),
        column: ((d1 & 0x07) as u16) << 6,
    }
}

/// The effect of a `data2` word on the last hit: it completes the column
/// with `column[5:0]`.
pub open spec fn spec_merge_d2(h: MossHit, d2: u8) -> MossHit {
    MossHit { region: h.region, row: h.row, column: h.column | ((d2 & 0x3F) as u16) }
}

/// Opens a new hit from a `data0` word and pushes it onto the hit list.
pub fn add_data0(moss_hits: &mut Vec<MossHit>, data0: u8, region: u8)
    ensures
        final(moss_hits)@ == old(moss_hits)@.push(spec_begin_hit(region, data0)),
{
    let row: u16 = ((data0 & 0x3F) as u16) << 3;
    moss_hits.push(MossHit { region, row, column: 0 });
}

/// Merges a `data1` word into the last hit of the list.
pub fn add_data1(moss_hits: &mut Vec<MossHit>, data1: u8)
    requires
        old(moss_hits)@.len() > 0,
    ensures
        final(moss_hits)@ == old(moss_hits)@.update(
            old(moss_hits)@.len() - 1,
            spec_merge_d1(old(moss_hits)@.last(), data1),
        ),
{
    let i = moss_hits.len() - 1;
    let h = moss_hits[i];
    let merged = MossHit {
        region: h.region,
        row: h.row | (((data1 & 0x38) >> 3) as u16),
        column: ((data1 & 0x07) as u16) << 6,
    };
    moss_hits.set(i, merged);
}

/// Merges a `data2` word into the last hit of the list; the hit is complete
/// afterwards.
pub fn add_data2(moss_hits: &mut Vec<MossHit>, data2: u8)
    requires
        old(moss_hits)@.len() > 0,
    ensures
        final(moss_hits)@ == old(moss_hits)@.update(
            old(moss_hits)@.len() - 1,
            spec_merge_d2(old(moss_hits)@.last(), data2),
        ),
{
    let i = moss_hits.len() - 1;
    let h = moss_hits[i];
    let merged = MossHit { region: h.region, row: h.row, column: h.column | ((data2 & 0x3F) as u16) };
    moss_hits.set(i, merged);
}

} // verus!
