//! The protocol state machine that walks one packet body.
//!
//! The machine starts directly after a unit frame header, in
//! [`FsmState::ExpectRegionHeader0`], and consumes one byte per step. Every
//! step either advances to a new state (possibly latching a new region or
//! updating the hit list), finishes the packet on a unit frame trailer, or
//! rejects the byte as a protocol error. The legal transitions form the
//! packet grammar: a mandatory region-header-0, an ascending prefix of
//! region headers, then any mix of data triplets, single idles between
//! triplets and ascending region headers, closed by the trailer.

use vstd::prelude::*;

use crate::words::is_unit_frame_trailer;
use crate::words::is_region_header;
use crate::words::region_of_header;
use crate::words::is_data0;
use crate::words::is_data1;
use crate::words::is_data2;
use crate::words::is_idle;
use crate::hits::MossHit;
use crate::hits::hit_in_range;
use crate::hits::spec_begin_hit;
use crate::hits::spec_merge_d1;
use crate::hits::spec_merge_d2;

verus! {

/// The control state of the packet decoder.
#[derive(Debug, Clone, Copy, PartialEq, Eq, Structural)]
pub enum FsmState {
    /// Directly after the unit frame header; only region header 0 may follow.
    ExpectRegionHeader0,
    /// Region header 0 was just consumed.
    AtRegionHeader0,
    /// Region header 1 was just consumed.
    AtRegionHeader1,
    /// Region header 2 was just consumed.
    AtRegionHeader2,
    /// Region header 3 was just consumed.
    AtRegionHeader3,
    /// The first word of a triplet was consumed; a `data1` word must follow.
    AfterData0,
    /// The second word of a triplet was consumed; a `data2` word must follow.
    AfterData1,
    /// A triplet was completed.
    AfterData2,
    /// An idle filler was just consumed.
    AtIdle,
}

/// The latched region a state couples to: while the machine sits on a
/// region header, the latched region is that header's region.
pub open spec fn state_region_consistent(s: FsmState, region: u8) -> bool {
    match s {
        FsmState::AtRegionHeader0 => region == 0,
        FsmState::AtRegionHeader1 => region == 1,
        FsmState::AtRegionHeader2 => region == 2,
        FsmState::AtRegionHeader3 => region == 3,
        _ => true,
    }
}

/// While the machine sits in the middle of a triplet, the hit being
/// assembled is the last of a necessarily non-empty hit list.
pub open spec fn mid_triplet_nonempty(s: FsmState, hits: Seq<MossHit>) -> bool {
    (s == FsmState::AfterData0 || s == FsmState::AfterData1) ==> hits.len() > 0
}

/// The outcome of feeding one byte to the machine.
pub enum FsmStep {
    /// The byte is not a legal successor in the current state.
    Reject,
    /// The byte is the unit frame trailer; the packet is complete.
    Finish,
    /// The machine advances with a new state, latched region and hit list.
    Advance { state: FsmState, region: u8, hits: Seq<MossHit> },
}

/// One transition of the protocol machine: the full transition table.
pub open spec fn fsm_step(s: FsmState, region: u8, hits: Seq<MossHit>, b: u8) -> FsmStep {
    match s {
        FsmState::ExpectRegionHeader0 => if b == 0xC0 {
            FsmStep::Advance { state: FsmState::AtRegionHeader0, region: 0, hits }
        } else {
            FsmStep::Reject
        },
        FsmState::AtRegionHeader0 => if b == 0xC1 {
            FsmStep::Advance { state: FsmState::AtRegionHeader1, region: 1, hits }
        } else if is_data0(b) {
            FsmStep::Advance {
                state: FsmState::AfterData0,
                region: 0,
                hits: hits.push(spec_begin_hit(0, b)),
            }
        } else {
            FsmStep::Reject
        },
        FsmState::AtRegionHeader1 => if b == 0xC2 {
            FsmStep::Advance { state: FsmState::AtRegionHeader2, region: 2, hits }
        } else if is_data0(b) {
            FsmStep::Advance {
                state: FsmState::AfterData0,
                region: 1,
                hits: hits.push(spec_begin_hit(1, b)),
            }
        } else {
            FsmStep::Reject
        },
        FsmState::AtRegionHeader2 => if b == 0xC3 {
            FsmStep::Advance { state: FsmState::AtRegionHeader3, region: 3, hits }
        } else if is_data0(b) {
            FsmStep::Advance {
                state: FsmState::AfterData0,
                region: 2,
                hits: hits.push(spec_begin_hit(2, b)),
            }
        } else {
            FsmStep::Reject
        },
        FsmState::AtRegionHeader3 => if is_unit_frame_trailer(b) {
            FsmStep::Finish
        } else if is_data0(b) {
            FsmStep::Advance {
                state: FsmState::AfterData0,
                region: 3,
                hits: hits.push(spec_begin_hit(3, b)),
            }
        } else {
            FsmStep::Reject
        },
        FsmState::AfterData0 => if is_data1(b) {
            FsmStep::Advance {
                state: FsmState::AfterData1,
                region,
                hits: hits.update(hits.len() - 1, spec_merge_d1(hits.last(), b)),
            }
        } else {
            FsmStep::Reject
        },
        FsmState::AfterData1 => if is_data2(b) {
            FsmStep::Advance {
                state: FsmState::AfterData2,
                region,
                hits: hits.update(hits.len() - 1, spec_merge_d2(hits.last(), b)),
            }
        } else {
            FsmStep::Reject
        },
        FsmState::AfterData2 => fsm_step_between_triplets(s, region, hits, b, true),
        FsmState::AtIdle => fsm_step_between_triplets(s, region, hits, b, false),
    }
}

/// The transitions shared by the two between-triplet states (`AfterData2`
/// and `AtIdle`): a new triplet, an ascending region header, the trailer,
/// and — only directly after a triplet — a single idle word.
pub open spec fn fsm_step_between_triplets(
    s: FsmState,
    region: u8,
    hits: Seq<MossHit>,
    b: u8,
    idle_allowed: bool,
) -> FsmStep {
    if is_data0(b) {
        FsmStep::Advance {
            state: FsmState::AfterData0,
            region,
            hits: hits.push(spec_begin_hit(region, b)),
        }
    } else if b == 0xC1 {
        FsmStep::Advance { state: FsmState::AtRegionHeader1, region: 1, hits }
    } else if b == 0xC2 {
        FsmStep::Advance { state: FsmState::AtRegionHeader2, region: 2, hits }
    } else if b == 0xC3 {
        FsmStep::Advance { state: FsmState::AtRegionHeader3, region: 3, hits }
    } else if is_idle(b) && idle_allowed {
        FsmStep::Advance { state: FsmState::AtIdle, region, hits }
    } else if is_unit_frame_trailer(b) {
        FsmStep::Finish
    } else {
        FsmStep::Reject
    }
}

/// The outcome of running the machine over a byte buffer from an index.
pub enum RunOutcome {
    /// The trailer was reached: the finished hit list and the trailer's
    /// byte index.
    Done { hits: Seq<MossHit>, trailer: int },
    /// The byte at `index` is not a legal successor in state `state`.
    Illegal { index: int, state: FsmState },
    /// The buffer ended before the trailer.
    OutOfBytes,
}

/// Runs the machine over `bytes` from index `i` until it finishes on a
/// trailer, rejects a byte, or exhausts the buffer.
pub open spec fn run_fsm(
    bytes: Seq<u8>,
    i: int,
    s: FsmState,
    region: u8,
    hits: Seq<MossHit>,
) -> RunOutcome
    decreases bytes.len() - i,
{
    if i < 0 || i >= bytes.len() {
        RunOutcome::OutOfBytes
    } else {
        match fsm_step(s, region, hits, bytes[i]) {
            FsmStep::Reject => RunOutcome::Illegal { index: i, state: s },
            FsmStep::Finish => RunOutcome::Done { hits, trailer: i },
            FsmStep::Advance { state, region, hits } => run_fsm(bytes, i + 1, state, region, hits),
        }
    }
}

/// When the machine finishes, the trailer index lies inside the buffer, at
/// or after the starting index, and the byte there is the unit frame
/// trailer `0xE0`.
pub proof fn lemma_run_done_trailer(
    bytes: Seq<u8>,
    i: int,
    s: FsmState,
    region: u8,
    hits: Seq<MossHit>,
)
    ensures
        match run_fsm(bytes, i, s, region, hits) {
            RunOutcome::Done { trailer, .. } => i <= trailer < bytes.len()
                && is_unit_frame_trailer(bytes[trailer]),
            RunOutcome::Illegal { index, .. } => i <= index < bytes.len(),
            RunOutcome::OutOfBytes => true,
        },
    decreases bytes.len() - i,
{
    if 0 <= i < bytes.len() {
        match fsm_step(s, region, hits, bytes[i]) {
            FsmStep::Advance { state, region: r2, hits: h2 } => {
                lemma_run_done_trailer(bytes, i + 1, state, r2, h2);
            },
            _ => {},
        }
    }
}

/// A hit opened from a `data0` word for a valid region is in range.
proof fn lemma_begin_hit_in_range(region: u8, d0: u8)
    requires
        region <= 3,
    ensures
        hit_in_range(spec_begin_hit(region, d0)),
{
    assert(((d0 & 0x3F) as u16) << 3 <= 504) by (bit_vector);
}

/// Merging a `data1` word keeps a hit in range.
proof fn lemma_merge_d1_in_range(h: MossHit, d1: u8)
    requires
        hit_in_range(h),
    ensures
        hit_in_range(spec_merge_d1(h, d1)),
{
    let r = h.row;
    assert(r <= 511 ==> (r | (((d1 & 0x38) >> 3) as u16)) <= 511) by (bit_vector);
    assert(((d1 & 0x07) as u16) << 6 <= 448) by (bit_vector);
}

/// Merging a `data2` word keeps a hit in range.
proof fn lemma_merge_d2_in_range(h: MossHit, d2: u8)
    requires
        hit_in_range(h),
    ensures
        hit_in_range(spec_merge_d2(h, d2)),
{
    let c = h.column;
    assert(c <= 511 ==> (c | ((d2 & 0x3F) as u16)) <= 511) by (bit_vector);
}

/// Pushing an in-range hit keeps the whole list in range.
proof fn lemma_push_in_range(hits: Seq<MossHit>, x: MossHit)
    requires
        forall|k: int| 0 <= k < hits.len() ==> hit_in_range(#[trigger] hits[k]),
        hit_in_range(x),
    ensures
        forall|k: int| 0 <= k < hits.push(x).len() ==> hit_in_range(#[trigger] hits.push(x)[k]),
{
    assert forall|k: int| 0 <= k < hits.push(x).len() implies hit_in_range(
        #[trigger] hits.push(x)[k],
    ) by {
        if k < hits.len() {
            assert(hits.push(x)[k] == hits[k]);
        } else {
            assert(hits.push(x)[k] == x);
        }
    }
}

/// Replacing the last hit by an in-range hit keeps the list in range.
proof fn lemma_update_last_in_range(hits: Seq<MossHit>, y: MossHit)
    requires
        hits.len() > 0,
        forall|k: int| 0 <= k < hits.len() ==> hit_in_range(#[trigger] hits[k]),
        hit_in_range(y),
    ensures
        forall|k: int|
            0 <= k < hits.update(hits.len() - 1, y).len() ==> hit_in_range(
                #[trigger] hits.update(hits.len() - 1, y)[k],
            ),
{
    let h2 = hits.update(hits.len() - 1, y);
    assert forall|k: int| 0 <= k < h2.len() implies hit_in_range(#[trigger] h2[k]) by {
        if k == hits.len() - 1 {
            assert(h2[k] == y);
        } else {
            assert(h2[k] == hits[k]);
        }
    }
}

/// One step keeps the latched region a valid region number and every hit
/// in range.
proof fn lemma_step_in_range(s: FsmState, region: u8, hits: Seq<MossHit>, b: u8)
    requires
        region <= 3,
        mid_triplet_nonempty(s, hits),
        forall|k: int| 0 <= k < hits.len() ==> hit_in_range(#[trigger] hits[k]),
    ensures
        match fsm_step(s, region, hits, b) {
            FsmStep::Advance { state: s2, region: r2, hits: h2 } => r2 <= 3
                && mid_triplet_nonempty(s2, h2) && forall|k: int|
                0 <= k < h2.len() ==> hit_in_range(#[trigger] h2[k]),
            _ => true,
        },
{
    match s {
        FsmState::AfterData0 => {
            if is_data1(b) {
                lemma_merge_d1_in_range(hits.last(), b);
                lemma_update_last_in_range(hits, spec_merge_d1(hits.last(), b));
            }
        },
        FsmState::AfterData1 => {
            if is_data2(b) {
                lemma_merge_d2_in_range(hits.last(), b);
                lemma_update_last_in_range(hits, spec_merge_d2(hits.last(), b));
            }
        },
        _ => {
            if is_data0(b) {
                lemma_begin_hit_in_range(0, b);
                lemma_begin_hit_in_range(1, b);
                lemma_begin_hit_in_range(2, b);
                lemma_begin_hit_in_range(3, b);
                lemma_begin_hit_in_range(region, b);
                lemma_push_in_range(hits, spec_begin_hit(0, b));
                lemma_push_in_range(hits, spec_begin_hit(1, b));
                lemma_push_in_range(hits, spec_begin_hit(2, b));
                lemma_push_in_range(hits, spec_begin_hit(3, b));
                lemma_push_in_range(hits, spec_begin_hit(region, b));
            }
        },
    }
}

/// Every hit of a finished packet body is in range: region 0..=3, row
/// 0..=511, column 0..=511 — whatever bytes the machine accepted.
pub proof fn lemma_run_hits_in_range(
    bytes: Seq<u8>,
    i: int,
    s: FsmState,
    region: u8,
    hits: Seq<MossHit>,
)
    requires
        region <= 3,
        mid_triplet_nonempty(s, hits),
        forall|k: int| 0 <= k < hits.len() ==> hit_in_range(#[trigger] hits[k]),
    ensures
        match run_fsm(bytes, i, s, region, hits) {
            RunOutcome::Done { hits: hs, .. } => forall|k: int|
                0 <= k < hs.len() ==> hit_in_range(#[trigger] hs[k]),
            _ => true,
        },
    decreases bytes.len() - i,
{
    if 0 <= i < bytes.len() {
        lemma_step_in_range(s, region, hits, bytes[i]);
        match fsm_step(s, region, hits, bytes[i]) {
            FsmStep::Advance { state, region: r2, hits: h2 } => {
                lemma_run_hits_in_range(bytes, i + 1, state, r2, h2);
            },
            _ => {},
        }
    }
}

/// Within one packet body, hits are emitted with non-decreasing regions,
/// provided the region headers of the body itself appear in non-decreasing
/// order. (The transition table does accept a region header smaller than
/// the latched region after a completed triplet; on such a stream the
/// emitted regions follow the headers downwards, so the proviso is
/// necessary.)
pub proof fn lemma_run_monotonic_regions(
    bytes: Seq<u8>,
    i: int,
    s: FsmState,
    region: u8,
    hits: Seq<MossHit>,
    hs: Seq<MossHit>,
    t: int,
)
    requires
        run_fsm(bytes, i, s, region, hits) == (RunOutcome::Done { hits: hs, trailer: t }),
        state_region_consistent(s, region),
        mid_triplet_nonempty(s, hits),
        forall|j: int| i <= j < t && is_region_header(#[trigger] bytes[j]) ==> region_of_header(
            bytes[j],
        ) >= region,
        forall|j1: int, j2: int|
            i <= j1 <= j2 < t && is_region_header(#[trigger] bytes[j1]) && is_region_header(
                #[trigger] bytes[j2],
            ) ==> region_of_header(bytes[j1]) <= region_of_header(bytes[j2]),
        forall|k: int| 0 <= k < hits.len() ==> (#[trigger] hits[k]).region <= region,
        forall|k1: int, k2: int|
            0 <= k1 <= k2 < hits.len() ==> (#[trigger] hits[k1]).region <= (
            #[trigger] hits[k2]).region,
    ensures
        forall|k1: int, k2: int|
            0 <= k1 <= k2 < hs.len() ==> (#[trigger] hs[k1]).region <= (#[trigger] hs[k2]).region,
    decreases bytes.len() - i,
{
    if 0 <= i < bytes.len() {
        let b = bytes[i];
        match fsm_step(s, region, hits, b) {
            FsmStep::Reject => {},
            FsmStep::Finish => {},
            FsmStep::Advance { state, region: r2, hits: h2 } => {
                lemma_run_done_trailer(bytes, i + 1, state, r2, h2);
                assert(i + 1 <= t);
                crate::words::lemma_region_header_distinct(b);
                if is_region_header(b) {
                    // an accepted region header latches its own region
                    assert(i <= i < t && is_region_header(bytes[i]));
                    assert(region_of_header(bytes[i]) >= region);
                    assert(r2 == region_of_header(b));
                } else {
                    assert(r2 == region);
                }
                match s {
                    FsmState::AfterData0 => {
                        lemma_update_last_region_mono(hits, spec_merge_d1(hits.last(), b), region);
                    },
                    FsmState::AfterData1 => {
                        lemma_update_last_region_mono(hits, spec_merge_d2(hits.last(), b), region);
                    },
                    FsmState::AtRegionHeader0 => {
                        if is_data0(b) {
                            lemma_push_region_mono(hits, spec_begin_hit(0, b), r2);
                        }
                    },
                    FsmState::AtRegionHeader1 => {
                        if is_data0(b) {
                            lemma_push_region_mono(hits, spec_begin_hit(1, b), r2);
                        }
                    },
                    FsmState::AtRegionHeader2 => {
                        if is_data0(b) {
                            lemma_push_region_mono(hits, spec_begin_hit(2, b), r2);
                        }
                    },
                    FsmState::AtRegionHeader3 => {
                        if is_data0(b) {
                            lemma_push_region_mono(hits, spec_begin_hit(3, b), r2);
                        }
                    },
                    _ => {
                        if is_data0(b) {
                            lemma_push_region_mono(hits, spec_begin_hit(region, b), r2);
                        }
                    },
                }
                assert forall|j: int|
                    i + 1 <= j < t && is_region_header(#[trigger] bytes[j]) implies region_of_header(
                    bytes[j],
                ) >= r2 by {
                    if is_region_header(b) {
                        assert(region_of_header(bytes[i]) <= region_of_header(bytes[j]));
                    }
                }
                lemma_run_monotonic_regions(bytes, i + 1, state, r2, h2, hs, t);
            },
        }
    }
}

/// Pushing a hit whose region is the current bound keeps the list bounded
/// by it and monotone.
proof fn lemma_push_region_mono(hits: Seq<MossHit>, x: MossHit, r: u8)
    requires
        forall|k: int| 0 <= k < hits.len() ==> (#[trigger] hits[k]).region <= x.region,
        forall|k1: int, k2: int|
            0 <= k1 <= k2 < hits.len() ==> (#[trigger] hits[k1]).region <= (
            #[trigger] hits[k2]).region,
        x.region <= r,
    ensures
        forall|k: int| 0 <= k < hits.push(x).len() ==> (#[trigger] hits.push(x)[k]).region <= r,
        forall|k1: int, k2: int|
            0 <= k1 <= k2 < hits.push(x).len() ==> (#[trigger] hits.push(x)[k1]).region <= (
            #[trigger] hits.push(x)[k2]).region,
{
    let h2 = hits.push(x);
    assert forall|k: int| 0 <= k < h2.len() implies (#[trigger] h2[k]).region <= r by {
        if k < hits.len() {
            assert(h2[k] == hits[k]);
        } else {
            assert(h2[k] == x);
        }
    }
    assert forall|k1: int, k2: int|
        0 <= k1 <= k2 < h2.len() implies (#[trigger] h2[k1]).region <= (
    #[trigger] h2[k2]).region by {
        if k2 < hits.len() {
            assert(h2[k1] == hits[k1]);
            assert(h2[k2] == hits[k2]);
        } else {
            assert(h2[k2] == x);
            if k1 < hits.len() {
                assert(h2[k1] == hits[k1]);
            } else {
                assert(h2[k1] == x);
            }
        }
    }
}

/// Replacing the last hit by one of the same region keeps the list's
/// region bound and monotonicity.
proof fn lemma_update_last_region_mono(hits: Seq<MossHit>, y: MossHit, r: u8)
    requires
        hits.len() > 0,
        y.region == hits.last().region,
        forall|k: int| 0 <= k < hits.len() ==> (#[trigger] hits[k]).region <= r,
        forall|k1: int, k2: int|
            0 <= k1 <= k2 < hits.len() ==> (#[trigger] hits[k1]).region <= (
            #[trigger] hits[k2]).region,
    ensures
        forall|k: int|
            0 <= k < hits.update(hits.len() - 1, y).len() ==> (#[trigger] hits.update(
                hits.len() - 1,
                y,
            )[k]).region <= r,
        forall|k1: int, k2: int|
            0 <= k1 <= k2 < hits.update(hits.len() - 1, y).len() ==> (#[trigger] hits.update(
                hits.len() - 1,
                y,
            )[k1]).region <= (#[trigger] hits.update(hits.len() - 1, y)[k2]).region,
{
    let h2 = hits.update(hits.len() - 1, y);
    assert forall|k: int| 0 <= k < h2.len() implies (#[trigger] h2[k]).region <= r by {
        if k == hits.len() - 1 {
            assert(h2[k] == y);
            assert(hits.last().region <= r);
        } else {
            assert(h2[k] == hits[k]);
        }
    }
    assert forall|k1: int, k2: int|
        0 <= k1 <= k2 < h2.len() implies (#[trigger] h2[k1]).region <= (
    #[trigger] h2[k2]).region by {
        if k2 == hits.len() - 1 {
            assert(h2[k2] == y);
            assert(hits[k1].region <= hits.last().region);
            if k1 == hits.len() - 1 {
                assert(h2[k1] == y);
            } else {
                assert(h2[k1] == hits[k1]);
            }
        } else {
            assert(h2[k1] == hits[k1]);
            assert(h2[k2] == hits[k2]);
        }
    }
}

} // verus!
