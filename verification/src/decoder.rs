//! Packet extraction and stream decoding.
//!
//! [`extract_packet`] scans a buffer for the next unit frame header,
//! tolerating and skipping leading framing noise, then runs the protocol
//! machine over the packet body up to the trailer. [`decode_event`] takes
//! the first packet of a buffer; [`decode_multiple_events`] drains the
//! whole buffer, packet by packet, until no further header is found.

use vstd::prelude::*;
use vstd::string::StringExecFns;

use crate::words::is_unit_frame_header;
use crate::words::unit_id_of_header;
use crate::words::is_region_header;
use crate::words::region_of_header;
use crate::hits::MossHit;
use crate::hits::MossPacket;
use crate::hits::SpecPacket;
use crate::hits::hit_in_range;
use crate::hits::add_data0;
use crate::hits::add_data1;
use crate::hits::add_data2;
use crate::fsm::FsmState;
use crate::fsm::RunOutcome;
use crate::fsm::run_fsm;
use crate::fsm::lemma_run_done_trailer;
use crate::fsm::lemma_run_hits_in_range;
use crate::fsm::lemma_run_monotonic_regions;
use crate::render::spec_error_message;
use crate::render::format_error_msg;

verus! {

/// Why a packet could not be decoded.
#[derive(Debug)]
pub enum DecodeError {
    /// The buffer holds no unit frame header at or after the start index.
    NoHeaderFound,
    /// The byte at `index` is not a legal successor in the state the
    /// protocol machine was in; `message` is the rendered diagnostic.
    ProtocolError { index: usize, byte: u8, message: String },
    /// The buffer ended before the unit frame trailer.
    UnexpectedEndOfBuffer,
}

/// What [`DecodeError::message`] returns for each error.
pub open spec fn spec_decode_error_message(e: DecodeError) -> Seq<char> {
    match e {
        DecodeError::NoHeaderFound => "No unit frame header found"@,
        DecodeError::ProtocolError { message, .. } => message@,
        DecodeError::UnexpectedEndOfBuffer => "Unexpected end of buffer before unit frame trailer"@,
    }
}

impl DecodeError {
    /// The human-readable description of the error.
    pub fn message(&self) -> (s: String)
        ensures
            s@ == spec_decode_error_message(*self),
    {
        match self {
            DecodeError::NoHeaderFound => {
                let mut s = String::new();
                s.append("No unit frame header found");
                s
            },
            DecodeError::ProtocolError { message, .. } => message.clone(),
            DecodeError::UnexpectedEndOfBuffer => {
                let mut s = String::new();
                s.append("Unexpected end of buffer before unit frame trailer");
                s
            },
        }
    }
}

/// The classes that are legal successors in each state, as rendered in a
/// protocol-error diagnostic.
pub open spec fn spec_expected_classes(s: FsmState) -> Seq<char> {
    match s {
        FsmState::ExpectRegionHeader0 => "REGION_HEADER_0"@,
        FsmState::AtRegionHeader0 => "REGION_HEADER_1/DATA_0"@,
        FsmState::AtRegionHeader1 => "REGION_HEADER_2/DATA_0"@,
        FsmState::AtRegionHeader2 => "REGION_HEADER_3/DATA_0"@,
        FsmState::AtRegionHeader3 => "UNIT_FRAME_TRAILER/DATA_0"@,
        FsmState::AfterData0 => "DATA_1"@,
        FsmState::AfterData1 => "DATA_2"@,
        FsmState::AfterData2 => "DATA_0/REGION_HEADER_1-3/IDLE/UNIT_FRAME_TRAILER"@,
        FsmState::AtIdle => "DATA_0/REGION_HEADER_1-3/UNIT_FRAME_TRAILER"@,
    }
}

fn expected_classes(s: FsmState) -> (r: &'static str)
    ensures
        r@ == spec_expected_classes(s),
{
    match s {
        FsmState::ExpectRegionHeader0 => "REGION_HEADER_0",
        FsmState::AtRegionHeader0 => "REGION_HEADER_1/DATA_0",
        FsmState::AtRegionHeader1 => "REGION_HEADER_2/DATA_0",
        FsmState::AtRegionHeader2 => "REGION_HEADER_3/DATA_0",
        FsmState::AtRegionHeader3 => "UNIT_FRAME_TRAILER/DATA_0",
        FsmState::AfterData0 => "DATA_1",
        FsmState::AfterData1 => "DATA_2",
        FsmState::AfterData2 => "DATA_0/REGION_HEADER_1-3/IDLE/UNIT_FRAME_TRAILER",
        FsmState::AtIdle => "DATA_0/REGION_HEADER_1-3/UNIT_FRAME_TRAILER",
    }
}

/// The lookahead snippet of a diagnostic: up to ten bytes directly after
/// the offending position.
pub open spec fn spec_lookahead(bytes: Seq<u8>, i: int) -> Seq<u8> {
    bytes.subrange(
        i + 1,
        if i + 11 <= bytes.len() {
            i + 11
        } else {
            bytes.len() as int
        },
    )
}

fn collect_lookahead(buf: &[u8], i: usize) -> (v: Vec<u8>)
    requires
        i < buf@.len(),
    ensures
        v@ == spec_lookahead(buf@, i as int),
{
    let n = buf.len();
    let end = if n - i - 1 < 10 {
        n
    } else {
        i + 11
    };
    let mut v: Vec<u8> = Vec::new();
    let mut j = i + 1;
    while j < end
        invariant
            i < j <= end <= n,
            n == buf@.len(),
            v@ == buf@.subrange(i as int + 1, j as int),
        decreases end - j,
    {
        v.push(buf[j]);
        proof {
            assert(buf@.subrange(i as int + 1, j as int + 1) =~= buf@.subrange(
                i as int + 1,
                j as int,
            ).push(buf@[j as int]));
        }
        j = j + 1;
    }
    v
}

/// Builds the protocol error for the byte at `i`, as seen from state `s`.
fn protocol_error_at(buf: &[u8], i: usize, s: FsmState) -> (e: DecodeError)
    requires
        i < buf@.len(),
    ensures
        e matches DecodeError::ProtocolError { index, byte, message } && index == i && byte
            == buf@[i as int] && message@ == spec_error_message(
            spec_expected_classes(s),
            buf@[i as int],
            spec_lookahead(buf@, i as int),
        ),
{
    let look = collect_lookahead(buf, i);
    let message = format_error_msg(expected_classes(s), buf[i], look.as_slice());
    DecodeError::ProtocolError { index: i, byte: buf[i], message }
}

/// Runs the protocol machine over `buf` from `start` (the position right
/// after a unit frame header) and decodes the packet body: the hits and
/// the trailer index on success, the precise failure otherwise.
pub fn extract_hits(buf: &[u8], start: usize) -> (res: Result<(Vec<MossHit>, usize), DecodeError>)
    ensures
        match run_fsm(buf@, start as int, FsmState::ExpectRegionHeader0, 0, Seq::empty()) {
            RunOutcome::Done { hits, trailer } => res matches Ok((v, t)) && v@ == hits && t
                == trailer,
            RunOutcome::Illegal { index, state } => res matches Err(
                DecodeError::ProtocolError { index: ei, byte, message },
            ) && ei == index && byte == buf@[index] && message@ == spec_error_message(
                spec_expected_classes(state),
                buf@[index],
                spec_lookahead(buf@, index),
            ),
            RunOutcome::OutOfBytes => res matches Err(DecodeError::UnexpectedEndOfBuffer),
        },
{
    if start >= buf.len() {
        return Err(DecodeError::UnexpectedEndOfBuffer);
    }
    let mut state = FsmState::ExpectRegionHeader0;
    let mut region: u8 = 0;
    let mut hits: Vec<MossHit> = Vec::new();
    let mut i: usize = start;
    while i < buf.len()
        invariant
            start <= i <= buf@.len(),
            run_fsm(buf@, start as int, FsmState::ExpectRegionHeader0, 0, Seq::empty()) == run_fsm(
                buf@,
                i as int,
                state,
                region,
                hits@,
            ),
            state == FsmState::AfterData0 || state == FsmState::AfterData1 ==> hits@.len() > 0,
        decreases buf@.len() - i,
    {
        let b = buf[i];
        match state {
            FsmState::ExpectRegionHeader0 => {
                if b == 0xC0 {
                    state = FsmState::AtRegionHeader0;
                    region = 0;
                } else {
                    return Err(protocol_error_at(buf, i, FsmState::ExpectRegionHeader0));
                }
            },
            FsmState::AtRegionHeader0 => {
                if b == 0xC1 {
                    state = FsmState::AtRegionHeader1;
                    region = 1;
                } else if b & 0xC0 == 0x00 {
                    add_data0(&mut hits, b, 0);
                    region = 0;
                    state = FsmState::AfterData0;
                } else {
                    return Err(protocol_error_at(buf, i, FsmState::AtRegionHeader0));
                }
            },
            FsmState::AtRegionHeader1 => {
                if b == 0xC2 {
                    state = FsmState::AtRegionHeader2;
                    region = 2;
                } else if b & 0xC0 == 0x00 {
                    add_data0(&mut hits, b, 1);
                    region = 1;
                    state = FsmState::AfterData0;
                } else {
                    return Err(protocol_error_at(buf, i, FsmState::AtRegionHeader1));
                }
            },
            FsmState::AtRegionHeader2 => {
                if b == 0xC3 {
                    state = FsmState::AtRegionHeader3;
                    region = 3;
                } else if b & 0xC0 == 0x00 {
                    add_data0(&mut hits, b, 2);
                    region = 2;
                    state = FsmState::AfterData0;
                } else {
                    return Err(protocol_error_at(buf, i, FsmState::AtRegionHeader2));
                }
            },
            FsmState::AtRegionHeader3 => {
                if b == 0xE0 {
                    return Ok((hits, i));
                } else if b & 0xC0 == 0x00 {
                    add_data0(&mut hits, b, 3);
                    region = 3;
                    state = FsmState::AfterData0;
                } else {
                    return Err(protocol_error_at(buf, i, FsmState::AtRegionHeader3));
                }
            },
            FsmState::AfterData0 => {
                if b & 0xC0 == 0x40 {
                    add_data1(&mut hits, b);
                    state = FsmState::AfterData1;
                } else {
                    return Err(protocol_error_at(buf, i, FsmState::AfterData0));
                }
            },
            FsmState::AfterData1 => {
                if b & 0xC0 == 0x80 {
                    add_data2(&mut hits, b);
                    state = FsmState::AfterData2;
                } else {
                    return Err(protocol_error_at(buf, i, FsmState::AfterData1));
                }
            },
            FsmState::AfterData2 => {
                if b & 0xC0 == 0x00 {
                    add_data0(&mut hits, b, region);
                    state = FsmState::AfterData0;
                } else if b == 0xC1 {
                    state = FsmState::AtRegionHeader1;
                    region = 1;
                } else if b == 0xC2 {
                    state = FsmState::AtRegionHeader2;
                    region = 2;
                } else if b == 0xC3 {
                    state = FsmState::AtRegionHeader3;
                    region = 3;
                } else if b == 0xFF {
                    state = FsmState::AtIdle;
                } else if b == 0xE0 {
                    return Ok((hits, i));
                } else {
                    return Err(protocol_error_at(buf, i, FsmState::AfterData2));
                }
            },
            FsmState::AtIdle => {
                if b & 0xC0 == 0x00 {
                    add_data0(&mut hits, b, region);
                    state = FsmState::AfterData0;
                } else if b == 0xC1 {
                    state = FsmState::AtRegionHeader1;
                    region = 1;
                } else if b == 0xC2 {
                    state = FsmState::AtRegionHeader2;
                    region = 2;
                } else if b == 0xC3 {
                    state = FsmState::AtRegionHeader3;
                    region = 3;
                } else if b == 0xE0 {
                    return Ok((hits, i));
                } else {
                    return Err(protocol_error_at(buf, i, FsmState::AtIdle));
                }
            },
        }
        i = i + 1;
    }
    Err(DecodeError::UnexpectedEndOfBuffer)
}

/// The index of the first unit frame header at or after `i`, if any.
pub open spec fn find_header(bytes: Seq<u8>, i: int) -> Option<int>
    decreases bytes.len() - i,
{
    if i < 0 || i >= bytes.len() {
        None
    } else if is_unit_frame_header(bytes[i]) {
        Some(i)
    } else {
        find_header(bytes, i + 1)
    }
}

/// A found header lies in the buffer, is a header byte, and is the first
/// one; when none is found, no byte from `i` on is a header.
pub proof fn lemma_find_header(bytes: Seq<u8>, i: int)
    requires
        0 <= i,
    ensures
        match find_header(bytes, i) {
            Some(h) => i <= h < bytes.len() && is_unit_frame_header(bytes[h]) && forall|j: int|
                i <= j < h ==> !is_unit_frame_header(#[trigger] bytes[j]),
            None => forall|j: int|
                i <= j < bytes.len() ==> !is_unit_frame_header(#[trigger] bytes[j]),
        },
    decreases bytes.len() - i,
{
    if i < bytes.len() && !is_unit_frame_header(bytes[i]) {
        lemma_find_header(bytes, i + 1);
    }
}

/// What extracting one packet from a buffer position yields.
pub enum PacketOutcome {
    /// No unit frame header at or after the start index.
    NoHeader,
    /// A complete packet: its unit id, hits, and the trailer's index.
    Found { unit_id: u8, hits: Seq<MossHit>, trailer: int },
    /// The byte at `index` is illegal in state `state`.
    Illegal { index: int, state: FsmState },
    /// The buffer ended inside the packet.
    OutOfBytes,
}

/// Extraction of the next packet: find the first header, then run the
/// protocol machine over the body that follows it.
pub open spec fn extract_packet_spec(bytes: Seq<u8>, start: int) -> PacketOutcome {
    match find_header(bytes, start) {
        None => PacketOutcome::NoHeader,
        Some(h) => match run_fsm(bytes, h + 1, FsmState::ExpectRegionHeader0, 0, Seq::empty()) {
            RunOutcome::Done { hits, trailer } => PacketOutcome::Found {
                unit_id: bytes[h] & 0x0F,
                hits,
                trailer,
            },
            RunOutcome::Illegal { index, state } => PacketOutcome::Illegal { index, state },
            RunOutcome::OutOfBytes => PacketOutcome::OutOfBytes,
        },
    }
}

fn find_header_from(buf: &[u8], start: usize) -> (r: Option<usize>)
    ensures
        match r {
            Some(h) => find_header(buf@, start as int) == Some(h as int) && start <= h
                < buf@.len(),
            None => find_header(buf@, start as int) is None,
        },
{
    let n = buf.len();
    if start >= n {
        return None;
    }
    let mut i = start;
    while i < n
        invariant
            start <= i <= n,
            n == buf@.len(),
            find_header(buf@, start as int) == find_header(buf@, i as int),
        decreases n - i,
    {
        if buf[i] & 0xF0 == 0xD0 {
            return Some(i);
        }
        i = i + 1;
    }
    None
}

/// Scans `buf` from `start` for the next unit frame header — leading
/// framing noise is skipped — and decodes the packet that it opens.
/// Returns the packet and the absolute index of its trailer byte.
pub fn extract_packet(buf: &[u8], start: usize) -> (res: Result<(MossPacket, usize), DecodeError>)
    ensures
        match extract_packet_spec(buf@, start as int) {
            PacketOutcome::NoHeader => res matches Err(DecodeError::NoHeaderFound),
            PacketOutcome::Found { unit_id, hits, trailer } => res matches Ok((p, t)) && p.unit_id
                == unit_id && p.hits@ == hits && t == trailer && start <= trailer < buf@.len(),
            PacketOutcome::Illegal { index, state } => res matches Err(
                DecodeError::ProtocolError { index: ei, byte, message },
            ) && ei == index && byte == buf@[index] && message@ == spec_error_message(
                spec_expected_classes(state),
                buf@[index],
                spec_lookahead(buf@, index),
            ),
            PacketOutcome::OutOfBytes => res matches Err(DecodeError::UnexpectedEndOfBuffer),
        },
{
    match find_header_from(buf, start) {
        None => Err(DecodeError::NoHeaderFound),
        Some(h) => {
            let unit_id = unit_id_of_header(buf[h]);
            match extract_hits(buf, h + 1) {
                Ok((hits, trailer)) => {
                    proof {
                        lemma_run_done_trailer(
                            buf@,
                            h as int + 1,
                            FsmState::ExpectRegionHeader0,
                            0,
                            Seq::empty(),
                        );
                    }
                    Ok((MossPacket { unit_id, hits }, trailer))
                },
                Err(e) => Err(e),
            }
        },
    }
}

/// Decodes the first packet of the buffer. A buffer without a unit frame
/// header is an error here, unlike for [`decode_multiple_events`].
pub fn decode_event(buf: &[u8]) -> (res: Result<(MossPacket, usize), DecodeError>)
    ensures
        match extract_packet_spec(buf@, 0) {
            PacketOutcome::NoHeader => res matches Err(DecodeError::NoHeaderFound),
            PacketOutcome::Found { unit_id, hits, trailer } => res matches Ok((p, t)) && p.unit_id
                == unit_id && p.hits@ == hits && t == trailer && trailer < buf@.len(),
            PacketOutcome::Illegal { index, state } => res matches Err(
                DecodeError::ProtocolError { index: ei, byte, message },
            ) && ei == index && byte == buf@[index] && message@ == spec_error_message(
                spec_expected_classes(state),
                buf@[index],
                spec_lookahead(buf@, index),
            ),
            PacketOutcome::OutOfBytes => res matches Err(DecodeError::UnexpectedEndOfBuffer),
        },
{
    extract_packet(buf, 0)
}

/// What decoding a whole buffer yields.
pub enum AllOutcome {
    /// Every packet up to the last header, and the index of the last
    /// packet's trailer (`last` is handed through unchanged when the
    /// buffer holds no further packet).
    Finished { packets: Seq<SpecPacket>, last: int },
    /// The byte at `index` is illegal in state `state`.
    Illegal { index: int, state: FsmState },
    /// The buffer ended inside a packet.
    OutOfBytes,
}

/// Decoding of every packet from `start` on: packets are taken one by one
/// at their headers until no header is left; the first failure aborts.
pub open spec fn decode_all_spec(bytes: Seq<u8>, start: int, last: int) -> AllOutcome
    decreases bytes.len() - start,
    via decode_all_spec_decreases
{
    match extract_packet_spec(bytes, start) {
        PacketOutcome::NoHeader => AllOutcome::Finished { packets: Seq::empty(), last },
        PacketOutcome::Found { unit_id, hits, trailer } => match decode_all_spec(
            bytes,
            trailer + 1,
            trailer,
        ) {
            AllOutcome::Finished { packets, last } => AllOutcome::Finished {
                packets: seq![SpecPacket { unit_id, hits }] + packets,
                last,
            },
            o => o,
        },
        PacketOutcome::Illegal { index, state } => AllOutcome::Illegal { index, state },
        PacketOutcome::OutOfBytes => AllOutcome::OutOfBytes,
    }
}

#[via_fn]
proof fn decode_all_spec_decreases(bytes: Seq<u8>, start: int, last: int) {
    match extract_packet_spec(bytes, start) {
        PacketOutcome::Found { trailer, .. } => {
            if start >= 0 {
                lemma_find_header(bytes, start);
                match find_header(bytes, start) {
                    Some(h) => {
                        lemma_run_done_trailer(
                            bytes,
                            h + 1,
                            FsmState::ExpectRegionHeader0,
                            0,
                            Seq::empty(),
                        );
                    },
                    None => {},
                }
            }
        },
        _ => {},
    }
}

/// Prefixing already-decoded packets onto the outcome of the rest of the
/// buffer.
pub open spec fn prepend_packets(ps: Seq<SpecPacket>, o: AllOutcome) -> AllOutcome {
    match o {
        AllOutcome::Finished { packets, last } => AllOutcome::Finished {
            packets: ps + packets,
            last,
        },
        e => e,
    }
}

/// The mathematical content of a packet list.
pub open spec fn views_of(ps: Seq<MossPacket>) -> Seq<SpecPacket> {
    ps.map_values(|p: MossPacket| p@)
}

proof fn lemma_views_of_push(ps: Seq<MossPacket>, p: MossPacket)
    ensures
        views_of(ps.push(p)) == views_of(ps).push(p@),
{
    assert(views_of(ps.push(p)) =~= views_of(ps).push(p@));
}

/// Decodes every packet of the buffer. Returns the packets in stream
/// order and the index of the last trailer (0 when the buffer holds no
/// packet at all). The first malformed packet aborts the decode.
pub fn decode_multiple_events(buf: &[u8]) -> (res: Result<(Vec<MossPacket>, usize), DecodeError>)
    ensures
        match decode_all_spec(buf@, 0, 0) {
            AllOutcome::Finished { packets, last } => res matches Ok((v, l)) && views_of(v@)
                == packets && l == last,
            AllOutcome::Illegal { index, state } => res matches Err(
                DecodeError::ProtocolError { index: ei, byte, message },
            ) && ei == index && byte == buf@[index] && message@ == spec_error_message(
                spec_expected_classes(state),
                buf@[index],
                spec_lookahead(buf@, index),
            ),
            AllOutcome::OutOfBytes => res matches Err(DecodeError::UnexpectedEndOfBuffer),
        },
{
    let n = buf.len();
    let mut packets: Vec<MossPacket> = Vec::new();
    let mut start: usize = 0;
    let mut last: usize = 0;
    loop
        invariant
            n == buf@.len(),
            start <= n + 1,
            decode_all_spec(buf@, 0, 0) == prepend_packets(
                views_of(packets@),
                decode_all_spec(buf@, start as int, last as int),
            ),
        decreases n + 1 - start,
    {
        match extract_packet(buf, start) {
            Ok((p, trailer)) => {
                let ghost pre = packets@;
                let ghost spkt = p@;
                let ghost old_start = start as int;
                let ghost old_last = last as int;
                packets.push(p);
                last = trailer;
                start = trailer + 1;
                proof {
                    lemma_views_of_push(pre, packets@.last());
                    assert(views_of(pre).push(spkt) =~= views_of(pre) + seq![spkt]);
                    // one packet moves from the remaining stream to the prefix
                    match decode_all_spec(buf@, start as int, last as int) {
                        AllOutcome::Finished { packets: ps, last: l } => {
                            assert(decode_all_spec(buf@, old_start, old_last)
                                == (AllOutcome::Finished { packets: seq![spkt] + ps, last: l }));
                            assert(views_of(pre) + (seq![spkt] + ps) =~= (views_of(pre)
                                + seq![spkt]) + ps);
                        },
                        _ => {},
                    }
                }
            },
            Err(DecodeError::NoHeaderFound) => {
                proof {
                    assert(views_of(packets@) + Seq::<SpecPacket>::empty() =~= views_of(packets@));
                }
                return Ok((packets, last));
            },
            Err(e) => {
                return Err(e);
            },
        }
    }
}

/// Every hit of every decoded packet is in range — region 0..=3, row
/// 0..=511, column 0..=511 — and every unit id fits its four bits,
/// whatever buffer the decoder accepted.
pub proof fn lemma_decoded_hits_in_range(bytes: Seq<u8>, start: int, last: int)
    requires
        0 <= start,
    ensures
        match decode_all_spec(bytes, start, last) {
            AllOutcome::Finished { packets, .. } => forall|k: int|
                0 <= k < packets.len() ==> (#[trigger] packets[k]).unit_id <= 15 && forall|j: int|
                    0 <= j < packets[k].hits.len() ==> hit_in_range(#[trigger] packets[k].hits[j]),
            _ => true,
        },
    decreases bytes.len() - start,
{
    lemma_find_header(bytes, start);
    match find_header(bytes, start) {
        None => {},
        Some(h) => {
            let b = bytes[h];
            assert(b & 0x0F <= 15) by (bit_vector);
            lemma_run_done_trailer(bytes, h + 1, FsmState::ExpectRegionHeader0, 0, Seq::empty());
            lemma_run_hits_in_range(bytes, h + 1, FsmState::ExpectRegionHeader0, 0, Seq::empty());
            match run_fsm(bytes, h + 1, FsmState::ExpectRegionHeader0, 0, Seq::empty()) {
                RunOutcome::Done { trailer, .. } => {
                    lemma_decoded_hits_in_range(bytes, trailer + 1, trailer);
                },
                _ => {},
            }
        },
    }
}

/// Every hit of one extracted packet is in range — region 0..=3, row
/// 0..=511, column 0..=511 — and the unit id fits its four bits.
pub proof fn lemma_packet_hits_in_range(bytes: Seq<u8>, start: int)
    requires
        0 <= start,
    ensures
        match extract_packet_spec(bytes, start) {
            PacketOutcome::Found { unit_id, hits, .. } => unit_id <= 15 && forall|j: int|
                0 <= j < hits.len() ==> hit_in_range(#[trigger] hits[j]),
            _ => true,
        },
{
    lemma_find_header(bytes, start);
    match find_header(bytes, start) {
        None => {},
        Some(h) => {
            let b = bytes[h];
            assert(b & 0x0F <= 15) by (bit_vector);
            lemma_run_hits_in_range(bytes, h + 1, FsmState::ExpectRegionHeader0, 0, Seq::empty());
        },
    }
}

/// On a successful whole-buffer decode that produced at least one packet,
/// the returned index points at a trailer byte (`0xE0`) and no unit frame
/// header follows it: the stream is exhausted there.
pub proof fn lemma_trailer_accounting(bytes: Seq<u8>, start: int, last: int)
    requires
        0 <= start,
    ensures
        match decode_all_spec(bytes, start, last) {
            AllOutcome::Finished { packets, last: lt } => packets.len() > 0 ==> bytes[lt] == 0xE0
                && forall|j: int|
                lt < j < bytes.len() ==> !is_unit_frame_header(#[trigger] bytes[j]),
            _ => true,
        },
    decreases bytes.len() - start,
{
    lemma_find_header(bytes, start);
    match find_header(bytes, start) {
        None => {},
        Some(h) => {
            lemma_run_done_trailer(bytes, h + 1, FsmState::ExpectRegionHeader0, 0, Seq::empty());
            match run_fsm(bytes, h + 1, FsmState::ExpectRegionHeader0, 0, Seq::empty()) {
                RunOutcome::Done { trailer, .. } => {
                    lemma_trailer_accounting(bytes, trailer + 1, trailer);
                    match decode_all_spec(bytes, trailer + 1, trailer) {
                        AllOutcome::Finished { packets, last: lt } => {
                            if packets.len() == 0 {
                                lemma_find_header(bytes, trailer + 1);
                            }
                        },
                        _ => {},
                    }
                },
                _ => {},
            }
        },
    }
}

/// Within one extracted packet, hits are emitted with non-decreasing
/// regions, provided the region headers of the packet body appear in
/// non-decreasing order.
pub proof fn lemma_monotonic_regions(
    bytes: Seq<u8>,
    start: int,
    h: int,
    unit_id: u8,
    hits: Seq<MossHit>,
    trailer: int,
)
    requires
        0 <= start,
        find_header(bytes, start) == Some(h),
        extract_packet_spec(bytes, start) == (PacketOutcome::Found { unit_id, hits, trailer }),
        forall|j1: int, j2: int|
            h < j1 <= j2 < trailer && is_region_header(#[trigger] bytes[j1]) && is_region_header(
                #[trigger] bytes[j2],
            ) ==> region_of_header(bytes[j1]) <= region_of_header(bytes[j2]),
    ensures
        forall|k1: int, k2: int|
            0 <= k1 <= k2 < hits.len() ==> (#[trigger] hits[k1]).region <= (
            #[trigger] hits[k2]).region,
{
    lemma_find_header(bytes, start);
    lemma_run_monotonic_regions(
        bytes,
        h + 1,
        FsmState::ExpectRegionHeader0,
        0,
        Seq::empty(),
        hits,
        trailer,
    );
}

} // verus!
