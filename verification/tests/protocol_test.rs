use moss_decoder::decode_event;
use moss_decoder::decode_multiple_events;
use moss_decoder::words::classify;
use moss_decoder::words::unit_id_of_header;
use moss_decoder::DecodeError;
use moss_decoder::MossHit;
use moss_decoder::MossWord;

/// One complete event: unit id 1, four hits over regions 0, 0, 1 and 3,
/// with an idle filler before the trailer (trailer at index 18).
fn fake_event_simple() -> Vec<u8> {
    vec![
        0xD1, 0xC0, 0x00, 0x50, 0x88, 0x01, 0x50, 0x88, 0xC1, 0x25, 0x6E, 0xB1, 0xC2, 0xC3, 0x00,
        0x50, 0x88, 0xFF, 0xE0,
    ]
}

#[test]
fn test_classify_word_classes() {
    assert_eq!(classify(0xD0), MossWord::UnitFrameHeader);
    assert_eq!(classify(0xD1), MossWord::UnitFrameHeader);
    assert_eq!(classify(0xDF), MossWord::UnitFrameHeader);
    assert_eq!(classify(0xE0), MossWord::UnitFrameTrailer);
    assert_eq!(classify(0xC0), MossWord::RegionHeader0);
    assert_eq!(classify(0xC1), MossWord::RegionHeader1);
    assert_eq!(classify(0xC2), MossWord::RegionHeader2);
    assert_eq!(classify(0xC3), MossWord::RegionHeader3);
    assert_eq!(classify(0x00), MossWord::Data0);
    assert_eq!(classify(0x3F), MossWord::Data0);
    assert_eq!(classify(0x40), MossWord::Data1);
    assert_eq!(classify(0x7F), MossWord::Data1);
    assert_eq!(classify(0x80), MossWord::Data2);
    assert_eq!(classify(0xBF), MossWord::Data2);
    assert_eq!(classify(0xFF), MossWord::Idle);
    assert_eq!(classify(0xC4), MossWord::Invalid);
    assert_eq!(classify(0xE1), MossWord::Invalid);
    assert_eq!(classify(0xFE), MossWord::Invalid);
}

#[test]
fn test_classify_is_pure() {
    // classification depends on the byte alone: repeated calls agree
    let mut b: u8 = 0;
    loop {
        assert_eq!(classify(b), classify(b));
        if b == 255 {
            break;
        }
        b += 1;
    }
}

#[test]
fn test_unit_id_is_low_nibble() {
    assert_eq!(unit_id_of_header(0xD0), 0);
    assert_eq!(unit_id_of_header(0xD7), 7);
    assert_eq!(unit_id_of_header(0xDF), 15);
}

#[test]
fn test_decoded_hits_are_in_range() {
    let (packet, _) = decode_event(&fake_event_simple()).unwrap();
    for h in &packet.hits {
        assert!(h.region <= 3);
        assert!(h.row <= 511);
        assert!(h.column <= 511);
    }
}

#[test]
fn test_hit_regions_non_decreasing() {
    let (packet, _) = decode_event(&fake_event_simple()).unwrap();
    let regions: Vec<u8> = packet.hits.iter().map(|h| h.region).collect();
    assert_eq!(regions, vec![0, 0, 1, 3]);
    for w in regions.windows(2) {
        assert!(w[0] <= w[1]);
    }
}

#[test]
fn test_no_header_is_an_error_for_one_event() {
    let buf = vec![0x00, 0xFF, 0x33];
    match decode_event(&buf) {
        Err(DecodeError::NoHeaderFound) => {}
        other => panic!("expected NoHeaderFound, got {other:?}"),
    }
}

#[test]
fn test_no_header_ends_the_stream_cleanly() {
    let buf = vec![0x00, 0xFF, 0x33];
    let (packets, last_trailer_idx) = decode_multiple_events(&buf).unwrap();
    assert!(packets.is_empty());
    assert_eq!(last_trailer_idx, 0);
}

#[test]
fn test_empty_buffer_decodes_to_nothing() {
    let buf: Vec<u8> = Vec::new();
    let (packets, last_trailer_idx) = decode_multiple_events(&buf).unwrap();
    assert!(packets.is_empty());
    assert_eq!(last_trailer_idx, 0);
}

#[test]
fn test_truncated_packet_is_an_error() {
    let buf = vec![0xD1, 0xC0, 0x00, 0x50];
    match decode_event(&buf) {
        Err(DecodeError::UnexpectedEndOfBuffer) => {}
        other => panic!("expected UnexpectedEndOfBuffer, got {other:?}"),
    }
}

#[test]
fn test_protocol_error_reports_byte_index_and_lookahead() {
    // the data0 word at index 2 must be followed by a data1 word; the
    // data2-class byte 0x88 at index 3 is the offender
    let buf = vec![0xD1, 0xC0, 0x00, 0x88, 0x88, 0xE0];
    match decode_event(&buf) {
        Err(DecodeError::ProtocolError {
            index,
            byte,
            message,
        }) => {
            assert_eq!(index, 3);
            assert_eq!(byte, 0x88);
            assert_eq!(
                message,
                "Protocol error: expected DATA_1, got: 0x88 | 0x88 <-- [0x88, 0xE0]"
            );
        }
        other => panic!("expected ProtocolError, got {other:?}"),
    }
}

#[test]
fn test_out_of_order_region_header_is_rejected() {
    // region header 2 directly after region header 0 skips the mandatory
    // ascending order at the packet head
    let buf = vec![0xD1, 0xC0, 0xC2, 0xE0];
    match decode_event(&buf) {
        Err(DecodeError::ProtocolError { index, byte, .. }) => {
            assert_eq!(index, 2);
            assert_eq!(byte, 0xC2);
        }
        other => panic!("expected ProtocolError, got {other:?}"),
    }
}

#[test]
fn test_double_idle_is_rejected() {
    let buf = vec![0xD1, 0xC0, 0x00, 0x50, 0x88, 0xFF, 0xFF, 0xE0];
    match decode_event(&buf) {
        Err(DecodeError::ProtocolError { index, byte, .. }) => {
            assert_eq!(index, 6);
            assert_eq!(byte, 0xFF);
        }
        other => panic!("expected ProtocolError, got {other:?}"),
    }
}

#[test]
fn test_packet_without_hits() {
    let buf = vec![0xD5, 0xC0, 0xC1, 0xC2, 0xC3, 0xE0];
    let (packet, trailer_idx) = decode_event(&buf).unwrap();
    assert_eq!(packet.unit_id, 5);
    assert!(packet.hits.is_empty());
    assert_eq!(trailer_idx, 5);
}

#[test]
fn test_idle_keeps_the_latched_region() {
    // a triplet after an idle belongs to the region latched before it
    let buf = vec![0xD1, 0xC0, 0x00, 0x50, 0x88, 0xFF, 0x01, 0x50, 0x88, 0xE0];
    let (packet, trailer_idx) = decode_event(&buf).unwrap();
    assert_eq!(trailer_idx, 9);
    assert_eq!(
        packet.hits,
        vec![
            MossHit {
                region: 0,
                row: 2,
                column: 8
            },
            MossHit {
                region: 0,
                row: 10,
                column: 8
            },
        ]
    );
}

#[test]
fn test_hit_display_string() {
    let h = MossHit::new(1, 301, 433);
    assert_eq!(h.to_display_string(), "reg: 1 row: 301 col: 433");
}

#[test]
fn test_packet_display_string() {
    let (packet, _) = decode_event(&fake_event_simple()).unwrap();
    assert_eq!(packet.to_display_string(), "Unit ID: 1 Hits: 4");
}

#[test]
fn test_error_messages() {
    assert_eq!(
        DecodeError::NoHeaderFound.message(),
        "No unit frame header found"
    );
    assert_eq!(
        DecodeError::UnexpectedEndOfBuffer.message(),
        "Unexpected end of buffer before unit frame trailer"
    );
}

#[test]
fn test_default_values() {
    let h = MossHit::default();
    assert_eq!(h, MossHit::new(0, 0, 0));
    let p = moss_decoder::MossPacket::default();
    assert_eq!(p.unit_id, 0);
    assert!(p.hits.is_empty());
}
