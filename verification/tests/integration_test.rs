use moss_decoder::decode_event;
use moss_decoder::decode_multiple_events;
use moss_decoder::MossHit;
use moss_decoder::MossPacket;

/// One complete event: unit id 1, four hits over regions 0, 0, 1 and 3,
/// with an idle filler before the trailer (trailer at index 18).
fn fake_event_simple() -> Vec<u8> {
    vec![
        0xD1, // unit frame header, unit id 1
        0xC0, // region header 0
        0x00, 0x50, 0x88, // hit: region 0, row 2, col 8
        0x01, 0x50, 0x88, // hit: region 0, row 10, col 8
        0xC1, // region header 1
        0x25, 0x6E, 0xB1, // hit: region 1, row 301, col 433
        0xC2, // region header 2
        0xC3, // region header 3
        0x00, 0x50, 0x88, // hit: region 3, row 2, col 8
        0xFF, // idle
        0xE0, // unit frame trailer
    ]
}

/// Several events back to back.
fn fake_multiple_events() -> Vec<u8> {
    let mut events = fake_event_simple();
    events.append(&mut fake_event_simple());
    events
}

/// A stream whose first triplet is truncated: a `data2`-class byte arrives
/// where the `data1` word is mandatory.
fn fake_event_protocol_error() -> Vec<u8> {
    vec![0xD1, 0xC0, 0x00, 0x88, 0x88, 0xE0]
}

fn expected_simple_packet() -> MossPacket {
    MossPacket {
        unit_id: 1,
        hits: vec![
            MossHit {
                region: 0,
                row: 2,
                column: 8,
            },
            MossHit {
                region: 0,
                row: 10,
                column: 8,
            },
            MossHit {
                region: 1,
                row: 301,
                column: 433,
            },
            MossHit {
                region: 3,
                row: 2,
                column: 8,
            },
        ],
    }
}

#[test]
fn test_decoding_single_event() {
    let event = fake_event_simple();

    let (packet, last_trailer_idx) = decode_event(&event).unwrap();

    assert!(
        last_trailer_idx == event.len() - 1,
        "All bytes were not processed!"
    );

    assert_eq!(packet, expected_simple_packet(), "unexpected decoding result");
}

#[test]
fn test_decoding_single_event_fsm() {
    let event = fake_event_simple();

    let (packet, last_trailer_idx) = decode_event(&event).unwrap();

    assert!(
        last_trailer_idx == event.len() - 1,
        "All bytes were not processed!"
    );

    assert_eq!(packet, expected_simple_packet(), "unexpected decoding result");
}

#[test]
fn test_decoding_multiple_events_one_call() {
    let events = fake_multiple_events();

    let mut moss_packets: Vec<MossPacket> = Vec::new();

    // several events in the data, but a single decode_event call must
    // yield exactly one packet
    if let Ok((packet, unprocessed_idx)) = decode_event(&events) {
        assert!(unprocessed_idx < events.len());
        moss_packets.push(packet);
    }

    let packet_count = moss_packets.len();

    assert_eq!(packet_count, 1, "Expected 1 packet, got {}", packet_count);

    for p in moss_packets {
        println!("{p:?}");
    }
}

#[test]
fn test_decode_protocol_error() {
    let event = fake_event_protocol_error();

    match decode_event(&event) {
        Ok(_) => {
            panic!("This packet has a protocol error, but it was not detected!")
        }
        Err(e) if e.message().contains("Protocol error") => {
            println!("Got expected error: {}", e.message());
        }
        Err(e) => {
            panic!("Got unexpected error: {}", e.message());
        }
    }
}

#[test]
fn test_decoding_multiple_events_whole_buffer() {
    let events = fake_multiple_events();

    let (packets, last_trailer_idx) = decode_multiple_events(&events).unwrap();

    assert_eq!(packets.len(), 2);
    assert_eq!(last_trailer_idx, 37);
    assert_eq!(packets[0], expected_simple_packet());
    assert_eq!(packets[1], expected_simple_packet());
}

#[test]
fn test_trailer_accounting_with_trailing_byte() {
    // a stream that ends with the trailer followed by one framing byte:
    // the reported index is that of the final 0xE0
    let mut events = fake_event_simple();
    events.push(0x00);

    let (packets, last_trailer_idx) = decode_multiple_events(&events).unwrap();

    assert_eq!(packets.len(), 1);
    assert_eq!(last_trailer_idx, events.len() - 2);
    assert_eq!(events[last_trailer_idx], 0xE0);
}

#[test]
fn test_decoding_with_leading_noise() {
    let mut noisy = vec![0x00, 0x00];
    noisy.extend(fake_event_simple());

    let (packet, last_trailer_idx) = decode_event(&noisy).unwrap();

    assert_eq!(packet, expected_simple_packet());
    assert_eq!(last_trailer_idx, 20);
}
