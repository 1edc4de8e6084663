use moss_decoder::extract_hits;
use moss_decoder::extract_packet;
use moss_decoder::MossPacket;

/// One complete event: unit id 1, four hits over regions 0, 0, 1 and 3,
/// with an idle filler before the trailer (trailer at index 18).
fn fake_event_simple() -> Vec<u8> {
    vec![
        0xD1, // unit frame header, unit id 1
        0xC0, // region header 0
        0x00, 0x50, 0x88, // hit: region 0, row 2, col 8
        0x01, 0x50, 0x88, // hit: region 0, row 10, col 8
        0xC1, // region header 1
        0x25, 0x6E, 0xB1, // hit: region 1, row 301, col 433
        0xC2, // region header 2
        0xC3, // region header 3
        0x00, 0x50, 0x88, // hit: region 3, row 2, col 8
        0xFF, // idle
        0xE0, // unit frame trailer
    ]
}

/// A stream whose first triplet is truncated: a `data2`-class byte arrives
/// where the `data1` word is mandatory.
fn fake_event_protocol_error() -> Vec<u8> {
    vec![0xD1, 0xC0, 0x00, 0x88, 0x88, 0xE0]
}

fn find_header_index(slice: &[u8], from: usize) -> usize {
    let mut idx = from;
    loop {
        if slice[idx] & 0xF0 == 0xD0 {
            return idx;
        }
        idx += 1;
    }
}

#[test]
fn test_fsm() {
    let event_data_packet = fake_event_simple();
    let slice = &event_data_packet;

    let header_idx = find_header_index(slice, 0);
    let unit_id = slice[header_idx] & 0xF;

    if let Ok((hits, trailer_idx)) = extract_hits(slice, header_idx + 1) {
        assert_eq!(unit_id, 1);
        assert_eq!(hits.len(), 4);
        assert_eq!(trailer_idx, 18);
    } else {
        panic!("Decoding failed")
    }
}

#[test]
fn test_fsm_multiple_events() {
    let mut event_data_packet = fake_event_simple();
    event_data_packet.append(&mut fake_event_simple());

    let slice = &event_data_packet;

    let header_idx = find_header_index(slice, 0);
    let unit_id = slice[header_idx] & 0xF;

    let first_trailer_idx = if let Ok((hits, trailer_idx)) = extract_hits(slice, header_idx + 1) {
        assert_eq!(unit_id, 1);
        assert_eq!(hits.len(), 4);
        assert_eq!(trailer_idx, 18);
        trailer_idx
    } else {
        panic!("Decoding failed")
    };

    let header_idx = find_header_index(slice, first_trailer_idx + 1);
    let unit_id = slice[header_idx] & 0xF;

    if let Ok((hits, trailer_idx)) = extract_hits(slice, header_idx + 1) {
        assert_eq!(unit_id, 1);
        assert_eq!(hits.len(), 4);
        assert_eq!(trailer_idx, 37);
    } else {
        panic!("Decoding failed")
    }
}

#[test]
fn test_extract_packet() {
    let packet = fake_event_simple();
    let p = extract_packet(&packet, 0);
    println!("{p:?}");
    assert!(p.is_ok());
    let (p, trailer_idx) = p.unwrap();
    assert_eq!(p.hits.len(), 4);
    assert_eq!(trailer_idx, 18);
}

#[test]
fn test_protocol_error() {
    let packet = fake_event_protocol_error();

    if let Err(e) = extract_packet(&packet, 0) {
        println!("{e:?}");
    } else {
        panic!("Expected error, got OK")
    }
}

#[test]
fn test_moss_packets_iter() {
    let packets = vec![
        MossPacket::default(),
        MossPacket::new(1),
        MossPacket::new(2),
    ];

    packets
        .into_iter()
        .for_each(|p| println!("{}", p.to_display_string()));
}
