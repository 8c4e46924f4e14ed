use maze_agent::codec::{custom_decode, decode_and_format, is_passage_open, DecodeError, RadarCell};

#[test]
fn test_custom_decode_known_string() {
    let decoded = custom_decode("ieysGjGO8papd/a").expect("decoding failed");
    assert_eq!(decoded, vec![32, 70, 18, 128, 152, 40, 240, 240, 15, 15, 240]);
}

#[test]
fn test_custom_decode_partial_groups() {
    // Four characters pack to three bytes, three to two, two to one.
    assert_eq!(custom_decode("aaaa").unwrap().len(), 3);
    assert_eq!(custom_decode("aaa").unwrap().len(), 2);
    assert_eq!(custom_decode("aa").unwrap().len(), 1);
    assert_eq!(custom_decode("a").unwrap().len(), 0);
    assert_eq!(custom_decode("").unwrap().len(), 0);
    assert!(custom_decode("aBcD").is_ok());
}

#[test]
fn test_custom_decode_invalid_character() {
    assert_eq!(custom_decode("ab!d"), Err(DecodeError::InvalidCharacter('!')));
    // The first offending character is the one reported.
    assert_eq!(custom_decode("a b!"), Err(DecodeError::InvalidCharacter(' ')));
}

#[test]
fn test_decode_too_short() {
    // Valid characters, but fewer than 11 decoded bytes.
    assert_eq!(decode_and_format("aaaa"), Err(DecodeError::TooShort));
    assert_eq!(decode_and_format(""), Err(DecodeError::TooShort));
}

#[test]
fn test_decode_structure() {
    let radar = decode_and_format("ieysGjGO8papd/a").expect("decoding failed");
    assert_eq!(radar.cells.len(), 9);
    assert_eq!(radar.horizontal_passages, [0b000100, 0b100100, 0b011000, 0b100000]);
    assert_eq!(radar.vertical_passages, [0b00101000, 0b10011000, 0b10000000]);
    assert_eq!(
        radar.cells,
        vec![
            RadarCell::Undefined,
            RadarCell::Open,
            RadarCell::Undefined,
            RadarCell::Open,
            RadarCell::Open,
            RadarCell::Undefined,
            RadarCell::Open,
            RadarCell::Undefined,
            RadarCell::Undefined,
        ]
    );
}

#[test]
fn test_decode_deterministic() {
    // The same encoded string always yields the same view.
    let first = decode_and_format("ieysGjGO8papd/a").expect("decoding failed");
    let second = decode_and_format("ieysGjGO8papd/a").expect("decoding failed");
    assert_eq!(first, second);
    assert_eq!(first.cells.len(), 9);
}

#[test]
fn test_cell_from_bits() {
    assert_eq!(RadarCell::from_bits(0b1111), RadarCell::Undefined);
    assert_eq!(RadarCell::from_bits(0b0000), RadarCell::Open);
    assert_eq!(RadarCell::from_bits(0b1000), RadarCell::Exit);
    assert_eq!(RadarCell::from_bits(0b1001), RadarCell::Exit);
    assert_eq!(RadarCell::from_bits(0b0101), RadarCell::Unknown(0b0101));
}

#[test]
fn test_passage_bit_extraction() {
    // The documented example: field 0b010000 holds an open passage at
    // wall index 1.
    assert!(is_passage_open(0b010000, 1));
    // Patterns 00 and 10 read closed at every wall position, and the
    // tolerated unexpected pattern 11 reads closed too.
    for wall_index in 0..4usize {
        let shift = (3 - wall_index) * 2;
        assert!(!is_passage_open(0b00 << shift, wall_index));
        assert!(!is_passage_open(0b10 << shift, wall_index));
        assert!(!is_passage_open(0b11 << shift, wall_index));
        assert!(is_passage_open(0b01 << shift, wall_index));
    }
}

#[test]
fn test_default_view_is_closed() {
    let radar = maze_agent::codec::DecodedView::default();
    assert_eq!(radar.cells.len(), 9);
    assert!(radar.cells.iter().all(|c| *c == RadarCell::Undefined));
    assert_eq!(radar.horizontal_passages, [0, 0, 0, 0]);
    assert_eq!(radar.vertical_passages, [0, 0, 0]);
}
