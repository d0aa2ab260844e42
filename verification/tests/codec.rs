use neotrellis::Color;
use neotrellis::Event;
use neotrellis::Key;
use neotrellis::decode_fifo_byte;

#[test]
fn key_index_round_trip_all_indices() {
    for i in 0..16u8 {
        let key = Key::from_index(i);
        let wire = key.serialize();
        assert_eq!(Key::deserialize(wire).index(), i);
    }
}

#[test]
fn key_wire_layout_examples() {
    // Index bits 2..4 are shifted one position left past the unused bit 2.
    assert_eq!(Key::from_index(0).serialize(), 0x00);
    assert_eq!(Key::from_index(3).serialize(), 0x03);
    assert_eq!(Key::from_index(4).serialize(), 0x08);
    assert_eq!(Key::from_index(5).serialize(), 0x09);
    assert_eq!(Key::from_index(15).serialize(), 0x1b);
}

#[test]
fn key_deserialize_ignores_dont_care_bit() {
    // Bit 2 of the wire byte is unused: setting it changes nothing.
    for i in 0..16u8 {
        let wire = Key::from_index(i).serialize();
        assert_eq!(Key::deserialize(wire | 0x04).index(), i);
    }
}

#[test]
fn fifo_byte_round_trip_preserves_fields() {
    // For every byte a key of the 4x4 matrix can produce, decoding then
    // re-encoding reproduces the key and event fields; bit 4 (the key's
    // don't-care bit) is cleared.
    for b in 0u8..0x80 {
        let decoded = decode_fifo_byte(b).expect("bytes below 0x80 decode");
        let reencoded = (decoded.key.serialize() << 2) | decoded.event.to_ordinal();
        assert_eq!(reencoded, b & 0xef);
    }
}

#[test]
fn fifo_sentinel_decodes_to_none() {
    assert!(decode_fifo_byte(0xff).is_none());
}

#[test]
fn fifo_decode_example() {
    // Key index 5 has wire byte 0x09; with a rising edge (ordinal 3) the
    // FIFO byte is (0x09 << 2) | 3 = 0x27.
    let decoded = decode_fifo_byte(0x27).expect("a real event");
    assert_eq!(decoded.key.index(), 5);
    assert_eq!(decoded.event, Event::Rising);
}

#[test]
fn event_ordinals_match_protocol() {
    assert_eq!(Event::High.to_ordinal(), 0);
    assert_eq!(Event::Low.to_ordinal(), 1);
    assert_eq!(Event::Falling.to_ordinal(), 2);
    assert_eq!(Event::Rising.to_ordinal(), 3);
}

#[test]
fn event_from_ordinal_inverts_to_ordinal() {
    for o in 0..4u8 {
        assert_eq!(Event::from_ordinal(o).unwrap().to_ordinal(), o);
    }
    assert!(Event::from_ordinal(4).is_none());
    assert!(Event::from_ordinal(0xff).is_none());
}

#[test]
fn color_channels_reorder_to_grb() {
    let c = Color::rgb(10, 20, 30);
    assert_eq!(c.r, 10);
    assert_eq!(c.g, 20);
    assert_eq!(c.b, 30);
    assert_eq!(c.as_grb_slice(), [20, 10, 30]);
}
