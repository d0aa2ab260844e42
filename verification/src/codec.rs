use vstd::prelude::*;

verus! {

/// Byte read from the event FIFO when no event is pending.  It is filtered
/// out during decoding, never surfaced as an event.
pub const FIFO_SENTINEL: u8 = 0xff;

/// A logical identifier for one of the 16 keys of the 4x4 matrix,
/// semantically a linear index `0..16` (`col + 4 * row`).
#[derive(Clone, Copy, PartialEq, Eq, Structural, Debug)]
pub struct Key(u8);

/// The device's wire encoding of a key index: the upper two index bits are
/// shifted left one position past the unused bit 2, the lower two bits stay
/// in place.
pub open spec fn spec_key_wire(index: u8) -> u8 {
    ((index & 0x0c) << 1) | (index & 0x03)
}

/// The inverse unpacking of [`spec_key_wire`]: bit 2 of the wire byte is
/// treated as don't-care.
pub open spec fn spec_key_index(wire_byte: u8) -> u8 {
    ((wire_byte & 0xf8) >> 1) | (wire_byte & 0x03)
}

/// The key value holding the given linear index.
pub closed spec fn spec_key_from_index(index: u8) -> Key {
    Key(index)
}

/// [`spec_key_from_index`] and [`Key::spec_index`] are inverses, and a key
/// is nothing but its index.
pub proof fn lemma_key_from_index(index: u8, k: Key)
    ensures
        spec_key_from_index(index).spec_index() == index,
        k == spec_key_from_index(k.spec_index()),
{
}

impl Key {
    /// The linear index this key stands for.
    pub closed spec fn spec_index(self) -> u8 {
        self.0
    }

    /// Unpacks a key from the device's wire byte.  Bit 2 of the wire byte is
    /// unused and ignored.
    pub fn deserialize(wire_byte: u8) -> (k: Key)
        ensures
            k == spec_key_from_index(spec_key_index(wire_byte)),
            k.spec_index() == spec_key_index(wire_byte),
    {
        Key(((wire_byte & 0xf8) >> 1) | (wire_byte & 0x03))
    }

    /// Packs this key into the device's wire byte, leaving bit 2 zero.
    pub fn serialize(&self) -> (wire_byte: u8)
        ensures
            wire_byte == spec_key_wire(self.spec_index()),
    {
        ((self.0 & 0x0c) << 1) | (self.0 & 0x03)
    }

    /// The linear index this key stands for.
    pub fn index(&self) -> (i: u8)
        ensures
            i == self.spec_index(),
    {
        self.0
    }

    /// Builds the key with the given linear index.
    pub fn from_index(index: u8) -> (k: Key)
        requires
            index < 16,
        ensures
            k == spec_key_from_index(index),
            k.spec_index() == index,
    {
        Key(index)
    }
}

/// Packing then unpacking a key index returns it unchanged: the wire
/// encoding loses nothing over the indices `0..16`.
pub proof fn lemma_key_index_round_trip(index: u8)
    requires
        index < 16,
    ensures
        spec_key_index(spec_key_wire(index)) == index,
{
    assert(spec_key_index(spec_key_wire(index)) == index) by (bit_vector)
        requires
            index < 16,
    ;
}

/// Unpacking then packing a wire byte preserves every bit the device
/// defines: only the don't-care bit 2 is cleared.  Wire bytes above `0x1f`
/// cannot arise from a key and are outside the claim.
pub proof fn lemma_key_wire_round_trip(wire_byte: u8)
    requires
        wire_byte < 0x20,
    ensures
        spec_key_wire(spec_key_index(wire_byte)) == wire_byte & 0x1b,
{
    assert(spec_key_wire(spec_key_index(wire_byte)) == wire_byte & 0x1b) by (bit_vector)
        requires
            wire_byte < 0x20,
    ;
}

/// One kind of key event the device can detect and report.
#[derive(Clone, Copy, PartialEq, Eq, Structural, Debug)]
pub enum Event {
    /// The key is held down (steady level).
    High,
    /// The key is released (steady level).
    Low,
    /// The key was just released (falling edge).
    Falling,
    /// The key was just pressed (rising edge).
    Rising,
}

/// The protocol ordinal of an event kind.
pub open spec fn spec_event_ordinal(e: Event) -> u8 {
    match e {
        Event::High => 0,
        Event::Low => 1,
        Event::Falling => 2,
        Event::Rising => 3,
    }
}

impl Event {
    /// The protocol ordinal of this event kind.
    pub fn to_ordinal(&self) -> (o: u8)
        ensures
            o == spec_event_ordinal(*self),
    {
        match self {
            Event::High => 0,
            Event::Low => 1,
            Event::Falling => 2,
            Event::Rising => 3,
        }
    }

    /// The event kind with the given protocol ordinal, or `None` for an
    /// ordinal outside the protocol's range `0..4`.
    pub fn from_ordinal(o: u8) -> (e: Option<Event>)
        ensures
            o < 4 <==> e is Some,
            e matches Some(ev) ==> spec_event_ordinal(ev) == o,
    {
        match o {
            0 => Some(Event::High),
            1 => Some(Event::Low),
            2 => Some(Event::Falling),
            3 => Some(Event::Rising),
            _ => None,
        }
    }
}

/// The one-byte command that enables or disables detection of one event
/// kind: a one-hot bit selected by the ordinal (shifted past bit 0), with
/// bit 0 carrying the enable flag.
pub open spec fn spec_event_command(e: Event, enable: bool) -> u8 {
    (1u8 << (spec_event_ordinal(e) + 1)) | (if enable { 1u8 } else { 0u8 })
}

/// One decoded entry of the keypad's event FIFO.
#[derive(Clone, Copy, PartialEq, Eq, Structural, Debug)]
pub struct KeypadEvent {
    pub key: Key,
    pub event: Event,
}

/// Decodes one FIFO byte: the sentinel `0xff` means "no event"; any other
/// byte carries the key's wire byte in its upper six bits and the event
/// ordinal in its lower two.
pub open spec fn spec_decode_fifo(b: u8) -> Option<KeypadEvent> {
    if b == FIFO_SENTINEL {
        None
    } else {
        Some(
            KeypadEvent {
                key: spec_key_from_index(spec_key_index(b >> 2)),
                event: spec_event_of_low_bits(b),
            },
        )
    }
}

/// The event kind selected by the lower two bits of a FIFO byte.
pub open spec fn spec_event_of_low_bits(b: u8) -> Event {
    if b & 0x03 == 0 {
        Event::High
    } else if b & 0x03 == 1 {
        Event::Low
    } else if b & 0x03 == 2 {
        Event::Falling
    } else {
        Event::Rising
    }
}

/// Decodes one FIFO byte into a key/event pair, or `None` for the
/// "no pending event" sentinel.
pub fn decode_fifo_byte(b: u8) -> (r: Option<KeypadEvent>)
    ensures
        r == spec_decode_fifo(b),
        r matches Some(ke) ==> ke.key.spec_index() == spec_key_index(b >> 2)
            && spec_event_ordinal(ke.event) == b & 0x03,
{
    if b == FIFO_SENTINEL {
        None
    } else {
        let wire: u8 = b >> 2;
        let key = Key::deserialize(wire);
        let low: u8 = b & 0x03;
        assert(b & 0x03 == 0 || b & 0x03 == 1 || b & 0x03 == 2 || b & 0x03 == 3) by (bit_vector);
        let event = if low == 0 {
            Event::High
        } else if low == 1 {
            Event::Low
        } else if low == 2 {
            Event::Falling
        } else {
            Event::Rising
        };
        Some(KeypadEvent { key, event })
    }
}

/// A FIFO byte decodes to "no event" exactly when it is the sentinel:
/// every other byte yields a decoded key/event pair.
pub proof fn lemma_sentinel_filtered(b: u8)
    ensures
        b == FIFO_SENTINEL <==> spec_decode_fifo(b) is None,
{
}

/// A decoded FIFO entry's key index is bounded: the wire byte of a FIFO
/// byte has six bits, so the unpacked index fits in five.
pub proof fn lemma_decode_fifo_index_bound(b: u8)
    ensures
        spec_decode_fifo(b) matches Some(ke) ==> ke.key.spec_index() < 32,
{
    assert(spec_key_index(b >> 2) < 32) by (bit_vector);
}

/// Re-encodes a key/event pair as a FIFO byte: the key's wire byte shifted
/// left two positions, with the event ordinal in the lower two bits.
pub open spec fn spec_encode_fifo(ke: KeypadEvent) -> u8 {
    (spec_key_wire(ke.key.spec_index()) << 2) | spec_event_ordinal(ke.event)
}

/// Decoding a legitimate FIFO byte and re-encoding the pair reproduces the
/// byte's key and event fields; only the key's don't-care bit 2 (bit 4 of
/// the FIFO byte) is cleared.  Bytes with bit 7 set cannot encode a key of
/// the 4x4 matrix and are outside the claim, as is the sentinel `0xff`.
pub proof fn lemma_fifo_round_trip(b: u8)
    requires
        b < 0x80,
    ensures
        spec_decode_fifo(b) matches Some(ke) && spec_encode_fifo(ke) == b & 0xef,
{
    assert(b != 0xff);
    let ke = spec_decode_fifo(b)->Some_0;
    assert(ke.key.spec_index() == spec_key_index(b >> 2));
    assert(spec_key_wire(spec_key_index(b >> 2)) == (b >> 2) & 0x1b) by (bit_vector)
        requires
            b < 0x80,
    ;
    assert(spec_event_ordinal(ke.event) == b & 0x03) by {
        assert(b & 0x03 == 0 || b & 0x03 == 1 || b & 0x03 == 2 || b & 0x03 == 3) by (bit_vector);
    }
    assert((((b >> 2) & 0x1b) << 2) | (b & 0x03) == b & 0xef) by (bit_vector)
        requires
            b < 0x80,
    ;
}

} // verus!
