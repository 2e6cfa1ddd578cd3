//! The command frame that carries the virtual sensor readings.
//!
//! Layout, 51 bytes:
//!
//! | offset | length | content                                      |
//! |--------|--------|----------------------------------------------|
//! | 0      | 1      | header byte, always 4                        |
//! | 1      | 32     | sixteen slots, one big-endian `u16` each     |
//! | 33     | 16     | configuration block, kept as the template    |
//! | 49     | 2      | big-endian CRC-16/USB of bytes 1 to 48       |
use vstd::prelude::*;

use crate::checksum::{crc16_usb, crc16_usb_of};

verus! {

/// Length of a frame in bytes.
pub const FRAME_LEN: usize = 51;

/// Value of the first byte of every frame.
pub const HEADER_BYTE: u8 = 4;

/// Offset of the first sensor slot.
pub const SLOTS_START: usize = 1;

/// Number of virtual sensor slots.
pub const SLOT_COUNT: usize = 16;

/// Offset of the configuration block, just past the last slot.
pub const CONFIG_START: usize = 33;

/// Offset of the checksum field; the checksum covers `SLOTS_START..CHECKSUM_START`.
pub const CHECKSUM_START: usize = 49;

/// Slot value that marks a virtual sensor as unset.
pub const UNSET: u16 = 32767;

/// A reading is sent in hundredths: the value times this factor.
pub const SCALE: u16 = 100;

/// The reading written for input value `v`: `v * 100`, wrapping at 2^16.
pub open spec fn scaled(v: u16) -> u16 {
    ((v as nat * SCALE as nat) % 0x10000) as u16
}

/// The word held by slot `i` after an update with `values`.
pub open spec fn slot_word(values: Seq<u16>, i: int) -> u16 {
    if 0 <= i < values.len() {
        scaled(values[i])
    } else {
        UNSET
    }
}

/// Most significant byte of a word.
pub open spec fn high_byte(w: u16) -> u8 {
    (w / 256) as u8
}

/// Least significant byte of a word.
pub open spec fn low_byte(w: u16) -> u8 {
    (w % 256) as u8
}

/// The big-endian word stored at offsets `k` and `k + 1`.
pub open spec fn word_at(bytes: Seq<u8>, k: int) -> int {
    bytes[k] * 256 + bytes[k + 1]
}

/// The 32 slot bytes for `values`: slot `i` at `2 * i`, big-endian.
pub open spec fn slot_bytes(values: Seq<u16>) -> Seq<u8> {
    Seq::new(
        (2 * SLOT_COUNT) as nat,
        |j: int|
            if j % 2 == 0 {
                high_byte(slot_word(values, j / 2))
            } else {
                low_byte(slot_word(values, j / 2))
            },
    )
}

/// The fixed configuration block that follows the slots.
pub open spec fn config_block() -> Seq<u8> {
    seq![0u8, 0, 0, 0, 3, 0, 0, 0, 0, 0, 0, 0, 0, 0, 0, 0]
}

/// The bytes that the checksum covers, for `values`.
pub open spec fn checked_bytes_of(values: Seq<u16>) -> Seq<u8> {
    slot_bytes(values) + config_block()
}

/// The complete frame that an update with `values` produces.
pub open spec fn frame_of(values: Seq<u16>) -> Seq<u8> {
    let body = checked_bytes_of(values);
    let c = crc16_usb(body);
    seq![HEADER_BYTE] + body + seq![high_byte(c), low_byte(c)]
}

/// A frame as the device reads it: right length, header, configuration block.
pub open spec fn frame_wf(bytes: Seq<u8>) -> bool {
    &&& bytes.len() == FRAME_LEN
    &&& bytes[0] == HEADER_BYTE
    &&& bytes.subrange(CONFIG_START as int, CHECKSUM_START as int) == config_block()
}

/// `bytes` with all sixteen slots rewritten for `values`, the rest kept.
pub open spec fn with_slots(bytes: Seq<u8>, values: Seq<u16>) -> Seq<u8> {
    Seq::new(
        bytes.len(),
        |k: int|
            if SLOTS_START <= k < CONFIG_START {
                slot_bytes(values)[k - SLOTS_START]
            } else {
                bytes[k]
            },
    )
}

/// `bytes` with the checksum field holding `c`, big-endian.
pub open spec fn with_checksum_word(bytes: Seq<u8>, c: u16) -> Seq<u8> {
    bytes.update(CHECKSUM_START as int, high_byte(c)).update(CHECKSUM_START + 1, low_byte(c))
}

/// `bytes` with the checksum field recomputed from bytes 1 to 48.
pub open spec fn with_checksum(bytes: Seq<u8>) -> Seq<u8> {
    with_checksum_word(bytes, crc16_usb(bytes.subrange(SLOTS_START as int, CHECKSUM_START as int)))
}

/// What an update with `values` makes of the frame `bytes`, in place.
pub open spec fn encoded(bytes: Seq<u8>, values: Seq<u16>) -> Seq<u8> {
    with_checksum(with_slots(bytes, values))
}

/// The 51-byte command frame, kept between updates and rewritten by each.
pub struct Frame {
    bytes: Vec<u8>,
}

impl View for Frame {
    type V = Seq<u8>;

    closed spec fn view(&self) -> Seq<u8> {
        self.bytes@
    }
}

/// Updating a well-formed frame in place gives the same bytes, whatever the
/// frame held before: exactly `frame_of(values)`.
pub proof fn lemma_encoded_is_frame_of(bytes: Seq<u8>, values: Seq<u16>)
    requires
        frame_wf(bytes),
    ensures
        encoded(bytes, values) == frame_of(values),
{
    let s = with_slots(bytes, values);
    let body = s.subrange(SLOTS_START as int, CHECKSUM_START as int);
    assert(body =~= checked_bytes_of(values)) by {
        assert forall|k: int| 0 <= k < 48 implies body[k] == checked_bytes_of(values)[k] by {
            if k >= 32 {
                assert(bytes.subrange(CONFIG_START as int, CHECKSUM_START as int)[k - 32] == bytes[k + 1]);
            }
        }
    }
    assert(encoded(bytes, values) =~= frame_of(values));
}

/// Encoding the same values twice gives the same bytes as encoding them once.
pub proof fn lemma_encoding_idempotent(bytes: Seq<u8>, values: Seq<u16>)
    requires
        frame_wf(bytes),
    ensures
        encoded(encoded(bytes, values), values) == encoded(bytes, values),
{
    lemma_encoded_is_frame_of(bytes, values);
    lemma_frame_of_layout(values);
    lemma_encoded_is_frame_of(encoded(bytes, values), values);
}

/// What `frame_of(values)` holds: the layout, the checksum over bytes 1 to
/// 48, and each slot's word.
pub proof fn lemma_frame_of_layout(values: Seq<u16>)
    ensures
        frame_wf(frame_of(values)),
        word_at(frame_of(values), CHECKSUM_START as int) == crc16_usb(
            frame_of(values).subrange(SLOTS_START as int, CHECKSUM_START as int),
        ),
        forall|i: int|
            0 <= i < SLOT_COUNT ==> #[trigger] word_at(frame_of(values), SLOTS_START + 2 * i)
                == slot_word(values, i),
        forall|i: int|
            values.len() <= i < SLOT_COUNT ==> frame_of(values)[SLOTS_START + 2 * i] == 0x7F
                && #[trigger] frame_of(values)[SLOTS_START + 2 * i + 1] == 0xFF,
{
    let f = frame_of(values);
    let body = checked_bytes_of(values);
    assert(f.subrange(SLOTS_START as int, CHECKSUM_START as int) =~= body);
    assert(f.subrange(CONFIG_START as int, CHECKSUM_START as int) =~= config_block());
    let c = crc16_usb(body);
    assert(word_at(f, CHECKSUM_START as int) == c);
    assert forall|i: int| 0 <= i < SLOT_COUNT implies #[trigger] word_at(f, SLOTS_START + 2 * i)
        == slot_word(values, i) by {
        assert(f[SLOTS_START + 2 * i] == slot_bytes(values)[2 * i]);
        assert(f[SLOTS_START + 2 * i + 1] == slot_bytes(values)[2 * i + 1]);
    }
    assert forall|i: int| values.len() <= i < SLOT_COUNT implies f[SLOTS_START + 2 * i] == 0x7F
        && #[trigger] f[SLOTS_START + 2 * i + 1] == 0xFF by {
        assert(f[SLOTS_START + 2 * i] == slot_bytes(values)[2 * i]);
        assert(f[SLOTS_START + 2 * i + 1] == slot_bytes(values)[2 * i + 1]);
    }
}

impl Frame {
    /// The template: header, every slot unset, the configuration block, and
    /// a placeholder checksum of `0xFFFF` until the first update.
    pub fn new() -> (r: Frame)
        ensures
            frame_wf(r@),
            forall|i: int| 0 <= i < SLOT_COUNT ==> #[trigger] word_at(r@, SLOTS_START + 2 * i) == UNSET,
            word_at(r@, CHECKSUM_START as int) == 0xFFFF,
    {
        let bytes: Vec<u8> = vec![
            4, 127, 255, 127, 255, 127, 255, 127, 255, 127, 255, 127, 255, 127, 255, 127,
            255, 127, 255, 127, 255, 127, 255, 127, 255, 127, 255, 127, 255, 127, 255, 127,
            255, 0, 0, 0, 0, 3, 0, 0, 0, 0, 0, 0, 0, 0, 0, 0, 0, 255, 255,
        ];
        let r = Frame { bytes };
        assert(r@.subrange(CONFIG_START as int, CHECKSUM_START as int) =~= config_block());
        r
    }

    /// The frame's bytes, as they are sent.
    pub fn as_bytes(&self) -> (r: &[u8])
        ensures
            r@ == self@,
    {
        self.bytes.as_slice()
    }

    /// The bytes that the checksum covers: offsets 1 to 48.
    pub fn checked_bytes(&self) -> (r: &[u8])
        requires
            frame_wf(self@),
        ensures
            r@ == self@.subrange(SLOTS_START as int, CHECKSUM_START as int),
    {
        &self.bytes.as_slice()[SLOTS_START..CHECKSUM_START]
    }

    /// Rewrites all sixteen slots: slot `i` gets `values[i] * 100` (wrapping
    /// at 2^16) where `values` has an element `i`, and `UNSET` elsewhere.
    /// Elements past the sixteenth are ignored; no other byte changes.
    fn set_slots(&mut self, values: &[u16])
        requires
            frame_wf(old(self)@),
        ensures
            final(self)@ == with_slots(old(self)@, values@),
            frame_wf(final(self)@),
    {
        let ghost before = self@;
        for index in 0..SLOT_COUNT
            invariant
                self@.len() == FRAME_LEN,
                before.len() == FRAME_LEN,
                forall|k: int|
                    SLOTS_START <= k < SLOTS_START + 2 * index ==> #[trigger] self@[k]
                        == slot_bytes(values@)[k - SLOTS_START],
                forall|k: int|
                    0 <= k < FRAME_LEN && !(SLOTS_START <= k < CONFIG_START) ==> #[trigger] self@[k]
                        == before[k],
        {
            let word: u16 = if index < values.len() {
                values[index].wrapping_mul(SCALE)
            } else {
                UNSET
            };
            let offset: usize = SLOTS_START + 2 * index;
            self.bytes[offset] = (word / 256) as u8;
            self.bytes[offset + 1] = (word % 256) as u8;
            assert(word == slot_word(values@, index as int));
            assert(slot_bytes(values@)[2 * index] == high_byte(word));
            assert(slot_bytes(values@)[2 * index + 1] == low_byte(word));
        }
        assert(self@ =~= with_slots(before, values@));
        assert(self@.subrange(CONFIG_START as int, CHECKSUM_START as int) =~= before.subrange(
            CONFIG_START as int,
            CHECKSUM_START as int,
        ));
    }

    /// Writes `c` into the checksum field, big-endian; no other byte changes.
    /// `update_buffer` calls it with the CRC-16/USB of `checked_bytes()`.
    pub fn set_checksum(&mut self, c: u16)
        requires
            frame_wf(old(self)@),
        ensures
            final(self)@ == with_checksum_word(old(self)@, c),
            frame_wf(final(self)@),
    {
        self.bytes[CHECKSUM_START] = (c / 256) as u8;
        self.bytes[CHECKSUM_START + 1] = (c % 256) as u8;
        assert(self@.subrange(CONFIG_START as int, CHECKSUM_START as int) =~= old(self)@.subrange(
            CONFIG_START as int,
            CHECKSUM_START as int,
        ));
    }

    /// Encodes `sensor_values` into the frame. Every slot is rewritten: slot
    /// `i` gets `sensor_values[i] * 100` (wrapping at 2^16) where the slice
    /// has an element `i`, and `UNSET` elsewhere; elements past the sixteenth
    /// are ignored. Then the checksum field gets the CRC-16/USB of bytes 1 to
    /// 48. The result depends on `sensor_values` alone, not on earlier updates.
    pub fn update_buffer(&mut self, sensor_values: &[u16])
        requires
            frame_wf(old(self)@),
        ensures
            final(self)@ == encoded(old(self)@, sensor_values@),
            final(self)@ == frame_of(sensor_values@),
            frame_wf(final(self)@),
            final(self)@.len() == FRAME_LEN,
            final(self)@[0] == HEADER_BYTE,
            word_at(final(self)@, CHECKSUM_START as int) == crc16_usb(
                final(self)@.subrange(SLOTS_START as int, CHECKSUM_START as int),
            ),
            forall|i: int|
                0 <= i < SLOT_COUNT ==> #[trigger] word_at(final(self)@, SLOTS_START + 2 * i)
                    == slot_word(sensor_values@, i),
            forall|i: int|
                sensor_values@.len() <= i < SLOT_COUNT ==> final(self)@[SLOTS_START + 2 * i]
                    == 0x7F && #[trigger] final(self)@[SLOTS_START + 2 * i + 1] == 0xFF,
    {
        self.set_slots(sensor_values);
        let c: u16 = crc16_usb_of(self.checked_bytes());
        self.set_checksum(c);
        proof {
            lemma_encoded_is_frame_of(old(self)@, sensor_values@);
            lemma_frame_of_layout(sensor_values@);
        }
    }
}

} // verus!
