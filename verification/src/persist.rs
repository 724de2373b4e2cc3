//! The flash record that keeps the autofill value across power cycles.
//!
//! Layout: magic `PAF1`, a version byte, the text length (little-endian
//! 16 bits in version 2, one byte plus padding in version 1), a zero byte,
//! fifty data bytes, and a CRC-32 of everything before it. Erased bytes
//! (`0xff`) fill the rest.

use vstd::prelude::*;
use crate::endian::{
    le_u16, le_u32, lemma_le_u32_round_trip, u16_from_le, u16_to_le, u32_from_le, u32_le_bytes,
    u32_to_le,
};
use crate::text::{lemma_text_of_file_valid, text_of_file, valid_text, AutofillText, MAX_TEXT_LEN};

verus! {

/// Size of the record written to flash.
pub const FLASH_RECORD_SIZE: usize = 2560;
/// Version written by `encode`.
pub const VERSION: u8 = 2;
/// Offset of the text bytes.
pub const DATA_OFFSET: usize = 8;
/// Offset of the CRC in a version 2 record.
pub const CRC_OFFSET: usize = 58;
/// Length of the data area in a version 1 record.
pub const VERSION_1_DATA_LEN: usize = 50;
/// Offset of the CRC in a version 1 record.
pub const VERSION_1_CRC_OFFSET: usize = 58;
/// The magic bytes `PAF1` at the start of a record.
pub const MAGIC: [u8; 4] = [0x50, 0x41, 0x46, 0x31];

/// The magic bytes as a sequence.
pub open spec fn magic() -> Seq<u8> {
    seq![0x50u8, 0x41u8, 0x46u8, 0x31u8]
}

/// One shift of the reflected CRC-32 register (polynomial `0xedb88320`).
pub open spec fn crc_shift(c: u32) -> u32 {
    if c & 1 == 0 {
        c >> 1
    } else {
        (c >> 1) ^ 0xedb8_8320
    }
}

/// `n` shifts of the CRC-32 register.
pub open spec fn crc_shifts(c: u32, n: nat) -> u32
    decreases n,
{
    if n == 0 {
        c
    } else {
        crc_shifts(crc_shift(c), (n - 1) as nat)
    }
}

/// The CRC-32 register after the bytes of `s`, starting from all ones.
pub open spec fn crc_register(s: Seq<u8>) -> u32
    decreases s.len(),
{
    if s.len() == 0 {
        0xffff_ffff
    } else {
        crc_shifts(crc_register(s.drop_last()) ^ (s.last() as u32), 8)
    }
}

/// The CRC-32 (IEEE 802.3) checksum of `s`.
pub open spec fn spec_crc32(s: Seq<u8>) -> u32 {
    !crc_register(s)
}

/// The bytes of a version 2 record that its CRC covers.
pub open spec fn record_body(t: Seq<u8>) -> Seq<u8> {
    magic() + seq![VERSION, t.len() as u8, 0u8, 0u8] + t + Seq::new(
        (MAX_TEXT_LEN - t.len()) as nat,
        |i: int| 0xffu8,
    )
}

/// The record that `encode` writes for the value `t`.
pub open spec fn spec_encode(t: Seq<u8>) -> Seq<u8> {
    record_body(t) + u32_le_bytes(spec_crc32(record_body(t))) + Seq::new(
        (FLASH_RECORD_SIZE - CRC_OFFSET - 4) as nat,
        |i: int| 0xffu8,
    )
}

/// The CRC stored after the first 58 bytes.
pub open spec fn stored_crc(r: Seq<u8>) -> u32 {
    le_u32(r[58], r[59], r[60], r[61])
}

/// The value that a version 1 record holds, if it is intact.
pub open spec fn spec_decode_version_1(r: Seq<u8>) -> Option<Seq<u8>> {
    let len = r[5] as int;
    if len > VERSION_1_DATA_LEN {
        None
    } else if spec_crc32(r.take(VERSION_1_CRC_OFFSET as int)) != stored_crc(r) {
        None
    } else {
        Some(text_of_file(r.subrange(DATA_OFFSET as int, DATA_OFFSET + len)))
    }
}

/// The value that a record holds, if it is intact and of a known version.
pub open spec fn spec_decode(r: Seq<u8>) -> Option<Seq<u8>> {
    if r.take(4) != magic() {
        None
    } else if r[4] == 1 {
        spec_decode_version_1(r)
    } else if r[4] != VERSION {
        None
    } else {
        let len = le_u16(r[5], r[6]) as int;
        if len > MAX_TEXT_LEN {
            None
        } else if spec_crc32(r.take(CRC_OFFSET as int)) != stored_crc(r) {
            None
        } else {
            Some(text_of_file(r.subrange(DATA_OFFSET as int, DATA_OFFSET + len)))
        }
    }
}

/// The view of an optional value.
pub open spec fn text_view(t: Option<AutofillText>) -> Option<Seq<u8>> {
    match t {
        Some(t) => Some(t@),
        None => None,
    }
}

/// The CRC-32 (IEEE 802.3) checksum of `bytes`.
pub fn crc32(bytes: &[u8]) -> (crc: u32)
    ensures
        crc == spec_crc32(bytes@),
{
    let mut crc: u32 = 0xffff_ffff;
    let n = bytes.len();
    let mut i: usize = 0;
    while i < n
        invariant
            n == bytes@.len(),
            i <= n,
            crc == crc_register(bytes@.take(i as int)),
        decreases n - i,
    {
        let byte = bytes[i];
        crc = crc ^ (byte as u32);
        let ghost start = crc;
        let mut k: u32 = 0;
        while k < 8
            invariant
                k <= 8,
                crc_shifts(start, 8) == crc_shifts(crc, (8 - k) as nat),
            decreases 8 - k,
        {
            let mask = 0u32.wrapping_sub(crc & 1);
            proof {
                let c = crc;
                assert(c & 1 == 0 || c & 1 == 1) by (bit_vector);
                if c & 1 == 0 {
                    assert(mask == 0);
                    assert((c >> 1) ^ (0xedb8_8320u32 & 0u32) == c >> 1) by (bit_vector);
                } else {
                    assert(mask == 0xffff_ffff);
                    assert((c >> 1) ^ (0xedb8_8320u32 & 0xffff_ffffu32) == (c >> 1) ^ 0xedb8_8320u32)
                        by (bit_vector);
                }
            }
            crc = (crc >> 1) ^ (0xedb8_8320 & mask);
            k = k + 1;
        }
        assert(bytes@.take(i + 1).drop_last() =~= bytes@.take(i as int));
        i = i + 1;
    }
    assert(bytes@.take(n as int) =~= bytes@);
    !crc
}

/// The flash record for `text`.
pub fn encode(text: &AutofillText) -> (record: [u8; FLASH_RECORD_SIZE])
    ensures
        record@ == spec_encode(text@),
{
    let len = text.len();
    let data = text.as_bytes();
    let mut record = [0xffu8; 2560];
    record[0] = MAGIC[0];
    record[1] = MAGIC[1];
    record[2] = MAGIC[2];
    record[3] = MAGIC[3];
    record[4] = VERSION;
    let (l0, l1) = u16_to_le(len as u16);
    record[5] = l0;
    record[6] = l1;
    record[7] = 0;
    assert((len as u16 & 0xff) as u8 == len as u8 && (len as u16 >> 8) as u8 == 0) by (bit_vector)
        requires
            len <= 50,
    ;
    let mut i: usize = 0;
    while i < len
        invariant
            len == data@.len(),
            len <= MAX_TEXT_LEN,
            i <= len,
            record@.len() == FLASH_RECORD_SIZE,
            record@.take(DATA_OFFSET as int) == magic() + seq![VERSION, len as u8, 0u8, 0u8],
            forall|k: int| 0 <= k < i ==> #[trigger] record@[DATA_OFFSET + k] == data@[k],
            forall|k: int| DATA_OFFSET + i <= k < FLASH_RECORD_SIZE ==> #[trigger] record@[k] == 0xff,
        decreases len - i,
    {
        let ghost before = record@;
        record[DATA_OFFSET + i] = data[i];
        assert(record@.take(DATA_OFFSET as int) =~= before.take(DATA_OFFSET as int));
        i = i + 1;
    }
    let ghost body = record_body(text@);
    assert forall|k: int| 0 <= k < CRC_OFFSET implies #[trigger] record@[k] == body[k] by {
        if k < DATA_OFFSET {
            assert(record@.take(DATA_OFFSET as int)[k] == record@[k]);
        } else if k < DATA_OFFSET + len {
            assert(record@[DATA_OFFSET + (k - DATA_OFFSET)] == data@[k - DATA_OFFSET]);
        }
    }
    assert(record@.take(CRC_OFFSET as int) =~= body);
    let crc = crc32(vstd::slice::slice_subrange(record.as_slice(), 0, CRC_OFFSET));
    let (c0, c1, c2, c3) = u32_to_le(crc);
    let ghost before = record@;
    record[CRC_OFFSET] = c0;
    record[CRC_OFFSET + 1] = c1;
    record[CRC_OFFSET + 2] = c2;
    record[CRC_OFFSET + 3] = c3;
    assert(record@ =~= spec_encode(text@)) by {
        assert(before.take(CRC_OFFSET as int) == body);
        assert forall|k: int| 0 <= k < FLASH_RECORD_SIZE implies #[trigger] record@[k] == spec_encode(
            text@,
        )[k] by {
            if k < CRC_OFFSET {
                assert(before.take(CRC_OFFSET as int)[k] == before[k]);
            }
        }
    }
    record
}

/// Whether the first four bytes are the magic.
fn has_magic(record: &[u8; FLASH_RECORD_SIZE]) -> (b: bool)
    ensures
        b == (record@.take(4) == magic()),
{
    let b = record[0] == MAGIC[0] && record[1] == MAGIC[1] && record[2] == MAGIC[2] && record[3]
        == MAGIC[3];
    if b {
        assert(record@.take(4) =~= magic());
    } else {
        assert(record@.take(4) != magic()) by {
            if record@.take(4) == magic() {
                assert(record@.take(4)[0] == record@[0]);
                assert(record@.take(4)[1] == record@[1]);
                assert(record@.take(4)[2] == record@[2]);
                assert(record@.take(4)[3] == record@[3]);
            }
        }
    }
    b
}

/// The value in `record` if it is intact, of a known version and holds
/// no more than `MAX_TEXT_LEN` bytes; `None` for an erased or corrupted
/// record.
pub fn decode(record: &[u8; FLASH_RECORD_SIZE]) -> (text: Option<AutofillText>)
    ensures
        text_view(text) == spec_decode(record@),
        text matches Some(t) ==> valid_text(t@),
{
    if !has_magic(record) {
        return None;
    }
    if record[4] == 1 {
        return decode_version_1(record);
    }
    if record[4] != VERSION {
        return None;
    }
    let len = u16_from_le(record[5], record[6]) as usize;
    if len > MAX_TEXT_LEN {
        return None;
    }
    let stored = u32_from_le(
        record[CRC_OFFSET],
        record[CRC_OFFSET + 1],
        record[CRC_OFFSET + 2],
        record[CRC_OFFSET + 3],
    );
    if crc32(vstd::slice::slice_subrange(record.as_slice(), 0, CRC_OFFSET)) != stored {
        return None;
    }
    Some(
        AutofillText::from_file_bytes(
            vstd::slice::slice_subrange(record.as_slice(), DATA_OFFSET, DATA_OFFSET + len),
        ),
    )
}

/// The value in a version 1 record, if it is intact.
fn decode_version_1(record: &[u8; FLASH_RECORD_SIZE]) -> (text: Option<AutofillText>)
    ensures
        text_view(text) == spec_decode_version_1(record@),
        text matches Some(t) ==> valid_text(t@),
{
    let len = record[5] as usize;
    if len > VERSION_1_DATA_LEN {
        return None;
    }
    let stored = u32_from_le(
        record[VERSION_1_CRC_OFFSET],
        record[VERSION_1_CRC_OFFSET + 1],
        record[VERSION_1_CRC_OFFSET + 2],
        record[VERSION_1_CRC_OFFSET + 3],
    );
    if crc32(vstd::slice::slice_subrange(record.as_slice(), 0, VERSION_1_CRC_OFFSET)) != stored {
        return None;
    }
    Some(
        AutofillText::from_file_bytes(
            vstd::slice::slice_subrange(record.as_slice(), DATA_OFFSET, DATA_OFFSET + len),
        ),
    )
}

/// The value kept in `record`, or the empty value when the record holds none.
pub fn decode_or_empty(record: &[u8; FLASH_RECORD_SIZE]) -> (text: AutofillText)
    ensures
        text@ == match spec_decode(record@) {
            Some(t) => t,
            None => Seq::<u8>::empty(),
        },
{
    match decode(record) {
        Some(text) => text,
        None => AutofillText::empty(),
    }
}

/// One shift of the CRC-32 register: shift right, and XOR the reflected
/// IEEE polynomial `0xedb88320` in when a one bit falls out.
pub proof fn lemma_crc_shift(c: u32)
    ensures
        c & 1 == 0 ==> crc_shift(c) == c >> 1,
        c & 1 == 1 ==> crc_shift(c) == (c >> 1) ^ 0xedb8_8320u32,
{
}

/// The CRC-32 register takes every byte alike, `0xff` included: after
/// `s` followed by `b` it is the register after `s`, XORed with `b`, then
/// shifted eight times.
pub proof fn lemma_crc_register_push(s: Seq<u8>, b: u8)
    ensures
        crc_register(Seq::<u8>::empty()) == 0xffff_ffffu32,
        crc_register(s.push(b)) == crc_shift(
            crc_shift(
                crc_shift(
                    crc_shift(
                        crc_shift(
                            crc_shift(crc_shift(crc_shift(crc_register(s) ^ (b as u32)))),
                        ),
                    ),
                ),
            ),
        ),
{
    assert(s.push(b).drop_last() =~= s);
    reveal_with_fuel(crc_shifts, 9);
}

/// The CRC-32 of the single byte `0xff` is `0xff000000`.
pub proof fn lemma_crc32_of_ff()
    ensures
        spec_crc32(seq![0xffu8]) == 0xff00_0000u32,
{
    let s = seq![0xffu8];
    assert(s.drop_last() =~= Seq::<u8>::empty());
    lemma_crc_register_push(Seq::<u8>::empty(), 0xff);
    assert(Seq::<u8>::empty().push(0xffu8) =~= s);
    assert((0xffff_ffffu32 ^ (0xffu8 as u32)) == 0xffff_ff00u32) by (bit_vector);
    assert(crc_shift(0xffff_ff00u32) == 0x7fff_ff80u32) by {
        assert(0xffff_ff00u32 & 1 == 0 && 0xffff_ff00u32 >> 1 == 0x7fff_ff80u32) by (bit_vector);
    }
    assert(crc_shift(0x7fff_ff80u32) == 0x3fff_ffc0u32) by {
        assert(0x7fff_ff80u32 & 1 == 0 && 0x7fff_ff80u32 >> 1 == 0x3fff_ffc0u32) by (bit_vector);
    }
    assert(crc_shift(0x3fff_ffc0u32) == 0x1fff_ffe0u32) by {
        assert(0x3fff_ffc0u32 & 1 == 0 && 0x3fff_ffc0u32 >> 1 == 0x1fff_ffe0u32) by (bit_vector);
    }
    assert(crc_shift(0x1fff_ffe0u32) == 0x0fff_fff0u32) by {
        assert(0x1fff_ffe0u32 & 1 == 0 && 0x1fff_ffe0u32 >> 1 == 0x0fff_fff0u32) by (bit_vector);
    }
    assert(crc_shift(0x0fff_fff0u32) == 0x07ff_fff8u32) by {
        assert(0x0fff_fff0u32 & 1 == 0 && 0x0fff_fff0u32 >> 1 == 0x07ff_fff8u32) by (bit_vector);
    }
    assert(crc_shift(0x07ff_fff8u32) == 0x03ff_fffcu32) by {
        assert(0x07ff_fff8u32 & 1 == 0 && 0x07ff_fff8u32 >> 1 == 0x03ff_fffcu32) by (bit_vector);
    }
    assert(crc_shift(0x03ff_fffcu32) == 0x01ff_fffeu32) by {
        assert(0x03ff_fffcu32 & 1 == 0 && 0x03ff_fffcu32 >> 1 == 0x01ff_fffeu32) by (bit_vector);
    }
    assert(crc_shift(0x01ff_fffeu32) == 0x00ff_ffffu32) by {
        assert(0x01ff_fffeu32 & 1 == 0 && 0x01ff_fffeu32 >> 1 == 0x00ff_ffffu32) by (bit_vector);
    }
    assert(!0x00ff_ffffu32 == 0xff00_0000u32) by (bit_vector);
}

/// Erased flash holds no value.
pub proof fn lemma_erased_record_rejected(r: Seq<u8>)
    requires
        r.len() == FLASH_RECORD_SIZE,
        forall|i: int| 0 <= i < r.len() ==> #[trigger] r[i] == 0xff,
    ensures
        spec_decode(r) is None,
{
    assert(r.take(4)[0] == 0xff);
    assert(magic()[0] == 0x50);
}

/// Decoding the record written for a value gives that value back.
pub proof fn lemma_decode_encode(t: Seq<u8>)
    requires
        valid_text(t),
    ensures
        spec_decode(spec_encode(t)) == Some(t),
{
    let r = spec_encode(t);
    let body = record_body(t);
    assert(r.take(4) =~= magic());
    assert(r[4] == VERSION);
    assert(r[5] == t.len() as u8 && r[6] == 0);
    let n = t.len() as u8;
    assert(le_u16(n, 0) == n as u16) by (bit_vector);
    assert(r.take(CRC_OFFSET as int) =~= body);
    lemma_le_u32_round_trip(spec_crc32(body));
    assert(r.subrange(DATA_OFFSET as int, DATA_OFFSET + t.len()) =~= t);
    lemma_text_of_file_valid(t);
}

} // verus!
