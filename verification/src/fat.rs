//! The 32 KiB FAT12 volume that exposes the autofill value as `AUTOFILL.TXT`.
//!
//! Layout, in 512-byte sectors: boot sector (0), two copies of the FAT
//! (1 and 2), a two-sector root directory (3 and 4) and the data area
//! from sector 5 on, where cluster `c` lives in sector `c + 3`.

use vstd::prelude::*;
use crate::bytes::{put_bytes, zero_fill};
use crate::endian::{
    le_u16, le_u32, lemma_le_u16_round_trip, lemma_le_u32_round_trip, put_u16_le, put_u32_le,
    u16_from_le, u16_le_bytes, u32_from_le, u32_le_bytes,
};
use crate::persist::text_view;
use crate::text::{
    lemma_text_of_file_valid, text_of_file, text_settled, valid_text, AutofillText, TextReader,
};

verus! {

/// Bytes per sector.
pub const SECTOR_SIZE: usize = 512;
/// Sectors on the volume.
pub const SECTOR_COUNT: usize = 64;
/// Bytes on the volume.
pub const DISK_BYTES: usize = 32768;
/// First sector of the first FAT.
pub const FAT_1_SECTOR: usize = 1;
/// First sector of the second FAT.
pub const FAT_2_SECTOR: usize = 2;
/// First sector of the root directory.
pub const ROOT_DIR_SECTOR: usize = 3;
/// Sectors of the root directory.
pub const ROOT_DIR_SECTORS: usize = 2;
/// First sector of the data area (cluster 2).
pub const DATA_START_SECTOR: usize = 5;
/// Entries in the root directory.
pub const ROOT_ENTRY_COUNT: u16 = 32;
/// Short name of the file: `AUTOFILL.TXT`.
pub const FILE_NAME: [u8; 11] = [
    0x41, 0x55, 0x54, 0x4f, 0x46, 0x49, 0x4c, 0x4c, 0x54, 0x58, 0x54,
];
/// Volume label: `PICO FILL`.
pub const VOLUME_LABEL: [u8; 11] = [
    0x50, 0x49, 0x43, 0x4f, 0x20, 0x46, 0x49, 0x4c, 0x4c, 0x20, 0x20,
];
/// Boot jump instruction.
pub const BOOT_JUMP: [u8; 3] = [0xeb, 0x3c, 0x90];
/// OEM name in the boot sector: `MSDOS5.0`.
pub const OEM_NAME: [u8; 8] = [0x4d, 0x53, 0x44, 0x4f, 0x53, 0x35, 0x2e, 0x30];
/// File system type in the boot sector: `FAT12`.
pub const FS_TYPE: [u8; 8] = [0x46, 0x41, 0x54, 0x31, 0x32, 0x20, 0x20, 0x20];
/// Volume serial number.
pub const VOLUME_ID: u32 = 0x5049_434f;

/// Offsets in the boot sector that `format_boot_sector` writes.
pub open spec fn boot_written(j: int) -> bool {
    (0 <= j < 28) || j == 36 || (38 <= j < 62) || j == 510 || j == 511
}

/// Byte `j` of the boot sector.
pub open spec fn boot_byte(j: int) -> u8 {
    if 0 <= j < 3 {
        BOOT_JUMP@[j]
    } else if 3 <= j < 11 {
        OEM_NAME@[j - 3]
    } else if 11 <= j < 13 {
        u16_le_bytes(SECTOR_SIZE as u16)[j - 11]  // bytes per sector
    } else if j == 13 {
        1  // sectors per cluster
    } else if 14 <= j < 16 {
        u16_le_bytes(1)[j - 14]  // reserved sectors
    } else if j == 16 {
        2  // number of FATs
    } else if 17 <= j < 19 {
        u16_le_bytes(ROOT_ENTRY_COUNT)[j - 17]
    } else if 19 <= j < 21 {
        u16_le_bytes(SECTOR_COUNT as u16)[j - 19]  // total sectors
    } else if j == 21 {
        0xf8  // media descriptor
    } else if 22 <= j < 24 {
        u16_le_bytes(1)[j - 22]  // sectors per FAT
    } else if 24 <= j < 26 {
        u16_le_bytes(32)[j - 24]  // sectors per track
    } else if 26 <= j < 28 {
        u16_le_bytes(64)[j - 26]  // heads
    } else if j == 36 {
        0x80  // drive number
    } else if j == 38 {
        0x29  // extended boot signature
    } else if 39 <= j < 43 {
        u32_le_bytes(VOLUME_ID)[j - 39]
    } else if 43 <= j < 54 {
        VOLUME_LABEL@[j - 43]
    } else if 54 <= j < 62 {
        FS_TYPE@[j - 54]
    } else if j == 510 {
        0x55
    } else if j == 511 {
        0xaa
    } else {
        0
    }
}

/// Byte `j` of each FAT: media descriptor, reserved entry, and cluster 2
/// marked as the end of its chain.
pub open spec fn fat_byte(j: int) -> u8 {
    if j == 0 {
        0xf8
    } else if 1 <= j < 4 {
        0xff
    } else if j == 4 {
        0x0f
    } else {
        0
    }
}

/// Byte `j` of the root directory of a volume that holds the value `t`:
/// the volume label entry, then the file entry (starting at cluster 2,
/// `t.len()` bytes long), then free entries.
pub open spec fn root_byte(t: Seq<u8>, j: int) -> u8 {
    if 0 <= j < 11 {
        VOLUME_LABEL@[j]
    } else if j == 11 {
        0x08  // volume label attribute
    } else if 32 <= j < 43 {
        FILE_NAME@[j - 32]
    } else if j == 43 {
        0x20  // archive attribute
    } else if 58 <= j < 60 {
        u16_le_bytes(2)[j - 58]  // first cluster
    } else if 60 <= j < 64 {
        u32_le_bytes(t.len() as u32)[j - 60]  // file size
    } else {
        0
    }
}

/// Byte `i` of the volume that holds the value `t`.
pub open spec fn image_byte(t: Seq<u8>, i: int) -> u8 {
    if i < 512 {
        boot_byte(i)
    } else if i < 1024 {
        fat_byte(i - 512)
    } else if i < 1536 {
        fat_byte(i - 1024)
    } else if i < 2560 {
        root_byte(t, i - 1536)
    } else if i < 2560 + t.len() {
        t[i - 2560]
    } else {
        0
    }
}

/// The volume that `format_disk` writes for the value `t`.
pub open spec fn disk_image(t: Seq<u8>) -> Seq<u8> {
    Seq::new(DISK_BYTES as nat, |i: int| image_byte(t, i))
}

/// Offset of FAT12 entry `c` inside the FAT.
pub open spec fn fat12_offset(c: int) -> int {
    c + c / 2
}

/// FAT12 entry `c`: twelve bits packed little-endian, two entries per
/// three bytes.
pub open spec fn fat12_entry(fat: Seq<u8>, c: int) -> u16 {
    let off = fat12_offset(c);
    let pair = le_u16(fat[off], fat[off + 1]);
    if c % 2 == 0 {
        pair & 0x0fff
    } else {
        pair >> 4
    }
}

/// The FAT after entry `c` is set to the low twelve bits of `v`.
pub open spec fn fat12_write(fat: Seq<u8>, c: int, v: u16) -> Seq<u8> {
    let off = fat12_offset(c);
    if c % 2 == 0 {
        fat.update(off, v as u8).update(
            off + 1,
            (fat[off + 1] & 0xf0) | (((v >> 8) as u8) & 0x0f),
        )
    } else {
        fat.update(off, (fat[off] & 0x0f) | (((v << 4) as u8) & 0xf0)).update(
            off + 1,
            (v >> 4) as u8,
        )
    }
}

/// The sector that holds cluster `c`, if the cluster lies on the volume.
pub open spec fn spec_cluster_to_sector(c: u16) -> Option<int> {
    if c < 2 || DATA_START_SECTOR + c - 2 >= SECTOR_COUNT {
        None
    } else {
        Some(DATA_START_SECTOR + c - 2)
    }
}

/// Offset of root directory entry `k`.
pub open spec fn entry_start(k: int) -> int {
    (ROOT_DIR_SECTOR * SECTOR_SIZE) as int + 32 * k
}

/// Whether root directory entry `k` is a live entry named `AUTOFILL.TXT`
/// that is not part of a long file name.
pub open spec fn is_file_entry(d: Seq<u8>, k: int) -> bool {
    let e = entry_start(k);
    &&& d[e] != 0xe5
    &&& d[e + 11] != 0x0f
    &&& d.subrange(e, e + 11) == FILE_NAME@
}

/// The first entry from `k` on that is the file, scanning up to the end of
/// the root directory or the first never-used entry.
pub open spec fn find_file_entry(d: Seq<u8>, k: int) -> Option<int>
    decreases 32 - k,
{
    if k < 0 || k >= 32 {
        None
    } else if d[entry_start(k)] == 0 {
        None
    } else if is_file_entry(d, k) {
        Some(k)
    } else {
        find_file_entry(d, k + 1)
    }
}

/// Bytes of the file that one cluster holds when `remaining` bytes are
/// left to read.
pub open spec fn cluster_bytes(remaining: int) -> int {
    if remaining < SECTOR_SIZE {
        remaining
    } else {
        SECTOR_SIZE as int
    }
}

/// The first FAT of the volume `d`.
pub open spec fn first_fat(d: Seq<u8>) -> Seq<u8> {
    d.subrange((FAT_1_SECTOR * SECTOR_SIZE) as int, (FAT_2_SECTOR * SECTOR_SIZE) as int)
}

/// The bytes of a file read on from `cluster`, with `remaining` bytes of
/// it left and `acc` read so far, following the first FAT for at most
/// `steps` clusters. Reading stops when the file ends, when the bytes read
/// settle its value (`text_settled`), or when the chain is marked as
/// ended; it fails when a cluster lies off the volume or the chain is
/// longer than `steps`.
pub open spec fn read_chain(
    d: Seq<u8>,
    cluster: u16,
    remaining: int,
    acc: Seq<u8>,
    steps: nat,
) -> Option<Seq<u8>>
    decreases steps,
{
    if steps == 0 {
        None
    } else {
        match spec_cluster_to_sector(cluster) {
            None => None,
            Some(s) => {
                let n = cluster_bytes(remaining);
                let read = acc + d.subrange(s * SECTOR_SIZE, s * SECTOR_SIZE + n);
                if remaining - n == 0 || text_settled(read) {
                    Some(read)
                } else {
                    let next = fat12_entry(first_fat(d), cluster as int);
                    if next >= 0x0ff8 {
                        Some(read)
                    } else {
                        read_chain(d, next, remaining - n, read, (steps - 1) as nat)
                    }
                }
            },
        }
    }
}

/// The value that the volume `d` holds in `AUTOFILL.TXT`: what the file's
/// bytes denote (its first `MAX_TEXT_LEN` printable bytes before any NUL,
/// see `text_of_file`), read along its cluster chain for at most
/// `SECTOR_COUNT` clusters; `None` when there is no such file or its chain
/// leaves the volume or is too long.
pub open spec fn spec_extract_text(d: Seq<u8>) -> Option<Seq<u8>> {
    match find_file_entry(d, 0) {
        None => None,
        Some(k) => entry_text(d, k),
    }
}

/// The value in the file that root directory entry `k` describes: empty
/// for an empty file, else what the file's bytes denote, read along its
/// cluster chain.
pub open spec fn entry_text(d: Seq<u8>, k: int) -> Option<Seq<u8>> {
    let e = entry_start(k);
    let size = le_u32(d[e + 28], d[e + 29], d[e + 30], d[e + 31]) as int;
    if size == 0 {
        Some(Seq::empty())
    } else {
        match read_chain(d, le_u16(d[e + 26], d[e + 27]), size, Seq::empty(), SECTOR_COUNT as nat) {
            None => None,
            Some(file) => Some(text_of_file(file)),
        }
    }
}

/// Sets FAT12 entry `cluster` to the low twelve bits of `value`, leaving
/// the neighbouring entry that shares a byte unchanged.
pub fn set_fat12_entry(fat: &mut [u8], cluster: u16, value: u16)
    requires
        fat12_offset(cluster as int) + 1 < old(fat)@.len(),
    ensures
        final(fat)@ == fat12_write(old(fat)@, cluster as int, value),
{
    let offset = cluster as usize + cluster as usize / 2;
    assert((cluster & 1 == 0) == (cluster % 2 == 0)) by (bit_vector);
    if cluster & 1 == 0 {
        fat[offset] = value as u8;
        fat[offset + 1] = (fat[offset + 1] & 0xf0) | ((value >> 8) as u8 & 0x0f);
    } else {
        fat[offset] = (fat[offset] & 0x0f) | ((value << 4) as u8 & 0xf0);
        fat[offset + 1] = (value >> 4) as u8;
    }
}

/// FAT12 entry `cluster`, or `None` when the FAT is too short to hold it.
pub fn read_fat12_entry(fat: &[u8], cluster: u16) -> (entry: Option<u16>)
    ensures
        entry == if fat12_offset(cluster as int) + 1 < fat@.len() {
            Some(fat12_entry(fat@, cluster as int))
        } else {
            None::<u16>
        },
{
    let offset = cluster as usize + cluster as usize / 2;
    if offset + 1 >= fat.len() {
        return None;
    }
    let pair = u16_from_le(fat[offset], fat[offset + 1]);
    assert((cluster & 1 == 0) == (cluster % 2 == 0)) by (bit_vector);
    Some(
        if cluster & 1 == 0 {
            pair & 0x0fff
        } else {
            pair >> 4
        },
    )
}

/// The sector that holds `cluster`, if it lies on the volume.
fn cluster_to_sector(cluster: u16) -> (sector: Option<usize>)
    ensures
        match sector {
            Some(s) => spec_cluster_to_sector(cluster) == Some(s as int),
            None => spec_cluster_to_sector(cluster) is None,
        },
{
    if cluster < 2 {
        return None;
    }
    let sector = DATA_START_SECTOR + (cluster - 2) as usize;
    if sector < SECTOR_COUNT {
        Some(sector)
    } else {
        None
    }
}

/// Writes the boot sector fields into the first 512 bytes of `sector`,
/// leaving the reserved and unused bytes as they are.
fn format_boot_sector(sector: &mut [u8])
    requires
        old(sector)@.len() >= SECTOR_SIZE,
    ensures
        final(sector)@.len() == old(sector)@.len(),
        forall|k: int|
            0 <= k < old(sector)@.len() ==> #[trigger] final(sector)@[k] == if boot_written(k) {
                boot_byte(k)
            } else {
                old(sector)@[k]
            },
{
    put_bytes(sector, 0, &BOOT_JUMP);
    put_bytes(sector, 3, &OEM_NAME);
    put_u16_le(sector, 11, SECTOR_SIZE as u16);
    sector[13] = 1;
    put_u16_le(sector, 14, 1);
    sector[16] = 2;
    put_u16_le(sector, 17, ROOT_ENTRY_COUNT);
    put_u16_le(sector, 19, SECTOR_COUNT as u16);
    sector[21] = 0xf8;
    put_u16_le(sector, 22, 1);
    put_u16_le(sector, 24, 32);
    put_u16_le(sector, 26, 64);
    sector[36] = 0x80;
    sector[38] = 0x29;
    put_u32_le(sector, 39, VOLUME_ID);
    put_bytes(sector, 43, &VOLUME_LABEL);
    put_bytes(sector, 54, &FS_TYPE);
    sector[510] = 0x55;
    sector[511] = 0xaa;
}

/// Reading a FAT12 entry after a write gives the low twelve bits that were
/// written, and leaves every other entry, including the neighbour that
/// shares a byte with it, as it was.
pub proof fn lemma_fat12_read_after_write(fat: Seq<u8>, c: u16, v: u16, c2: u16)
    requires
        fat12_offset(c as int) + 1 < fat.len(),
        fat12_offset(c2 as int) + 1 < fat.len(),
    ensures
        fat12_entry(fat12_write(fat, c as int, v), c2 as int) == if c2 == c {
            v & 0x0fff
        } else {
            fat12_entry(fat, c2 as int)
        },
{
    let o = fat12_offset(c as int);
    let o2 = fat12_offset(c2 as int);
    let w = fat12_write(fat, c as int, v);
    if c2 == c {
        let b0 = fat[o];
        let b1 = fat[o + 1];
        if c % 2 == 0 {
            assert(le_u16(v as u8, (b1 & 0xf0) | (((v >> 8) as u8) & 0x0f)) & 0x0fff == v & 0x0fff)
                by (bit_vector);
        } else {
            assert(le_u16((b0 & 0x0f) | (((v << 4) as u8) & 0xf0), (v >> 4) as u8) >> 4 == v
                & 0x0fff) by (bit_vector);
        }
    } else if c % 2 == 0 && c2 == c + 1 {
        assert(o2 == o + 1);
        let b1 = fat[o + 1];
        let b2 = fat[o + 2];
        assert(le_u16((b1 & 0xf0) | (((v >> 8) as u8) & 0x0f), b2) >> 4 == le_u16(b1, b2) >> 4)
            by (bit_vector);
    } else if c % 2 == 1 && c2 + 1 == c {
        assert(o2 + 1 == o);
        let b0 = fat[o2];
        let b1 = fat[o];
        assert(le_u16(b0, (b1 & 0x0f) | (((v << 4) as u8) & 0xf0)) & 0x0fff == le_u16(b0, b1)
            & 0x0fff) by (bit_vector);
    } else {
        assert(o2 + 1 < o || o + 1 < o2);
    }
}

/// Writes a fresh volume that holds `text` in `AUTOFILL.TXT`.
pub fn format_disk(disk: &mut [u8; DISK_BYTES], text: &AutofillText)
    ensures
        final(disk)@ == disk_image(text@),
{
    let len = text.len();
    zero_fill(disk);
    format_boot_sector(disk);

    let mut fat = [0u8; 512];
    fat[0] = 0xf8;
    fat[1] = 0xff;
    fat[2] = 0xff;
    let ghost before = fat@;
    set_fat12_entry(&mut fat, 2, 0x0fff);
    proof {
        assert(fat12_offset(2) == 3);
        let b4 = before[4];
        assert(b4 == 0);
        assert((0x0fffu16 as u8) == 0xff) by (bit_vector);
        assert(((b4 & 0xf0) | (((0x0fffu16 >> 8u16) as u8) & 0x0f)) == 0x0f) by (bit_vector)
            requires
                b4 == 0,
        ;
        assert(fat@ =~= Seq::new(512, |j: int| fat_byte(j)));
    }
    put_bytes(disk, FAT_1_SECTOR * SECTOR_SIZE, &fat);
    put_bytes(disk, FAT_2_SECTOR * SECTOR_SIZE, &fat);

    let root = ROOT_DIR_SECTOR * SECTOR_SIZE;
    put_bytes(disk, root, &VOLUME_LABEL);
    disk[root + 11] = 0x08;
    let file_entry = root + 32;
    put_bytes(disk, file_entry, &FILE_NAME);
    disk[file_entry + 11] = 0x20;
    put_u16_le(disk, file_entry + 26, 2);
    put_u32_le(disk, file_entry + 28, len as u32);

    let data = DATA_START_SECTOR * SECTOR_SIZE;
    put_bytes(disk, data, text.as_bytes());
    assert(disk@ =~= disk_image(text@));
}

/// Whether the eleven bytes at `at` are the file's short name.
fn name_matches(disk: &[u8; DISK_BYTES], at: usize) -> (b: bool)
    requires
        at + 11 <= DISK_BYTES,
    ensures
        b == (disk@.subrange(at as int, at + 11) == FILE_NAME@),
{
    let mut i: usize = 0;
    while i < 11
        invariant
            at + 11 <= DISK_BYTES,
            i <= 11,
            forall|j: int| 0 <= j < i ==> disk@[at + j] == FILE_NAME@[j],
        decreases 11 - i,
    {
        if disk[at + i] != FILE_NAME[i] {
            assert(disk@.subrange(at as int, at + 11)[i as int] != FILE_NAME@[i as int]);
            return false;
        }
        i = i + 1;
    }
    assert(disk@.subrange(at as int, at + 11) =~= FILE_NAME@);
    true
}

/// The root directory entry of the file, found as `find_file_entry` does.
fn find_entry(disk: &[u8; DISK_BYTES]) -> (k: Option<usize>)
    ensures
        match k {
            Some(k) => find_file_entry(disk@, 0) == Some(k as int) && k < 32,
            None => find_file_entry(disk@, 0) is None,
        },
{
    let mut k: usize = 0;
    while k < 32
        invariant
            k <= 32,
            find_file_entry(disk@, 0) == find_file_entry(disk@, k as int),
        decreases 32 - k,
    {
        let e = ROOT_DIR_SECTOR * SECTOR_SIZE + 32 * k;
        if disk[e] == 0 {
            return None;
        }
        if disk[e] != 0xe5 && disk[e + 11] != 0x0f && name_matches(disk, e) {
            return Some(k);
        }
        k = k + 1;
    }
    None
}

/// The value that the volume holds in `AUTOFILL.TXT`, as
/// `spec_extract_text` describes it: the file is read cluster by cluster
/// until it ends or its first `MAX_TEXT_LEN` printable bytes are known.
pub fn extract_text(disk: &[u8; DISK_BYTES]) -> (text: Option<AutofillText>)
    ensures
        text_view(text) == spec_extract_text(disk@),
        text matches Some(t) ==> valid_text(t@),
{
    let k = match find_entry(disk) {
        Some(k) => k,
        None => return None,
    };
    let e = ROOT_DIR_SECTOR * SECTOR_SIZE + 32 * k;
    let file_size = u32_from_le(disk[e + 28], disk[e + 29], disk[e + 30], disk[e + 31]) as usize;
    if file_size == 0 {
        let empty = AutofillText::empty();
        assert(valid_text(empty@));
        return Some(empty);
    }
    let mut cluster = u16_from_le(disk[e + 26], disk[e + 27]);
    let fat_start = FAT_1_SECTOR * SECTOR_SIZE;
    let fat = vstd::slice::slice_subrange(disk.as_slice(), fat_start, fat_start + SECTOR_SIZE);
    let mut reader = TextReader::new();
    let mut remaining: usize = file_size;
    let mut iteration: usize = 0;
    while iteration < SECTOR_COUNT
        invariant
            iteration <= SECTOR_COUNT,
            reader.wf(),
            fat@ == first_fat(disk@),
            spec_extract_text(disk@) == match read_chain(
                disk@,
                cluster,
                remaining as int,
                reader@,
                (SECTOR_COUNT - iteration) as nat,
            ) {
                None => None,
                Some(file) => Some(text_of_file(file)),
            },
        decreases SECTOR_COUNT - iteration,
    {
        let sector = match cluster_to_sector(cluster) {
            Some(s) => s,
            None => return None,
        };
        let n = if remaining < SECTOR_SIZE {
            remaining
        } else {
            SECTOR_SIZE
        };
        let start = sector * SECTOR_SIZE;
        reader.push_slice(vstd::slice::slice_subrange(disk.as_slice(), start, start + n));
        remaining = remaining - n;
        if remaining == 0 || reader.settled() {
            return Some(reader.finish());
        }
        let next = match read_fat12_entry(fat, cluster) {
            Some(next) => next,
            None => return None,
        };
        if next >= 0x0ff8 {
            return Some(reader.finish());
        }
        cluster = next;
        iteration = iteration + 1;
    }
    None
}

/// A freshly formatted volume is what a host reads as a FAT12 volume
/// labelled `PICO FILL` holding the value in one plain, writable file
/// `AUTOFILL.TXT`: 512-byte sectors, one sector per cluster, one reserved
/// sector, two identical one-sector FATs with the two reserved entries set,
/// cluster 2 ending its chain and every other cluster free, 32 root
/// entries, 64 sectors, media `0xf8`, the boot signature; the label entry
/// and then the file entry (attribute archive only, first cluster 2, size
/// the value's length) in the root directory, every later entry never
/// used; and the value's bytes at the start of the data area.
pub proof fn lemma_format_layout(t: Seq<u8>)
    requires
        valid_text(t),
    ensures
        ({
            let d = disk_image(t);
            let fat = d.subrange(512, 1024);
            &&& d.len() == 32768
            &&& d[510] == 0x55 && d[511] == 0xaa
            &&& d.subrange(3, 11) == seq![0x4du8, 0x53, 0x44, 0x4f, 0x53, 0x35, 0x2e, 0x30]
            &&& le_u16(d[11], d[12]) == 512
            &&& d[13] == 1
            &&& le_u16(d[14], d[15]) == 1
            &&& d[16] == 2
            &&& le_u16(d[17], d[18]) == 32
            &&& le_u16(d[19], d[20]) == 64
            &&& d[21] == 0xf8
            &&& le_u16(d[22], d[23]) == 1
            &&& d.subrange(43, 54) == seq![0x50u8, 0x49, 0x43, 0x4f, 0x20, 0x46, 0x49, 0x4c, 0x4c, 0x20, 0x20]
            &&& d.subrange(54, 62) == seq![0x46u8, 0x41, 0x54, 0x31, 0x32, 0x20, 0x20, 0x20]
            &&& d.subrange(1024, 1536) == fat
            &&& fat12_entry(fat, 0) == 0x0ff8
            &&& fat12_entry(fat, 1) == 0x0fff
            &&& fat12_entry(fat, 2) == 0x0fff
            &&& forall|c: int| 3 <= c < 341 ==> #[trigger] fat12_entry(fat, c) == 0
            &&& d.subrange(1536, 1547) == seq![0x50u8, 0x49, 0x43, 0x4f, 0x20, 0x46, 0x49, 0x4c, 0x4c, 0x20, 0x20]
            &&& d[1547] == 0x08
            &&& d.subrange(1568, 1579) == seq![0x41u8, 0x55, 0x54, 0x4f, 0x46, 0x49, 0x4c, 0x4c, 0x54, 0x58, 0x54]
            &&& d[1579] == 0x20
            &&& le_u16(d[1594], d[1595]) == 2
            &&& le_u32(d[1596], d[1597], d[1598], d[1599]) == t.len()
            &&& forall|j: int| 2 <= j < 32 ==> #[trigger] d[1536 + 32 * j] == 0
            &&& d.subrange(2560, 2560 + t.len() as int) == t
        }),
{
    let d = disk_image(t);
    let fat = d.subrange(512, 1024);
    lemma_le_u16_round_trip(512);
    lemma_le_u16_round_trip(1);
    lemma_le_u16_round_trip(32);
    lemma_le_u16_round_trip(64);
    lemma_le_u16_round_trip(2);
    lemma_le_u32_round_trip(t.len() as u32);
    assert(d.subrange(3, 11) =~= seq![0x4du8, 0x53, 0x44, 0x4f, 0x53, 0x35, 0x2e, 0x30]);
    assert(d.subrange(43, 54) =~= seq![0x50u8, 0x49, 0x43, 0x4f, 0x20, 0x46, 0x49, 0x4c, 0x4c, 0x20, 0x20]);
    assert(d.subrange(54, 62) =~= seq![0x46u8, 0x41, 0x54, 0x31, 0x32, 0x20, 0x20, 0x20]);
    assert(d.subrange(1024, 1536) =~= fat);
    assert(d.subrange(1536, 1547) =~= seq![0x50u8, 0x49, 0x43, 0x4f, 0x20, 0x46, 0x49, 0x4c, 0x4c, 0x20, 0x20]);
    assert(d.subrange(1568, 1579) =~= seq![0x41u8, 0x55, 0x54, 0x4f, 0x46, 0x49, 0x4c, 0x4c, 0x54, 0x58, 0x54]);
    assert(d.subrange(2560, 2560 + t.len() as int) =~= t);
    assert(le_u16(0xf8, 0xff) & 0x0fff == 0x0ff8) by (bit_vector);
    assert(le_u16(0xff, 0xff) >> 4 == 0x0fff) by (bit_vector);
    assert(le_u16(0xff, 0x0f) & 0x0fff == 0x0fff) by (bit_vector);
    assert(le_u16(0, 0) & 0x0fff == 0 && le_u16(0, 0) >> 4 == 0) by (bit_vector);
    assert(fat[0] == 0xf8 && fat[1] == 0xff && fat[2] == 0xff && fat[3] == 0xff && fat[4] == 0x0f);
    assert forall|c: int| 3 <= c < 341 implies #[trigger] fat12_entry(fat, c) == 0 by {
        let off = fat12_offset(c);
        if c == 3 {
            assert(le_u16(0x0f, 0) >> 4 == 0) by (bit_vector);
            assert(fat[4] == 0x0f && fat[5] == 0);
        } else {
            assert(off >= 6);
            assert(fat[off] == 0 && fat[off + 1] == 0);
        }
    }
}

/// The file is found in whichever of the 32 root directory slots holds
/// it: when every slot before slot `k` has been used (nonzero first byte)
/// and is not a live `AUTOFILL.TXT` entry, and slot `k` is one (not
/// deleted, not a long-name part, short name `AUTOFILLTXT`), the value
/// read is the one in the file that slot `k` describes.
pub proof fn lemma_extract_from_any_slot(d: Seq<u8>, k: int)
    requires
        d.len() == 32768,
        0 <= k < 32,
        forall|j: int|
            0 <= j < k ==> #[trigger] d[1536 + 32 * j] != 0 && !(d[1536 + 32 * j] != 0xe5 && d[1536
                + 32 * j + 11] != 0x0f && d.subrange(1536 + 32 * j, 1536 + 32 * j + 11) == seq![
                0x41u8, 0x55, 0x54, 0x4f, 0x46, 0x49, 0x4c, 0x4c, 0x54, 0x58, 0x54
            ]),
        d[1536 + 32 * k] != 0xe5,
        d[1536 + 32 * k + 11] != 0x0f,
        d.subrange(1536 + 32 * k, 1536 + 32 * k + 11) == seq![0x41u8, 0x55, 0x54, 0x4f, 0x46, 0x49, 0x4c, 0x4c, 0x54, 0x58, 0x54],
    ensures
        spec_extract_text(d) == entry_text(d, k),
{
    assert(FILE_NAME@ =~= seq![0x41u8, 0x55, 0x54, 0x4f, 0x46, 0x49, 0x4c, 0x4c, 0x54, 0x58, 0x54]);
    lemma_find_file_entry_reaches(d, k, 0);
}

/// Searching from any slot up to `k` finds slot `k`, under the premises of
/// `lemma_extract_from_any_slot`.
proof fn lemma_find_file_entry_reaches(d: Seq<u8>, k: int, j: int)
    requires
        d.len() == 32768,
        0 <= j <= k < 32,
        forall|i: int|
            0 <= i < k ==> #[trigger] d[entry_start(i)] != 0 && !is_file_entry(d, i),
        d[entry_start(k)] != 0,
        is_file_entry(d, k),
    ensures
        find_file_entry(d, j) == Some(k),
    decreases k - j,
{
    if j < k {
        lemma_find_file_entry_reaches(d, k, j + 1);
    }
}

/// Reading the value back from a freshly formatted volume gives the value
/// that was written.
pub proof fn lemma_extract_format(t: Seq<u8>)
    requires
        valid_text(t),
    ensures
        spec_extract_text(disk_image(t)) == Some(t),
{
    let d = disk_image(t);
    assert(d[1536] == VOLUME_LABEL@[0]);
    assert(d.subrange(1536, 1547)[0] == d[1536]);
    assert(!is_file_entry(d, 0));
    assert(d.subrange(1568, 1579) =~= FILE_NAME@);
    assert(is_file_entry(d, 1));
    assert(find_file_entry(d, 1) == Some(1int));
    assert(find_file_entry(d, 0) == Some(1int));
    lemma_le_u32_round_trip(t.len() as u32);
    lemma_le_u16_round_trip(2);
    if t.len() > 0 {
        assert(d.subrange(2560, 2560 + t.len() as int) =~= t);
        assert(Seq::<u8>::empty() + d.subrange(2560, 2560 + t.len() as int) =~= t);
        lemma_text_of_file_valid(t);
    }
}

} // verus!
