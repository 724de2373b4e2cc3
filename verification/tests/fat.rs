use pico_autofill::fat::{
    extract_text, format_disk, read_fat12_entry, set_fat12_entry, DATA_START_SECTOR, DISK_BYTES,
    FAT_1_SECTOR, FAT_2_SECTOR, ROOT_DIR_SECTOR, SECTOR_SIZE,
};
use pico_autofill::text::AutofillText;

#[test]
fn formatted_disk_should_round_trip_text() {
    let expected = AutofillText::from_file_bytes(b"abc123!@#");
    let mut disk = [0_u8; DISK_BYTES];
    format_disk(&mut disk, &expected);
    assert_eq!(extract_text(&disk), Some(expected));
}

#[test]
fn extraction_should_follow_a_relocated_directory_entry() {
    let expected = AutofillText::from_file_bytes(b"relocated");
    let mut disk = [0_u8; DISK_BYTES];
    format_disk(&mut disk, &expected);
    let root = ROOT_DIR_SECTOR * SECTOR_SIZE;
    disk.copy_within(root + 32..root + 64, root + 64);
    disk[root + 32] = 0xe5;
    assert_eq!(extract_text(&disk), Some(expected));
}

#[test]
fn extraction_should_follow_a_reallocated_data_cluster() {
    let expected = AutofillText::from_file_bytes(b"new cluster");
    let mut disk = [0_u8; DISK_BYTES];
    format_disk(&mut disk, &expected);
    let original_data = DATA_START_SECTOR * SECTOR_SIZE;
    let new_data = original_data + SECTOR_SIZE;
    disk.copy_within(original_data..original_data + expected.len(), new_data);

    let root = ROOT_DIR_SECTOR * SECTOR_SIZE;
    disk[root + 32 + 26..root + 32 + 28].copy_from_slice(&3_u16.to_le_bytes());
    let fat = FAT_1_SECTOR * SECTOR_SIZE;
    set_fat12_entry(&mut disk[fat..fat + SECTOR_SIZE], 3, 0x0fff);
    assert_eq!(extract_text(&disk), Some(expected));
}

#[test]
fn extraction_should_reject_a_missing_file() {
    let mut disk = [0_u8; DISK_BYTES];
    format_disk(&mut disk, &AutofillText::empty());
    let root = ROOT_DIR_SECTOR * SECTOR_SIZE;
    disk[root + 32] = 0xe5;
    assert_eq!(extract_text(&disk), None);
}

#[test]
fn formatted_disk_has_boot_signature_and_matching_fats() {
    let mut disk = [0x5a_u8; DISK_BYTES];
    format_disk(&mut disk, &AutofillText::from_file_bytes(b"hi"));
    assert_eq!(&disk[0..3], &[0xeb, 0x3c, 0x90]);
    assert_eq!(&disk[3..11], b"MSDOS5.0");
    assert_eq!(&disk[11..13], &[0x00, 0x02]);
    assert_eq!(&disk[19..21], &[64, 0]);
    assert_eq!(&disk[43..54], b"PICO FILL  ");
    assert_eq!(&disk[54..62], b"FAT12   ");
    assert_eq!(&disk[510..512], &[0x55, 0xaa]);
    let fat_1 = FAT_1_SECTOR * SECTOR_SIZE;
    let fat_2 = FAT_2_SECTOR * SECTOR_SIZE;
    assert_eq!(&disk[fat_1..fat_1 + 5], &[0xf8, 0xff, 0xff, 0xff, 0x0f]);
    assert_eq!(&disk[fat_1..fat_1 + SECTOR_SIZE], &disk[fat_2..fat_2 + SECTOR_SIZE]);
    let root = ROOT_DIR_SECTOR * SECTOR_SIZE;
    assert_eq!(&disk[root + 32..root + 43], b"AUTOFILLTXT");
    assert_eq!(&disk[root + 60..root + 64], &[2, 0, 0, 0]);
    let data = DATA_START_SECTOR * SECTOR_SIZE;
    assert_eq!(&disk[data..data + 3], b"hi\0");
    assert!(disk[data + 3..].iter().all(|b| *b == 0));
}

#[test]
fn empty_file_extracts_as_empty_text() {
    let mut disk = [0_u8; DISK_BYTES];
    format_disk(&mut disk, &AutofillText::empty());
    assert_eq!(extract_text(&disk), Some(AutofillText::empty()));
}

#[test]
fn edited_file_is_filtered_and_capped() {
    let mut disk = [0_u8; DISK_BYTES];
    format_disk(&mut disk, &AutofillText::empty());
    let data = DATA_START_SECTOR * SECTOR_SIZE;
    let contents = b"new value\tX\r\n";
    disk[data..data + contents.len()].copy_from_slice(contents);
    let root = ROOT_DIR_SECTOR * SECTOR_SIZE;
    disk[root + 60..root + 64].copy_from_slice(&(contents.len() as u32).to_le_bytes());
    assert_eq!(
        extract_text(&disk),
        Some(AutofillText::from_file_bytes(b"new valueX"))
    );
    disk[root + 60..root + 64].copy_from_slice(&4000_u32.to_le_bytes());
    assert_eq!(extract_text(&disk).map(|t| t.len()), Some(10));
}

#[test]
fn cluster_off_the_volume_is_rejected() {
    let mut disk = [0_u8; DISK_BYTES];
    format_disk(&mut disk, &AutofillText::from_file_bytes(b"x"));
    let root = ROOT_DIR_SECTOR * SECTOR_SIZE;
    disk[root + 32 + 26..root + 32 + 28].copy_from_slice(&61_u16.to_le_bytes());
    assert_eq!(extract_text(&disk), None);
    disk[root + 32 + 26..root + 32 + 28].copy_from_slice(&1_u16.to_le_bytes());
    assert_eq!(extract_text(&disk), None);
}

#[test]
fn free_directory_entry_ends_the_search() {
    let mut disk = [0_u8; DISK_BYTES];
    format_disk(&mut disk, &AutofillText::from_file_bytes(b"x"));
    let root = ROOT_DIR_SECTOR * SECTOR_SIZE;
    disk.copy_within(root + 32..root + 64, root + 96);
    disk[root + 32] = 0;
    assert_eq!(extract_text(&disk), None);
}

#[test]
fn fat12_entries_read_back_what_was_written() {
    let mut fat = [0_u8; SECTOR_SIZE];
    set_fat12_entry(&mut fat, 2, 0x0abc);
    set_fat12_entry(&mut fat, 3, 0x0def);
    assert_eq!(read_fat12_entry(&fat, 2), Some(0x0abc));
    assert_eq!(read_fat12_entry(&fat, 3), Some(0x0def));
    assert_eq!(&fat[3..6], &[0xbc, 0xfa, 0xde]);
    set_fat12_entry(&mut fat, 2, 0xf123);
    assert_eq!(read_fat12_entry(&fat, 2), Some(0x0123));
    assert_eq!(read_fat12_entry(&fat, 3), Some(0x0def));
    assert_eq!(read_fat12_entry(&fat, 341), None);
}

fn file_entry() -> usize {
    ROOT_DIR_SECTOR * SECTOR_SIZE + 32
}

fn set_size(disk: &mut [u8; DISK_BYTES], size: u32) {
    let e = file_entry();
    disk[e + 28..e + 32].copy_from_slice(&size.to_le_bytes());
}

fn set_fat(disk: &mut [u8; DISK_BYTES], cluster: u16, value: u16) {
    let fat = FAT_1_SECTOR * SECTOR_SIZE;
    set_fat12_entry(&mut disk[fat..fat + SECTOR_SIZE], cluster, value);
}

#[test]
fn leading_unsupported_bytes_do_not_shorten_the_value() {
    let mut disk = [0_u8; DISK_BYTES];
    format_disk(&mut disk, &AutofillText::empty());
    set_size(&mut disk, 51);
    let data = DATA_START_SECTOR * SECTOR_SIZE;
    disk[data] = b'\t';
    disk[data + 1..data + 51].copy_from_slice(&[b'x'; 50]);
    assert_eq!(
        extract_text(&disk),
        Some(AutofillText::from_file_bytes(&[b'x'; 50]))
    );
}

#[test]
fn value_continues_into_the_next_cluster() {
    let mut disk = [0_u8; DISK_BYTES];
    format_disk(&mut disk, &AutofillText::empty());
    let data = DATA_START_SECTOR * SECTOR_SIZE;
    disk[data..data + 510].copy_from_slice(&[b'\t'; 510]);
    disk[data + 510..data + 512].copy_from_slice(b"ab");
    disk[data + 512..data + 514].copy_from_slice(b"cd");
    set_size(&mut disk, 514);
    set_fat(&mut disk, 2, 3);
    set_fat(&mut disk, 3, 0x0fff);
    assert_eq!(extract_text(&disk), Some(AutofillText::from_file_bytes(b"abcd")));
}

#[test]
fn chain_end_marker_stops_the_file_early() {
    let mut disk = [0_u8; DISK_BYTES];
    format_disk(&mut disk, &AutofillText::empty());
    let data = DATA_START_SECTOR * SECTOR_SIZE;
    disk[data..data + 512].copy_from_slice(&[b'\r'; 512]);
    disk[data] = b'z';
    set_size(&mut disk, 1000);
    assert_eq!(extract_text(&disk), Some(AutofillText::from_file_bytes(b"z")));
}

#[test]
fn broken_chain_is_rejected_unless_the_value_is_already_known() {
    let mut disk = [0_u8; DISK_BYTES];
    format_disk(&mut disk, &AutofillText::empty());
    let data = DATA_START_SECTOR * SECTOR_SIZE;
    disk[data..data + 512].copy_from_slice(&[b'\t'; 512]);
    set_size(&mut disk, 1000);
    set_fat(&mut disk, 2, 0);
    assert_eq!(extract_text(&disk), None);

    disk[data..data + 60].copy_from_slice(&[b'y'; 60]);
    assert_eq!(
        extract_text(&disk),
        Some(AutofillText::from_file_bytes(&[b'y'; 50]))
    );

    disk[data..data + 60].copy_from_slice(&[b'\t'; 60]);
    disk[data + 3] = 0;
    assert_eq!(extract_text(&disk), Some(AutofillText::empty()));
}

#[test]
fn looping_chain_is_rejected() {
    let mut disk = [0_u8; DISK_BYTES];
    format_disk(&mut disk, &AutofillText::empty());
    let data = DATA_START_SECTOR * SECTOR_SIZE;
    disk[data..data + 512].copy_from_slice(&[b'\t'; 512]);
    set_size(&mut disk, 100_000);
    set_fat(&mut disk, 2, 2);
    assert_eq!(extract_text(&disk), None);
}
