use pico_autofill::persist::{
    crc32, decode, decode_or_empty, encode, DATA_OFFSET, FLASH_RECORD_SIZE, MAGIC,
    VERSION_1_CRC_OFFSET,
};
use pico_autofill::text::{AutofillText, MAX_TEXT_LEN};

#[test]
fn flash_record_should_round_trip() {
    let expected = AutofillText::from_file_bytes(b"saved in flash");
    assert_eq!(decode(&encode(&expected)), Some(expected));
}

#[test]
fn flash_record_should_round_trip_full_capacity() {
    let input = [b'x'; MAX_TEXT_LEN];
    let expected = AutofillText::from_file_bytes(&input);
    assert_eq!(decode(&encode(&expected)), Some(expected));
}

#[test]
fn flash_record_should_migrate_original_version() {
    let expected = AutofillText::from_file_bytes(b"old value");
    let mut record = [0xff_u8; FLASH_RECORD_SIZE];
    record[..4].copy_from_slice(&MAGIC);
    record[4] = 1;
    record[5] = expected.len() as u8;
    record[6] = 0;
    record[7] = 0;
    record[DATA_OFFSET..DATA_OFFSET + expected.len()].copy_from_slice(expected.as_bytes());
    let crc = crc32(&record[..VERSION_1_CRC_OFFSET]);
    record[VERSION_1_CRC_OFFSET..VERSION_1_CRC_OFFSET + 4].copy_from_slice(&crc.to_le_bytes());
    assert_eq!(decode(&record), Some(expected));
}

#[test]
fn flash_record_should_reject_corruption() {
    let mut record = encode(&AutofillText::from_file_bytes(b"secret"));
    record[DATA_OFFSET] ^= 1;
    assert_eq!(decode(&record), None);
}

#[test]
fn erased_flash_should_decode_as_empty_state() {
    assert_eq!(decode(&[0xff; FLASH_RECORD_SIZE]), None);
}

#[test]
fn crc32_matches_the_standard_check_value() {
    assert_eq!(crc32(b"123456789"), 0xcbf4_3926);
    assert_eq!(crc32(b""), 0);
}

#[test]
fn encoded_record_layout() {
    let record = encode(&AutofillText::from_file_bytes(b"ab"));
    assert_eq!(&record[..8], &[b'P', b'A', b'F', b'1', 2, 2, 0, 0]);
    assert_eq!(&record[8..10], b"ab");
    assert!(record[10..58].iter().all(|b| *b == 0xff));
    let crc = crc32(&record[..58]);
    assert_eq!(&record[58..62], &crc.to_le_bytes());
    assert!(record[62..].iter().all(|b| *b == 0xff));
}

#[test]
fn unknown_version_and_overlong_length_are_rejected() {
    let mut record = encode(&AutofillText::from_file_bytes(b"v"));
    record[4] = 3;
    assert_eq!(decode(&record), None);

    let mut record = [0xff_u8; FLASH_RECORD_SIZE];
    record[..4].copy_from_slice(&MAGIC);
    record[4] = 2;
    record[5] = 51;
    record[6] = 0;
    let crc = crc32(&record[..58]);
    record[58..62].copy_from_slice(&crc.to_le_bytes());
    assert_eq!(decode(&record), None);
}

#[test]
fn decode_or_empty_falls_back_to_empty() {
    assert_eq!(decode_or_empty(&[0xff; FLASH_RECORD_SIZE]), AutofillText::empty());
    let text = AutofillText::from_file_bytes(b"kept");
    assert_eq!(decode_or_empty(&encode(&text)), text);
}
