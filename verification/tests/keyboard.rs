use pico_autofill::keyboard::{
    ascii_to_hid, needs_intermediate_release, typing_reports, KeyReport, LEFT_SHIFT,
};
use pico_autofill::text::AutofillText;

#[test]
fn letters_should_map_to_us_keyboard_usages() {
    assert_eq!(ascii_to_hid(b'a'), Some((0, 4)));
    assert_eq!(ascii_to_hid(b'Z'), Some((LEFT_SHIFT, 29)));
}

#[test]
fn punctuation_should_include_shift_modifier() {
    assert_eq!(ascii_to_hid(b'?'), Some((LEFT_SHIFT, 56)));
    assert_eq!(ascii_to_hid(b'/'), Some((0, 56)));
}

#[test]
fn every_printable_byte_has_a_distinct_keystroke() {
    let mut seen = Vec::new();
    for b in 0u8..=255 {
        let key = ascii_to_hid(b);
        if (0x20..=0x7e).contains(&b) {
            let key = key.expect("printable byte without keystroke");
            assert!(key.0 == 0 || key.0 == LEFT_SHIFT);
            assert!((4..=56).contains(&key.1));
            assert!(!seen.contains(&key));
            seen.push(key);
        } else {
            assert_eq!(key, None);
        }
    }
    assert_eq!(seen.len(), 95);
}

#[test]
fn digits_and_space_map_to_their_usages() {
    assert_eq!(ascii_to_hid(b'1'), Some((0, 30)));
    assert_eq!(ascii_to_hid(b'9'), Some((0, 38)));
    assert_eq!(ascii_to_hid(b'0'), Some((0, 39)));
    assert_eq!(ascii_to_hid(b' '), Some((0, 44)));
    assert_eq!(ascii_to_hid(b'!'), Some((LEFT_SHIFT, 30)));
    assert_eq!(ascii_to_hid(b'\n'), None);
}

#[test]
fn repeated_key_needs_release() {
    assert!(needs_intermediate_release(Some(4), 4));
    assert!(!needs_intermediate_release(Some(4), 5));
    assert!(!needs_intermediate_release(None, 4));
}

#[test]
fn typing_releases_between_repeated_keys_and_at_the_end() {
    let text = AutofillText::from_file_bytes(b"aAb");
    let press = |modifier, keycode| KeyReport { modifier, keycode };
    let release = KeyReport { modifier: 0, keycode: 0 };
    assert_eq!(
        typing_reports(&text).as_slice(),
        &[press(0, 4), release, press(LEFT_SHIFT, 4), press(0, 5), release]
    );
}

#[test]
fn typing_nothing_sends_nothing() {
    assert_eq!(typing_reports(&AutofillText::empty()).len(), 0);
}

#[test]
fn typing_a_full_value_of_one_key_fits() {
    let text = AutofillText::from_file_bytes(&[b'q'; 50]);
    let reports = typing_reports(&text);
    assert_eq!(reports.len(), 100);
    let slice = reports.as_slice();
    assert_eq!(slice[0], KeyReport { modifier: 0, keycode: 20 });
    assert_eq!(slice[1], KeyReport::release());
    assert_eq!(slice[99], KeyReport::release());
}

#[test]
fn report_bytes_hold_modifier_and_key() {
    let report = KeyReport { modifier: LEFT_SHIFT, keycode: 29 };
    assert_eq!(report.to_bytes(), [LEFT_SHIFT, 0, 29, 0, 0, 0, 0, 0]);
    assert_eq!(KeyReport::release().to_bytes(), [0; 8]);
}
