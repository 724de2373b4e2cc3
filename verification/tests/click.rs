use pico_autofill::click::{ClickAction, ClickDetector, DEBOUNCE_MS};

fn click(detector: &mut ClickDetector, at_ms: u64) -> Option<ClickAction> {
    assert_eq!(detector.update(true, at_ms), None);
    assert_eq!(detector.update(true, at_ms + DEBOUNCE_MS), None);
    assert_eq!(detector.update(false, at_ms + 80), None);
    detector.update(false, at_ms + 80 + DEBOUNCE_MS)
}

#[test]
fn single_click_should_wait_before_typing() {
    let mut detector = ClickDetector::new(0, false);
    assert_eq!(click(&mut detector, 10), None);
    assert_eq!(detector.update(false, 769), None);
    assert_eq!(detector.update(false, 770), Some(ClickAction::TypeText));
}

#[test]
fn triple_click_should_mount_without_typing() {
    let mut detector = ClickDetector::new(0, false);
    assert_eq!(click(&mut detector, 10), None);
    assert_eq!(click(&mut detector, 180), None);
    assert_eq!(click(&mut detector, 350), Some(ClickAction::MountStorage));
    assert_eq!(detector.update(false, 2_000), None);
}

#[test]
fn contact_bounce_should_not_count_as_a_click() {
    let mut detector = ClickDetector::new(0, false);
    assert_eq!(detector.update(true, 10), None);
    assert_eq!(detector.update(false, 20), None);
    assert_eq!(detector.update(true, 25), None);
    assert_eq!(detector.update(false, 35), None);
    assert_eq!(detector.update(false, 1_000), None);
}

#[test]
fn double_click_should_be_a_safe_noop() {
    let mut detector = ClickDetector::new(0, false);
    assert_eq!(click(&mut detector, 10), None);
    assert_eq!(click(&mut detector, 180), None);
    assert_eq!(detector.update(false, 1_000), None);
}

#[test]
fn single_click_types_only_once() {
    let mut detector = ClickDetector::new(0, false);
    assert_eq!(click(&mut detector, 10), None);
    assert_eq!(detector.update(false, 770), Some(ClickAction::TypeText));
    assert_eq!(detector.update(false, 2_000), None);
    assert_eq!(detector.update(false, 5_000), None);
}

#[test]
fn release_shorter_than_debounce_is_ignored() {
    let mut detector = ClickDetector::new(0, false);
    assert_eq!(detector.update(true, 0), None);
    assert_eq!(detector.update(true, DEBOUNCE_MS), None);
    assert_eq!(detector.update(false, 100), None);
    assert_eq!(detector.update(true, 100 + DEBOUNCE_MS - 1), None);
    assert_eq!(detector.update(true, 2_000), None);
    assert_eq!(detector.update(false, 2_100), None);
    assert_eq!(detector.update(false, 2_100 + DEBOUNCE_MS), None);
    assert_eq!(detector.update(false, 2_100 + DEBOUNCE_MS + 650), Some(ClickAction::TypeText));
}

#[test]
fn button_held_at_start_does_not_click_until_released() {
    let mut detector = ClickDetector::new(0, true);
    assert_eq!(detector.update(true, 500), None);
    assert_eq!(detector.update(false, 600), None);
    assert_eq!(detector.update(false, 630), None);
    assert_eq!(detector.update(false, 1_279), None);
    assert_eq!(detector.update(false, 1_280), Some(ClickAction::TypeText));
}

#[test]
fn clock_going_backwards_does_not_settle() {
    let mut detector = ClickDetector::new(1_000, false);
    assert_eq!(detector.update(true, 1_000), None);
    assert_eq!(detector.update(true, 500), None);
    assert_eq!(detector.update(false, 600), None);
    assert_eq!(detector.update(false, 10_000), None);
}
