use pico_autofill::click::ClickAction;
use pico_autofill::fat::{extract_text, format_disk, DATA_START_SECTOR, DISK_BYTES, ROOT_DIR_SECTOR, SECTOR_SIZE};
use pico_autofill::medium::{
    after_eject, finish_commit, insert_medium, plan_commit, route_click, ClickRoute, CommitPlan,
    StorageCommand,
};
use pico_autofill::msc::{ScsiState, Sense};
use pico_autofill::persist::decode;
use pico_autofill::text::AutofillText;

fn fresh_state() -> ScsiState {
    ScsiState { sense: Sense::no_sense(), dirty: false, unit_attention: false }
}

#[test]
fn clicks_route_to_storage_or_keyboard() {
    assert_eq!(
        route_click(ClickAction::MountStorage, false),
        ClickRoute::Storage(StorageCommand::Insert)
    );
    assert_eq!(
        route_click(ClickAction::TypeText, true),
        ClickRoute::Storage(StorageCommand::EjectAndType)
    );
    assert_eq!(route_click(ClickAction::TypeText, false), ClickRoute::TypeNow);
}

#[test]
fn inserting_rebuilds_a_clean_volume_and_keeps_a_dirty_one() {
    let text = AutofillText::from_file_bytes(b"current");
    let mut disk = [0xaa_u8; DISK_BYTES];
    let mut state = fresh_state();
    insert_medium(&mut state, &mut disk, &text);
    assert!(state.unit_attention);
    assert_eq!(extract_text(&disk), Some(text.clone()));

    let mut dirty_disk = [0xaa_u8; DISK_BYTES];
    let mut dirty = ScsiState { dirty: true, ..fresh_state() };
    insert_medium(&mut dirty, &mut dirty_disk, &text);
    assert!(dirty_disk.iter().all(|b| *b == 0xaa));
    assert!(dirty.unit_attention);
}

#[test]
fn commit_plans_follow_the_volume() {
    let mut disk = [0_u8; DISK_BYTES];
    format_disk(&mut disk, &AutofillText::from_file_bytes(b"old"));
    assert!(matches!(plan_commit(false, &disk), CommitPlan::Clean));

    let data = DATA_START_SECTOR * SECTOR_SIZE;
    disk[data..data + 3].copy_from_slice(b"new");
    match plan_commit(true, &disk) {
        CommitPlan::Save { text, record } => {
            assert_eq!(text, AutofillText::from_file_bytes(b"new"));
            assert_eq!(decode(&record), Some(text));
        }
        other => panic!("unexpected {:?}", other),
    }

    let root = ROOT_DIR_SECTOR * SECTOR_SIZE;
    disk[root + 32] = 0xe5;
    assert!(matches!(plan_commit(true, &disk), CommitPlan::Unreadable));
}

#[test]
fn committing_updates_the_value_and_cleans_on_success() {
    let mut state = ScsiState { dirty: true, ..fresh_state() };
    let mut current = AutofillText::empty();
    let text = AutofillText::from_file_bytes(b"edited");
    assert!(!finish_commit(&mut state, &mut current, text.clone(), false));
    assert_eq!(current, text);
    assert!(state.dirty);
    assert!(finish_commit(&mut state, &mut current, text.clone(), true));
    assert!(!state.dirty);
}

#[test]
fn ejecting_after_a_save_rebuilds_the_volume() {
    let text = AutofillText::from_file_bytes(b"saved");
    let mut disk = [0x11_u8; DISK_BYTES];
    after_eject(&mut disk, &text, false);
    assert!(disk.iter().all(|b| *b == 0x11));
    after_eject(&mut disk, &text, true);
    assert_eq!(extract_text(&disk), Some(text));
}

#[test]
fn an_edited_readable_volume_is_always_saved() {
    let mut disk = [0_u8; DISK_BYTES];
    format_disk(&mut disk, &AutofillText::from_file_bytes(b"unchanged"));
    match plan_commit(true, &disk) {
        CommitPlan::Save { text, record } => {
            assert_eq!(text, AutofillText::from_file_bytes(b"unchanged"));
            assert_eq!(decode(&record), Some(text));
        }
        other => panic!("unexpected {:?}", other),
    }
}
