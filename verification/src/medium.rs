//! The decisions around the storage medium: what a click gesture asks
//! for, inserting the medium, and committing an edited volume to flash.

use vstd::prelude::*;
use crate::click::ClickAction;
use crate::fat::{disk_image, extract_text, format_disk, spec_extract_text, DISK_BYTES};
use crate::msc::ScsiState;
use crate::persist::{encode, lemma_decode_encode, spec_decode, spec_encode, FLASH_RECORD_SIZE};
use crate::text::AutofillText;

verus! {

/// A request to the storage task.
#[derive(Clone, Copy, Debug, PartialEq, Eq, Structural)]
pub enum StorageCommand {
    /// Present the volume to the host.
    Insert,
    /// Commit and remove the volume, then type the value.
    EjectAndType,
}

/// Where a finished click gesture goes.
#[derive(Clone, Copy, Debug, PartialEq, Eq, Structural)]
pub enum ClickRoute {
    /// To the storage task.
    Storage(StorageCommand),
    /// Straight to the keyboard: type the value now.
    TypeNow,
}

/// Where the gesture `action` goes: a triple click inserts the medium; a
/// single click types, first committing and removing the medium when it is
/// present so that an edit made on it is typed.
pub fn route_click(action: ClickAction, media_present: bool) -> (route: ClickRoute)
    ensures
        route == match action {
            ClickAction::MountStorage => ClickRoute::Storage(StorageCommand::Insert),
            ClickAction::TypeText => if media_present {
                ClickRoute::Storage(StorageCommand::EjectAndType)
            } else {
                ClickRoute::TypeNow
            },
        },
{
    match action {
        ClickAction::MountStorage => ClickRoute::Storage(StorageCommand::Insert),
        ClickAction::TypeText => {
            if media_present {
                ClickRoute::Storage(StorageCommand::EjectAndType)
            } else {
                ClickRoute::TypeNow
            }
        },
    }
}

/// Inserts the medium: the volume is rebuilt from `current_text` unless
/// it holds writes not yet committed, and the host is to be told that the
/// medium changed.
pub fn insert_medium(state: &mut ScsiState, disk: &mut [u8; DISK_BYTES], current_text: &AutofillText)
    ensures
        final(disk)@ == if old(state).dirty {
            old(disk)@
        } else {
            disk_image(current_text@)
        },
        *final(state) == (ScsiState { unit_attention: true, ..*old(state) }),
{
    if !state.dirty {
        format_disk(disk, current_text);
    }
    state.unit_attention = true;
}

/// What committing the volume takes.
#[derive(Debug)]
pub enum CommitPlan {
    /// Nothing was written since the last commit.
    Clean,
    /// The volume no longer holds the file; nothing can be committed.
    Unreadable,
    /// Write `record` to flash; it holds `text`.
    Save { text: AutofillText, record: [u8; FLASH_RECORD_SIZE] },
}

/// The commit that a volume needs: nothing when it is clean, else the
/// flash record of the value that it holds.
pub fn plan_commit(dirty: bool, disk: &[u8; DISK_BYTES]) -> (plan: CommitPlan)
    ensures
        !dirty ==> plan is Clean,
        dirty ==> (plan is Unreadable <==> spec_extract_text(disk@) is None),
        dirty ==> (plan is Save <==> spec_extract_text(disk@) is Some),
        plan matches CommitPlan::Save { text, record } ==> {
            &&& dirty
            &&& spec_extract_text(disk@) == Some(text@)
            &&& record@ == spec_encode(text@)
            &&& spec_decode(record@) == Some(text@)
        },
{
    if !dirty {
        return CommitPlan::Clean;
    }
    match extract_text(disk) {
        None => CommitPlan::Unreadable,
        Some(text) => {
            let record = encode(&text);
            proof {
                lemma_decode_encode(text@);
            }
            CommitPlan::Save { text, record }
        },
    }
}

/// Takes the result of writing a planned record to flash: the value
/// becomes the current one either way, and the volume is clean once the
/// record is saved. Returns whether it was saved.
pub fn finish_commit(
    state: &mut ScsiState,
    current_text: &mut AutofillText,
    text: AutofillText,
    flash_ok: bool,
) -> (saved: bool)
    ensures
        saved == flash_ok,
        *final(current_text) == text,
        *final(state) == (ScsiState { dirty: old(state).dirty && !flash_ok, ..*old(state) }),
{
    *current_text = text;
    if flash_ok {
        state.dirty = false;
    }
    flash_ok
}

/// After the medium is removed: when its contents were committed (or
/// nothing needed committing), the volume is rebuilt from the current
/// value, so that the next insertion shows exactly what is saved.
pub fn after_eject(disk: &mut [u8; DISK_BYTES], current_text: &AutofillText, saved: bool)
    ensures
        final(disk)@ == if saved {
            disk_image(current_text@)
        } else {
            old(disk)@
        },
{
    if saved {
        format_disk(disk, current_text);
    }
}

} // verus!
