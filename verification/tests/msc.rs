use pico_autofill::fat::{format_disk, DISK_BYTES};
use pico_autofill::msc::{
    begin_command, checked_disk_range, command_status, csw_bytes, finish_send, finish_write,
    inquiry_response, packet_len, read_write_range, store_received, Cbw, CommandStep,
    ControlReply, ControlRequest, MscControl, PostAction, RequestKind, RequestRecipient,
    ScsiState, Sense,
};
use pico_autofill::text::AutofillText;

fn cbw_bytes(tag: u32, transfer_len: u32, flags: u8, cdb: &[u8]) -> [u8; 31] {
    let mut b = [0_u8; 31];
    b[0..4].copy_from_slice(&0x4342_5355_u32.to_le_bytes());
    b[4..8].copy_from_slice(&tag.to_le_bytes());
    b[8..12].copy_from_slice(&transfer_len.to_le_bytes());
    b[12] = flags;
    b[13] = 0;
    b[14] = cdb.len() as u8;
    b[15..15 + cdb.len()].copy_from_slice(cdb);
    b
}

fn cbw(transfer_len: u32, cdb: &[u8]) -> Cbw {
    Cbw::parse(&cbw_bytes(7, transfer_len, 0x80, cdb)).unwrap()
}

fn fresh_state() -> ScsiState {
    ScsiState { sense: Sense::no_sense(), dirty: false, unit_attention: false }
}

fn sent(step: CommandStep) -> (Vec<u8>, bool) {
    match step {
        CommandStep::Send { data, len, clears_sense } => (data[..len].to_vec(), clears_sense),
        other => panic!("expected a data-in step, got {:?}", other),
    }
}

#[test]
fn command_block_wrapper_parses_fields() {
    let parsed = Cbw::parse(&cbw_bytes(0xdead_beef, 512, 0x80, &[0x28, 0, 0, 0, 0, 1, 0, 0, 1, 0]))
        .unwrap();
    assert_eq!(parsed.tag, 0xdead_beef);
    assert_eq!(parsed.transfer_len, 512);
    assert_eq!(parsed.flags, 0x80);
    assert_eq!(parsed.cdb[0], 0x28);
    assert_eq!(parsed.cdb[5], 1);
    assert!(parsed.device_to_host());
    assert!(!Cbw::parse(&cbw_bytes(1, 0, 0, &[0])).unwrap().device_to_host());
}

#[test]
fn command_block_wrapper_rejects_bad_headers() {
    let mut bad_signature = cbw_bytes(1, 0, 0, &[0]);
    bad_signature[0] = 0;
    assert!(Cbw::parse(&bad_signature).is_none());
    let mut bad_lun = cbw_bytes(1, 0, 0, &[0]);
    bad_lun[13] = 1;
    assert!(Cbw::parse(&bad_lun).is_none());
    let mut no_cdb = cbw_bytes(1, 0, 0, &[0]);
    no_cdb[14] = 0;
    assert!(Cbw::parse(&no_cdb).is_none());
    let mut long_cdb = cbw_bytes(1, 0, 0, &[0]);
    long_cdb[14] = 17;
    assert!(Cbw::parse(&long_cdb).is_none());
}

#[test]
fn sense_data_has_fixed_format() {
    let response = Sense::lba_out_of_range().response();
    assert_eq!(response, [0x70, 0, 0x05, 0, 0, 0, 0, 10, 0, 0, 0, 0, 0x21, 0, 0, 0, 0, 0]);
    assert_eq!(Sense::medium_not_present(), Sense { key: 0x02, asc: 0x3a, ascq: 0 });
    assert_eq!(Sense::medium_changed(), Sense { key: 0x06, asc: 0x28, ascq: 0 });
    assert_eq!(Sense::invalid_command(), Sense { key: 0x05, asc: 0x20, ascq: 0 });
    assert_eq!(Sense::invalid_field(), Sense { key: 0x05, asc: 0x24, ascq: 0 });
}

#[test]
fn inquiry_data_and_pages() {
    let standard = inquiry_response(false, 0x42);
    assert!(standard.is_supported());
    let bytes = standard.as_slice();
    assert_eq!(bytes.len(), 36);
    assert_eq!(&bytes[..5], &[0, 0x80, 0x04, 0x02, 31]);
    assert_eq!(&bytes[8..16], b"RP2040  ");
    assert_eq!(&bytes[16..32], b"AUTOFILL DISK   ");
    assert_eq!(&bytes[32..36], b"1.00");
    assert_eq!(inquiry_response(true, 0).as_slice(), &[0, 0, 0, 3, 0, 0x80, 0x83]);
    assert_eq!(&inquiry_response(true, 0x80).as_slice()[4..], b"RP2040AF");
    assert_eq!(&inquiry_response(true, 0x83).as_slice()[..8], &[0, 0x83, 0, 12, 2, 1, 0, 8]);
    let unsupported = inquiry_response(true, 0x55);
    assert!(!unsupported.is_supported());
    assert_eq!(unsupported.as_slice(), &[0, 0x55, 0, 0]);
}

#[test]
fn block_ranges_are_checked_against_the_volume() {
    let mut cdb = [0_u8; 16];
    cdb[5] = 1;
    cdb[8] = 2;
    assert_eq!(read_write_range(&cdb), (512, 1024));
    assert_eq!(checked_disk_range(512, 1024), Some((512, 1536)));
    assert_eq!(checked_disk_range(0, DISK_BYTES), Some((0, DISK_BYTES)));
    assert_eq!(checked_disk_range(512, DISK_BYTES), None);
    assert_eq!(checked_disk_range(usize::MAX, 1), None);
    let mut far = [0_u8; 16];
    far[2..6].copy_from_slice(&u32::MAX.to_be_bytes());
    let (offset, _) = read_write_range(&far);
    assert_eq!(offset, (u32::MAX as usize).saturating_mul(512));
}

#[test]
fn class_requests_for_the_interface() {
    let mut control = MscControl::new();
    control.set_interface(2);
    let reset = ControlRequest {
        request_type: RequestKind::Class,
        recipient: RequestRecipient::Interface,
        request: 0xff,
        value: 0,
        index: 2,
        length: 0,
    };
    assert!(control.matches(&reset));
    assert_eq!(control.control_out(&reset), Some(ControlReply::Accepted));
    assert_eq!(control.control_out(&ControlRequest { value: 1, ..reset }), Some(ControlReply::Rejected));
    assert_eq!(control.control_out(&ControlRequest { index: 1, ..reset }), None);
    assert_eq!(
        control.control_out(&ControlRequest { request_type: RequestKind::Vendor, ..reset }),
        None
    );
    let max_lun = ControlRequest { request: 0xfe, length: 1, ..reset };
    assert_eq!(control.control_in(&max_lun, 64), Some(ControlReply::Accepted));
    assert_eq!(control.control_in(&max_lun, 0), Some(ControlReply::Rejected));
    assert_eq!(control.control_in(&reset, 64), Some(ControlReply::Rejected));
    assert!(!MscControl::new().matches(&reset));
}

#[test]
fn test_unit_ready_reports_absent_and_changed_medium() {
    let disk = [0_u8; DISK_BYTES];
    let mut state = fresh_state();
    assert!(matches!(begin_command(&mut state, &cbw(0, &[0x00]), false, &disk), CommandStep::Fail));
    assert_eq!(state.sense, Sense::medium_not_present());

    state.unit_attention = true;
    assert!(matches!(begin_command(&mut state, &cbw(0, &[0x00]), true, &disk), CommandStep::Fail));
    assert_eq!(state.sense, Sense::medium_changed());
    assert!(!state.unit_attention);
    assert!(matches!(
        begin_command(&mut state, &cbw(0, &[0x00]), true, &disk),
        CommandStep::Done(PostAction::NoAction)
    ));
}

#[test]
fn request_sense_returns_the_last_error_then_clears_it() {
    let disk = [0_u8; DISK_BYTES];
    let mut state = fresh_state();
    assert!(matches!(begin_command(&mut state, &cbw(0, &[0x77]), true, &disk), CommandStep::Fail));
    assert_eq!(state.sense, Sense::invalid_command());
    let (data, clears) = sent(begin_command(&mut state, &cbw(18, &[0x03]), true, &disk));
    assert_eq!(data, Sense::invalid_command().response().to_vec());
    assert!(clears);
    finish_send(&mut state, clears);
    assert_eq!(state.sense, Sense::no_sense());
    let (short, _) = sent(begin_command(&mut state, &cbw(4, &[0x03]), true, &disk));
    assert_eq!(short, vec![0x70, 0, 0, 0]);
}

#[test]
fn capacity_and_mode_pages() {
    let disk = [0_u8; DISK_BYTES];
    let mut state = fresh_state();
    let (cap, _) = sent(begin_command(&mut state, &cbw(8, &[0x25]), true, &disk));
    assert_eq!(cap, vec![0, 0, 0, 63, 0, 0, 2, 0]);
    let (formats, _) = sent(begin_command(&mut state, &cbw(252, &[0x23]), true, &disk));
    assert_eq!(formats, vec![0, 0, 0, 8, 0, 0, 0, 64, 2, 0, 2, 0]);
    let (cap16, _) = sent(begin_command(&mut state, &cbw(32, &[0x9e, 0x10]), true, &disk));
    assert_eq!(&cap16[..12], &[0, 0, 0, 0, 0, 0, 0, 63, 0, 0, 2, 0]);
    assert_eq!(cap16.len(), 32);
    assert!(matches!(begin_command(&mut state, &cbw(32, &[0x9e, 0x11]), true, &disk), CommandStep::Fail));
    assert_eq!(state.sense, Sense::invalid_command());
    let (mode6, _) = sent(begin_command(&mut state, &cbw(192, &[0x1a]), false, &disk));
    assert_eq!(mode6, vec![3, 0, 0, 0]);
    let (mode10, _) = sent(begin_command(&mut state, &cbw(8, &[0x5a]), false, &disk));
    assert_eq!(mode10, vec![0, 6, 0, 0, 0, 0, 0, 0]);
    let (luns, _) = sent(begin_command(&mut state, &cbw(16, &[0xa0]), false, &disk));
    assert_eq!(&luns[..4], &[0, 0, 0, 8]);
    assert!(matches!(begin_command(&mut state, &cbw(8, &[0x25]), false, &disk), CommandStep::Fail));
    assert_eq!(state.sense, Sense::medium_not_present());
}

#[test]
fn read_and_write_address_the_volume() {
    let disk = [0_u8; DISK_BYTES];
    let mut state = fresh_state();
    let read = [0x28, 0, 0, 0, 0, 5, 0, 0, 2, 0];
    match begin_command(&mut state, &cbw(1024, &read), true, &disk) {
        CommandStep::SendDisk { start, end } => assert_eq!((start, end), (2560, 3584)),
        other => panic!("unexpected {:?}", other),
    }
    match begin_command(&mut state, &cbw(100, &read), true, &disk) {
        CommandStep::SendDisk { start, end } => assert_eq!((start, end), (2560, 2660)),
        other => panic!("unexpected {:?}", other),
    }
    let write = [0x2a, 0, 0, 0, 0, 63, 0, 0, 1, 0];
    match begin_command(&mut state, &cbw(512, &write), true, &disk) {
        CommandStep::Receive { start, end } => assert_eq!((start, end), (63 * 512, 64 * 512)),
        other => panic!("unexpected {:?}", other),
    }
    let past_end = [0x2a, 0, 0, 0, 0, 63, 0, 0, 2, 0];
    assert!(matches!(begin_command(&mut state, &cbw(1024, &past_end), true, &disk), CommandStep::Fail));
    assert_eq!(state.sense, Sense::lba_out_of_range());
}

#[test]
fn start_stop_and_sync_post_actions() {
    let disk = [0_u8; DISK_BYTES];
    let mut state = fresh_state();
    assert!(matches!(
        begin_command(&mut state, &cbw(0, &[0x1b, 0, 0, 0, 0x02]), true, &disk),
        CommandStep::Done(PostAction::Eject)
    ));
    assert!(matches!(
        begin_command(&mut state, &cbw(0, &[0x1b, 0, 0, 0, 0x03]), true, &disk),
        CommandStep::Done(PostAction::NoAction)
    ));
    assert!(matches!(
        begin_command(&mut state, &cbw(0, &[0x35]), true, &disk),
        CommandStep::Done(PostAction::Sync)
    ));
    assert!(matches!(begin_command(&mut state, &cbw(0, &[0x35]), false, &disk), CommandStep::Fail));
    assert!(matches!(
        begin_command(&mut state, &cbw(0, &[0x1e]), false, &disk),
        CommandStep::Done(PostAction::NoAction)
    ));
}

#[test]
fn write_completion_and_status() {
    let mut state = fresh_state();
    assert!(!finish_write(&mut state, 1024, 512, 1024));
    assert!(!state.dirty);
    assert!(finish_write(&mut state, 1024, 1024, 1024));
    assert!(state.dirty);
    assert!(!finish_write(&mut state, 0, 0, 512));
    assert!(state.dirty);

    let ok = command_status(100, true, 36);
    assert_eq!((ok.status, ok.residue, ok.drain), (0, 64, 0));
    let failed = command_status(100, false, 36);
    assert_eq!((failed.status, failed.residue, failed.drain), (1, 0, 64));
    let over = command_status(10, true, 36);
    assert_eq!(over.residue, 0);

    let csw = csw_bytes(0x0102_0304, 1, 0x10);
    assert_eq!(csw, [0x55, 0x53, 0x42, 0x53, 4, 3, 2, 1, 0x10, 0, 0, 0, 1]);
    assert_eq!(packet_len(10), 10);
    assert_eq!(packet_len(64), 64);
    assert_eq!(packet_len(1000), 64);
}

#[test]
fn received_packets_fill_only_the_range() {
    let mut disk = [0_u8; DISK_BYTES];
    format_disk(&mut disk, &AutofillText::empty());
    let before = disk;
    let total = store_received(&mut disk, 512, 612, 0, &[7; 64]);
    assert_eq!(total, 64);
    let total = store_received(&mut disk, 512, 612, total, &[9; 64]);
    assert_eq!(total, 128);
    assert!(disk[512..576].iter().all(|b| *b == 7));
    assert!(disk[576..612].iter().all(|b| *b == 9));
    assert_eq!(&disk[612..], &before[612..]);
    assert_eq!(&disk[..512], &before[..512]);
    let total = store_received(&mut disk, 512, 612, total, &[1; 64]);
    assert_eq!(total, 192);
    assert_eq!(disk[611], 9);
}

#[test]
fn bulk_reset_clears_sense_only() {
    let mut state = ScsiState { sense: Sense::medium_changed(), dirty: true, unit_attention: true };
    pico_autofill::msc::bulk_reset(&mut state);
    assert_eq!(state, ScsiState { sense: Sense::no_sense(), dirty: true, unit_attention: true });
}
