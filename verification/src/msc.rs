//! USB mass-storage (bulk-only transport, SCSI transparent command set)
//! logic for the volume: command block parsing, sense data, inquiry data,
//! block ranges, class control requests, and the decision that each SCSI
//! command takes. The USB endpoints themselves are driven elsewhere.

use vstd::prelude::*;
use crate::bytes::{put_bytes, splice};
use crate::endian::{
    be_u16, be_u32, le_u32, put_u32_be, put_u64_be, u16_from_be, u32_be_bytes, u32_from_be,
    u32_from_le, u32_le_bytes, u32_to_le, u64_be_bytes,
};
use crate::fat::DISK_BYTES;

verus! {

/// Interface class: mass storage.
pub const MSC_CLASS: u8 = 0x08;
/// Interface subclass: SCSI transparent command set.
pub const SCSI_TRANSPARENT_SUBCLASS: u8 = 0x06;
/// Interface protocol: bulk-only transport.
pub const BULK_ONLY_PROTOCOL: u8 = 0x50;
/// Maximum packet size of the bulk endpoints.
pub const BULK_PACKET_SIZE: u16 = 64;
/// Signature of a command block wrapper (`USBC`).
pub const CBW_SIGNATURE: u32 = 0x4342_5355;
/// Signature of a command status wrapper (`USBS`).
pub const CSW_SIGNATURE: u32 = 0x5342_5355;

/// A command block wrapper.
#[derive(Clone, Copy, Debug)]
pub struct Cbw {
    pub tag: u32,
    pub transfer_len: u32,
    pub flags: u8,
    pub cdb: [u8; 16],
}

/// Whether the 31 bytes form a command block wrapper that is accepted:
/// right signature, logical unit 0, command block length 1 to 16.
pub open spec fn cbw_valid(b: Seq<u8>) -> bool {
    &&& le_u32(b[0], b[1], b[2], b[3]) == CBW_SIGNATURE
    &&& 1 <= (b[14] & 0x1f) <= 16
    &&& b[13] == 0
}

impl Cbw {
    /// The command block wrapper in `bytes`, or `None` when it is not one
    /// that is accepted.
    pub fn parse(bytes: &[u8; 31]) -> (cbw: Option<Cbw>)
        ensures
            cbw is Some <==> cbw_valid(bytes@),
            cbw matches Some(c) ==> {
                &&& c.tag == le_u32(bytes@[4], bytes@[5], bytes@[6], bytes@[7])
                &&& c.transfer_len == le_u32(bytes@[8], bytes@[9], bytes@[10], bytes@[11])
                &&& c.flags == bytes@[12]
                &&& c.cdb@ == bytes@.subrange(15, 31)
            },
    {
        let signature = u32_from_le(bytes[0], bytes[1], bytes[2], bytes[3]);
        let cdb_len = bytes[14] & 0x1f;
        if signature != CBW_SIGNATURE || !(1 <= cdb_len && cdb_len <= 16) || bytes[13] != 0 {
            return None;
        }
        let mut cdb = [0u8; 16];
        let mut i: usize = 0;
        while i < 16
            invariant
                i <= 16,
                forall|j: int| 0 <= j < i ==> cdb@[j] == bytes@[15 + j],
            decreases 16 - i,
        {
            cdb[i] = bytes[15 + i];
            i = i + 1;
        }
        assert(cdb@ =~= bytes@.subrange(15, 31));
        Some(
            Cbw {
                tag: u32_from_le(bytes[4], bytes[5], bytes[6], bytes[7]),
                transfer_len: u32_from_le(bytes[8], bytes[9], bytes[10], bytes[11]),
                flags: bytes[12],
                cdb,
            },
        )
    }

    /// Whether the data phase runs from the device to the host.
    pub fn device_to_host(&self) -> (b: bool)
        ensures
            b == (self.flags & 0x80 != 0),
    {
        self.flags & 0x80 != 0
    }
}

/// SCSI sense data: key, additional sense code and qualifier.
#[derive(Clone, Copy, Debug, PartialEq, Eq, Structural)]
pub struct Sense {
    pub key: u8,
    pub asc: u8,
    pub ascq: u8,
}

/// The fixed-format sense data for `s`.
pub open spec fn sense_bytes(s: Sense) -> Seq<u8> {
    seq![0x70u8, 0, s.key, 0, 0, 0, 0, 10, 0, 0, 0, 0, s.asc, s.ascq, 0, 0, 0, 0]
}

impl Sense {
    /// No error.
    pub fn no_sense() -> (s: Sense)
        ensures
            s == (Sense { key: 0, asc: 0, ascq: 0 }),
    {
        Sense { key: 0, asc: 0, ascq: 0 }
    }

    /// Not ready, medium not present.
    pub fn medium_not_present() -> (s: Sense)
        ensures
            s == (Sense { key: 0x02, asc: 0x3a, ascq: 0 }),
    {
        Sense { key: 0x02, asc: 0x3a, ascq: 0 }
    }

    /// Unit attention, medium may have changed.
    pub fn medium_changed() -> (s: Sense)
        ensures
            s == (Sense { key: 0x06, asc: 0x28, ascq: 0 }),
    {
        Sense { key: 0x06, asc: 0x28, ascq: 0 }
    }

    /// Illegal request, invalid command operation code.
    pub fn invalid_command() -> (s: Sense)
        ensures
            s == (Sense { key: 0x05, asc: 0x20, ascq: 0 }),
    {
        Sense { key: 0x05, asc: 0x20, ascq: 0 }
    }

    /// Illegal request, invalid field in the command block.
    pub fn invalid_field() -> (s: Sense)
        ensures
            s == (Sense { key: 0x05, asc: 0x24, ascq: 0 }),
    {
        Sense { key: 0x05, asc: 0x24, ascq: 0 }
    }

    /// Illegal request, logical block address out of range.
    pub fn lba_out_of_range() -> (s: Sense)
        ensures
            s == (Sense { key: 0x05, asc: 0x21, ascq: 0 }),
    {
        Sense { key: 0x05, asc: 0x21, ascq: 0 }
    }

    /// The fixed-format sense data that REQUEST SENSE returns.
    pub fn response(self) -> (r: [u8; 18])
        ensures
            r@ == sense_bytes(self),
    {
        let mut response = [0u8; 18];
        response[0] = 0x70;
        response[2] = self.key;
        response[7] = 10;
        response[12] = self.asc;
        response[13] = self.ascq;
        assert(response@ =~= sense_bytes(self));
        response
    }
}

/// Vendor identification in the standard inquiry data: `RP2040`.
pub const VENDOR_ID: [u8; 8] = [0x52, 0x50, 0x32, 0x30, 0x34, 0x30, 0x20, 0x20];
/// Product identification in the standard inquiry data: `AUTOFILL DISK`.
pub const PRODUCT_ID: [u8; 16] = [0x41, 0x55, 0x54, 0x4f, 0x46, 0x49, 0x4c, 0x4c, 0x20, 0x44, 0x49, 0x53, 0x4b, 0x20, 0x20, 0x20];
/// Product revision in the standard inquiry data: `1.00`.
pub const PRODUCT_REVISION: [u8; 4] = [0x31, 0x2e, 0x30, 0x30];
/// Unit serial number: `RP2040AF`.
pub const UNIT_SERIAL: [u8; 8] = [0x52, 0x50, 0x32, 0x30, 0x34, 0x30, 0x41, 0x46];

/// The standard inquiry data: direct-access device, removable, SPC-2,
/// response format 2, followed by the identification strings.
pub open spec fn standard_inquiry() -> Seq<u8> {
    seq![0u8, 0x80, 0x04, 0x02, 31, 0, 0, 0] + VENDOR_ID@ + PRODUCT_ID@ + PRODUCT_REVISION@
}

/// The data that INQUIRY returns for the given EVPD bit and page code.
pub open spec fn spec_inquiry(evpd: bool, page: u8) -> Seq<u8> {
    if !evpd {
        standard_inquiry()
    } else if page == 0x00 {
        seq![0u8, 0, 0, 3, 0, 0x80, 0x83]  // supported pages
    } else if page == 0x80 {
        seq![0u8, 0x80, 0, 8] + UNIT_SERIAL@
    } else if page == 0x83 {
        seq![0u8, 0x83, 0, 12, 0x02, 0x01, 0, 8] + UNIT_SERIAL@  // vendor-specific ASCII id
    } else {
        seq![0u8, page, 0, 0]
    }
}

/// Whether INQUIRY supports the given EVPD bit and page code.
pub open spec fn inquiry_supported(evpd: bool, page: u8) -> bool {
    !evpd || page == 0x00 || page == 0x80 || page == 0x83
}

/// The answer to an INQUIRY command.
pub enum InquiryResponse {
    Standard([u8; 36]),
    SupportedPages([u8; 7]),
    Serial([u8; 12]),
    DeviceId([u8; 16]),
    Unsupported([u8; 4]),
}

impl View for InquiryResponse {
    type V = Seq<u8>;

    open spec fn view(&self) -> Seq<u8> {
        match self {
            InquiryResponse::Standard(v) => v@,
            InquiryResponse::SupportedPages(v) => v@,
            InquiryResponse::Serial(v) => v@,
            InquiryResponse::DeviceId(v) => v@,
            InquiryResponse::Unsupported(v) => v@,
        }
    }
}

impl InquiryResponse {
    /// The bytes of the answer.
    pub fn as_slice(&self) -> (bytes: &[u8])
        ensures
            bytes@ == self@,
    {
        match self {
            InquiryResponse::Standard(value) => value.as_slice(),
            InquiryResponse::SupportedPages(value) => value.as_slice(),
            InquiryResponse::Serial(value) => value.as_slice(),
            InquiryResponse::DeviceId(value) => value.as_slice(),
            InquiryResponse::Unsupported(value) => value.as_slice(),
        }
    }

    /// Whether the requested page exists.
    pub fn is_supported(&self) -> (b: bool)
        ensures
            b == !(self is Unsupported),
    {
        !matches!(self, InquiryResponse::Unsupported(_))
    }
}

/// The answer to INQUIRY with the given EVPD bit and page code.
pub fn inquiry_response(evpd: bool, page: u8) -> (r: InquiryResponse)
    ensures
        r@ == spec_inquiry(evpd, page),
        !(r is Unsupported) <==> inquiry_supported(evpd, page),
{
    if !evpd {
        let mut response = [0u8; 36];
        response[0] = 0;
        response[1] = 0x80;
        response[2] = 0x04;
        response[3] = 0x02;
        response[4] = 31;
        put_bytes(&mut response, 8, &VENDOR_ID);
        put_bytes(&mut response, 16, &PRODUCT_ID);
        put_bytes(&mut response, 32, &PRODUCT_REVISION);
        assert(response@ =~= standard_inquiry());
        return InquiryResponse::Standard(response);
    }
    if page == 0x00 {
        let r = [0u8, 0, 0, 3, 0, 0x80, 0x83];
        assert(r@ =~= spec_inquiry(evpd, page));
        InquiryResponse::SupportedPages(r)
    } else if page == 0x80 {
        let mut r = [0u8, 0x80, 0, 8, 0, 0, 0, 0, 0, 0, 0, 0];
        put_bytes(&mut r, 4, &UNIT_SERIAL);
        assert(r@ =~= spec_inquiry(evpd, page));
        InquiryResponse::Serial(r)
    } else if page == 0x83 {
        let mut r = [0u8, 0x83, 0, 12, 0x02, 0x01, 0, 8, 0, 0, 0, 0, 0, 0, 0, 0];
        put_bytes(&mut r, 8, &UNIT_SERIAL);
        assert(r@ =~= spec_inquiry(evpd, page));
        InquiryResponse::DeviceId(r)
    } else {
        let r = [0u8, page, 0, 0];
        assert(r@ =~= spec_inquiry(evpd, page));
        InquiryResponse::Unsupported(r)
    }
}

/// `x` capped at `usize::MAX`.
pub open spec fn saturate(x: int) -> usize {
    if x > usize::MAX {
        usize::MAX
    } else {
        x as usize
    }
}

/// The byte offset and byte length that a READ(10) or WRITE(10) command
/// block addresses, each capped at `usize::MAX`.
pub open spec fn spec_read_write_range(cdb: Seq<u8>) -> (usize, usize) {
    (
        saturate(be_u32(cdb[2], cdb[3], cdb[4], cdb[5]) * 512),
        saturate(be_u16(cdb[7], cdb[8]) * 512),
    )
}

/// The byte offset and byte length that a READ(10) or WRITE(10) command
/// block addresses.
pub fn read_write_range(cdb: &[u8; 16]) -> (range: (usize, usize))
    ensures
        range == spec_read_write_range(cdb@),
{
    let lba = u32_from_be(cdb[2], cdb[3], cdb[4], cdb[5]) as usize;
    let blocks = u16_from_be(cdb[7], cdb[8]) as usize;
    let offset = if lba > usize::MAX / 512 {
        usize::MAX
    } else {
        lba * 512
    };
    let len = if blocks > usize::MAX / 512 {
        usize::MAX
    } else {
        blocks * 512
    };
    (offset, len)
}

/// The bounds of the byte range `offset .. offset + len` if it lies on
/// the volume.
pub fn checked_disk_range(offset: usize, len: usize) -> (range: Option<(usize, usize)>)
    ensures
        range == if offset + len <= DISK_BYTES {
            Some((offset, (offset + len) as usize))
        } else {
            None::<(usize, usize)>
        },
{
    let end = match offset.checked_add(len) {
        Some(end) => end,
        None => return None,
    };
    if end <= DISK_BYTES {
        Some((offset, end))
    } else {
        None
    }
}

/// The type field of a control request.
#[derive(Clone, Copy, Debug, PartialEq, Eq, Structural)]
pub enum RequestKind {
    Standard,
    Class,
    Vendor,
    Reserved,
}

/// The recipient field of a control request.
#[derive(Clone, Copy, Debug, PartialEq, Eq, Structural)]
pub enum RequestRecipient {
    Device,
    Interface,
    Endpoint,
    Other,
    Reserved,
}

/// A USB control request.
#[derive(Clone, Copy, Debug, PartialEq, Eq, Structural)]
pub struct ControlRequest {
    pub request_type: RequestKind,
    pub recipient: RequestRecipient,
    pub request: u8,
    pub value: u16,
    pub index: u16,
    pub length: u16,
}

/// How a control request is answered.
#[derive(Clone, Copy, Debug, PartialEq, Eq, Structural)]
pub enum ControlReply {
    Accepted,
    Rejected,
}

/// Bulk-only mass storage reset.
pub const REQUEST_RESET: u8 = 0xff;
/// Get max LUN.
pub const REQUEST_GET_MAX_LUN: u8 = 0xfe;

/// Handles the class requests of the mass-storage interface.
pub struct MscControl {
    interface: u8,
}

impl View for MscControl {
    type V = u8;

    closed spec fn view(&self) -> u8 {
        self.interface
    }
}

/// Whether a request is a class request for interface `interface`.
pub open spec fn request_matches(interface: u8, req: ControlRequest) -> bool {
    req.request_type == RequestKind::Class && req.recipient == RequestRecipient::Interface
        && req.index == interface as u16
}

impl MscControl {
    /// A handler not yet bound to an interface.
    pub fn new() -> (c: Self)
        ensures
            c@ == 0xff,
    {
        Self { interface: 0xff }
    }

    /// Binds the handler to interface `interface`.
    pub fn set_interface(&mut self, interface: u8)
        ensures
            final(self)@ == interface,
    {
        self.interface = interface;
    }

    /// Whether `req` is a class request for this interface.
    pub fn matches(&self, req: &ControlRequest) -> (b: bool)
        ensures
            b == request_matches(self@, *req),
    {
        req.request_type == RequestKind::Class && req.recipient == RequestRecipient::Interface
            && req.index == self.interface as u16
    }

    /// The answer to a host-to-device request: `None` when it is not for
    /// this interface; `Accepted` for a bulk-only reset (value 0, no data),
    /// after which the sense data is to be cleared; `Rejected` otherwise.
    pub fn control_out(&self, req: &ControlRequest) -> (reply: Option<ControlReply>)
        ensures
            reply == if !request_matches(self@, *req) {
                None::<ControlReply>
            } else if req.request == REQUEST_RESET && req.value == 0 && req.length == 0 {
                Some(ControlReply::Accepted)
            } else {
                Some(ControlReply::Rejected)
            },
    {
        if !self.matches(req) {
            return None;
        }
        if req.request == REQUEST_RESET && req.value == 0 && req.length == 0 {
            Some(ControlReply::Accepted)
        } else {
            Some(ControlReply::Rejected)
        }
    }

    /// The answer to a device-to-host request with a buffer of `buf_len`
    /// bytes: `None` when it is not for this interface; `Accepted` for get
    /// max LUN (value 0, length 1, room for one byte), answered with the
    /// single byte 0; `Rejected` otherwise.
    pub fn control_in(&self, req: &ControlRequest, buf_len: usize) -> (reply: Option<ControlReply>)
        ensures
            reply == if !request_matches(self@, *req) {
                None::<ControlReply>
            } else if req.request == REQUEST_GET_MAX_LUN && req.value == 0 && req.length == 1
                && buf_len > 0 {
                Some(ControlReply::Accepted)
            } else {
                Some(ControlReply::Rejected)
            },
    {
        if !self.matches(req) {
            return None;
        }
        if req.request == REQUEST_GET_MAX_LUN && req.value == 0 && req.length == 1 && buf_len > 0 {
            Some(ControlReply::Accepted)
        } else {
            Some(ControlReply::Rejected)
        }
    }
}

/// What happens once a command has succeeded and its status is sent.
#[derive(Clone, Copy, Debug, PartialEq, Eq, Structural)]
pub enum PostAction {
    NoAction,
    /// Commit the volume to flash (SYNCHRONIZE CACHE).
    Sync,
    /// Commit the volume and remove the medium (START STOP UNIT, eject).
    Eject,
}

/// The state that SCSI commands read and change.
#[derive(Clone, Copy, Debug, PartialEq, Eq, Structural)]
pub struct ScsiState {
    /// Sense data for the next REQUEST SENSE.
    pub sense: Sense,
    /// Whether the volume was written since it was last committed.
    pub dirty: bool,
    /// Whether a newly inserted medium is still to be reported.
    pub unit_attention: bool,
}

/// The data phase that a command takes, decided before any data moves.
#[derive(Debug)]
pub enum CommandStep {
    /// The command fails with no data moved; the sense data says why.
    Fail,
    /// The command succeeds with no data phase.
    Done(PostAction),
    /// The device sends the first `len` bytes of `data`, already cut to the
    /// host's transfer length, and the command succeeds; when
    /// `clears_sense`, the sense data is cleared once the data is sent.
    Send { data: [u8; 36], len: usize, clears_sense: bool },
    /// The device sends the volume bytes `start .. end`, already cut to
    /// the host's transfer length, and the command succeeds.
    SendDisk { start: usize, end: usize },
    /// The host writes into the volume bytes `start .. end`.
    Receive { start: usize, end: usize },
}

/// The mathematical form of a `CommandStep`.
pub enum StepView {
    Fail,
    Done(PostAction),
    Send(Seq<u8>, bool),
    SendDisk(int, int),
    Receive(int, int),
}

/// The view of a `CommandStep`.
pub open spec fn step_view(step: CommandStep) -> StepView {
    match step {
        CommandStep::Fail => StepView::Fail,
        CommandStep::Done(p) => StepView::Done(p),
        CommandStep::Send { data, len, clears_sense } => StepView::Send(
            data@.take(len as int),
            clears_sense,
        ),
        CommandStep::SendDisk { start, end } => StepView::SendDisk(start as int, end as int),
        CommandStep::Receive { start, end } => StepView::Receive(start as int, end as int),
    }
}

/// At most the first `transfer_len` bytes of `data`.
pub open spec fn fit(data: Seq<u8>, transfer_len: u32) -> Seq<u8> {
    if data.len() <= transfer_len {
        data
    } else {
        data.take(transfer_len as int)
    }
}

/// READ FORMAT CAPACITIES data: one formatted-media descriptor of 64
/// blocks of 512 bytes.
pub open spec fn format_capacities() -> Seq<u8> {
    seq![0u8, 0, 0, 8] + u32_be_bytes(64) + seq![0x02u8, 0, 2, 0]
}

/// READ CAPACITY(10) data: last block 63, blocks of 512 bytes.
pub open spec fn capacity_10() -> Seq<u8> {
    u32_be_bytes(63) + u32_be_bytes(512)
}

/// READ CAPACITY(16) data: last block 63, blocks of 512 bytes.
pub open spec fn capacity_16() -> Seq<u8> {
    u64_be_bytes(63) + u32_be_bytes(512) + Seq::new(20, |i: int| 0u8)
}

/// MODE SENSE(6) data: empty parameter list, not write protected.
pub open spec fn mode_sense_6() -> Seq<u8> {
    seq![3u8, 0, 0, 0]
}

/// MODE SENSE(10) data: empty parameter list, not write protected.
pub open spec fn mode_sense_10() -> Seq<u8> {
    seq![0u8, 6, 0, 0, 0, 0, 0, 0]
}

/// REPORT LUNS data: the single logical unit 0.
pub open spec fn report_luns() -> Seq<u8> {
    seq![0u8, 0, 0, 8] + Seq::new(12, |i: int| 0u8)
}

/// The state after a command fails with sense data `sense`.
pub open spec fn failed_with(s: ScsiState, sense: Sense) -> (ScsiState, StepView) {
    (ScsiState { sense, ..s }, StepView::Fail)
}

/// Sense: medium not present.
pub open spec fn sense_not_present() -> Sense {
    Sense { key: 0x02, asc: 0x3a, ascq: 0 }
}

/// The state and the data phase that a command block `cdb` asking for
/// `transfer_len` bytes leads to, with the medium present or not and the
/// volume holding `disk`.
pub open spec fn spec_begin_command(
    s: ScsiState,
    cdb: Seq<u8>,
    transfer_len: u32,
    media_present: bool,
    disk: Seq<u8>,
) -> (ScsiState, StepView) {
    let op = cdb[0];
    if op == 0x00 {
        // TEST UNIT READY
        if !media_present {
            failed_with(s, sense_not_present())
        } else if s.unit_attention {
            (
                ScsiState {
                    unit_attention: false,
                    sense: Sense { key: 0x06, asc: 0x28, ascq: 0 },
                    ..s
                },
                StepView::Fail,
            )
        } else {
            (s, StepView::Done(PostAction::NoAction))
        }
    } else if op == 0x03 {
        // REQUEST SENSE
        (s, StepView::Send(fit(sense_bytes(s.sense), transfer_len), true))
    } else if op == 0x12 {
        // INQUIRY
        let evpd = cdb[1] & 1 != 0;
        if inquiry_supported(evpd, cdb[2]) {
            (s, StepView::Send(fit(spec_inquiry(evpd, cdb[2]), transfer_len), false))
        } else {
            failed_with(s, Sense { key: 0x05, asc: 0x24, ascq: 0 })
        }
    } else if op == 0x1a {
        // MODE SENSE(6)
        (s, StepView::Send(fit(mode_sense_6(), transfer_len), false))
    } else if op == 0x1b {
        // START STOP UNIT: eject when LOEJ is set and START is clear
        (
            s,
            StepView::Done(
                if cdb[4] & 0x02 != 0 && cdb[4] & 0x01 == 0 {
                    PostAction::Eject
                } else {
                    PostAction::NoAction
                },
            ),
        )
    } else if op == 0x1e || op == 0x2f {
        // PREVENT ALLOW MEDIUM REMOVAL, VERIFY(10)
        (s, StepView::Done(PostAction::NoAction))
    } else if op == 0x23 || op == 0x25 || (op == 0x9e && cdb[1] & 0x1f == 0x10) {
        // READ FORMAT CAPACITIES, READ CAPACITY(10), READ CAPACITY(16)
        if !media_present {
            failed_with(s, sense_not_present())
        } else {
            let data = if op == 0x23 {
                format_capacities()
            } else if op == 0x25 {
                capacity_10()
            } else {
                capacity_16()
            };
            (s, StepView::Send(fit(data, transfer_len), false))
        }
    } else if op == 0x28 || op == 0x2a {
        // READ(10), WRITE(10)
        let (offset, len) = spec_read_write_range(cdb);
        if !media_present {
            failed_with(s, sense_not_present())
        } else if offset + len > DISK_BYTES {
            failed_with(s, Sense { key: 0x05, asc: 0x21, ascq: 0 })
        } else if op == 0x28 {
            let sent = if len <= transfer_len {
                len as int
            } else {
                transfer_len as int
            };
            (s, StepView::SendDisk(offset as int, offset + sent))
        } else {
            (s, StepView::Receive(offset as int, offset + len))
        }
    } else if op == 0x35 {
        // SYNCHRONIZE CACHE(10)
        if media_present {
            (s, StepView::Done(PostAction::Sync))
        } else {
            failed_with(s, sense_not_present())
        }
    } else if op == 0x5a {
        // MODE SENSE(10)
        (s, StepView::Send(fit(mode_sense_10(), transfer_len), false))
    } else if op == 0xa0 {
        // REPORT LUNS
        (s, StepView::Send(fit(report_luns(), transfer_len), false))
    } else {
        failed_with(s, Sense { key: 0x05, asc: 0x20, ascq: 0 })
    }
}

/// Largest response that a command without volume data sends.
pub const MAX_RESPONSE_LEN: usize = 36;

/// The first `transfer_len` bytes of `data` (all of them if fewer), in a
/// response buffer, with their number.
fn fit_response(data: &[u8], transfer_len: u32) -> (r: ([u8; 36], usize))
    requires
        data@.len() <= MAX_RESPONSE_LEN,
    ensures
        r.1 <= MAX_RESPONSE_LEN,
        r.0@.take(r.1 as int) == fit(data@, transfer_len),
{
    let n = if data.len() <= transfer_len as usize {
        data.len()
    } else {
        transfer_len as usize
    };
    let mut buf = [0u8; 36];
    put_bytes(&mut buf, 0, vstd::slice::slice_subrange(data, 0, n));
    assert(buf@.take(n as int) =~= fit(data@, transfer_len));
    (buf, n)
}

/// The step that sends the first `transfer_len` bytes of `data`.
fn send_response(data: &[u8], transfer_len: u32, clears_sense: bool) -> (step: CommandStep)
    requires
        data@.len() <= MAX_RESPONSE_LEN,
    ensures
        step_view(step) == StepView::Send(fit(data@, transfer_len), clears_sense),
{
    let (data, len) = fit_response(data, transfer_len);
    CommandStep::Send { data, len, clears_sense }
}

/// Decides what the command in `cbw` does, updating the sense data and the
/// unit attention as the command requires before its data phase.
pub fn begin_command(
    state: &mut ScsiState,
    cbw: &Cbw,
    media_present: bool,
    disk: &[u8; DISK_BYTES],
) -> (step: CommandStep)
    ensures
        (*final(state), step_view(step)) == spec_begin_command(
            *old(state),
            cbw.cdb@,
            cbw.transfer_len,
            media_present,
            disk@,
        ),
{
    let opcode = cbw.cdb[0];
    let transfer_len = cbw.transfer_len;
    if opcode == 0x00 {
        if !media_present {
            state.sense = Sense::medium_not_present();
            CommandStep::Fail
        } else if state.unit_attention {
            state.unit_attention = false;
            state.sense = Sense::medium_changed();
            CommandStep::Fail
        } else {
            CommandStep::Done(PostAction::NoAction)
        }
    } else if opcode == 0x03 {
        let response = state.sense.response();
        send_response(response.as_slice(), transfer_len, true)
    } else if opcode == 0x12 {
        let response = inquiry_response(cbw.cdb[1] & 1 != 0, cbw.cdb[2]);
        if response.is_supported() {
            send_response(response.as_slice(), transfer_len, false)
        } else {
            state.sense = Sense::invalid_field();
            CommandStep::Fail
        }
    } else if opcode == 0x1a {
        let response = [3u8, 0, 0, 0];
        assert(response@ =~= mode_sense_6());
        send_response(response.as_slice(), transfer_len, false)
    } else if opcode == 0x1b {
        if cbw.cdb[4] & 0x02 != 0 && cbw.cdb[4] & 0x01 == 0 {
            CommandStep::Done(PostAction::Eject)
        } else {
            CommandStep::Done(PostAction::NoAction)
        }
    } else if opcode == 0x1e || opcode == 0x2f {
        CommandStep::Done(PostAction::NoAction)
    } else if opcode == 0x23 {
        if !media_present {
            state.sense = Sense::medium_not_present();
            CommandStep::Fail
        } else {
            let mut response = [0u8; 12];
            response[3] = 8;
            put_u32_be(&mut response, 4, 64);
            response[8] = 0x02;
            response[9] = 0;
            response[10] = 2;
            response[11] = 0;
            assert(response@ =~= format_capacities());
            send_response(response.as_slice(), transfer_len, false)
        }
    } else if opcode == 0x25 {
        if !media_present {
            state.sense = Sense::medium_not_present();
            CommandStep::Fail
        } else {
            let mut response = [0u8; 8];
            put_u32_be(&mut response, 0, 63);
            put_u32_be(&mut response, 4, 512);
            assert(response@ =~= capacity_10());
            send_response(response.as_slice(), transfer_len, false)
        }
    } else if opcode == 0x28 || opcode == 0x2a {
        let (offset, len) = read_write_range(&cbw.cdb);
        if !media_present {
            state.sense = Sense::medium_not_present();
            CommandStep::Fail
        } else {
            match checked_disk_range(offset, len) {
                Some((start, end)) => {
                    if opcode == 0x28 {
                        let sent = if len <= transfer_len as usize {
                            len
                        } else {
                            transfer_len as usize
                        };
                        CommandStep::SendDisk { start, end: start + sent }
                    } else {
                        CommandStep::Receive { start, end }
                    }
                },
                None => {
                    state.sense = Sense::lba_out_of_range();
                    CommandStep::Fail
                },
            }
        }
    } else if opcode == 0x35 {
        if media_present {
            CommandStep::Done(PostAction::Sync)
        } else {
            state.sense = Sense::medium_not_present();
            CommandStep::Fail
        }
    } else if opcode == 0x5a {
        let response = [0u8, 6, 0, 0, 0, 0, 0, 0];
        assert(response@ =~= mode_sense_10());
        send_response(response.as_slice(), transfer_len, false)
    } else if opcode == 0x9e && cbw.cdb[1] & 0x1f == 0x10 {
        if !media_present {
            state.sense = Sense::medium_not_present();
            CommandStep::Fail
        } else {
            let mut response = [0u8; 32];
            put_u64_be(&mut response, 0, 63);
            put_u32_be(&mut response, 8, 512);
            assert(response@ =~= capacity_16());
            send_response(response.as_slice(), transfer_len, false)
        }
    } else if opcode == 0xa0 {
        let mut response = [0u8; 16];
        response[3] = 8;
        assert(response@ =~= report_luns());
        send_response(response.as_slice(), transfer_len, false)
    } else {
        state.sense = Sense::invalid_command();
        CommandStep::Fail
    }
}

/// Takes a bulk-only mass storage reset: the sense data is cleared.
pub fn bulk_reset(state: &mut ScsiState)
    ensures
        *final(state) == (ScsiState { sense: Sense { key: 0, asc: 0, ascq: 0 }, ..*old(state) }),
{
    state.sense = Sense::no_sense();
}

/// Clears the sense data after REQUEST SENSE has sent it.
pub fn finish_send(state: &mut ScsiState, clears_sense: bool)
    ensures
        *final(state) == (if clears_sense {
            ScsiState { sense: Sense { key: 0, asc: 0, ascq: 0 }, ..*old(state) }
        } else {
            *old(state)
        }),
{
    if clears_sense {
        state.sense = Sense::no_sense();
    }
}

/// Whether a WRITE(10) into `len` volume bytes succeeded after the host
/// sent `transferred` bytes of the `transfer_len` it announced: only when
/// all of them arrived and they cover the whole range. A successful write
/// marks the volume dirty.
pub fn finish_write(
    state: &mut ScsiState,
    transfer_len: u32,
    transferred: u32,
    len: usize,
) -> (written: bool)
    ensures
        written == (transferred == transfer_len && transferred as int == len as int),
        *final(state) == (ScsiState { dirty: old(state).dirty || written, ..*old(state) }),
{
    let written = transferred == transfer_len && transferred as usize == len;
    state.dirty = state.dirty || written;
    written
}

/// The status of a finished command.
#[derive(Clone, Copy, Debug, PartialEq, Eq, Structural)]
pub struct CommandStatus {
    /// 0: passed, 1: failed.
    pub status: u8,
    /// Announced bytes that were not transferred, reported for a command
    /// that passed.
    pub residue: u32,
    /// Announced bytes still to be padded (device to host) or drained
    /// (host to device) before the status of a failed command.
    pub drain: u32,
}

/// `a - b`, or zero when `b` is larger.
pub open spec fn sat_sub(a: u32, b: u32) -> u32 {
    if a >= b {
        (a - b) as u32
    } else {
        0
    }
}

/// The status of a command that announced `transfer_len` bytes, moved
/// `transferred` of them, and succeeded or not.
pub fn command_status(transfer_len: u32, success: bool, transferred: u32) -> (st: CommandStatus)
    ensures
        st.status == if success { 0u8 } else { 1u8 },
        st.residue == if success { sat_sub(transfer_len, transferred) } else { 0u32 },
        st.drain == if success { 0u32 } else { sat_sub(transfer_len, transferred) },
{
    let remaining = transfer_len.saturating_sub(transferred);
    if success {
        CommandStatus { status: 0, residue: remaining, drain: 0 }
    } else {
        CommandStatus { status: 1, residue: 0, drain: remaining }
    }
}

/// The command status wrapper bytes.
pub open spec fn spec_csw(tag: u32, status: u8, residue: u32) -> Seq<u8> {
    u32_le_bytes(CSW_SIGNATURE) + u32_le_bytes(tag) + u32_le_bytes(residue) + seq![status]
}

/// The command status wrapper for the command `tag`.
pub fn csw_bytes(tag: u32, status: u8, residue: u32) -> (csw: [u8; 13])
    ensures
        csw@ == spec_csw(tag, status, residue),
{
    let mut csw = [0u8; 13];
    let (s0, s1, s2, s3) = u32_to_le(CSW_SIGNATURE);
    let (t0, t1, t2, t3) = u32_to_le(tag);
    let (r0, r1, r2, r3) = u32_to_le(residue);
    csw[0] = s0;
    csw[1] = s1;
    csw[2] = s2;
    csw[3] = s3;
    csw[4] = t0;
    csw[5] = t1;
    csw[6] = t2;
    csw[7] = t3;
    csw[8] = r0;
    csw[9] = r1;
    csw[10] = r2;
    csw[11] = r3;
    csw[12] = status;
    assert(csw@ =~= spec_csw(tag, status, residue));
    csw
}

/// The size of the next bulk packet when `remaining` bytes are left.
pub fn packet_len(remaining: usize) -> (n: usize)
    ensures
        n == if remaining < BULK_PACKET_SIZE { remaining } else { BULK_PACKET_SIZE as usize },
{
    if remaining < BULK_PACKET_SIZE as usize {
        remaining
    } else {
        BULK_PACKET_SIZE as usize
    }
}

/// The volume after a packet of a WRITE(10) into `start .. end` arrives
/// when `received` bytes came before it: the part that still falls inside
/// the range is stored, the rest is dropped.
pub open spec fn spec_store_received(
    disk: Seq<u8>,
    start: int,
    end: int,
    received: int,
    packet: Seq<u8>,
) -> Seq<u8> {
    if received < end - start {
        let room = end - start - received;
        let copy = if packet.len() < room {
            packet.len() as int
        } else {
            room
        };
        splice(disk, start + received, packet.take(copy))
    } else {
        disk
    }
}

/// Stores a received packet of a WRITE(10) into `start .. end`, after
/// `received` bytes came before it, and returns the bytes received so far.
pub fn store_received(
    disk: &mut [u8; DISK_BYTES],
    start: usize,
    end: usize,
    received: usize,
    packet: &[u8],
) -> (total: usize)
    requires
        start <= end <= DISK_BYTES,
        received + packet@.len() <= usize::MAX,
    ensures
        total == received + packet@.len(),
        final(disk)@ == spec_store_received(old(disk)@, start as int, end as int, received as int, packet@),
{
    let len = end - start;
    let count = packet.len();
    if received < len {
        let copy_len = if count < len - received {
            count
        } else {
            len - received
        };
        put_bytes(disk, start + received, vstd::slice::slice_subrange(packet, 0, copy_len));
    }
    received + count
}

/// A failed command leaves sense data that reports an error, and the next
/// REQUEST SENSE sends it and then clears it.
pub proof fn lemma_failure_reported_by_request_sense(
    s: ScsiState,
    cdb: Seq<u8>,
    transfer_len: u32,
    media_present: bool,
    disk: Seq<u8>,
    sense_cdb: Seq<u8>,
    sense_len: u32,
    later_media: bool,
    later_disk: Seq<u8>,
)
    requires
        spec_begin_command(s, cdb, transfer_len, media_present, disk).1 is Fail,
        sense_cdb[0] == 0x03,
    ensures
        ({
            let failed = spec_begin_command(s, cdb, transfer_len, media_present, disk).0;
            &&& failed.sense.key != 0
            &&& spec_begin_command(failed, sense_cdb, sense_len, later_media, later_disk) == (
            failed,
            StepView::Send(fit(sense_bytes(failed.sense), sense_len), true))
        }),
{
}

/// Every command but TEST UNIT READY leaves the unit attention as it was;
/// TEST UNIT READY with the medium present reports a pending unit
/// attention once, as a failure with "medium changed", and clears it.
pub proof fn lemma_unit_attention_reported_once(
    s: ScsiState,
    cdb: Seq<u8>,
    transfer_len: u32,
    media_present: bool,
    disk: Seq<u8>,
)
    ensures
        ({
            let r = spec_begin_command(s, cdb, transfer_len, media_present, disk);
            &&& cdb[0] != 0x00 ==> r.0.unit_attention == s.unit_attention
            &&& (cdb[0] == 0x00 && media_present && s.unit_attention) ==> (r.1 is Fail
                && !r.0.unit_attention && r.0.sense == Sense { key: 0x06, asc: 0x28, ascq: 0 })
            &&& (cdb[0] == 0x00 && media_present && !s.unit_attention) ==> r.1 == StepView::Done(
                PostAction::NoAction,
            )
        }),
{
}

/// No command moves volume data while the medium is absent, and reads and
/// writes address only bytes on the volume.
pub proof fn lemma_volume_access_in_range(
    s: ScsiState,
    cdb: Seq<u8>,
    transfer_len: u32,
    media_present: bool,
    disk: Seq<u8>,
)
    ensures
        ({
            let r = spec_begin_command(s, cdb, transfer_len, media_present, disk).1;
            &&& (r matches StepView::SendDisk(a, b) ==> media_present && 0 <= a <= b <= DISK_BYTES)
            &&& (r matches StepView::Receive(a, b) ==> media_present && 0 <= a <= b <= DISK_BYTES)
        }),
{
}

} // verus!
