//! US keyboard layout: the HID usage and modifier that type each byte.

use vstd::prelude::*;
use crate::text::{is_printable, valid_text, AutofillText};

verus! {

/// Modifier bit of the left shift key.
pub const LEFT_SHIFT: u8 = 0x02;

/// The modifier and key usage that type `b` on a US layout, if any.
pub open spec fn spec_ascii_to_hid(b: u8) -> Option<(u8, u8)> {
    if 0x61 <= b <= 0x7a {
        Some((0, (4 + b - 0x61) as u8))  // a-z
    } else if 0x41 <= b <= 0x5a {
        Some((LEFT_SHIFT, (4 + b - 0x41) as u8))  // A-Z
    } else if 0x31 <= b <= 0x39 {
        Some((0, (30 + b - 0x31) as u8))  // 1-9
    } else {
        match b {
            0x30 => Some((0, 39)),  // 0
            0x20 => Some((0, 44)),  // space
            0x2d => Some((0, 45)),  // -
            0x5f => Some((LEFT_SHIFT, 45)),  // _
            0x3d => Some((0, 46)),  // =
            0x2b => Some((LEFT_SHIFT, 46)),  // +
            0x5b => Some((0, 47)),  // [
            0x7b => Some((LEFT_SHIFT, 47)),  // {
            0x5d => Some((0, 48)),  // ]
            0x7d => Some((LEFT_SHIFT, 48)),  // }
            0x5c => Some((0, 49)),  // backslash
            0x7c => Some((LEFT_SHIFT, 49)),  // |
            0x3b => Some((0, 51)),  // ;
            0x3a => Some((LEFT_SHIFT, 51)),  // :
            0x27 => Some((0, 52)),  // '
            0x22 => Some((LEFT_SHIFT, 52)),  // "
            0x60 => Some((0, 53)),  // `
            0x7e => Some((LEFT_SHIFT, 53)),  // ~
            0x2c => Some((0, 54)),  // ,
            0x3c => Some((LEFT_SHIFT, 54)),  // <
            0x2e => Some((0, 55)),  // .
            0x3e => Some((LEFT_SHIFT, 55)),  // >
            0x2f => Some((0, 56)),  // /
            0x3f => Some((LEFT_SHIFT, 56)),  // ?
            0x21 => Some((LEFT_SHIFT, 30)),  // !
            0x40 => Some((LEFT_SHIFT, 31)),  // @
            0x23 => Some((LEFT_SHIFT, 32)),  // #
            0x24 => Some((LEFT_SHIFT, 33)),  // $
            0x25 => Some((LEFT_SHIFT, 34)),  // %
            0x5e => Some((LEFT_SHIFT, 35)),  // ^
            0x26 => Some((LEFT_SHIFT, 36)),  // &
            0x2a => Some((LEFT_SHIFT, 37)),  // *
            0x28 => Some((LEFT_SHIFT, 38)),  // (
            0x29 => Some((LEFT_SHIFT, 39)),  // )
            _ => None,
        }
    }
}

/// The modifier and key usage that type `byte` on a US layout; `None` for
/// a byte that is not printable ASCII.
pub fn ascii_to_hid(byte: u8) -> (key: Option<(u8, u8)>)
    ensures
        key == spec_ascii_to_hid(byte),
{
    let result = match byte {
        0x61..=0x7a => (0, 4 + byte - 0x61),
        0x41..=0x5a => (LEFT_SHIFT, 4 + byte - 0x41),
        0x31..=0x39 => (0, 30 + byte - 0x31),
        0x30 => (0, 39),
        0x20 => (0, 44),
        0x2d => (0, 45),
        0x5f => (LEFT_SHIFT, 45),
        0x3d => (0, 46),
        0x2b => (LEFT_SHIFT, 46),
        0x5b => (0, 47),
        0x7b => (LEFT_SHIFT, 47),
        0x5d => (0, 48),
        0x7d => (LEFT_SHIFT, 48),
        0x5c => (0, 49),
        0x7c => (LEFT_SHIFT, 49),
        0x3b => (0, 51),
        0x3a => (LEFT_SHIFT, 51),
        0x27 => (0, 52),
        0x22 => (LEFT_SHIFT, 52),
        0x60 => (0, 53),
        0x7e => (LEFT_SHIFT, 53),
        0x2c => (0, 54),
        0x3c => (LEFT_SHIFT, 54),
        0x2e => (0, 55),
        0x3e => (LEFT_SHIFT, 55),
        0x2f => (0, 56),
        0x3f => (LEFT_SHIFT, 56),
        0x21 => (LEFT_SHIFT, 30),
        0x40 => (LEFT_SHIFT, 31),
        0x23 => (LEFT_SHIFT, 32),
        0x24 => (LEFT_SHIFT, 33),
        0x25 => (LEFT_SHIFT, 34),
        0x5e => (LEFT_SHIFT, 35),
        0x26 => (LEFT_SHIFT, 36),
        0x2a => (LEFT_SHIFT, 37),
        0x28 => (LEFT_SHIFT, 38),
        0x29 => (LEFT_SHIFT, 39),
        _ => return None,
    };
    Some(result)
}

/// Every printable byte, and no other, has a keystroke; each keystroke is a
/// key usage between 4 and 56 with no modifier or left shift.
pub proof fn lemma_ascii_to_hid_covers_printable(b: u8)
    ensures
        spec_ascii_to_hid(b) is Some <==> is_printable(b),
        spec_ascii_to_hid(b) matches Some((m, k)) ==> (m == 0 || m == LEFT_SHIFT) && 4 <= k <= 56,
{
}

/// Distinct printable bytes are typed by distinct keystrokes.
pub proof fn lemma_ascii_to_hid_injective(a: u8, b: u8)
    requires
        spec_ascii_to_hid(a) is Some,
        spec_ascii_to_hid(a) == spec_ascii_to_hid(b),
    ensures
        a == b,
{
}

/// What each key with usage 4 to 56 types on a US layout with no
/// modifier, indexed by usage minus 4 (0: no character): the letters, the
/// digit row `1`..`9`, `0`, then space and the punctuation keys.
pub open spec fn us_unshifted() -> Seq<u8> {
    seq![
        0x61, 0x62, 0x63, 0x64, 0x65, 0x66, 0x67, 0x68, 0x69, 0x6a, 0x6b, 0x6c, 0x6d,
        0x6e, 0x6f, 0x70, 0x71, 0x72, 0x73, 0x74, 0x75, 0x76, 0x77, 0x78, 0x79, 0x7a,
        0x31, 0x32, 0x33, 0x34, 0x35, 0x36, 0x37, 0x38, 0x39, 0x30, 0x00, 0x00, 0x00,
        0x00, 0x20, 0x2d, 0x3d, 0x5b, 0x5d, 0x5c, 0x00, 0x3b, 0x27, 0x60, 0x2c, 0x2e,
        0x2f,
    ]
}

/// What each key with usage 4 to 56 types on a US layout with shift held,
/// indexed by usage minus 4 (0: no character): capitals, `!@#$%^&*()`,
/// then the shifted punctuation.
pub open spec fn us_shifted() -> Seq<u8> {
    seq![
        0x41, 0x42, 0x43, 0x44, 0x45, 0x46, 0x47, 0x48, 0x49, 0x4a, 0x4b, 0x4c, 0x4d,
        0x4e, 0x4f, 0x50, 0x51, 0x52, 0x53, 0x54, 0x55, 0x56, 0x57, 0x58, 0x59, 0x5a,
        0x21, 0x40, 0x23, 0x24, 0x25, 0x5e, 0x26, 0x2a, 0x28, 0x29, 0x00, 0x00, 0x00,
        0x00, 0x00, 0x5f, 0x2b, 0x7b, 0x7d, 0x7c, 0x00, 0x3a, 0x22, 0x7e, 0x3c, 0x3e,
        0x3f,
    ]
}

/// The byte that a host with a US layout types for a report with the
/// given modifier and key usage (0 when it types none).
pub open spec fn us_typed_byte(modifier: u8, keycode: u8) -> u8 {
    if 4 <= keycode <= 56 {
        if modifier == 0 {
            us_unshifted()[keycode - 4]
        } else if modifier == LEFT_SHIFT {
            us_shifted()[keycode - 4]
        } else {
            0
        }
    } else {
        0
    }
}

/// Every printable byte is mapped to the key that a US-layout host types
/// as that very byte.
pub proof fn lemma_keystroke_types_its_byte(b: u8)
    requires
        is_printable(b),
    ensures
        spec_ascii_to_hid(b) matches Some((m, k)) && us_typed_byte(m, k) == b,
{
    if 0x61 <= b <= 0x7a {
        assert(us_unshifted()[b - 0x61] == b);
    } else if 0x41 <= b <= 0x5a {
        assert(us_shifted()[b - 0x41] == b);
    } else if 0x31 <= b <= 0x39 {
        assert(us_unshifted()[26 + b - 0x31] == b);
    }
}

/// A boot keyboard input report: the modifier byte and one key usage
/// (usage 0: no key pressed).
#[derive(Clone, Copy, Debug, PartialEq, Eq, Structural)]
pub struct KeyReport {
    pub modifier: u8,
    pub keycode: u8,
}

/// The report that releases every key.
pub open spec fn release_report() -> KeyReport {
    KeyReport { modifier: 0, keycode: 0 }
}

/// The report that presses the keys that type the printable byte `b`.
pub open spec fn keystroke(b: u8) -> KeyReport {
    let (m, k) = spec_ascii_to_hid(b)->0;
    KeyReport { modifier: m, keycode: k }
}

impl KeyReport {
    /// The report that releases every key.
    pub fn release() -> (r: KeyReport)
        ensures
            r == release_report(),
    {
        KeyReport { modifier: 0, keycode: 0 }
    }

    /// The eight bytes of the report: modifier, reserved, six key slots.
    pub fn to_bytes(&self) -> (bytes: [u8; 8])
        ensures
            bytes@ == seq![self.modifier, 0u8, self.keycode, 0u8, 0u8, 0u8, 0u8, 0u8],
    {
        let bytes = [self.modifier, 0, self.keycode, 0, 0, 0, 0, 0];
        assert(bytes@ =~= seq![self.modifier, 0u8, self.keycode, 0u8, 0u8, 0u8, 0u8, 0u8]);
        bytes
    }
}

/// Whether a release report must come before pressing `keycode`: the host
/// sees a key that stays down from one report to the next as one press.
pub fn needs_intermediate_release(previous_keycode: Option<u8>, keycode: u8) -> (b: bool)
    ensures
        b == (previous_keycode == Some(keycode)),
{
    match previous_keycode {
        Some(previous) => previous == keycode,
        None => false,
    }
}

/// The reports that type the bytes of `s`, when the key `previous` (if
/// any) is still held: each typeable byte is pressed, preceded by a release
/// when it uses the key that is down, and a final release lets go of the
/// last key. Bytes without a keystroke are skipped.
pub open spec fn spec_typing_reports(s: Seq<u8>, previous: Option<u8>) -> Seq<KeyReport>
    decreases s.len(),
{
    if s.len() == 0 {
        if previous is Some {
            seq![release_report()]
        } else {
            Seq::empty()
        }
    } else {
        match spec_ascii_to_hid(s[0]) {
            None => spec_typing_reports(s.drop_first(), previous),
            Some((m, k)) => (if previous == Some(k) {
                seq![release_report()]
            } else {
                Seq::empty()
            }) + seq![KeyReport { modifier: m, keycode: k }] + spec_typing_reports(
                s.drop_first(),
                Some(k),
            ),
        }
    }
}

/// Most reports that typing a value takes: a press and a release for each
/// of at most `MAX_TEXT_LEN` bytes.
pub const MAX_TYPING_REPORTS: usize = 100;

/// Typing takes at most two reports per byte, plus one to release a key
/// that was already held.
pub proof fn lemma_typing_reports_len(s: Seq<u8>, previous: Option<u8>)
    ensures
        spec_typing_reports(s, previous).len() <= 2 * s.len() + if previous is Some {
            1int
        } else {
            0int
        },
    decreases s.len(),
{
    if s.len() > 0 {
        lemma_typing_reports_len(s.drop_first(), previous);
        if let Some((m, k)) = spec_ascii_to_hid(s[0]) {
            lemma_typing_reports_len(s.drop_first(), Some(k));
        }
    }
}

/// A sequence of keyboard reports, at most `MAX_TYPING_REPORTS` long.
pub struct KeyReports {
    reports: [KeyReport; 100],
    count: usize,
}

impl View for KeyReports {
    type V = Seq<KeyReport>;

    closed spec fn view(&self) -> Seq<KeyReport> {
        self.reports@.take(self.count as int)
    }
}

impl KeyReports {
    #[verifier::type_invariant]
    spec fn bounded(self) -> bool {
        self.count <= MAX_TYPING_REPORTS
    }

    /// The reports, in order.
    pub fn as_slice(&self) -> (r: &[KeyReport])
        ensures
            r@ == self@,
    {
        proof {
            use_type_invariant(self);
        }
        vstd::slice::slice_subrange(self.reports.as_slice(), 0, self.count)
    }

    /// Number of reports.
    pub fn len(&self) -> (n: usize)
        ensures
            n == self@.len(),
    {
        proof {
            use_type_invariant(self);
        }
        self.count
    }
}

/// The reports that type `text`, in order.
pub fn typing_reports(text: &AutofillText) -> (reports: KeyReports)
    ensures
        reports@ == spec_typing_reports(text@, None),
{
    let bytes = text.as_bytes();
    let n = bytes.len();
    let release = KeyReport::release();
    let mut reports = [release; 100];
    let mut count: usize = 0;
    let mut previous_keycode: Option<u8> = None;
    let mut i: usize = 0;
    proof {
        lemma_typing_reports_len(bytes@, None);
    }
    assert(bytes@.skip(0) =~= bytes@);
    assert(reports@.take(0) =~= Seq::<KeyReport>::empty());
    while i < n
        invariant
            n == bytes@.len(),
            n <= 50,
            release == release_report(),
            bytes@ == text@,
            i <= n,
            count <= 2 * i,
            reports@.len() == MAX_TYPING_REPORTS,
            previous_keycode is Some ==> count > 0,
            spec_typing_reports(bytes@, None).len() <= 2 * n,
            reports@.take(count as int) + spec_typing_reports(bytes@.skip(i as int), previous_keycode)
                == spec_typing_reports(bytes@, None),
        decreases n - i,
    {
        let byte = bytes[i];
        assert(bytes@.skip(i as int).drop_first() =~= bytes@.skip(i + 1));
        assert(bytes@.skip(i as int)[0] == byte);
        match ascii_to_hid(byte) {
            None => {},
            Some((modifier, keycode)) => {
                let ghost before = reports@.take(count as int);
                let ghost head: Seq<KeyReport> = if previous_keycode == Some(keycode) {
                    seq![release_report()]
                } else {
                    Seq::empty()
                };
                proof {
                    lemma_ascii_to_hid_covers_printable(byte);
                }
                if needs_intermediate_release(previous_keycode, keycode) {
                    let ghost prior = reports@;
                    reports[count] = release;
                    assert(reports@.take(count + 1) =~= prior.take(count as int).push(release));
                    count = count + 1;
                }
                assert(reports@.take(count as int) =~= before + head);
                let ghost prior = reports@;
                reports[count] = KeyReport { modifier, keycode };
                assert(reports@.take(count + 1) =~= prior.take(count as int).push(
                    KeyReport { modifier, keycode },
                ));
                count = count + 1;
                assert(reports@.take(count as int) =~= before + head + seq![
                    KeyReport { modifier, keycode },
                ]);
                previous_keycode = Some(keycode);
            },
        }
        i = i + 1;
    }
    assert(bytes@.skip(n as int) =~= Seq::<u8>::empty());
    if previous_keycode.is_some() {
        let ghost prior = reports@;
        reports[count] = release;
        assert(reports@.take(count + 1) =~= prior.take(count as int).push(release_report()));
        count = count + 1;
    }
    let result = KeyReports { reports, count };
    assert(result@ =~= spec_typing_reports(bytes@, None));
    result
}

/// The key-down reports of `r`, in order.
pub open spec fn presses(r: Seq<KeyReport>) -> Seq<KeyReport>
    decreases r.len(),
{
    if r.len() == 0 {
        Seq::empty()
    } else if r[0].keycode == 0 {
        presses(r.drop_first())
    } else {
        seq![r[0]] + presses(r.drop_first())
    }
}

/// Whether no report presses the key that the report before it (or the
/// key `previous` held before the first) already holds, and the reports
/// end with every key released.
pub open spec fn every_press_seen(r: Seq<KeyReport>, previous: Option<u8>) -> bool {
    &&& forall|i: int|
        1 <= i < r.len() ==> (#[trigger] r[i]).keycode == 0 || r[i - 1].keycode != r[i].keycode
    &&& r.len() > 0 ==> r[0].keycode == 0 || previous != Some(r[0].keycode)
    &&& r.len() > 0 ==> r.last() == release_report()
    &&& r.len() == 0 ==> previous is None
}

proof fn lemma_presses_append(a: Seq<KeyReport>, b: Seq<KeyReport>)
    ensures
        presses(a + b) == presses(a) + presses(b),
    decreases a.len(),
{
    if a.len() == 0 {
        assert(a + b =~= b);
        assert(presses(a) + presses(b) =~= presses(b));
    } else {
        lemma_presses_append(a.drop_first(), b);
        assert((a + b).drop_first() =~= a.drop_first() + b);
        assert((a + b)[0] == a[0]);
        if a[0].keycode != 0 {
            assert(seq![a[0]] + presses(a.drop_first()) + presses(b) =~= seq![a[0]] + (presses(
                a.drop_first(),
            ) + presses(b)));
        }
    }
}

/// Typing printable bytes presses exactly their keystrokes, in order.
pub proof fn lemma_typing_presses_keystrokes(s: Seq<u8>, previous: Option<u8>)
    requires
        valid_text(s),
    ensures
        presses(spec_typing_reports(s, previous)) == s.map_values(|b: u8| keystroke(b)),
    decreases s.len(),
{
    if s.len() == 0 {
        assert(presses(seq![release_report()]) =~= Seq::<KeyReport>::empty()) by {
            assert(seq![release_report()][0].keycode == 0);
            assert(seq![release_report()].drop_first() =~= Seq::<KeyReport>::empty());
            assert(presses(Seq::<KeyReport>::empty()) =~= Seq::<KeyReport>::empty());
        }
        assert(s.map_values(|b: u8| keystroke(b)) =~= Seq::<KeyReport>::empty());
    } else {
        let t = s.drop_first();
        assert(valid_text(t)) by {
            assert forall|i: int| 0 <= i < t.len() implies is_printable(#[trigger] t[i]) by {
                assert(t[i] == s[i + 1]);
            }
        }
        assert(is_printable(s[0]));
        lemma_ascii_to_hid_covers_printable(s[0]);
        let (m, k) = spec_ascii_to_hid(s[0])->0;
        lemma_typing_presses_keystrokes(t, Some(k));
        let head: Seq<KeyReport> = if previous == Some(k) {
            seq![release_report()]
        } else {
            Seq::empty()
        };
        let press = seq![KeyReport { modifier: m, keycode: k }];
        let rest = spec_typing_reports(t, Some(k));
        lemma_presses_append(head + press, rest);
        lemma_presses_append(head, press);
        assert(presses(head) =~= Seq::<KeyReport>::empty()) by {
            if previous == Some(k) {
                assert(head[0] == release_report());
                assert(head.drop_first() =~= Seq::<KeyReport>::empty());
                assert(presses(Seq::<KeyReport>::empty()) =~= Seq::<KeyReport>::empty());
            }
        }
        assert(presses(press) =~= press) by {
            assert(k != 0);
            assert(press[0].keycode == k);
            assert(press.drop_first() =~= Seq::<KeyReport>::empty());
            assert(presses(Seq::<KeyReport>::empty()) =~= Seq::<KeyReport>::empty());
        }
        assert(s.map_values(|b: u8| keystroke(b)) =~= press + t.map_values(|b: u8| keystroke(b)));
    }
}

/// Typing never presses a key that is already down, and ends with every
/// key released, so the host sees each keystroke.
pub proof fn lemma_typing_every_press_seen(s: Seq<u8>, previous: Option<u8>)
    requires
        previous matches Some(k) ==> k != 0,
    ensures
        every_press_seen(spec_typing_reports(s, previous), previous),
    decreases s.len(),
{
    if s.len() > 0 {
        let t = s.drop_first();
        match spec_ascii_to_hid(s[0]) {
            None => {
                lemma_typing_every_press_seen(t, previous);
            },
            Some((m, k)) => {
                lemma_ascii_to_hid_covers_printable(s[0]);
                lemma_typing_every_press_seen(t, Some(k));
                let head: Seq<KeyReport> = if previous == Some(k) {
                    seq![release_report()]
                } else {
                    Seq::empty()
                };
                let press = seq![KeyReport { modifier: m, keycode: k }];
                let rest = spec_typing_reports(t, Some(k));
                let r = head + press + rest;
                assert(r == spec_typing_reports(s, previous));
                assert(k != 0);
                assert(rest.len() > 0);
                assert(r.len() == head.len() + 1 + rest.len());
                assert forall|i: int| 1 <= i < r.len() implies (#[trigger] r[i]).keycode == 0
                    || r[i - 1].keycode != r[i].keycode by {
                    let h = head.len() as int;
                    if i <= h {
                        assert(r[i - 1] == release_report());
                        assert(r[i] == press[0]);
                    } else if i == h + 1 {
                        assert(r[i - 1] == press[0]);
                        assert(r[i] == rest[0]);
                    } else {
                        assert(r[i - 1] == rest[i - h - 2]);
                        assert(r[i] == rest[i - h - 1]);
                    }
                }
                assert(r.last() == rest.last());
            },
        }
    }
}

} // verus!
