//! The autofill value: at most fifty printable US-ASCII bytes.

use vstd::prelude::*;
use vstd::std_specs::cmp::PartialEqSpecImpl;

verus! {

/// Largest number of bytes the autofill value can hold.
pub const MAX_TEXT_LEN: usize = 50;

/// A byte that can be typed and stored: space through tilde.
pub open spec fn is_printable(b: u8) -> bool {
    0x20 <= b && b <= 0x7e
}

/// Carriage return or line feed.
pub open spec fn is_line_end(b: u8) -> bool {
    b == 0x0d || b == 0x0a
}

/// A byte sequence that an `AutofillText` can hold.
pub open spec fn valid_text(s: Seq<u8>) -> bool {
    &&& s.len() <= MAX_TEXT_LEN
    &&& forall|i: int| 0 <= i < s.len() ==> is_printable(#[trigger] s[i])
}

/// The bytes before the first NUL byte (all of them when there is none).
pub open spec fn before_nul(s: Seq<u8>) -> Seq<u8>
    decreases s.len(),
{
    if s.len() == 0 || s[0] == 0 {
        Seq::empty()
    } else {
        seq![s[0]] + before_nul(s.drop_first())
    }
}

/// The sequence with every trailing CR and LF removed.
pub open spec fn trim_line_end(s: Seq<u8>) -> Seq<u8>
    decreases s.len(),
{
    if s.len() > 0 && is_line_end(s.last()) {
        trim_line_end(s.drop_last())
    } else {
        s
    }
}

/// The printable bytes of the sequence, in order.
pub open spec fn keep_printable(s: Seq<u8>) -> Seq<u8>
    decreases s.len(),
{
    if s.len() == 0 {
        Seq::empty()
    } else if is_printable(s.last()) {
        keep_printable(s.drop_last()).push(s.last())
    } else {
        keep_printable(s.drop_last())
    }
}

/// At most the first `MAX_TEXT_LEN` bytes of the sequence.
pub open spec fn cap_text(s: Seq<u8>) -> Seq<u8> {
    if s.len() <= MAX_TEXT_LEN {
        s
    } else {
        s.take(MAX_TEXT_LEN as int)
    }
}

/// The value that the contents of a file denote: the bytes before the
/// first NUL, without trailing line endings, with unsupported bytes dropped,
/// truncated to `MAX_TEXT_LEN`.
pub open spec fn text_of_file(input: Seq<u8>) -> Seq<u8> {
    cap_text(keep_printable(trim_line_end(before_nul(input))))
}

pub proof fn lemma_keep_printable_append(a: Seq<u8>, b: Seq<u8>)
    ensures
        keep_printable(a + b) == keep_printable(a) + keep_printable(b),
    decreases b.len(),
{
    if b.len() == 0 {
        assert(a + b =~= a);
        assert(keep_printable(b) =~= Seq::<u8>::empty());
        assert(keep_printable(a) + keep_printable(b) =~= keep_printable(a));
    } else {
        lemma_keep_printable_append(a, b.drop_last());
        assert((a + b).drop_last() =~= a + b.drop_last());
        assert((a + b).last() == b.last());
        if is_printable(b.last()) {
            assert(keep_printable(a) + keep_printable(b.drop_last()).push(b.last())
                =~= (keep_printable(a) + keep_printable(b.drop_last())).push(b.last()));
        }
    }
}

pub proof fn lemma_keep_printable_valid(s: Seq<u8>)
    ensures
        keep_printable(s).len() <= s.len(),
        forall|i: int|
            0 <= i < keep_printable(s).len() ==> is_printable(#[trigger] keep_printable(s)[i]),
    decreases s.len(),
{
    if s.len() > 0 {
        lemma_keep_printable_valid(s.drop_last());
    }
}

proof fn lemma_keep_printable_of_printable(s: Seq<u8>)
    requires
        forall|i: int| 0 <= i < s.len() ==> is_printable(#[trigger] s[i]),
    ensures
        keep_printable(s) == s,
    decreases s.len(),
{
    if s.len() > 0 {
        lemma_keep_printable_of_printable(s.drop_last());
        assert(s.drop_last().push(s.last()) =~= s);
    }
}

proof fn lemma_before_nul_take(s: Seq<u8>, n: int)
    requires
        0 <= n <= s.len(),
        forall|j: int| 0 <= j < n ==> s[j] != 0,
        n == s.len() || s[n] == 0,
    ensures
        before_nul(s) == s.take(n),
    decreases n,
{
    if n == 0 {
        assert(s.take(0) =~= Seq::<u8>::empty());
    } else {
        let t = s.drop_first();
        assert forall|j: int| 0 <= j < n - 1 implies t[j] != 0 by {
            assert(t[j] == s[j + 1]);
        }
        lemma_before_nul_take(t, n - 1);
        assert(seq![s[0]] + t.take(n - 1) =~= s.take(n));
    }
}

/// Text made of printable bytes only, and no longer than the limit,
/// denotes itself.
pub proof fn lemma_text_of_file_valid(s: Seq<u8>)
    requires
        valid_text(s),
    ensures
        text_of_file(s) == s,
{
    lemma_before_nul_take(s, s.len() as int);
    assert(s.take(s.len() as int) =~= s);
    if s.len() > 0 {
        assert(is_printable(s[s.len() - 1]));
    }
    assert(trim_line_end(s) == s);
    lemma_keep_printable_of_printable(s);
}

/// What a file denotes is always a valid value, and reading that value
/// back as a file gives it again.
pub proof fn lemma_text_of_file_idempotent(input: Seq<u8>)
    ensures
        valid_text(text_of_file(input)),
        text_of_file(text_of_file(input)) == text_of_file(input),
{
    let k = keep_printable(trim_line_end(before_nul(input)));
    lemma_keep_printable_valid(trim_line_end(before_nul(input)));
    let t = text_of_file(input);
    assert forall|i: int| 0 <= i < t.len() implies is_printable(#[trigger] t[i]) by {
        if k.len() > MAX_TEXT_LEN {
            assert(t[i] == k[i]);
        }
    }
    lemma_text_of_file_valid(t);
}

/// Whether the value that a file denotes is already fixed by its first
/// bytes `acc`: a NUL has ended it, or `MAX_TEXT_LEN` printable bytes came
/// before any NUL.
pub open spec fn text_settled(acc: Seq<u8>) -> bool {
    before_nul(acc) != acc || keep_printable(before_nul(acc)).len() >= MAX_TEXT_LEN
}

/// Appending bytes after a NUL does not change what comes before it;
/// appending bytes to a sequence without NUL puts them before the NUL.
pub proof fn lemma_before_nul_append(a: Seq<u8>, b: Seq<u8>)
    ensures
        before_nul(a) != a ==> before_nul(a + b) == before_nul(a),
        before_nul(a) == a ==> before_nul(a + b) == a + before_nul(b),
    decreases a.len(),
{
    if a.len() == 0 {
        assert(a =~= Seq::<u8>::empty());
        assert(before_nul(a) == a);
        assert(a + b =~= b);
        assert(a + before_nul(b) =~= before_nul(b));
    } else {
        let t = a.drop_first();
        assert((a + b)[0] == a[0]);
        assert((a + b).drop_first() =~= t + b);
        lemma_before_nul_append(t, b);
        if a[0] == 0 {
            assert(before_nul(a) == Seq::<u8>::empty());
            assert(before_nul(a + b) == Seq::<u8>::empty());
            assert(before_nul(a) != a) by {
                assert(a.len() > 0);
            }
        } else {
            assert(before_nul(a) == seq![a[0]] + before_nul(t));
            assert(before_nul(a + b) == seq![a[0]] + before_nul(t + b));
            if before_nul(t) == t {
                assert(seq![a[0]] + t =~= a);
                assert(seq![a[0]] + (t + before_nul(b)) =~= a + before_nul(b));
            } else {
                assert(before_nul(a) != a) by {
                    if before_nul(a) == a {
                        assert(before_nul(a).drop_first() =~= before_nul(t));
                        assert(a.drop_first() == t);
                    }
                }
            }
        }
    }
}

/// What comes before the first NUL is no longer than the sequence.
proof fn lemma_before_nul_len(a: Seq<u8>)
    ensures
        before_nul(a).len() <= a.len(),
    decreases a.len(),
{
    if a.len() > 0 && a[0] != 0 {
        lemma_before_nul_len(a.drop_first());
    }
}

/// What comes before the first NUL of a single byte.
proof fn lemma_before_nul_single(b: u8)
    ensures
        before_nul(seq![b]) == if b == 0 {
            Seq::<u8>::empty()
        } else {
            seq![b]
        },
{
    assert(seq![b].drop_first() =~= Seq::<u8>::empty());
    assert(before_nul(Seq::<u8>::empty()) == Seq::<u8>::empty());
    if b != 0 {
        assert(seq![b] + Seq::<u8>::empty() =~= seq![b]);
    }
}

/// Line endings are not printable, so trimming them keeps the same
/// printable bytes.
pub proof fn lemma_keep_printable_trim(s: Seq<u8>)
    ensures
        keep_printable(trim_line_end(s)) == keep_printable(s),
    decreases s.len(),
{
    if s.len() > 0 && is_line_end(s.last()) {
        lemma_keep_printable_trim(s.drop_last());
    }
}

/// Once the first bytes of a file settle its value, the bytes after them
/// do not change it.
pub proof fn lemma_settled_text_stays(a: Seq<u8>, b: Seq<u8>)
    requires
        text_settled(a),
    ensures
        text_of_file(a + b) == text_of_file(a),
{
    lemma_before_nul_append(a, b);
    lemma_keep_printable_trim(before_nul(a + b));
    lemma_keep_printable_trim(before_nul(a));
    if before_nul(a) == a {
        lemma_keep_printable_append(a, before_nul(b));
        let k = keep_printable(a);
        assert((k + keep_printable(before_nul(b))).take(MAX_TEXT_LEN as int) =~= k.take(
            MAX_TEXT_LEN as int,
        ));
    }
}

/// Reads the value of a file from its bytes as they arrive.
pub struct TextReader {
    bytes: [u8; 50],
    count: usize,
    ended: bool,
    seen: Ghost<Seq<u8>>,
}

impl View for TextReader {
    type V = Seq<u8>;

    closed spec fn view(&self) -> Seq<u8> {
        self.seen@
    }
}

impl TextReader {
    /// Whether the reader's buffer matches the bytes it has seen.
    pub closed spec fn wf(self) -> bool {
        let k = keep_printable(before_nul(self.seen@));
        &&& self.count <= MAX_TEXT_LEN
        &&& self.ended == (before_nul(self.seen@) != self.seen@)
        &&& self.count == if k.len() < MAX_TEXT_LEN {
            k.len() as int
        } else {
            MAX_TEXT_LEN as int
        }
        &&& self.bytes@.take(self.count as int) == k.take(self.count as int)
    }

    /// A reader that has seen nothing.
    pub fn new() -> (r: Self)
        ensures
            r.wf(),
            r@ == Seq::<u8>::empty(),
    {
        let r = TextReader { bytes: [0u8; 50], count: 0, ended: false, seen: Ghost(Seq::empty()) };
        assert(r.bytes@.take(0) =~= Seq::<u8>::empty());
        assert(before_nul(Seq::<u8>::empty()) == Seq::<u8>::empty());
        assert(keep_printable(Seq::<u8>::empty()) == Seq::<u8>::empty());
        assert(r.seen@ == Seq::<u8>::empty());
        assert(Seq::<u8>::empty().take(0) =~= Seq::<u8>::empty());
        r
    }

    /// Whether the value is settled by the bytes seen so far.
    pub fn settled(&self) -> (b: bool)
        requires
            self.wf(),
        ensures
            b == text_settled(self@),
    {
        self.ended || self.count == MAX_TEXT_LEN
    }

    /// Takes the next byte of the file.
    pub fn push(&mut self, b: u8)
        requires
            old(self).wf(),
        ensures
            final(self).wf(),
            final(self)@ == old(self)@.push(b),
    {
        let ghost a = self.seen@;
        let ghost k = keep_printable(before_nul(a));
        let ghost a2 = a.push(b);
        proof {
            assert(a + seq![b] =~= a2);
            lemma_before_nul_append(a, seq![b]);
            lemma_before_nul_single(b);
            assert(keep_printable(Seq::<u8>::empty()) == Seq::<u8>::empty());
            if before_nul(a) == a {
                lemma_keep_printable_append(a, before_nul(seq![b]));
                if b == 0 {
                    assert(before_nul(a2) =~= a);
                    assert(a != a2) by {
                        assert(a.len() != a2.len());
                    }
                    assert(keep_printable(a) + Seq::<u8>::empty() =~= keep_printable(a));
                } else {
                    assert(before_nul(a2) =~= a2);
                    assert(seq![b].drop_last() =~= Seq::<u8>::empty());
                    if is_printable(b) {
                        assert(keep_printable(seq![b]) =~= seq![b]);
                        assert(keep_printable(a2) =~= k.push(b));
                    } else {
                        assert(keep_printable(seq![b]) =~= Seq::<u8>::empty());
                        assert(keep_printable(a2) =~= k);
                    }
                }
            } else {
                assert(before_nul(a2) == before_nul(a));
                assert(before_nul(a2) != a2) by {
                    if before_nul(a2) == a2 {
                        assert(before_nul(a).len() <= a.len()) by {
                            lemma_before_nul_len(a);
                        }
                    }
                }
            }
        }
        if !self.ended {
            if b == 0 {
                self.ended = true;
            } else if 0x20 <= b && b <= 0x7e && self.count < MAX_TEXT_LEN {
                let ghost prior = self.bytes@;
                self.bytes[self.count] = b;
                assert(self.bytes@.take(self.count + 1) =~= prior.take(self.count as int).push(b));
                assert(k.take(self.count as int) =~= k);
                assert(k.push(b).take(self.count + 1) =~= k.push(b));
                self.count = self.count + 1;
            } else if 0x20 <= b && b <= 0x7e {
                assert(k.push(b).take(self.count as int) =~= k.take(self.count as int));
            }
        }
        self.seen = Ghost(a2);
    }

    /// Takes the next bytes of the file.
    pub fn push_slice(&mut self, s: &[u8])
        requires
            old(self).wf(),
        ensures
            final(self).wf(),
            final(self)@ == old(self)@ + s@,
    {
        let n = s.len();
        let mut i: usize = 0;
        while i < n
            invariant
                n == s@.len(),
                i <= n,
                self.wf(),
                self@ == old(self)@ + s@.take(i as int),
            decreases n - i,
        {
            self.push(s[i]);
            assert(old(self)@ + s@.take(i + 1) =~= (old(self)@ + s@.take(i as int)).push(s@[i as int]));
            i = i + 1;
        }
        assert(s@.take(n as int) =~= s@);
    }

    /// The value that the bytes seen so far denote.
    pub fn finish(&self) -> (text: AutofillText)
        requires
            self.wf(),
        ensures
            text@ == text_of_file(self@),
            valid_text(text@),
    {
        let ghost k = keep_printable(before_nul(self@));
        proof {
            lemma_keep_printable_valid(before_nul(self@));
            lemma_keep_printable_trim(before_nul(self@));
            assert(cap_text(k) =~= k.take(self.count as int));
            assert(valid_text(k.take(self.count as int)));
            lemma_text_of_file_valid(k.take(self.count as int));
        }
        AutofillText::from_file_bytes(
            vstd::slice::slice_subrange(self.bytes.as_slice(), 0, self.count),
        )
    }
}

/// The autofill value.
#[derive(Clone, Copy, Debug, Eq)]
pub struct AutofillText {
    bytes: [u8; 50],
    len: u8,
}

impl View for AutofillText {
    type V = Seq<u8>;

    closed spec fn view(&self) -> Seq<u8> {
        self.bytes@.take(self.len as int)
    }
}

impl AutofillText {
    #[verifier::type_invariant]
    spec fn well_formed(self) -> bool {
        &&& self.len <= MAX_TEXT_LEN
        &&& forall|i: int| 0 <= i < self.len ==> is_printable(#[trigger] self.bytes@[i])
        &&& forall|i: int| self.len <= i < MAX_TEXT_LEN ==> #[trigger] self.bytes@[i] == 0
    }

    /// The empty value.
    pub fn empty() -> (text: Self)
        ensures
            text@ == Seq::<u8>::empty(),
    {
        let text = Self { bytes: [0u8; 50], len: 0 };
        assert(text@ =~= Seq::<u8>::empty());
        text
    }

    /// The value that the contents of a file denote.
    pub fn from_file_bytes(input: &[u8]) -> (text: Self)
        ensures
            text@ == text_of_file(input@),
            valid_text(text@),
    {
        let ghost s = input@;
        let n = input.len();
        let mut logical_end: usize = 0;
        while logical_end < n && input[logical_end] != 0
            invariant
                n == s.len(),
                s == input@,
                logical_end <= n,
                forall|j: int| 0 <= j < logical_end ==> s[j] != 0,
            decreases n - logical_end,
        {
            logical_end = logical_end + 1;
        }
        proof {
            lemma_before_nul_take(s, logical_end as int);
        }
        let mut end: usize = logical_end;
        while end > 0 && (input[end - 1] == 0x0d || input[end - 1] == 0x0a)
            invariant
                n == s.len(),
                s == input@,
                end <= logical_end <= n,
                trim_line_end(before_nul(s)) == trim_line_end(s.take(end as int)),
            decreases end,
        {
            assert(s.take(end as int).drop_last() =~= s.take(end - 1));
            end = end - 1;
        }
        assert(trim_line_end(before_nul(s)) == s.take(end as int));

        let mut bytes = [0u8; 50];
        let mut count: usize = 0;
        let mut i: usize = 0;
        while i < end
            invariant
                n == s.len(),
                s == input@,
                end <= n,
                i <= end,
                count <= MAX_TEXT_LEN,
                count == keep_printable(s.take(i as int)).len() || (count == MAX_TEXT_LEN
                    && keep_printable(s.take(i as int)).len() >= MAX_TEXT_LEN),
                bytes@.len() == MAX_TEXT_LEN,
                bytes@.take(count as int) == keep_printable(s.take(i as int)).take(count as int),
                forall|k: int| count <= k < MAX_TEXT_LEN ==> #[trigger] bytes@[k] == 0,
            ensures
                count == keep_printable(s.take(end as int)).len() || (count == MAX_TEXT_LEN
                    && keep_printable(s.take(end as int)).len() >= MAX_TEXT_LEN),
                bytes@.len() == MAX_TEXT_LEN,
                count <= MAX_TEXT_LEN,
                bytes@.take(count as int) == keep_printable(s.take(end as int)).take(count as int),
                forall|k: int| count <= k < MAX_TEXT_LEN ==> #[trigger] bytes@[k] == 0,
            decreases end - i,
        {
            let byte = input[i];
            proof {
                assert(s.take(i + 1).drop_last() =~= s.take(i as int));
                assert(s.take(i + 1).last() == byte);
                lemma_keep_printable_append(s.take(i + 1), s.subrange(i + 1, end as int));
                assert(s.take(i + 1) + s.subrange(i + 1, end as int) =~= s.take(end as int));
            }
            if 0x20 <= byte && byte <= 0x7e {
                if count == MAX_TEXT_LEN {
                    proof {
                        lemma_keep_printable_append(s.take(i as int), s.subrange(i as int, end as int));
                        assert(s.take(i as int) + s.subrange(i as int, end as int) =~= s.take(end as int));
                        assert(keep_printable(s.take(end as int)).take(count as int)
                            =~= keep_printable(s.take(i as int)).take(count as int));
                    }
                    break;
                }
                assert(keep_printable(s.take(i + 1)) == keep_printable(s.take(i as int)).push(byte));
                assert(count == keep_printable(s.take(i as int)).len());
                assert(keep_printable(s.take(i as int)).take(count as int)
                    =~= keep_printable(s.take(i as int)));
                let ghost before = bytes@;
                bytes[count] = byte;
                assert(bytes@ == before.update(count as int, byte));
                count = count + 1;
                assert(bytes@.take(count as int) =~= keep_printable(s.take(i + 1)).take(count as int));
            } else {
                assert(keep_printable(s.take(i + 1)) == keep_printable(s.take(i as int)));
            }
            i = i + 1;
        }
        proof {
            lemma_keep_printable_valid(s.take(end as int));
            assert forall|k: int| 0 <= k < count implies is_printable(#[trigger] bytes@[k]) by {
                assert(bytes@.take(count as int)[k] == bytes@[k]);
            }
        }
        let text = Self { bytes, len: count as u8 };
        assert(text@ =~= text_of_file(s));
        text
    }

    /// The bytes of the value.
    pub fn as_bytes(&self) -> (bytes: &[u8])
        ensures
            bytes@ == self@,
            valid_text(self@),
    {
        proof {
            use_type_invariant(self);
        }
        vstd::slice::slice_subrange(self.bytes.as_slice(), 0, self.len as usize)
    }

    /// Number of bytes in the value.
    pub fn len(&self) -> (n: usize)
        ensures
            n == self@.len(),
            valid_text(self@),
    {
        proof {
            use_type_invariant(self);
        }
        self.len as usize
    }

    /// Whether the value holds no byte.
    pub fn is_empty(&self) -> (b: bool)
        ensures
            b == (self@.len() == 0),
            valid_text(self@),
    {
        proof {
            use_type_invariant(self);
        }
        self.len == 0
    }
}

impl PartialEq for AutofillText {
    /// Two values are equal when they hold the same bytes.
    fn eq(&self, other: &Self) -> (same: bool) {
        proof {
            use_type_invariant(self);
            use_type_invariant(other);
        }
        if self.len != other.len {
            assert(self@.len() != other@.len());
            return false;
        }
        let n = self.len as usize;
        let mut i: usize = 0;
        while i < n
            invariant
                n == self.len,
                n == other.len,
                n <= MAX_TEXT_LEN,
                self.bytes@.len() == MAX_TEXT_LEN,
                other.bytes@.len() == MAX_TEXT_LEN,
                i <= n,
                forall|j: int| 0 <= j < i ==> self.bytes@[j] == other.bytes@[j],
            decreases n - i,
        {
            if self.bytes[i] != other.bytes[i] {
                assert(self@[i as int] != other@[i as int]);
                return false;
            }
            i = i + 1;
        }
        assert(self@ =~= other@);
        true
    }
}

impl PartialEqSpecImpl for AutofillText {
    open spec fn obeys_eq_spec() -> bool {
        true
    }

    open spec fn eq_spec(&self, other: &AutofillText) -> bool {
        self@ == other@
    }
}

impl Default for AutofillText {
    fn default() -> (text: Self)
        ensures
            text@ == Seq::<u8>::empty(),
    {
        Self::empty()
    }
}

} // verus!
