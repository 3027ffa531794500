use vstd::prelude::*;

use crate::address::Address;

verus! {

/// Key/value metadata attached to a message, as pairs of byte strings.
pub type Metadata = Vec<(Vec<u8>, Vec<u8>)>;

/// The abstract contents of metadata entries.
pub open spec fn metadata_view(m: Seq<(Vec<u8>, Vec<u8>)>) -> Seq<(Seq<u8>, Seq<u8>)> {
    Seq::new(m.len(), |i: int| (m[i].0@, m[i].1@))
}

/// A byte of the form `10xxxxxx`, which may continue a UTF-8 encoded character.
pub open spec fn is_continuation_byte(b: u8) -> bool {
    0x80 <= b && b < 0xC0
}

/// How many continuation bytes a UTF-8 lead byte announces: one for
/// `110xxxxx`, two for `1110xxxx`, three for `11110xxx`, none otherwise.
pub open spec fn continuation_len(b: u8) -> int {
    if 0xC0 <= b && b < 0xE0 {
        1
    } else if 0xE0 <= b && b < 0xF0 {
        2
    } else if 0xF0 <= b && b < 0xF8 {
        3
    } else {
        0
    }
}

/// Reading `s` from the start: the characters counted so far, and how many
/// continuation bytes the last lead byte still announces. A byte is one more
/// character unless it is a continuation byte that a lead byte announced; a
/// stray continuation byte counts as a character of its own.
pub open spec fn char_scan(s: Seq<u8>) -> (int, int)
    decreases s.len(),
{
    if s.len() == 0 {
        (0, 0)
    } else {
        let (n, pending) = char_scan(s.drop_last());
        let b = s.last();
        if is_continuation_byte(b) && pending > 0 {
            (n, pending - 1)
        } else {
            (n + 1, continuation_len(b))
        }
    }
}

/// The number of characters in the text `s`, read as UTF-8.
pub open spec fn char_count(s: Seq<u8>) -> int {
    char_scan(s).0
}

/// Each character spans at most four bytes, and no more continuation bytes
/// are announced than three.
pub proof fn lemma_char_scan_bounds(s: Seq<u8>)
    ensures
        0 <= char_scan(s).1 <= 3,
        0 <= char_scan(s).0 <= s.len(),
        s.len() + char_scan(s).1 <= 4 * char_scan(s).0,
    decreases s.len(),
{
    if s.len() > 0 {
        lemma_char_scan_bounds(s.drop_last());
    }
}

/// The number of characters in the text `text`, read as UTF-8.
pub fn count_chars(text: &Vec<u8>) -> (n: usize)
    ensures
        n == char_count(text@),
{
    let len = text.len();
    let mut n: usize = 0;
    let mut pending: u8 = 0;
    let mut i: usize = 0;
    while i < len
        invariant
            len == text.len(),
            i <= len,
            n <= i,
            (n as int, pending as int) == char_scan(text@.take(i as int)),
        decreases len - i,
    {
        assert(text@.take(i + 1).drop_last() =~= text@.take(i as int));
        let b = text[i];
        if 0x80 <= b && b < 0xC0 && pending > 0 {
            pending = pending - 1;
        } else {
            n = n + 1;
            pending = if 0xC0 <= b && b < 0xE0 {
                1
            } else if 0xE0 <= b && b < 0xF0 {
                2
            } else if 0xF0 <= b && b < 0xF8 {
                3
            } else {
                0
            };
        }
        i = i + 1;
    }
    assert(text@.take(len as int) =~= text@);
    n
}

/// A copy of a byte string.
pub fn copy_bytes(b: &Vec<u8>) -> (r: Vec<u8>)
    ensures
        r@ == b@,
{
    let r = b.clone();
    assert(r@ =~= b@);
    r
}

/// A copy of metadata entries.
pub fn copy_metadata(m: &Metadata) -> (r: Metadata)
    ensures
        metadata_view(r@) == metadata_view(m@),
{
    let mut r: Metadata = Vec::new();
    let n = m.len();
    for i in 0..n
        invariant
            n == m.len(),
            r.len() == i,
            forall|j: int| 0 <= j < i ==> (#[trigger] r@[j]).0@ == m@[j].0@ && r@[j].1@ == m@[j].1@,
    {
        let k = copy_bytes(&m[i].0);
        let v = copy_bytes(&m[i].1);
        r.push((k, v));
    }
    assert(metadata_view(r@) =~= metadata_view(m@));
    r
}

/// A tip that came with a note: who sent it, to whom, how much, the note,
/// its metadata and the ledger time at which it was recorded.
#[derive(Debug, PartialEq, Eq)]
pub struct TipWithMessage {
    pub sender: Address,
    pub creator: Address,
    pub amount: i128,
    pub message: Vec<u8>,
    pub metadata: Metadata,
    pub timestamp: u64,
}

/// The abstract contents of a [`TipWithMessage`].
pub struct TipNote {
    pub sender: Seq<u8>,
    pub creator: Seq<u8>,
    pub amount: i128,
    pub message: Seq<u8>,
    pub metadata: Seq<(Seq<u8>, Seq<u8>)>,
    pub timestamp: u64,
}

impl View for TipWithMessage {
    type V = TipNote;

    open spec fn view(&self) -> TipNote {
        TipNote {
            sender: self.sender@,
            creator: self.creator@,
            amount: self.amount,
            message: self.message@,
            metadata: metadata_view(self.metadata@),
            timestamp: self.timestamp,
        }
    }
}

impl Clone for TipWithMessage {
    fn clone(&self) -> (r: Self)
        ensures
            r@ == self@,
    {
        TipWithMessage {
            sender: self.sender.clone(),
            creator: self.creator.clone(),
            amount: self.amount,
            message: copy_bytes(&self.message),
            metadata: copy_metadata(&self.metadata),
            timestamp: self.timestamp,
        }
    }
}

/// The abstract contents of a list of messages.
pub open spec fn notes_view(s: Seq<TipWithMessage>) -> Seq<TipNote> {
    s.map_values(|t: TipWithMessage| t@)
}

/// A copy of a list of messages, in the same order.
pub fn copy_messages(s: &Vec<TipWithMessage>) -> (r: Vec<TipWithMessage>)
    ensures
        notes_view(r@) == notes_view(s@),
{
    let mut r: Vec<TipWithMessage> = Vec::new();
    let n = s.len();
    for i in 0..n
        invariant
            n == s.len(),
            r.len() == i,
            forall|j: int| 0 <= j < i ==> (#[trigger] r@[j])@ == s@[j]@,
    {
        r.push(s[i].clone());
    }
    assert(notes_view(r@) =~= notes_view(s@));
    r
}

} // verus!
