//! Sync-marker framing of a byte stream.
//!
//! Each payload is written as `marker ‖ payload`, with no length field. A
//! reader finds a payload as the bytes strictly between the first marker in
//! its buffer and the next one; bytes before the first marker are dropped.

use vstd::prelude::*;
use tokio_util::bytes::BytesMut;
use crate::buffer::{buffered, contents, discard_front, append};

verus! {

/// The marker written in front of every payload on the stream transports.
pub const DEFAULT_SYNC_BYTES: [u8; 4] = [0x1A, 0xCF, 0xFC, 0x1D];

/// Whether `m` occurs in `buf` starting at position `i`.
pub open spec fn marker_at(buf: Seq<u8>, m: Seq<u8>, i: int) -> bool {
    0 <= i && i + m.len() <= buf.len() && buf.subrange(i, i + m.len()) == m
}

/// The first position at or after `from` where `m` occurs in `buf`.
pub open spec fn find_marker(buf: Seq<u8>, m: Seq<u8>, from: int) -> Option<int>
    decreases buf.len() + 1 - from,
{
    if from < 0 || from + m.len() > buf.len() {
        None
    } else if marker_at(buf, m, from) {
        Some(from)
    } else {
        find_marker(buf, m, from + 1)
    }
}

/// The bounds `(start, end)` of the first complete payload in `buf`: it
/// starts right after the first marker and ends where the next marker begins.
pub open spec fn next_frame(buf: Seq<u8>, m: Seq<u8>) -> Option<(int, int)> {
    match find_marker(buf, m, 0) {
        Some(s) => match find_marker(buf, m, s + m.len()) {
            Some(e) => Some((s + m.len(), e)),
            None => None,
        },
        None => None,
    }
}

/// An occurrence with none before it, from `from` on, is what
/// `find_marker` finds.
proof fn lemma_find_marker_at(buf: Seq<u8>, m: Seq<u8>, from: int, p: int)
    requires
        0 <= from <= p,
        marker_at(buf, m, p),
        forall|j: int| from <= j < p ==> !marker_at(buf, m, j),
    ensures
        find_marker(buf, m, from) == Some(p),
    decreases p - from,
{
    if from < p {
        lemma_find_marker_at(buf, m, from + 1, p);
    }
}

/// Where no occurrence starts at or after `from`, `find_marker` finds none.
proof fn lemma_find_marker_absent(buf: Seq<u8>, m: Seq<u8>, from: int)
    requires
        0 <= from,
        forall|j: int| from <= j ==> !marker_at(buf, m, j),
    ensures
        find_marker(buf, m, from).is_none(),
    decreases buf.len() + 1 - from,
{
    if from + m.len() <= buf.len() {
        lemma_find_marker_absent(buf, m, from + 1);
    }
}

/// A payload framed as `marker ‖ payload ‖ marker`, after any junk, is the
/// first payload taken from the stream, where the marker does not occur in
/// the junk or inside the frame: the junk and the payload are dropped and
/// the closing marker stays at the head. Before the closing marker has
/// arrived, no payload is taken.
pub proof fn lemma_delimited_payload(junk: Seq<u8>, m: Seq<u8>, p: Seq<u8>, rest: Seq<u8>)
    requires
        m.len() > 0,
        forall|j: int| 0 <= j < junk.len() ==> !marker_at(junk + m + p + m + rest, m, j),
        forall|j: int|
            junk.len() < j < junk.len() + m.len() + p.len() ==> !marker_at(
                junk + m + p + m + rest,
                m,
                j,
            ),
    ensures
        next_frame(junk + m + p + m + rest, m) == Some(
            ((junk.len() + m.len()) as int, (junk.len() + m.len() + p.len()) as int),
        ),
        (junk + m + p + m + rest).subrange(
            (junk.len() + m.len()) as int,
            (junk.len() + m.len() + p.len()) as int,
        ) == p,
        (junk + m + p + m + rest).skip((junk.len() + m.len() + p.len()) as int) == m + rest,
        next_frame(junk + m + p, m).is_none(),
{
    let b = junk + m + p + m + rest;
    let a = junk + m + p;
    let s = junk.len() as int;
    let lo = s + m.len();
    let hi = lo + p.len();
    assert(b.subrange(s, s + m.len()) =~= m);
    assert(b.subrange(hi, hi + m.len()) =~= m);
    lemma_find_marker_at(b, m, 0, s);
    lemma_find_marker_at(b, m, lo, hi);
    assert(b.subrange(lo, hi) =~= p);
    assert(b.skip(hi) =~= m + rest);
    assert forall|j: int| 0 <= j && marker_at(a, m, j) implies marker_at(b, m, j) by {
        assert(a.subrange(j, j + m.len()) =~= b.subrange(j, j + m.len()));
    }
    assert(a.subrange(s, s + m.len()) =~= m);
    lemma_find_marker_at(a, m, 0, s);
    lemma_find_marker_absent(a, m, lo);
}

/// A framing codec with one marker for reading and one for writing.
#[derive(Clone, Debug)]
pub struct SyncSequenceCodec {
    sync_sequence_read: Vec<u8>,
    sync_sequence_write: Vec<u8>,
}

impl SyncSequenceCodec {
    /// The marker that delimits payloads on reading.
    pub closed spec fn read_marker(&self) -> Seq<u8> {
        self.sync_sequence_read@
    }

    /// The marker written in front of each payload.
    pub closed spec fn write_marker(&self) -> Seq<u8> {
        self.sync_sequence_write@
    }

    /// Creates a codec with the given read and write markers.
    pub fn new(sync_sequence_read: Vec<u8>, sync_sequence_write: Vec<u8>) -> (r: Self)
        ensures
            r.read_marker() == sync_sequence_read@,
            r.write_marker() == sync_sequence_write@,
    {
        SyncSequenceCodec { sync_sequence_read, sync_sequence_write }
    }

    /// Takes the first complete payload out of `src`.
    ///
    /// Where `src` holds a marker followed later by another, returns the
    /// bytes between them and drops everything before the second marker.
    /// Otherwise returns `None` and leaves `src` as it was.
    pub fn decode(&self, src: &mut BytesMut) -> (r: Option<Vec<u8>>)
        ensures
            match next_frame(buffered(*old(src)), self.read_marker()) {
                Some((lo, hi)) => 0 <= lo <= hi <= buffered(*old(src)).len() && r.is_some()
                    && r.unwrap()@ == buffered(*old(src)).subrange(lo, hi)
                    && buffered(*final(src)) == buffered(*old(src)).skip(hi),
                None => r.is_none() && buffered(*final(src)) == buffered(*old(src)),
            },
    {
        let buf = contents(src);
        let m = self.sync_sequence_read.as_slice();
        match find_marker_from(buf, m, 0) {
            Some(s) => match find_marker_from(buf, m, s + m.len()) {
                Some(e) => {
                    let payload = vstd::slice::slice_to_vec(vstd::slice::slice_subrange(buf, s + m.len(), e));
                    discard_front(src, e);
                    Some(payload)
                },
                None => None,
            },
            None => None,
        }
    }

    /// Appends `marker ‖ item` to `dst`.
    pub fn encode(&self, item: &[u8], dst: &mut BytesMut)
        requires
            buffered(*old(dst)).len() + self.write_marker().len() + item@.len() <= isize::MAX,
        ensures
            buffered(*final(dst)) == buffered(*old(dst)) + self.write_marker() + item@,
    {
        append(dst, self.sync_sequence_write.as_slice());
        append(dst, item);
    }
}

/// Whether `m` occurs in `buf` at position `i`.
fn marker_matches(buf: &[u8], m: &[u8], i: usize) -> (r: bool)
    requires
        i + m@.len() <= buf@.len(),
    ensures
        r == marker_at(buf@, m@, i as int),
{
    let mut k: usize = 0;
    while k < m.len()
        invariant
            i + m.len() <= buf.len(),
            0 <= k <= m@.len(),
            forall|j: int| 0 <= j < k ==> buf@[i + j] == m@[j],
        decreases m@.len() - k,
    {
        if buf[i + k] != m[k] {
            assert(buf@.subrange(i as int, i + m@.len())[k as int] != m@[k as int]);
            return false;
        }
        k = k + 1;
    }
    assert(buf@.subrange(i as int, i + m@.len()) =~= m@);
    true
}

/// The first position at or after `from` where `m` occurs in `buf`.
fn find_marker_from(buf: &[u8], m: &[u8], from: usize) -> (r: Option<usize>)
    ensures
        match r {
            Some(p) => find_marker(buf@, m@, from as int) == Some(p as int) && from <= p && p
                + m.len() <= buf.len(),
            None => find_marker(buf@, m@, from as int).is_none(),
        },
{
    if m.len() > buf.len() || from > buf.len() - m.len() {
        return None;
    }
    if m.len() == 0 {
        assert(buf@.subrange(from as int, from as int) =~= m@);
        return Some(from);
    }
    let last: usize = buf.len() - m.len();
    let mut i: usize = from;
    while i <= last
        invariant
            from <= i,
            m@.len() > 0,
            last + m.len() == buf.len(),
            find_marker(buf@, m@, from as int) == find_marker(buf@, m@, i as int),
        decreases last + 1 - i,
    {
        if marker_matches(buf, m, i) {
            return Some(i);
        }
        i = i + 1;
    }
    None
}

} // verus!
