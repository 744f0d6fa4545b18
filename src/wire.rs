//! Fixed-layout binary encoding of a pose record.
//!
//! A packet is 65 bytes: one flag byte for `detected`, then eight
//! little-endian 64-bit words (tag id, timestamp, translation x/y/z,
//! rotation roll/pitch/yaw). Floating-point fields are carried as their
//! IEEE-754 bit patterns, so the codec is exact on every value.

use vstd::prelude::*;
use vstd::bytes::{spec_u64_to_le_bytes, spec_u64_from_le_bytes, u64_to_le_bytes, u64_from_le_bytes, lemma_auto_spec_u64_to_from_le_bytes};

verus! {

/// Length in bytes of every encoded packet.
pub const PACKET_LEN: usize = 65;

/// One published pose estimate.
///
/// `timestamp` (seconds), `translation` (meters) and `rotation` (radians,
/// roll/pitch/yaw) hold the bit patterns of 64-bit floats.
#[derive(Clone, Copy, Debug, PartialEq, Eq)]
pub struct VisionData {
    pub detected: bool,
    pub tag_id: u64,
    pub timestamp: u64,
    pub translation: [u64; 3],
    pub rotation: [u64; 3],
}

/// Why a buffer could not be read as a packet.
#[derive(Clone, Copy, Debug, PartialEq, Eq)]
pub enum WireError {
    /// The buffer is not exactly `PACKET_LEN` bytes long.
    LengthMismatch { expected: usize, found: usize },
}

pub open spec fn flag_byte(b: bool) -> u8 {
    if b { 1u8 } else { 0u8 }
}

/// The eight 64-bit words of a record, in packet order.
pub open spec fn words(d: VisionData) -> Seq<u64> {
    seq![
        d.tag_id, d.timestamp,
        d.translation[0], d.translation[1], d.translation[2],
        d.rotation[0], d.rotation[1], d.rotation[2],
    ]
}

/// Little-endian bytes of the first `n` words of `w`, concatenated.
pub open spec fn words_le(w: Seq<u64>, n: nat) -> Seq<u8>
    decreases n,
{
    if n == 0 { Seq::empty() } else { words_le(w, (n - 1) as nat) + spec_u64_to_le_bytes(w[n - 1]) }
}

/// The packet that encodes `d`.
pub open spec fn encoding(d: VisionData) -> Seq<u8> {
    seq![flag_byte(d.detected)] + words_le(words(d), 8)
}

/// The `k`-th 64-bit word stored in a packet.
pub open spec fn word_at(b: Seq<u8>, k: int) -> u64 {
    spec_u64_from_le_bytes(b.subrange(1 + 8 * k, 9 + 8 * k))
}

/// The record that a packet of `PACKET_LEN` bytes holds.
pub open spec fn decoding(b: Seq<u8>) -> VisionData {
    VisionData {
        detected: b[0] != 0,
        tag_id: word_at(b, 0),
        timestamp: word_at(b, 1),
        translation: [word_at(b, 2), word_at(b, 3), word_at(b, 4)],
        rotation: [word_at(b, 5), word_at(b, 6), word_at(b, 7)],
    }
}


/// A record published by the pipeline: one without a detection carries a
/// zero tag id and all-zero vectors.
pub open spec fn is_consistent(d: VisionData) -> bool {
    !d.detected ==> (d.tag_id == 0 && d.translation@ == seq![0u64, 0, 0] && d.rotation@ == seq![
        0u64,
        0,
        0,
    ])
}

proof fn lemma_words_le_len(w: Seq<u64>, n: nat)
    ensures
        words_le(w, n).len() == 8 * n,
    decreases n,
{
    lemma_auto_spec_u64_to_from_le_bytes();
    if n > 0 {
        lemma_words_le_len(w, (n - 1) as nat);
    }
}

proof fn lemma_words_le_word(w: Seq<u64>, n: nat, k: int)
    requires
        0 <= k < n,
    ensures
        words_le(w, n).subrange(8 * k, 8 * k + 8) == spec_u64_to_le_bytes(w[k]),
    decreases n,
{
    lemma_auto_spec_u64_to_from_le_bytes();
    lemma_words_le_len(w, (n - 1) as nat);
    let prev = words_le(w, (n - 1) as nat);
    let last = spec_u64_to_le_bytes(w[n - 1]);
    if k == n - 1 {
        assert(words_le(w, n).subrange(8 * k, 8 * k + 8) =~= last);
    } else {
        lemma_words_le_word(w, (n - 1) as nat, k);
        assert(words_le(w, n).subrange(8 * k, 8 * k + 8) =~= prev.subrange(8 * k, 8 * k + 8));
    }
}

/// Every packet is exactly `PACKET_LEN` bytes long.
pub proof fn lemma_encoding_len(d: VisionData)
    ensures
        encoding(d).len() == PACKET_LEN,
{
    lemma_words_le_len(words(d), 8);
}

/// Decoding a packet gives back the record that was encoded, field for field;
/// the packet has the length that decoding accepts.
pub proof fn lemma_wire_round_trip(d: VisionData)
    ensures
        encoding(d).len() == PACKET_LEN,
        decoding(encoding(d)) == d,
{
    lemma_auto_spec_u64_to_from_le_bytes();
    let b = encoding(d);
    let w = words(d);
    lemma_words_le_len(w, 8);
    assert forall|k: int| 0 <= k < 8 implies word_at(b, k) == w[k] by {
        lemma_words_le_word(w, 8, k);
        assert(b.subrange(1 + 8 * k, 9 + 8 * k) =~= words_le(w, 8).subrange(8 * k, 8 * k + 8));
    }
    let r = decoding(b);
    assert(word_at(b, 0) == w[0]);
    assert(word_at(b, 1) == w[1]);
    assert(word_at(b, 2) == w[2]);
    assert(word_at(b, 3) == w[3]);
    assert(word_at(b, 4) == w[4]);
    assert(word_at(b, 5) == w[5]);
    assert(word_at(b, 6) == w[6]);
    assert(word_at(b, 7) == w[7]);
    assert(r.translation =~= d.translation);
    assert(r.rotation =~= d.rotation);
}

impl VisionData {
    /// Builds a record from its fields.
    pub fn new(detected: bool, tag_id: u64, timestamp: u64, translation: [u64; 3], rotation: [u64; 3]) -> (r: Self)
        ensures
            r == (VisionData { detected, tag_id, timestamp, translation, rotation }),
    {
        VisionData { detected, tag_id, timestamp, translation, rotation }
    }

    /// Encodes the record as a packet of `PACKET_LEN` bytes.
    pub fn into_bytes(&self) -> (r: Vec<u8>)
        ensures
            r@ == encoding(*self),
            r@.len() == PACKET_LEN,
    {
        let w: [u64; 8] = [
            self.tag_id,
            self.timestamp,
            self.translation[0],
            self.translation[1],
            self.translation[2],
            self.rotation[0],
            self.rotation[1],
            self.rotation[2],
        ];
        assert(w@ =~= words(*self));
        let mut out: Vec<u8> = Vec::with_capacity(PACKET_LEN);
        out.push(if self.detected { 1u8 } else { 0u8 });
        let mut i: usize = 0;
        while i < 8
            invariant
                0 <= i <= 8,
                w@ == words(*self),
                out@ == seq![flag_byte(self.detected)] + words_le(w@, i as nat),
            decreases 8 - i,
        {
            let bytes = u64_to_le_bytes(w[i]);
            out.extend_from_slice(bytes.as_slice());
            assert(words_le(w@, (i + 1) as nat) == words_le(w@, i as nat) + spec_u64_to_le_bytes(w@[i as int]));
            assert(out@ =~= seq![flag_byte(self.detected)] + words_le(w@, (i + 1) as nat));
            i = i + 1;
        }
        proof {
            lemma_encoding_len(*self);
        }
        out
    }

    /// Reads a record from a packet; fails unless the buffer is exactly
    /// `PACKET_LEN` bytes long.
    pub fn from_bytes(b: &[u8]) -> (r: Result<VisionData, WireError>)
        ensures
            b@.len() == PACKET_LEN ==> r == Ok::<VisionData, WireError>(decoding(b@)),
            b@.len() != PACKET_LEN ==> r == Err::<VisionData, WireError>(
                (WireError::LengthMismatch { expected: PACKET_LEN, found: b@.len() as usize }),
            ),
    {
        if b.len() != PACKET_LEN {
            return Err(WireError::LengthMismatch { expected: PACKET_LEN, found: b.len() });
        }
        let d = VisionData {
            detected: b[0] != 0,
            tag_id: read_word(b, 0),
            timestamp: read_word(b, 1),
            translation: [read_word(b, 2), read_word(b, 3), read_word(b, 4)],
            rotation: [read_word(b, 5), read_word(b, 6), read_word(b, 7)],
        };
        assert(d.translation@ =~= decoding(b@).translation@);
        assert(d.rotation@ =~= decoding(b@).rotation@);
        Ok(d)
    }
}

fn read_word(b: &[u8], k: usize) -> (r: u64)
    requires
        b@.len() == PACKET_LEN,
        k < 8,
    ensures
        r == word_at(b@, k as int),
{
    let s = vstd::slice::slice_subrange(b, 1 + 8 * k, 9 + 8 * k);
    u64_from_le_bytes(s)
}

} // verus!
