//! The binary wire layout for a vector: each 32-bit word becomes four bytes,
//! least significant first, so a whole vector is exactly `VEC_BYTES` bytes.
//!
//! Encoding is total on well-formed vectors; decoding accepts exactly the
//! buffers of length `VEC_BYTES` and is the inverse of encoding.

use vstd::prelude::*;

use crate::vector::{Vector, DIM};

verus! {

/// Number of bytes in the encoding of one vector: `DIM` words of four bytes.
pub const VEC_BYTES: usize = 2048;

/// Why a buffer was rejected by `decode`.
#[derive(Clone, Copy, Debug, PartialEq, Eq, Structural)]
pub enum CodecError {
    /// The buffer is not exactly `VEC_BYTES` bytes long.
    WrongLength,
}

/// The four bytes of one word, least significant first.
pub open spec fn word_bytes(w: u32) -> Seq<u8> {
    seq![
        (w & 0xff) as u8,
        ((w >> 8) & 0xff) as u8,
        ((w >> 16) & 0xff) as u8,
        ((w >> 24) & 0xff) as u8,
    ]
}

/// The word read from four bytes, least significant first.
pub open spec fn word_of_bytes(b0: u8, b1: u8, b2: u8, b3: u8) -> u32 {
    (b0 as u32) | ((b1 as u32) << 8) | ((b2 as u32) << 16) | ((b3 as u32) << 24)
}

/// The byte layout of a whole word sequence: word `i` occupies bytes
/// `4*i .. 4*i + 4`, least significant byte first.
pub open spec fn encoded(s: Seq<u32>) -> Seq<u8> {
    Seq::new(s.len() * 4, |j: int| word_bytes(s[j / 4])[j % 4])
}

/// The word sequence read back from a byte layout whose length is a
/// multiple of four.
pub open spec fn decoded(b: Seq<u8>) -> Seq<u32> {
    Seq::new(b.len() / 4, |i: int| word_of_bytes(b[4 * i], b[4 * i + 1], b[4 * i + 2], b[4 * i + 3]))
}

/// Reassembling the four bytes of a word gives the word back.
proof fn lemma_word_round_trip(w: u32)
    ensures
        word_of_bytes(
            (w & 0xff) as u8,
            ((w >> 8) & 0xff) as u8,
            ((w >> 16) & 0xff) as u8,
            ((w >> 24) & 0xff) as u8,
        ) == w,
{
    assert(((w & 0xff) as u8 as u32) | (((w >> 8) & 0xff) as u8 as u32) << 8 | (((w >> 16)
        & 0xff) as u8 as u32) << 16 | (((w >> 24) & 0xff) as u8 as u32) << 24 == w)
        by (bit_vector);
}

/// Byte `4*i + k` of the layout is byte `k` of word `i`.
proof fn lemma_encoded_index(s: Seq<u32>, i: int, k: int)
    requires
        0 <= i < s.len(),
        0 <= k < 4,
    ensures
        encoded(s)[4 * i + k] == word_bytes(s[i])[k],
{
    assert((4 * i + k) / 4 == i && (4 * i + k) % 4 == k) by (nonlinear_arith)
        requires
            0 <= i,
            0 <= k < 4,
    ;
}

/// Splitting a word into bytes and reassembling them gives the bytes back.
proof fn lemma_byte_round_trip(b0: u8, b1: u8, b2: u8, b3: u8)
    ensures
        word_bytes(word_of_bytes(b0, b1, b2, b3)) == seq![b0, b1, b2, b3],
{
    let w = (b0 as u32) | ((b1 as u32) << 8) | ((b2 as u32) << 16) | ((b3 as u32) << 24);
    assert((w & 0xff) as u8 == b0 && ((w >> 8) & 0xff) as u8 == b1 && ((w >> 16) & 0xff) as u8
        == b2 && ((w >> 24) & 0xff) as u8 == b3) by (bit_vector)
        requires
            w == (b0 as u32) | ((b1 as u32) << 8) | ((b2 as u32) << 16) | ((b3 as u32) << 24),
    ;
    assert(word_bytes(word_of_bytes(b0, b1, b2, b3)) =~= seq![b0, b1, b2, b3]);
}

/// Re-encoding a decoded buffer gives the buffer back, for any buffer whose
/// length is a multiple of four: no byte layout is lost in decoding either.
pub proof fn lemma_layout_round_trip(b: Seq<u8>)
    requires
        b.len() % 4 == 0,
    ensures
        encoded(decoded(b)) == b,
{
    let n = b.len() as int;
    vstd::arithmetic::div_mod::lemma_fundamental_div_mod(n, 4);
    assert forall|j: int| 0 <= j < b.len() implies encoded(decoded(b))[j] == b[j] by {
        let i = j / 4;
        let k = j % 4;
        vstd::arithmetic::div_mod::lemma_fundamental_div_mod(j, 4);
        vstd::arithmetic::div_mod::lemma_mod_bound(j, 4);
        assert(j == 4 * i + k && 0 <= k < 4 && n == 4 * (n / 4));
        assert(0 <= i < decoded(b).len());
        lemma_byte_round_trip(b[4 * i], b[4 * i + 1], b[4 * i + 2], b[4 * i + 3]);
        lemma_encoded_index(decoded(b), i, k);
    }
    assert(encoded(decoded(b)) =~= b);
}

/// Decoding an encoded word sequence gives the sequence back, whatever its
/// length.
pub proof fn lemma_round_trip(s: Seq<u32>)
    ensures
        decoded(encoded(s)) == s,
{
    assert(decoded(encoded(s)).len() == s.len());
    assert forall|i: int| 0 <= i < s.len() implies decoded(encoded(s))[i] == s[i] by {
        lemma_encoded_index(s, i, 0);
        lemma_encoded_index(s, i, 1);
        lemma_encoded_index(s, i, 2);
        lemma_encoded_index(s, i, 3);
        lemma_word_round_trip(s[i]);
    }
    assert(decoded(encoded(s)) =~= s);
}

/// Encodes a vector as its fixed binary layout of `VEC_BYTES` bytes.
pub fn encode(v: &Vector) -> (r: Vec<u8>)
    ensures
        r@ == encoded(v@),
        r@.len() == VEC_BYTES,
{
    proof {
        use_type_invariant(&*v);
    }
    let mut out: Vec<u8> = Vec::new();
    let mut i: usize = 0;
    while i < DIM
        invariant
            v.wf(),
            i <= DIM,
            out@.len() == 4 * i,
            forall|j: int| 0 <= j < 4 * i ==> out@[j] == encoded(v@)[j],
        decreases DIM - i,
    {
        let w = v.word(i);
        proof {
            lemma_encoded_index(v@, i as int, 0);
            lemma_encoded_index(v@, i as int, 1);
            lemma_encoded_index(v@, i as int, 2);
            lemma_encoded_index(v@, i as int, 3);
        }
        out.push((w & 0xff) as u8);
        out.push(((w >> 8) & 0xff) as u8);
        out.push(((w >> 16) & 0xff) as u8);
        out.push(((w >> 24) & 0xff) as u8);
        i = i + 1;
    }
    proof {
        assert(out@ =~= encoded(v@));
    }
    out
}

/// Decodes a binary layout back into a vector. Exactly the buffers of
/// length `VEC_BYTES` are accepted; anything shorter or longer is a
/// `WrongLength` error, never truncated or padded.
pub fn decode(b: &Vec<u8>) -> (r: Result<Vector, CodecError>)
    ensures
        b@.len() == VEC_BYTES ==> (r matches Ok(v) && v.wf() && v@ == decoded(b@)),
        b@.len() != VEC_BYTES ==> (r matches Err(e) && e == CodecError::WrongLength),
{
    if b.len() != VEC_BYTES {
        return Err(CodecError::WrongLength);
    }
    let mut words: Vec<u32> = Vec::new();
    let mut i: usize = 0;
    while i < DIM
        invariant
            b@.len() == VEC_BYTES,
            i <= DIM,
            words@.len() == i,
            forall|j: int| 0 <= j < i ==> words@[j] == decoded(b@)[j],
        decreases DIM - i,
    {
        let b0 = b[4 * i];
        let b1 = b[4 * i + 1];
        let b2 = b[4 * i + 2];
        let b3 = b[4 * i + 3];
        let w = (b0 as u32) | ((b1 as u32) << 8) | ((b2 as u32) << 16) | ((b3 as u32) << 24);
        proof {
            assert(decoded(b@)[i as int] == word_of_bytes(b@[4 * (i as int)], b@[4 * (i as int)
                + 1], b@[4 * (i as int) + 2], b@[4 * (i as int) + 3]));
        }
        words.push(w);
        i = i + 1;
    }
    proof {
        assert(words@ =~= decoded(b@));
    }
    Ok(Vector::from_words(words))
}

} // verus!
