//! The vector data model: an ordered sequence of exactly `DIM` 32-bit words.
//!
//! Each word is the stored bit pattern of one single-precision element; the
//! crate never does arithmetic on the elements themselves, it only carries,
//! encodes and decodes them, so the words are held as plain `u32` values.

use vstd::prelude::*;

verus! {

/// Number of 32-bit elements in every vector.
pub const DIM: usize = 512;

/// A fixed-width vector: exactly `DIM` 32-bit words.
#[derive(Debug)]
pub struct Vector {
    bits: Vec<u32>,
}

impl View for Vector {
    type V = Seq<u32>;

    closed spec fn view(&self) -> Seq<u32> {
        self.bits@
    }
}

impl Vector {
    /// A well-formed vector holds exactly `DIM` words; every `Vector` value
    /// satisfies this by construction.
    #[verifier::type_invariant]
    pub open spec fn wf(&self) -> bool {
        self@.len() == DIM
    }

    /// Builds a vector from its words; rejects any other width.
    pub fn new(bits: Vec<u32>) -> (r: Option<Vector>)
        ensures
            bits@.len() == DIM ==> (r matches Some(v) && v@ == bits@ && v.wf()),
            bits@.len() != DIM ==> r is None,
    {
        if bits.len() == DIM {
            Some(Vector { bits })
        } else {
            None
        }
    }

    /// Builds a vector from exactly `DIM` words.
    pub(crate) fn from_words(bits: Vec<u32>) -> (r: Vector)
        requires
            bits@.len() == DIM,
        ensures
            r@ == bits@,
            r.wf(),
    {
        Vector { bits }
    }

    /// The stored words, in order.
    pub fn bits(&self) -> (r: &Vec<u32>)
        ensures
            r@ == self@,
    {
        &self.bits
    }

    /// The word at position `i`.
    pub fn word(&self, i: usize) -> (r: u32)
        requires
            i < self@.len(),
        ensures
            r == self@[i as int],
    {
        self.bits[i]
    }
}

} // verus!
