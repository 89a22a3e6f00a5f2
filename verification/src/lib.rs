//! Dot-product nearest-vector scanning over fixed-width bit-pattern vectors.
//!
//! The crate models a vector as its 512 stored 32-bit words, gives the exact
//! binary wire layout used to hand vectors to an embedded relational store,
//! and proves the selection semantics of a descending top-k over score keys.

pub mod codec;
pub mod store;
pub mod topk;
pub mod vector;
