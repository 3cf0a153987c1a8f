//! Oblivious pseudo-random functions over two backends: a prime-order
//! elliptic-curve group and a homomorphic-encryption inner product.
use vstd::prelude::*;

pub mod digest;
pub mod encoding;
pub mod group;
pub mod oprf;
pub mod oprfs_lattice;
pub mod scheme;

verus! {

} // verus!
