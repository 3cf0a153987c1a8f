//! The prime-order group that the elliptic-curve backend computes in.
//!
//! A group element travels as its canonical 32-byte encoding and a scalar
//! as 32 bytes, least significant first. The group is cyclic of prime
//! order, so each element is a multiple of the fixed base element: the
//! contracts speak of an element by that multiple, its index.
use crate::encoding::{group_order, le_value};
use curve25519_dalek::ristretto::{CompressedRistretto, RistrettoPoint};
use curve25519_dalek::scalar::Scalar;
use rand::RngCore;
use vstd::prelude::*;

verus! {

/// The encoding of the element that the one-way map makes of 64 uniform
/// bytes.
pub uninterp spec fn uniform_point(digest: Seq<u8>) -> Seq<u8>;

/// Whether 32 bytes are the canonical encoding of a group element.
pub uninterp spec fn is_element(encoding: Seq<u8>) -> bool;

/// The index of the element that an encoding stands for: the number `n`
/// below the group order for which the element is `n` times the base
/// element. Of bytes that encode no element it says nothing.
pub uninterp spec fn element_index(encoding: Seq<u8>) -> nat;

/// Calls `RistrettoPoint::from_uniform_bytes` and compresses the point.
/// Trusted: the bytes are a function of the digest alone, and they encode
/// an element, whose index is below the group order.
#[verifier::external_body]
pub(crate) fn map_to_group(digest: &[u8; 64]) -> (out: [u8; 32])
    ensures
        out@ == uniform_point(digest@),
        is_element(out@),
        element_index(out@) < group_order(),
{
    RistrettoPoint::from_uniform_bytes(digest).compress().to_bytes()
}

/// Calls `Scalar::from_canonical_bytes`. Trusted: it accepts exactly the
/// byte strings that spell a number below the group order.
#[verifier::external_body]
pub(crate) fn scalar_is_canonical(bytes: &[u8; 32]) -> (out: bool)
    ensures
        out == (le_value(bytes@) < group_order()),
{
    Scalar::from_canonical_bytes(*bytes).is_some().into()
}

/// Decompresses a point, multiplies it by a scalar with the group's `*`,
/// and compresses the product. Trusted: `None` comes back exactly when
/// the bytes encode no element; otherwise the point's index is below the
/// group order, and the product is an element whose index is the point's
/// index times the scalar, modulo the group order.
#[verifier::external_body]
pub(crate) fn multiply(point: &[u8; 32], scalar: &[u8; 32]) -> (out: Option<[u8; 32]>)
    ensures
        out is Some <==> is_element(point@),
        out is Some ==> element_index(point@) < group_order(),
        out is Some ==> is_element(out->Some_0@),
        out is Some ==> element_index(out->Some_0@) == (element_index(point@) * le_value(
            scalar@,
        )) % group_order(),
{
    let p = CompressedRistretto(*point).decompress()?;
    let s = Scalar::from_bytes_mod_order(*scalar);
    Some((p * s).compress().to_bytes())
}

/// Compares two encodings with the `==` of `CompressedRistretto`.
/// Trusted: it holds exactly when the bytes are equal; and as an element
/// has one canonical encoding and one index, two encodings of elements
/// are equal exactly when the indices are.
#[verifier::external_body]
pub(crate) fn encodings_equal(a: &[u8; 32], b: &[u8; 32]) -> (out: bool)
    ensures
        out == (a@ == b@),
        is_element(a@) && is_element(b@) ==> out == (element_index(a@) == element_index(b@)),
{
    CompressedRistretto(*a) == CompressedRistretto(*b)
}

/// Calls `Scalar::invert`. Trusted: for a scalar that is not zero modulo
/// the group order, the result is below the group order and its product
/// with the scalar is one modulo the group order.
#[verifier::external_body]
pub(crate) fn invert(scalar: &[u8; 32]) -> (out: [u8; 32])
    requires
        le_value(scalar@) % group_order() != 0,
    ensures
        le_value(out@) < group_order(),
        (le_value(scalar@) * le_value(out@)) % group_order() == 1,
{
    Scalar::from_bytes_mod_order(*scalar).invert().to_bytes()
}

/// Fills 64 bytes from the thread's cryptographically secure generator,
/// with `fill_bytes`. Nothing is claimed of the bytes.
#[verifier::external_body]
pub(crate) fn random_wide() -> [u8; 64] {
    let mut bytes = [0u8; 64];
    rand::rng().fill_bytes(&mut bytes);
    bytes
}

/// Calls `Scalar::from_bytes_mod_order_wide`. Trusted: the result spells
/// the number that the 64 bytes spell, reduced modulo the group order.
#[verifier::external_body]
pub(crate) fn reduce_wide(bytes: &[u8; 64]) -> (out: [u8; 32])
    ensures
        le_value(out@) == le_value(bytes@) % group_order(),
{
    Scalar::from_bytes_mod_order_wide(bytes).to_bytes()
}

} // verus!
