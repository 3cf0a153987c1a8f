//! The homomorphic encryption scheme that the lattice backend runs on.
//!
//! Its values are opaque here: the library carries them from one call to
//! the next and decides nothing by what they hold. What the contracts
//! follow is the frame of each value: the parameter set it was made
//! under, its level, and for a ciphertext the number of its polynomials.
//! The scheme stops the process where it is handed values whose frames do
//! not fit, so each call states which frames it needs and which it gives.
//! The scheme tells parameter sets apart by identity: two of them are one
//! only where they are one shared value. It also stops where a polynomial
//! of a ciphertext is not in the form its own operations leave it in, and
//! where keys are drawn under a variance it cannot sample with: both are
//! named and required too.
//!
//! What encoding, multiplication, addition, decryption and decoding give
//! depends on their arguments alone and takes pages to state, so each
//! result has a name.
use fhe::bfv::{BfvParameters, Ciphertext, Encoding, Plaintext, PublicKey, SecretKey};
use fhe_traits::{FheDecoder, FheDecrypter, FheEncoder, FheEncrypter};
use rand::rngs::ThreadRng;
use std::sync::Arc;
use vstd::prelude::*;

verus! {

/// A parameter set of the scheme.
#[verifier::external_type_specification]
#[verifier::external_body]
pub struct ExBfvParameters(BfvParameters);

/// A ciphertext of the scheme.
#[verifier::external_type_specification]
#[verifier::external_body]
pub struct ExCiphertext(Ciphertext);

/// A polynomial. A ciphertext dereferences to a slice of them, which is
/// how its polynomials are counted, so the type is declared beside it.
#[verifier::external_type_specification]
#[verifier::external_body]
pub struct ExPoly(fhe_math::rq::Poly);

/// An encoded plaintext of the scheme.
#[verifier::external_type_specification]
#[verifier::external_body]
pub struct ExPlaintext(Plaintext);

/// A public key of the scheme.
#[verifier::external_type_specification]
#[verifier::external_body]
pub struct ExPublicKey(PublicKey);

/// A secret key of the scheme.
#[verifier::external_type_specification]
#[verifier::external_body]
pub struct ExSecretKey(SecretKey);

/// The error of the scheme.
#[verifier::external_type_specification]
#[verifier::external_body]
pub struct ExSchemeError(fhe::Error);

/// The random generator of the current thread.
#[verifier::external_type_specification]
#[verifier::external_body]
pub struct ExThreadRng(ThreadRng);

/// What frames a ciphertext: the parameter set it was made under, its
/// level, and the number of polynomials it is made of.
pub uninterp spec fn ciphertext_frame(ct: Ciphertext) -> (Arc<BfvParameters>, nat, nat);

/// What frames a plaintext: the parameter set it was encoded under, and
/// its level.
pub uninterp spec fn plaintext_frame(pt: Plaintext) -> (Arc<BfvParameters>, nat);

/// The parameter set that a public key was made under.
pub uninterp spec fn public_key_parameters(pk: PublicKey) -> Arc<BfvParameters>;

/// The parameter set that a secret key was made under.
pub uninterp spec fn secret_key_parameters(sk: SecretKey) -> Arc<BfvParameters>;

/// Whether the error variance of a parameter set is one that the scheme
/// can sample with: from 1 to 16.
pub uninterp spec fn variance_in_range(params: Arc<BfvParameters>) -> bool;

/// Whether every polynomial of a ciphertext is in NTT form over the
/// context of the ciphertext's level, as the scheme's operations leave it.
pub uninterp spec fn in_ntt_form(ct: Ciphertext) -> bool;

/// The scheme's additive identity under a parameter set.
pub uninterp spec fn zero_of(params: Arc<BfvParameters>) -> Ciphertext;

/// The plaintext that encodes one value as a constant coefficient, where
/// the scheme encodes it.
pub uninterp spec fn encoded(value: i64, params: Arc<BfvParameters>) -> Option<Plaintext>;

/// The product of a ciphertext and a plaintext.
pub uninterp spec fn product(ct: Ciphertext, pt: Plaintext) -> Ciphertext;

/// The sum of an accumulator and a ciphertext.
pub uninterp spec fn total(acc: Ciphertext, term: Ciphertext) -> Ciphertext;

/// The plaintext that a ciphertext decrypts to under a secret key, where
/// the scheme decrypts it.
pub uninterp spec fn decrypted(sk: SecretKey, ct: Ciphertext) -> Option<Plaintext>;

/// The coefficients that a plaintext decodes to, where the scheme decodes
/// it.
pub uninterp spec fn decoded(pt: Plaintext) -> Option<Seq<i64>>;

/// Calls `BfvParameters::default_parameters_128` and takes the parameter
/// set at position `choice` of what it offers. Trusted: a parameter set
/// that comes back has the builder's own variance, which is in range.
#[verifier::external_body]
pub(crate) fn standard_parameters(plaintext_nbits: usize, choice: usize) -> (out: Option<
    Arc<BfvParameters>,
>)
    requires
        1 <= plaintext_nbits < 64,
    ensures
        out is Some ==> variance_in_range(out->Some_0),
{
    BfvParameters::default_parameters_128(plaintext_nbits).ok()?.nth(choice)
}

/// Calls `SecretKey::random`, for a variance in range. Trusted: the key
/// stands under `params`. It depends on the random generator, and nothing
/// else is claimed of it.
#[verifier::external_body]
pub(crate) fn new_secret_key(params: &Arc<BfvParameters>, rng: &mut ThreadRng) -> (out: SecretKey)
    requires
        variance_in_range(*params),
    ensures
        secret_key_parameters(out) == *params,
{
    SecretKey::random(params, rng)
}

/// Calls `PublicKey::new`, for a secret key under a variance in range.
/// Trusted: the public key stands under the parameter set of the secret
/// key.
#[verifier::external_body]
pub(crate) fn new_public_key(sk: &SecretKey, rng: &mut ThreadRng) -> (out: PublicKey)
    requires
        variance_in_range(secret_key_parameters(*sk)),
    ensures
        public_key_parameters(out) == secret_key_parameters(*sk),
{
    PublicKey::new(sk, rng)
}

/// Calls `Plaintext::try_encode` with the polynomial encoding on the one
/// value given. Trusted: what comes back is a function of the value and
/// the parameter set, and a plaintext that comes back was encoded under
/// `params`, at level zero.
#[verifier::external_body]
pub(crate) fn encode_coefficient(value: i64, params: &Arc<BfvParameters>) -> (out: Result<
    Plaintext,
    fhe::Error,
>)
    ensures
        out is Ok <==> encoded(value, *params) is Some,
        out is Ok ==> encoded(value, *params) == Some(out->Ok_0),
        out is Ok ==> plaintext_frame(out->Ok_0) == (*params, 0nat),
{
    Plaintext::try_encode(&[value], Encoding::poly(), params)
}

/// Calls `PublicKey::try_encrypt`, for a plaintext at level zero under
/// the key's parameter set. Trusted: a ciphertext that comes back stands
/// under that parameter set, at level zero, with two polynomials in NTT
/// form. It depends on the random generator, and nothing is claimed of
/// what it holds.
#[verifier::external_body]
pub(crate) fn encrypt(pk: &PublicKey, pt: &Plaintext, rng: &mut ThreadRng) -> (out: Result<
    Ciphertext,
    fhe::Error,
>)
    requires
        plaintext_frame(*pt) == (public_key_parameters(*pk), 0nat),
    ensures
        out is Ok ==> ciphertext_frame(out->Ok_0) == (public_key_parameters(*pk), 0nat, 2nat),
        out is Ok ==> in_ntt_form(out->Ok_0),
{
    pk.try_encrypt(pt, rng)
}

/// Calls `Ciphertext::zero`: the additive identity of the scheme.
/// Trusted: it stands under `params` and has no polynomial.
#[verifier::external_body]
pub(crate) fn zero_ciphertext(params: &Arc<BfvParameters>) -> (out: Ciphertext)
    ensures
        out == zero_of(*params),
        ciphertext_frame(out) == (*params, 0nat, 0nat),
        in_ntt_form(out),
{
    Ciphertext::zero(params)
}

/// Multiplies a ciphertext by a plaintext, with the scheme's `*`. The
/// scheme stops the process unless both stand under one parameter set
/// and, where the ciphertext has a polynomial, at one level, with the
/// polynomials in NTT form. Trusted: the product is a function of the
/// two, framed as the ciphertext was and in NTT form.
#[verifier::external_body]
pub(crate) fn multiply_plain(ct: &Ciphertext, pt: &Plaintext) -> (out: Ciphertext)
    requires
        ciphertext_frame(*ct).0 == plaintext_frame(*pt).0,
        ciphertext_frame(*ct).2 == 0 || ciphertext_frame(*ct).1 == plaintext_frame(*pt).1,
        in_ntt_form(*ct),
    ensures
        out == product(*ct, *pt),
        ciphertext_frame(out) == ciphertext_frame(*ct),
        in_ntt_form(out),
{
    ct * pt
}

/// Adds a ciphertext to an accumulator, with the scheme's `+=`. The
/// scheme stops the process unless both stand under one parameter set
/// and, where both have a polynomial, at one level with one number of
/// polynomials, all in NTT form. Trusted: the sum is a function of the
/// two and in NTT form; an accumulator without polynomials takes the
/// frame of what is added, any other keeps its own.
#[verifier::external_body]
pub(crate) fn accumulate(acc: &mut Ciphertext, term: &Ciphertext)
    requires
        ciphertext_frame(*old(acc)).0 == ciphertext_frame(*term).0,
        ciphertext_frame(*old(acc)).2 == 0 || ciphertext_frame(*term).2 == 0 || (ciphertext_frame(
            *old(acc),
        ).1 == ciphertext_frame(*term).1 && ciphertext_frame(*old(acc)).2 == ciphertext_frame(
            *term,
        ).2),
        in_ntt_form(*old(acc)),
        in_ntt_form(*term),
    ensures
        *final(acc) == total(*old(acc), *term),
        ciphertext_frame(*old(acc)).2 == 0 ==> ciphertext_frame(*final(acc)) == ciphertext_frame(
            *term,
        ),
        ciphertext_frame(*old(acc)).2 != 0 ==> ciphertext_frame(*final(acc)) == ciphertext_frame(
            *old(acc),
        ),
        in_ntt_form(*final(acc)),
{
    *acc += term;
}

/// Reads the number of polynomials of a ciphertext, with `len`.
#[verifier::external_body]
pub(crate) fn count_polynomials(ct: &Ciphertext) -> (out: usize)
    ensures
        out == ciphertext_frame(*ct).2,
{
    ct.len()
}

/// Calls `SecretKey::try_decrypt`, for a ciphertext that has a polynomial
/// and whose polynomials are in NTT form. Trusted: what comes back is a
/// function of the key and the ciphertext.
#[verifier::external_body]
pub(crate) fn decrypt(sk: &SecretKey, ct: &Ciphertext) -> (out: Result<Plaintext, fhe::Error>)
    requires
        ciphertext_frame(*ct).2 > 0,
        in_ntt_form(*ct),
    ensures
        out is Ok <==> decrypted(*sk, *ct) is Some,
        out is Ok ==> decrypted(*sk, *ct) == Some(out->Ok_0),
{
    sk.try_decrypt(ct)
}

/// Calls `Vec::<i64>::try_decode` with the polynomial encoding. Trusted:
/// what comes back is a function of the plaintext.
#[verifier::external_body]
pub(crate) fn decode_coefficients(pt: &Plaintext) -> (out: Result<Vec<i64>, fhe::Error>)
    ensures
        out is Ok <==> decoded(*pt) is Some,
        out is Ok ==> decoded(*pt) == Some(out->Ok_0@),
{
    Vec::<i64>::try_decode(pt, Encoding::poly())
}

} // verus!
