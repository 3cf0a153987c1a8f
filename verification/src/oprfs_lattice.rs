//! The lattice backend: the input is hashed to a short integer vector, and
//! the server's key vector is applied to it as an inner product.
use crate::digest::{sha256, sha256_digest};
use crate::scheme::{
    accumulate, ciphertext_frame, count_polynomials, decode_coefficients, decoded, decrypt,
    decrypted, encode_coefficient, encoded, encrypt, in_ntt_form, multiply_plain, new_public_key,
    new_secret_key, product, public_key_parameters, secret_key_parameters, standard_parameters,
    total, variance_in_range, zero_ciphertext, zero_of,
};
use fhe::bfv::{BfvParameters, Ciphertext, PublicKey, SecretKey};
use rand::rngs::ThreadRng;
use std::sync::Arc;
use vstd::arithmetic::div_mod::{
    lemma_add_mod_noop, lemma_fundamental_div_mod, lemma_fundamental_div_mod_converse,
    lemma_mod_bound, lemma_mul_mod_noop_general, lemma_small_mod,
};
use vstd::prelude::*;
use vstd::string::StringSliceAdditionalSpecFns;

verus! {

/// The modulus of the demonstration arithmetic.
pub const Q: i64 = 97;

/// The constant that mixes the two digest bytes of one coordinate.
pub const MIX: u64 = 31;

/// What can go wrong in the lattice backend.
#[derive(Clone, Copy, Debug, PartialEq, Eq, Structural)]
pub enum LatticeError {
    /// Two vectors that must pair up have different lengths.
    DimensionMismatch,
    /// The encryption scheme refused to encode, encrypt, decrypt or decode.
    Scheme,
    /// The scheme offers no parameter set for what was asked.
    NoParameters,
}

/// Coordinate `i` of the vector derived from a digest: the bytes at
/// positions `2i` and `2i + 1`, both taken modulo the digest's length, are
/// mixed and reduced modulo `q`.
pub open spec fn coordinate(digest: Seq<u8>, i: int, q: int) -> int {
    let n = digest.len() as int;
    (digest[(2 * i) % n] as int * (MIX as int) + digest[(2 * i + 1) % n] as int) % q
}

/// The vector of `len` coordinates derived from `digest`.
pub open spec fn digest_vector(digest: Seq<u8>, len: nat, q: int) -> Seq<i64> {
    Seq::new(len, |i: int| coordinate(digest, i, q) as i64)
}

/// The vector that an input hashes to: the coordinates derived from its
/// SHA-256 digest, modulo `Q`.
pub open spec fn hashed_vector(input: Seq<u8>, len: nat) -> Seq<i64> {
    digest_vector(sha256(input), len, Q as int)
}

/// What the direct computation gives: the inner product of the hashed
/// input and the key vector, reduced into `[0, Q)`.
pub open spec fn direct_value(input: Seq<u8>, k: Seq<i64>) -> int {
    inner_product(hashed_vector(input, k.len()), k) % (Q as int)
}

/// The sum of the products of the first `n` pairs of coordinates.
pub open spec fn dot(x: Seq<i64>, k: Seq<i64>, n: nat) -> int
    decreases n,
{
    if n == 0 {
        0
    } else {
        dot(x, k, (n - 1) as nat) + x[n - 1] as int * k[n - 1] as int
    }
}

/// The inner product of two vectors of one length, over the integers.
pub open spec fn inner_product(x: Seq<i64>, k: Seq<i64>) -> int {
    dot(x, k, x.len())
}

/// Derives `len` coordinates modulo `q` from a digest.
pub fn vec_from_digest(digest: &[u8], len: usize, q: i64) -> (out: Vec<i64>)
    requires
        digest@.len() > 0,
        q > 0,
    ensures
        out@ == digest_vector(digest@, len as nat, q as int),
{
    let n: u128 = digest.len() as u128;
    let mut out: Vec<i64> = Vec::new();
    let mut i: usize = 0;
    while i < len
        invariant
            i <= len,
            n == digest@.len(),
            n > 0,
            q > 0,
            out@.len() == i,
            forall|j: int| 0 <= j < i ==> #[trigger] out@[j] as int == coordinate(digest@, j, q as int),
        decreases len - i,
    {
        let j0: usize = ((2 * (i as u128)) % n) as usize;
        let j1: usize = ((2 * (i as u128) + 1) % n) as usize;
        let b0: u64 = digest[j0] as u64;
        let b1: u64 = digest[j1] as u64;
        let v: u64 = (b0 * MIX + b1) % (q as u64);
        out.push(v as i64);
        i = i + 1;
    }
    proof {
        assert(out@ =~= digest_vector(digest@, len as nat, q as int));
    }
    out
}

/// Hashes an input to a vector of `len` integers in `[0, Q)`.
///
/// The derivation mixes pairs of digest bytes linearly. It serves the
/// demonstration and is no secure hash to a lattice vector.
pub fn hash_to_vec(input: &str, len: usize) -> (out: Vec<i64>)
    ensures
        out@ == hashed_vector(input.spec_bytes(), len as nat),
        sha256(input.spec_bytes()).len() == 32,
{
    let h = sha256_digest(input.as_bytes());
    vec_from_digest(&h, len, Q)
}

/// Whether a ciphertext is as encryption leaves it: under `params`, at
/// level zero, with two polynomials in NTT form.
pub open spec fn fresh_under(ct: Ciphertext, params: Arc<BfvParameters>) -> bool {
    ciphertext_frame(ct) == (params, 0nat, 2nat) && in_ntt_form(ct)
}

/// Whether every ciphertext of a vector is as encryption under `params`
/// leaves it.
pub open spec fn all_fresh_under(cts: Seq<Ciphertext>, params: Arc<BfvParameters>) -> bool {
    forall|i: int| 0 <= i < cts.len() ==> fresh_under(#[trigger] cts[i], params)
}

/// Whether a ciphertext can be evaluated under `params` with `count`
/// polynomials: it stands under `params` at level zero, has that many
/// polynomials, and they are in NTT form.
pub open spec fn evaluable(ct: Ciphertext, params: Arc<BfvParameters>, count: nat) -> bool {
    ciphertext_frame(ct) == (params, 0nat, count) && in_ntt_form(ct)
}

/// Whether a vector of ciphertexts can be evaluated under `params`: all
/// stand under `params` at level zero, in NTT form, with one common number
/// of polynomials.
pub open spec fn evaluable_under(cts: Seq<Ciphertext>, params: Arc<BfvParameters>) -> bool {
    forall|i: int|
        0 <= i < cts.len() ==> evaluable(#[trigger] cts[i], params, ciphertext_frame(cts[0]).2)
}

/// The homomorphic inner product of the first `n` ciphertexts and key
/// coordinates: from the scheme's zero, the product of each ciphertext and
/// the encoded key coordinate of its position is added in turn. There is
/// none where a key coordinate does not encode.
pub open spec fn evaluation(
    cts: Seq<Ciphertext>,
    k: Seq<i64>,
    params: Arc<BfvParameters>,
    n: nat,
) -> Option<Ciphertext>
    decreases n,
{
    if n == 0 {
        Some(zero_of(params))
    } else {
        match (evaluation(cts, k, params, (n - 1) as nat), encoded(k[n - 1], params)) {
            (Some(acc), Some(pt)) => Some(total(acc, product(cts[n - 1], pt))),
            _ => None,
        }
    }
}

/// An evaluation that has failed stays failed.
pub proof fn lemma_evaluation_stays_failed(
    cts: Seq<Ciphertext>,
    k: Seq<i64>,
    params: Arc<BfvParameters>,
    m: nat,
    n: nat,
)
    requires
        m <= n,
        evaluation(cts, k, params, m) is None,
    ensures
        evaluation(cts, k, params, n) is None,
    decreases n,
{
    if m < n {
        lemma_evaluation_stays_failed(cts, k, params, m, (n - 1) as nat);
    }
}

/// What unblinding gives: the decoding of the decryption, where the
/// ciphertext has a polynomial and the scheme decrypts and decodes it.
pub open spec fn unblinding(sk: SecretKey, ct: Ciphertext) -> Option<Seq<i64>> {
    if ciphertext_frame(ct).2 == 0 {
        None
    } else {
        match decrypted(sk, ct) {
            Some(pt) => decoded(pt),
            None => None,
        }
    }
}

/// Takes the parameter set at position `choice` of those that the scheme
/// offers for a plaintext modulus of `plaintext_nbits` bits, if there is
/// one. Its variance is one that keys can be drawn under.
pub fn default_parameters(plaintext_nbits: usize, choice: usize) -> (out: Option<
    Arc<BfvParameters>,
>)
    ensures
        plaintext_nbits == 0 || plaintext_nbits >= 64 ==> out is None,
        out is Some ==> variance_in_range(out->Some_0),
{
    if plaintext_nbits == 0 || plaintext_nbits >= 64 {
        None
    } else {
        standard_parameters(plaintext_nbits, choice)
    }
}

/// Client side: makes the key pair of the encryption scheme. The secret
/// key stays with the client; the public key goes to the server. The
/// variance of `params` must be one that the scheme can sample with, as
/// it is for every parameter set of `default_parameters`.
pub fn generate_keys(params: &Arc<BfvParameters>, rng: &mut ThreadRng) -> (out: (
    SecretKey,
    PublicKey,
))
    requires
        variance_in_range(*params),
    ensures
        secret_key_parameters(out.0) == *params,
        public_key_parameters(out.1) == *params,
{
    let sk = new_secret_key(params, rng);
    let pk = new_public_key(&sk, rng);
    (sk, pk)
}

/// Encrypts each coordinate of a vector by itself, as the constant
/// coefficient of a plaintext: one ciphertext per coordinate, in order.
/// The public key must have been made under `params`.
pub fn encrypt_vector(
    v: &Vec<i64>,
    params: &Arc<BfvParameters>,
    pk: &PublicKey,
    rng: &mut ThreadRng,
) -> (out: Result<Vec<Ciphertext>, LatticeError>)
    requires
        public_key_parameters(*pk) == *params,
    ensures
        out is Ok ==> out->Ok_0@.len() == v@.len() && all_fresh_under(out->Ok_0@, *params),
        out is Ok ==> forall|i: int| 0 <= i < v@.len() ==> encoded(#[trigger] v@[i], *params) is Some,
        out is Err ==> out->Err_0 == LatticeError::Scheme,
        v@.len() == 0 ==> out is Ok,
{
    let mut encrypted: Vec<Ciphertext> = Vec::new();
    let mut i: usize = 0;
    while i < v.len()
        invariant
            i <= v@.len(),
            encrypted@.len() == i,
            public_key_parameters(*pk) == *params,
            all_fresh_under(encrypted@, *params),
            forall|j: int| 0 <= j < i ==> encoded(#[trigger] v@[j], *params) is Some,
        decreases v@.len() - i,
    {
        let pt = match encode_coefficient(v[i], params) {
            Ok(pt) => pt,
            Err(_) => {
                return Err(LatticeError::Scheme);
            },
        };
        let ct = match encrypt(pk, &pt, rng) {
            Ok(ct) => ct,
            Err(_) => {
                return Err(LatticeError::Scheme);
            },
        };
        encrypted.push(ct);
        i = i + 1;
    }
    Ok(encrypted)
}

/// Client side: blinds the input. The input is hashed to a vector of
/// `len` coordinates, and each coordinate is encrypted under the client's
/// public key, which must have been made under `params`.
pub fn client_blind(
    pw: &str,
    len: usize,
    params: &Arc<BfvParameters>,
    pk: &PublicKey,
    rng: &mut ThreadRng,
) -> (out: Result<Vec<Ciphertext>, LatticeError>)
    requires
        public_key_parameters(*pk) == *params,
    ensures
        out is Ok ==> out->Ok_0@.len() == len && all_fresh_under(out->Ok_0@, *params),
        out is Err ==> out->Err_0 == LatticeError::Scheme,
        len == 0 ==> out is Ok,
{
    let v = hash_to_vec(pw, len);
    encrypt_vector(&v, params, pk, rng)
}

/// Server side: the homomorphic inner product of the encrypted vector and
/// the server's key vector. Each ciphertext is multiplied by the encoded
/// key coordinate of its position, and the products are summed onto the
/// scheme's zero.
///
/// Vectors of different lengths are refused: nothing is cut off and
/// nothing is padded. The ciphertexts must stand under `params` at level
/// zero, in NTT form, with one common number of polynomials, as those of
/// `client_blind` do.
pub fn server_eval(
    encrypted_data: &Vec<Ciphertext>,
    secret_k: &Vec<i64>,
    params: &Arc<BfvParameters>,
) -> (out: Result<Ciphertext, LatticeError>)
    requires
        evaluable_under(encrypted_data@, *params),
    ensures
        encrypted_data@.len() != secret_k@.len() ==> out == Err::<Ciphertext, LatticeError>(
            LatticeError::DimensionMismatch,
        ),
        encrypted_data@.len() == secret_k@.len() ==> match evaluation(
            encrypted_data@,
            secret_k@,
            *params,
            secret_k@.len(),
        ) {
            Some(ct) => out == Ok::<Ciphertext, LatticeError>(ct),
            None => out == Err::<Ciphertext, LatticeError>(LatticeError::Scheme),
        },
        out is Ok ==> in_ntt_form(out->Ok_0) && ciphertext_frame(out->Ok_0) == (
            *params,
            0nat,
            if secret_k@.len() == 0 {
                0nat
            } else {
                ciphertext_frame(encrypted_data@[0]).2
            },
        ),
{
    if encrypted_data.len() != secret_k.len() {
        return Err(LatticeError::DimensionMismatch);
    }
    let mut acc = zero_ciphertext(params);
    let mut i: usize = 0;
    while i < encrypted_data.len()
        invariant
            i <= encrypted_data@.len(),
            encrypted_data@.len() == secret_k@.len(),
            evaluable_under(encrypted_data@, *params),
            evaluation(encrypted_data@, secret_k@, *params, i as nat) == Some(acc),
            in_ntt_form(acc),
            ciphertext_frame(acc) == (
                *params,
                0nat,
                if i == 0 {
                    0nat
                } else {
                    ciphertext_frame(encrypted_data@[0]).2
                },
            ),
        decreases encrypted_data@.len() - i,
    {
        let pt_w = match encode_coefficient(secret_k[i], params) {
            Ok(pt) => pt,
            Err(_) => {
                proof {
                    lemma_evaluation_stays_failed(
                        encrypted_data@,
                        secret_k@,
                        *params,
                        (i + 1) as nat,
                        secret_k@.len(),
                    );
                }
                return Err(LatticeError::Scheme);
            },
        };
        let term = multiply_plain(&encrypted_data[i], &pt_w);
        accumulate(&mut acc, &term);
        i = i + 1;
    }
    Ok(acc)
}

/// Client side: unblinds. The ciphertext is decrypted with the client's
/// secret key and decoded to its coefficients. Only the first coefficient
/// carries the result; `oprf_output` reduces it.
///
/// A ciphertext without polynomials, as the evaluation of empty vectors
/// leaves it, holds nothing to decrypt and is refused. The polynomials
/// must be in NTT form, as those of `server_eval` are.
pub fn client_unblind(encrypted_data: &Ciphertext, sk: &SecretKey) -> (out: Result<
    Vec<i64>,
    LatticeError,
>)
    requires
        in_ntt_form(*encrypted_data),
    ensures
        unblinding(*sk, *encrypted_data) is None ==> out == Err::<Vec<i64>, LatticeError>(
            LatticeError::Scheme,
        ),
        unblinding(*sk, *encrypted_data) is Some ==> out is Ok && Some(out->Ok_0@) == unblinding(
            *sk,
            *encrypted_data,
        ),
{
    if count_polynomials(encrypted_data) == 0 {
        return Err(LatticeError::Scheme);
    }
    let res = match decrypt(sk, encrypted_data) {
        Ok(pt) => pt,
        Err(_) => {
            return Err(LatticeError::Scheme);
        },
    };
    match decode_coefficients(&res) {
        Ok(v) => Ok(v),
        Err(_) => Err(LatticeError::Scheme),
    }
}

/// The remainder of `v` modulo `q`, in `[0, q)`.
pub fn residue(v: i64, q: i64) -> (r: i64)
    requires
        q > 0,
    ensures
        r as int == (v as int) % (q as int),
        0 <= r < q,
{
    if v >= 0 {
        v % q
    } else {
        let m: i64 = -(v + 1);
        let s: i64 = m % q;
        proof {
            let d = (m as int) / (q as int);
            lemma_fundamental_div_mod(m as int, q as int);
            lemma_mod_bound(m as int, q as int);
            assert(v as int == (q as int) * (-d - 1) + (q - 1 - s)) by (nonlinear_arith)
                requires
                    m as int == (q as int) * d + s,
                    v as int == -(m as int) - 1,
            ;
            lemma_fundamental_div_mod_converse(v as int, q as int, -d - 1, (q - 1 - s) as int);
        }
        q - 1 - s
    }
}

/// The inner product of two vectors, reduced into `[0, q)`.
///
/// Every partial sum is reduced, so no length and no size of the
/// coordinates can overflow the machine integers.
pub fn inner_product_mod(x: &Vec<i64>, k: &Vec<i64>, q: i64) -> (out: Result<i64, LatticeError>)
    requires
        q > 0,
    ensures
        x@.len() != k@.len() ==> out == Err::<i64, LatticeError>(LatticeError::DimensionMismatch),
        x@.len() == k@.len() ==> out is Ok && out->Ok_0 as int == inner_product(x@, k@) % (q as int),
{
    if x.len() != k.len() {
        return Err(LatticeError::DimensionMismatch);
    }
    let mut acc: i64 = 0;
    let mut i: usize = 0;
    proof {
        lemma_small_mod(0, q as nat);
    }
    while i < x.len()
        invariant
            i <= x@.len(),
            x@.len() == k@.len(),
            q > 0,
            0 <= acc < q,
            acc as int == dot(x@, k@, i as nat) % (q as int),
        decreases x@.len() - i,
    {
        let a: i64 = residue(x[i], q);
        let b: i64 = residue(k[i], q);
        proof {
            assert(0 <= (a as int) * (b as int) <= 0x7fff_ffff_ffff_ffff * 0x7fff_ffff_ffff_ffff)
                by (nonlinear_arith)
                requires
                    0 <= a <= 0x7fff_ffff_ffff_ffff,
                    0 <= b <= 0x7fff_ffff_ffff_ffff,
            ;
        }
        let p: i128 = ((a as i128) * (b as i128)) % (q as i128);
        let t: i128 = ((acc as i128) + p) % (q as i128);
        proof {
            let m = q as int;
            let xi = x@[i as int] as int;
            let ki = k@[i as int] as int;
            let d = dot(x@, k@, i as nat);
            lemma_mul_mod_noop_general(xi, ki, m);
            lemma_add_mod_noop(d, xi * ki, m);
            lemma_mod_bound(d + xi * ki, m);
            assert(dot(x@, k@, (i + 1) as nat) == d + xi * ki);
        }
        acc = t as i64;
        i = i + 1;
    }
    Ok(acc)
}

/// The output of one evaluation: the first decoded coefficient, reduced
/// into `[0, q)`. The other coefficients carry nothing and are ignored.
pub fn oprf_output(decoded: &Vec<i64>, q: i64) -> (out: Option<i64>)
    requires
        q > 0,
    ensures
        decoded@.len() == 0 ==> out is None,
        decoded@.len() > 0 ==> out is Some && out->Some_0 as int == (decoded@[0] as int) % (q as int),
        out is Some ==> 0 <= out->Some_0 < q,
{
    if decoded.len() == 0 {
        None
    } else {
        Some(residue(decoded[0], q))
    }
}

/// Computes the function directly from the input and the key vector,
/// with no blinding: the value that an oblivious evaluation must match.
pub fn direct_calculation(pw: &str, k: &Vec<i64>) -> (out: i64)
    ensures
        out as int == direct_value(pw.spec_bytes(), k@),
        0 <= out < Q,
{
    let x = hash_to_vec(pw, k.len());
    match inner_product_mod(&x, k, Q) {
        Ok(v) => {
            proof {
                lemma_mod_bound(inner_product(x@, k@), Q as int);
            }
            v
        },
        Err(_) => 0,
    }
}

/// Runs one evaluation from end to end, and computes the same value
/// directly. The parameter set is the one at position `choice` of those
/// that the scheme offers for `plaintext_nbits` bits, and the client keys
/// are fresh. Returns the oblivious output first and the direct value
/// second; the two are equal unless decryption went wrong.
///
/// An empty key vector leaves nothing to decrypt and is refused.
pub fn opfrs_lattice(
    pw: &str,
    server_k: &Vec<i64>,
    plaintext_nbits: usize,
    choice: usize,
    rng: &mut ThreadRng,
) -> (out: Result<(i64, i64), LatticeError>)
    ensures
        out is Err ==> out->Err_0 == LatticeError::Scheme || out->Err_0
            == LatticeError::NoParameters,
        plaintext_nbits == 0 || plaintext_nbits >= 64 ==> out == Err::<(i64, i64), LatticeError>(
            LatticeError::NoParameters,
        ),
        server_k@.len() == 0 ==> out is Err,
        out is Ok ==> 0 <= out->Ok_0.0 < Q,
        out is Ok ==> out->Ok_0.1 as int == direct_value(pw.spec_bytes(), server_k@),
{
    let params = match default_parameters(plaintext_nbits, choice) {
        Some(params) => params,
        None => {
            return Err(LatticeError::NoParameters);
        },
    };
    let (sk, pk) = generate_keys(&params, rng);
    let ct_x = match client_blind(pw, server_k.len(), &params, &pk, rng) {
        Ok(c) => c,
        Err(e) => {
            return Err(e);
        },
    };
    let ct_y = match server_eval(&ct_x, server_k, &params) {
        Ok(c) => c,
        Err(e) => {
            return Err(e);
        },
    };
    let y = match client_unblind(&ct_y, &sk) {
        Ok(y) => y,
        Err(e) => {
            return Err(e);
        },
    };
    let direct = direct_calculation(pw, server_k);
    match oprf_output(&y, Q) {
        Some(v) => Ok((v, direct)),
        None => Err(LatticeError::Scheme),
    }
}

/// Hashing is a function of the input: whatever two calls of
/// `hash_to_vec` return on one input and one length is one vector.
pub proof fn law_hash_to_vec_deterministic(input: Seq<u8>, len: nat, first: Seq<i64>, second: Seq<i64>)
    requires
        first == hashed_vector(input, len),
        second == hashed_vector(input, len),
    ensures
        first == second,
        first.len() == len,
        forall|i: int| 0 <= i < len ==> 0 <= #[trigger] first[i] < Q,
{
    assert forall|i: int| 0 <= i < len implies 0 <= #[trigger] first[i] < Q by {
        lemma_coordinate_range(sha256(input), i, Q as int);
    }
}

/// A coordinate lies in `[0, q)`.
pub proof fn lemma_coordinate_range(digest: Seq<u8>, i: int, q: int)
    requires
        0 < q <= i64::MAX,
    ensures
        0 <= coordinate(digest, i, q) < q,
        (coordinate(digest, i, q) as i64) as int == coordinate(digest, i, q),
{
    let n = digest.len() as int;
    lemma_mod_bound(
        digest[(2 * i) % n] as int * (MIX as int) + digest[(2 * i + 1) % n] as int,
        q,
    );
}

/// The representative of `v` modulo the plaintext modulus `t` that
/// decoding gives: the one in `[t / 2 - t, t / 2)`.
pub open spec fn centered(v: int, t: int) -> int {
    let a = v % t;
    if a >= t / 2 {
        a - t
    } else {
        a
    }
}

/// Where decryption is faithful and the plaintext domain does not wrap
/// around, the oblivious path and the direct computation agree: if the
/// first decoded coefficient is the centered representative, modulo the
/// plaintext modulus `t`, of the inner product of the hashed input and the
/// key vector, and that inner product lies in `[t / 2 - t, t / 2)`, then
/// the coefficient's residue modulo `Q` is the directly computed value.
pub proof fn law_faithful_evaluation_matches_direct(
    input: Seq<u8>,
    k: Seq<i64>,
    t: int,
    decoded: Seq<i64>,
)
    requires
        t > 0,
        decoded.len() > 0,
        decoded[0] as int == centered(inner_product(hashed_vector(input, k.len()), k), t),
        t / 2 - t <= inner_product(hashed_vector(input, k.len()), k) < t / 2,
    ensures
        (decoded[0] as int) % (Q as int) == direct_value(input, k),
{
    let v = inner_product(hashed_vector(input, k.len()), k);
    if v >= 0 {
        lemma_small_mod(v as nat, t as nat);
    } else {
        lemma_fundamental_div_mod_converse(v, t, -1, v + t);
    }
    assert(centered(v, t) == v);
}

} // verus!
