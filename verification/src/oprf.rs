//! The elliptic-curve backend: blind, evaluate, unblind over a
//! prime-order group.
use crate::digest::{sha512, sha512_digest};
use crate::encoding::{all_zero, group_order, le_value, lemma_group_order_large};
use crate::group::{
    element_index, encodings_equal, invert, is_element, map_to_group, multiply, random_wide, reduce_wide,
    scalar_is_canonical, uniform_point,
};
use vstd::arithmetic::div_mod::{
    lemma_mod_bound, lemma_mul_mod_noop_left, lemma_mul_mod_noop_right, lemma_small_mod,
};
use vstd::prelude::*;

verus! {

/// How often `client_blind` samples before it gives up on the generator.
pub const BLIND_ATTEMPTS: usize = 8;

/// What can go wrong in the elliptic-curve backend.
#[derive(Clone, Copy, Debug, PartialEq, Eq, Structural)]
pub enum OprfError {
    /// The bytes encode no group element.
    MalformedPoint,
    /// The bytes spell a number that is not below the group order.
    MalformedScalar,
    /// The blinding factor is zero and has no inverse.
    ZeroBlindingFactor,
    /// The random generator gave no usable blinding factor.
    Entropy,
}

/// A group element, as its canonical compressed encoding: a blinded
/// input, an evaluated result or an output.
#[derive(Clone, Copy, Debug)]
pub struct GroupElement {
    pub bytes: [u8; 32],
}

/// A scalar, least significant byte first: a server key or a blinding
/// factor.
#[derive(Clone, Copy, Debug)]
pub struct FieldScalar {
    pub bytes: [u8; 32],
}

impl GroupElement {
    /// Whether the bytes encode an element.
    pub open spec fn valid(&self) -> bool {
        is_element(self.bytes@)
    }

    /// The index of the element.
    pub open spec fn index(&self) -> nat {
        element_index(self.bytes@)
    }

    /// Equality of two elements, by their canonical encodings. Two
    /// encodings of elements are equal exactly when the elements are.
    pub fn same(&self, other: &GroupElement) -> (out: bool)
        ensures
            out == (self.bytes@ == other.bytes@),
            self.valid() && other.valid() ==> out == (self.index() == other.index()),
    {
        encodings_equal(&self.bytes, &other.bytes)
    }
}

impl FieldScalar {
    /// The number that the scalar spells.
    pub open spec fn value(&self) -> nat {
        le_value(self.bytes@)
    }

    /// Whether the scalar is below the group order.
    pub open spec fn canonical(&self) -> bool {
        self.value() < group_order()
    }

    /// Whether the scalar is below the group order.
    pub fn is_canonical(&self) -> (out: bool)
        ensures
            out == self.canonical(),
    {
        scalar_is_canonical(&self.bytes)
    }

    /// Whether the scalar is zero.
    pub fn is_zero(&self) -> (out: bool)
        ensures
            out == (self.value() == 0),
    {
        all_zero(&self.bytes)
    }
}

/// The index of `s` times the element of index `x`.
pub open spec fn scaled(x: nat, s: nat) -> nat {
    (x * s) % group_order()
}

/// Whether `i` is the inverse of `r` modulo the group order.
pub open spec fn is_inverse(r: nat, i: nat) -> bool {
    i < group_order() && (r * i) % group_order() == 1
}

/// The index of the element that an input hashes to.
pub open spec fn hashed_index(pw: Seq<u8>) -> nat {
    element_index(uniform_point(sha512(pw)))
}

/// Maps an input to a group element: the SHA-512 digest of the input goes
/// through the group's one-way map from uniform bytes.
pub fn hash_to_point(pw: &[u8]) -> (out: GroupElement)
    ensures
        out.bytes@ == uniform_point(sha512(pw@)),
        out.valid(),
        out.index() == hashed_index(pw@),
        out.index() < group_order(),
{
    let h = sha512_digest(pw);
    GroupElement { bytes: map_to_group(&h) }
}

/// Multiplies an element by a canonical scalar.
fn scale(x: &GroupElement, s: &FieldScalar) -> (out: Result<GroupElement, OprfError>)
    ensures
        !x.valid() ==> out == Err::<GroupElement, OprfError>(OprfError::MalformedPoint),
        x.valid() ==> out is Ok && out->Ok_0.valid() && out->Ok_0.index() == scaled(
            x.index(),
            s.value(),
        ),
        x.valid() ==> x.index() < group_order(),
{
    match multiply(&x.bytes, &s.bytes) {
        Some(bytes) => Ok(GroupElement { bytes }),
        None => Err(OprfError::MalformedPoint),
    }
}

/// Blinds an input with a given blinding factor: the input's element
/// times the factor.
pub fn blind_with(pw: &[u8], r: &FieldScalar) -> (out: Result<GroupElement, OprfError>)
    ensures
        !r.canonical() ==> out == Err::<GroupElement, OprfError>(OprfError::MalformedScalar),
        r.canonical() && r.value() == 0 ==> out == Err::<GroupElement, OprfError>(
            OprfError::ZeroBlindingFactor,
        ),
        r.canonical() && r.value() != 0 ==> out is Ok && out->Ok_0.valid() && out->Ok_0.index()
            == scaled(hashed_index(pw@), r.value()),
{
    if !r.is_canonical() {
        return Err(OprfError::MalformedScalar);
    }
    if r.is_zero() {
        return Err(OprfError::ZeroBlindingFactor);
    }
    let x = hash_to_point(pw);
    scale(&x, r)
}

/// Client side: blinds an input with a fresh random blinding factor.
///
/// The factor is the reduction of 64 random bytes. A zero factor has no
/// inverse, so it is sampled again, up to `BLIND_ATTEMPTS` times; after
/// that the generator is taken to have failed.
pub fn client_blind(pw: &[u8]) -> (out: Result<(GroupElement, FieldScalar), OprfError>)
    ensures
        out is Err ==> out->Err_0 == OprfError::Entropy,
        out is Ok ==> {
            let (x_blind, r) = out->Ok_0;
            &&& r.canonical()
            &&& r.value() != 0
            &&& x_blind.valid()
            &&& x_blind.index() == scaled(hashed_index(pw@), r.value())
        },
{
    let mut n: usize = 0;
    while n < BLIND_ATTEMPTS
        invariant
            n <= BLIND_ATTEMPTS,
        decreases BLIND_ATTEMPTS - n,
    {
        let wide = random_wide();
        let r = FieldScalar { bytes: reduce_wide(&wide) };
        proof {
            lemma_group_order_large();
            lemma_mod_bound(le_value(wide@) as int, group_order() as int);
        }
        match blind_with(pw, &r) {
            Ok(x_blind) => {
                return Ok((x_blind, r));
            },
            Err(_) => {},
        }
        n = n + 1;
    }
    Err(OprfError::Entropy)
}

/// Server side: evaluates a blinded input with the secret key `k`: the
/// element times `k`.
pub fn server_eval(x_blind: &GroupElement, k: &FieldScalar) -> (out: Result<
    GroupElement,
    OprfError,
>)
    ensures
        !k.canonical() ==> out == Err::<GroupElement, OprfError>(OprfError::MalformedScalar),
        k.canonical() && !x_blind.valid() ==> out == Err::<GroupElement, OprfError>(
            OprfError::MalformedPoint,
        ),
        k.canonical() && x_blind.valid() ==> out is Ok && out->Ok_0.valid() && out->Ok_0.index()
            == scaled(x_blind.index(), k.value()),
        k.canonical() && x_blind.valid() ==> x_blind.index() < group_order(),
{
    if !k.is_canonical() {
        return Err(OprfError::MalformedScalar);
    }
    scale(x_blind, k)
}

/// Client side: unblinds an evaluated result: the element times the
/// inverse of the blinding factor.
pub fn client_unblind(y_blind: &GroupElement, r: &FieldScalar) -> (out: Result<
    GroupElement,
    OprfError,
>)
    ensures
        !r.canonical() ==> out == Err::<GroupElement, OprfError>(OprfError::MalformedScalar),
        r.canonical() && r.value() == 0 ==> out == Err::<GroupElement, OprfError>(
            OprfError::ZeroBlindingFactor,
        ),
        r.canonical() && r.value() != 0 && !y_blind.valid() ==> out == Err::<
            GroupElement,
            OprfError,
        >(OprfError::MalformedPoint),
        r.canonical() && r.value() != 0 && y_blind.valid() ==> out is Ok && out->Ok_0.valid()
            && exists|i: nat| #[trigger]
            is_inverse(r.value(), i) && out->Ok_0.index() == scaled(y_blind.index(), i),
        r.canonical() && r.value() != 0 && y_blind.valid() ==> y_blind.index() < group_order(),
{
    if !r.is_canonical() {
        return Err(OprfError::MalformedScalar);
    }
    if r.is_zero() {
        return Err(OprfError::ZeroBlindingFactor);
    }
    proof {
        lemma_small_mod(r.value(), group_order());
    }
    let r_inv = FieldScalar { bytes: invert(&r.bytes) };
    let out = scale(y_blind, &r_inv);
    proof {
        assert(is_inverse(r.value(), r_inv.value()));
    }
    out
}

/// Computes the function directly from the input and the key, with no
/// blinding: the value that an oblivious evaluation must match.
pub fn direct_calculation(pw: &[u8], k: &FieldScalar) -> (out: Result<GroupElement, OprfError>)
    ensures
        !k.canonical() ==> out == Err::<GroupElement, OprfError>(OprfError::MalformedScalar),
        k.canonical() ==> out is Ok && out->Ok_0.valid() && out->Ok_0.index() == scaled(
            hashed_index(pw@),
            k.value(),
        ),
        k.canonical() ==> hashed_index(pw@) < group_order(),
{
    if !k.is_canonical() {
        return Err(OprfError::MalformedScalar);
    }
    let x = hash_to_point(pw);
    scale(&x, k)
}

/// Runs one evaluation from end to end with a fresh blinding factor, and
/// computes the same value directly. Returns the oblivious output first
/// and the direct value second: both are the input's element times `k`.
pub fn oprfs_ec(pw: &[u8], k: &FieldScalar) -> (out: Result<(GroupElement, GroupElement), OprfError>)
    ensures
        out is Err ==> out->Err_0 == OprfError::Entropy || (out->Err_0
            == OprfError::MalformedScalar && !k.canonical()),
        out is Ok ==> {
            let (y, direct) = out->Ok_0;
            &&& k.canonical()
            &&& y.valid()
            &&& direct.valid()
            &&& y.index() == scaled(hashed_index(pw@), k.value())
            &&& direct.index() == y.index()
            &&& direct.bytes@ == y.bytes@
        },
{
    let (x_blind, r) = match client_blind(pw) {
        Ok(pair) => pair,
        Err(e) => {
            return Err(e);
        },
    };
    let y_blind = match server_eval(&x_blind, k) {
        Ok(y_blind) => y_blind,
        Err(e) => {
            return Err(e);
        },
    };
    let y = match client_unblind(&y_blind, &r) {
        Ok(y) => y,
        Err(e) => {
            return Err(e);
        },
    };
    let direct = match direct_calculation(pw, k) {
        Ok(direct) => direct,
        Err(e) => {
            return Err(e);
        },
    };
    proof {
        let i = choose|i: nat| #[trigger]
            is_inverse(r.value(), i) && y.index() == scaled(y_blind.index(), i);
        law_blind_evaluate_unblind(hashed_index(pw@), r.value(), i, k.value());
    }
    let equal = direct.same(&y);
    assert(equal);
    Ok((y, direct))
}

/// Hashing to the group is a function of the input: whatever two calls
/// of `hash_to_point` return on one input is one element.
pub proof fn law_hash_to_point_deterministic(pw: Seq<u8>, first: GroupElement, second: GroupElement)
    requires
        first.bytes@ == uniform_point(sha512(pw)),
        second.bytes@ == uniform_point(sha512(pw)),
    ensures
        first.bytes@ == second.bytes@,
        first.index() == second.index(),
        first.index() == hashed_index(pw),
{
}

/// Multiplying by one keeps the element: an index below the group order
/// times one is that index.
pub proof fn law_one_keeps_the_element(x: nat)
    requires
        x < group_order(),
    ensures
        scaled(x, 1) == x,
{
    assert(x * 1 == x) by (nonlinear_arith);
    lemma_small_mod(x, group_order());
}

/// Unblinding undoes blinding by the same factor: an index below the
/// group order, times `r` and then times the inverse of `r`, is that
/// index.
pub proof fn law_unblind_undoes_blind(x: nat, r: nat, r_inv: nat)
    requires
        x < group_order(),
        is_inverse(r, r_inv),
    ensures
        scaled(scaled(x, r), r_inv) == x,
{
    let m = group_order() as int;
    let (xi, ri, ii) = (x as int, r as int, r_inv as int);
    let one = (ri * ii) % m;
    lemma_mul_mod_noop_left(xi * ri, ii, m);
    assert(xi * ri * ii == xi * (ri * ii)) by (nonlinear_arith);
    lemma_mul_mod_noop_right(xi, ri * ii, m);
    assert(xi * one == xi) by (nonlinear_arith)
        requires
            one == 1,
    ;
    lemma_small_mod(x, group_order());
}

/// A scalar has at most one inverse.
pub proof fn law_inverse_unique(r: nat, i: nat, j: nat)
    requires
        is_inverse(r, i),
        is_inverse(r, j),
    ensures
        i == j,
{
    let m = group_order() as int;
    let (r, i, j) = (r as int, i as int, j as int);
    let ri = (r * i) % m;
    let rj = (r * j) % m;
    // i == i * (r j mod m), which is i r j modulo m
    assert(i * rj == i) by (nonlinear_arith)
        requires
            rj == 1,
    ;
    lemma_mul_mod_noop_right(i, r * j, m);
    // j == (r i mod m) * j, which is i r j modulo m
    assert(ri * j == j) by (nonlinear_arith)
        requires
            ri == 1,
    ;
    lemma_mul_mod_noop_left(r * i, j, m);
    assert(i * (r * j) == (r * i) * j) by (nonlinear_arith);
    lemma_small_mod(i as nat, m as nat);
    lemma_small_mod(j as nat, m as nat);
}

/// Different blinding factors blind one input differently, unless the
/// input's element is the identity: for an index `x` that has an inverse,
/// two factors below the group order that give one blinded index are
/// one factor.
pub proof fn law_blinding_is_injective(x: nat, x_inv: nat, r1: nat, r2: nat)
    requires
        is_inverse(x, x_inv),
        r1 < group_order(),
        r2 < group_order(),
        scaled(x, r1) == scaled(x, r2),
    ensures
        r1 == r2,
{
    let m = group_order() as int;
    let (x, xi, a, b) = (x as int, x_inv as int, r1 as int, r2 as int);
    let one = (x * xi) % m;
    // a == (x xi mod m) a, which is (x a) xi modulo m; the same for b
    assert(one * a == a && one * b == b) by (nonlinear_arith)
        requires
            one == 1,
    ;
    lemma_mul_mod_noop_left(x * xi, a, m);
    lemma_mul_mod_noop_left(x * xi, b, m);
    assert((x * xi) * a == (x * a) * xi && (x * xi) * b == (x * b) * xi) by (nonlinear_arith);
    lemma_mul_mod_noop_left(x * a, xi, m);
    lemma_mul_mod_noop_left(x * b, xi, m);
    lemma_small_mod(a as nat, m as nat);
    lemma_small_mod(b as nat, m as nat);
}

/// What one input blinds to, another blinds to as well: for an input of
/// index `x2` that has an inverse, every blinded value of an input of
/// index `x1` is the blinded value of `x2` under some factor below the
/// group order. By `law_blinding_is_injective` there is one such factor
/// only, so a blinded value by itself tells the two inputs apart in
/// nothing.
pub proof fn law_blinded_values_correspond(x1: nat, x2: nat, x2_inv: nat, r1: nat) -> (r2: nat)
    requires
        is_inverse(x2, x2_inv),
    ensures
        r2 < group_order(),
        scaled(x2, r2) == scaled(x1, r1),
{
    let m = group_order() as int;
    let b = scaled(x1, r1) as int;
    let r2 = scaled(b as nat, x2_inv);
    let (y, yi) = (x2 as int, x2_inv as int);
    let one = (y * yi) % m;
    lemma_group_order_large();
    lemma_mod_bound(b * yi, m);
    lemma_mod_bound((x1 as int) * (r1 as int), m);
    // x2 (b x2_inv mod m) is b (x2 x2_inv) modulo m, which is b
    lemma_mul_mod_noop_right(y, b * yi, m);
    assert(y * (b * yi) == b * (y * yi)) by (nonlinear_arith);
    lemma_mul_mod_noop_right(b, y * yi, m);
    assert(b * one == b) by (nonlinear_arith)
        requires
            one == 1,
    ;
    lemma_small_mod(b as nat, m as nat);
    r2
}

/// Blinding commutes with evaluation: an input of index `x`, blinded with
/// `r`, evaluated with `k` and unblinded with the inverse of `r`, is the
/// element that the direct computation gives, `k` times the input.
pub proof fn law_blind_evaluate_unblind(x: nat, r: nat, r_inv: nat, k: nat)
    requires
        is_inverse(r, r_inv),
    ensures
        scaled(scaled(scaled(x, r), k), r_inv) == scaled(x, k),
{
    let m = group_order() as int;
    let (x, r, i, k) = (x as int, r as int, r_inv as int, k as int);
    let ri = (r * i) % m;
    // the three reductions on the left can be left out
    lemma_mul_mod_noop_left(x * r, k, m);
    lemma_mul_mod_noop_left((x * r % m) * k, i, m);
    lemma_mul_mod_noop_left(x * r * k, i, m);
    // x r k i == (x k) (r i), and r i is one modulo m
    assert(x * r * k * i == (x * k) * (r * i)) by (nonlinear_arith);
    lemma_mul_mod_noop_right(x * k, r * i, m);
    assert((x * k) * ri == x * k) by (nonlinear_arith)
        requires
            ri == 1,
    ;
}

} // verus!
