use curve25519_dalek::ristretto::{CompressedRistretto, RistrettoPoint};
use curve25519_dalek::scalar::Scalar;
use oprfs::oprf::{
    blind_with, client_blind, client_unblind, direct_calculation, hash_to_point, oprfs_ec,
    server_eval, FieldScalar, GroupElement, OprfError,
};
use sha2::{Digest, Sha512};

const ORDER: [u8; 32] = [
    237, 211, 245, 92, 26, 99, 18, 88, 214, 156, 247, 162, 222, 249, 222, 20, 0, 0, 0, 0, 0, 0, 0,
    0, 0, 0, 0, 0, 0, 0, 0, 16,
];

fn small_scalar(n: u8) -> FieldScalar {
    let mut bytes = [0u8; 32];
    bytes[0] = n;
    FieldScalar { bytes }
}

fn key() -> FieldScalar {
    let mut bytes = [0u8; 32];
    for i in 0..31 {
        bytes[i] = (i as u8).wrapping_mul(37).wrapping_add(11);
    }
    bytes[31] = 0x0f;
    FieldScalar { bytes }
}

fn reference_point(pw: &[u8]) -> RistrettoPoint {
    let h: [u8; 64] = Sha512::digest(pw).into();
    RistrettoPoint::from_uniform_bytes(&h)
}

#[test]
fn blind_evaluate_unblind_matches_direct() {
    let pw = b"supersecret";
    let k = key();
    let (x_blind, r) = client_blind(pw).unwrap();
    let y_blind = server_eval(&x_blind, &k).unwrap();
    let y = client_unblind(&y_blind, &r).unwrap();
    let direct = direct_calculation(pw, &k).unwrap();
    assert_eq!(direct.bytes, y.bytes);
    assert!(direct.same(&y));
}

#[test]
fn roundtrip_holds_for_several_inputs_and_keys() {
    let inputs: [&[u8]; 4] = [b"", b"a", b"supersecret", b"another, longer input of the client"];
    for pw in inputs {
        for n in [1u8, 2, 97, 255] {
            let k = small_scalar(n);
            let (x_blind, r) = client_blind(pw).unwrap();
            let y = client_unblind(&server_eval(&x_blind, &k).unwrap(), &r).unwrap();
            assert_eq!(y.bytes, direct_calculation(pw, &k).unwrap().bytes);
        }
    }
}

#[test]
fn hash_to_point_is_the_uniform_map_of_the_digest() {
    let pw = b"supersecret";
    let expected = reference_point(pw).compress().to_bytes();
    assert_eq!(hash_to_point(pw).bytes, expected);
    assert_ne!(hash_to_point(pw).bytes[..], pw[..]);
}

#[test]
fn hash_to_point_is_deterministic() {
    assert_eq!(hash_to_point(b"supersecret").bytes, hash_to_point(b"supersecret").bytes);
    assert_ne!(hash_to_point(b"supersecret").bytes, hash_to_point(b"supersecres").bytes);
}

#[test]
fn server_eval_is_scalar_multiplication() {
    let pw = b"supersecret";
    let k = key();
    let x = hash_to_point(pw);
    let expected = (reference_point(pw) * Scalar::from_bytes_mod_order(k.bytes)).compress();
    let y = server_eval(&x, &k).unwrap();
    assert_eq!(y.bytes, expected.to_bytes());
    assert_ne!(y.bytes, x.bytes);
    assert_eq!(direct_calculation(pw, &k).unwrap().bytes, expected.to_bytes());
}

#[test]
fn blind_with_is_scalar_multiplication() {
    let pw = b"supersecret";
    let r = small_scalar(5);
    let expected = (reference_point(pw) * Scalar::from(5u8)).compress().to_bytes();
    assert_eq!(blind_with(pw, &r).unwrap().bytes, expected);
}

#[test]
fn multiplying_by_one_keeps_the_element() {
    let x = hash_to_point(b"supersecret");
    assert_eq!(server_eval(&x, &small_scalar(1)).unwrap().bytes, x.bytes);
    assert_eq!(client_unblind(&x, &small_scalar(1)).unwrap().bytes, x.bytes);
}

#[test]
fn client_unblind_multiplies_by_the_inverse() {
    let x = hash_to_point(b"supersecret");
    let r = key();
    let blinded = server_eval(&x, &r).unwrap();
    assert_ne!(blinded.bytes, x.bytes);
    let back = client_unblind(&blinded, &r).unwrap();
    assert_eq!(back.bytes, x.bytes);
    let expected = (CompressedRistretto(x.bytes).decompress().unwrap()
        * Scalar::from_bytes_mod_order(r.bytes).invert())
    .compress();
    assert_eq!(client_unblind(&x, &r).unwrap().bytes, expected.to_bytes());
}

#[test]
fn two_blindings_of_one_input_differ() {
    let (x1, r1) = client_blind(b"supersecret").unwrap();
    let (x2, r2) = client_blind(b"supersecret").unwrap();
    assert_ne!(r1.bytes, r2.bytes);
    assert_ne!(x1.bytes, x2.bytes);
    assert!(!x1.same(&x2));
}

#[test]
fn client_blind_returns_a_usable_factor() {
    let (x_blind, r) = client_blind(b"supersecret").unwrap();
    assert!(r.is_canonical());
    assert!(!r.is_zero());
    assert_eq!(blind_with(b"supersecret", &r).unwrap().bytes, x_blind.bytes);
}

#[test]
fn zero_blinding_factor_is_refused() {
    let zero = small_scalar(0);
    let x = hash_to_point(b"supersecret");
    assert_eq!(client_unblind(&x, &zero).unwrap_err(), OprfError::ZeroBlindingFactor);
    assert_eq!(blind_with(b"supersecret", &zero).unwrap_err(), OprfError::ZeroBlindingFactor);
}

#[test]
fn scalar_out_of_range_is_refused() {
    let x = hash_to_point(b"supersecret");
    let order = FieldScalar { bytes: ORDER };
    let all_ones = FieldScalar { bytes: [0xff; 32] };
    assert_eq!(server_eval(&x, &order).unwrap_err(), OprfError::MalformedScalar);
    assert_eq!(server_eval(&x, &all_ones).unwrap_err(), OprfError::MalformedScalar);
    assert_eq!(client_unblind(&x, &order).unwrap_err(), OprfError::MalformedScalar);
    assert_eq!(direct_calculation(b"pw", &order).unwrap_err(), OprfError::MalformedScalar);
    assert_eq!(blind_with(b"pw", &order).unwrap_err(), OprfError::MalformedScalar);
}

#[test]
fn bytes_that_encode_no_element_are_refused() {
    let bad = GroupElement { bytes: [0xff; 32] };
    assert_eq!(server_eval(&bad, &key()).unwrap_err(), OprfError::MalformedPoint);
    assert_eq!(client_unblind(&bad, &key()).unwrap_err(), OprfError::MalformedPoint);
}

#[test]
fn canonical_scalars_lie_below_the_group_order() {
    let mut below = ORDER;
    below[0] = 236;
    assert!(FieldScalar { bytes: below }.is_canonical());
    assert!(!FieldScalar { bytes: ORDER }.is_canonical());
    assert!(small_scalar(0).is_canonical());
}

#[test]
fn is_zero_reads_every_byte() {
    assert!(small_scalar(0).is_zero());
    assert!(!small_scalar(1).is_zero());
    let mut bytes = [0u8; 32];
    bytes[31] = 1;
    assert!(!FieldScalar { bytes }.is_zero());
    bytes[31] = 0;
    bytes[17] = 128;
    assert!(!FieldScalar { bytes }.is_zero());
}

#[test]
fn same_compares_encodings() {
    let a = hash_to_point(b"a");
    let b = hash_to_point(b"b");
    assert!(a.same(&a));
    assert!(!a.same(&b));
    let mut bytes = a.bytes;
    bytes[31] ^= 1;
    assert!(!a.same(&GroupElement { bytes }));
}

#[test]
fn end_to_end_run_gives_equal_elements() {
    let k = key();
    let (y, direct) = oprfs_ec(b"supersecret", &k).unwrap();
    assert_eq!(y.bytes, direct.bytes);
    let expected = (reference_point(b"supersecret") * Scalar::from_bytes_mod_order(k.bytes))
        .compress()
        .to_bytes();
    assert_eq!(y.bytes, expected);
}

#[test]
fn end_to_end_run_refuses_a_key_out_of_range() {
    let order = FieldScalar { bytes: ORDER };
    assert_eq!(oprfs_ec(b"supersecret", &order).unwrap_err(), OprfError::MalformedScalar);
}

#[test]
fn direct_calculation_with_key_one_is_the_hashed_element() {
    let one = small_scalar(1);
    let a = direct_calculation(b"supersecret", &one).unwrap();
    let b = direct_calculation(b"supersecret", &one).unwrap();
    assert_eq!(a.bytes, b.bytes);
    assert_eq!(a.bytes, hash_to_point(b"supersecret").bytes);
}
