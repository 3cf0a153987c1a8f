use fhe::bfv::{BfvParameters, Ciphertext, Encoding, Plaintext};
use fhe_traits::FheEncoder;
use oprfs::oprfs_lattice::{
    client_blind, client_unblind, default_parameters, direct_calculation, encrypt_vector,
    generate_keys, hash_to_vec, inner_product_mod, opfrs_lattice, oprf_output, residue,
    server_eval, vec_from_digest, LatticeError, Q,
};
use std::sync::Arc;

fn parameters() -> Arc<BfvParameters> {
    default_parameters(16, 2).unwrap()
}

#[test]
fn hash_to_vec_of_the_sample_input() {
    assert_eq!(hash_to_vec("supersecret", 4), vec![81i64, 87, 3, 12]);
}

#[test]
fn hash_to_vec_wraps_around_the_digest() {
    let v = hash_to_vec("supersecret", 20);
    assert_eq!(
        v,
        vec![81i64, 87, 3, 12, 4, 6, 89, 93, 55, 58, 80, 49, 25, 66, 5, 76, 81, 87, 3, 12]
    );
}

#[test]
fn hash_to_vec_of_length_zero_is_empty() {
    assert_eq!(hash_to_vec("supersecret", 0), Vec::<i64>::new());
}

#[test]
fn hash_to_vec_is_deterministic() {
    assert_eq!(hash_to_vec("supersecret", 16), hash_to_vec("supersecret", 16));
    assert_ne!(hash_to_vec("supersecret", 16), hash_to_vec("supersecres", 16));
    assert!(hash_to_vec("anything", 64).iter().all(|v| 0 <= *v && *v < Q));
}

#[test]
fn vec_from_digest_mixes_byte_pairs() {
    let digest = [1u8, 2, 3, 4];
    // (1 * 31 + 2) % 97, (3 * 31 + 4) % 97, then around again
    assert_eq!(vec_from_digest(&digest, 3, 97), vec![33i64, 0, 33]);
    assert_eq!(vec_from_digest(&digest, 2, 1000), vec![33i64, 97]);
    let odd = [255u8, 255, 7];
    // pairs (255, 255), (7, 255), (255, 7)
    assert_eq!(vec_from_digest(&odd, 3, 10000), vec![8160i64, 472, 7912]);
    assert_eq!(vec_from_digest(&odd, 1, 97), vec![8160i64 % 97]);
}

#[test]
fn residue_is_never_negative() {
    assert_eq!(residue(100, 97), 3);
    assert_eq!(residue(-1, 97), 96);
    assert_eq!(residue(-97, 97), 0);
    assert_eq!(residue(-98, 97), 96);
    assert_eq!(residue(0, 97), 0);
    assert_eq!(residue(i64::MIN, 97), (i64::MIN).rem_euclid(97));
    assert_eq!(residue(i64::MAX, i64::MAX), 0);
    assert_eq!(residue(i64::MIN, i64::MAX), (i64::MIN).rem_euclid(i64::MAX));
}

#[test]
fn inner_product_mod_of_small_vectors() {
    assert_eq!(inner_product_mod(&vec![1, 2, 3], &vec![4, 5, 6], 97), Ok(32));
    assert_eq!(inner_product_mod(&vec![81, 87, 3, 12], &vec![5, 12, 3, 7], 97), Ok(1542 % 97));
    assert_eq!(inner_product_mod(&vec![-1], &vec![5], 97), Ok(92));
    assert_eq!(inner_product_mod(&vec![], &vec![], 97), Ok(0));
    assert_eq!(
        inner_product_mod(&vec![i64::MAX, i64::MAX], &vec![i64::MAX, i64::MIN], 97),
        Ok((((i64::MAX as i128) * (i64::MAX as i128) + (i64::MAX as i128) * (i64::MIN as i128))
            .rem_euclid(97)) as i64)
    );
}

#[test]
fn inner_product_mod_refuses_different_lengths() {
    assert_eq!(
        inner_product_mod(&vec![1, 2, 3], &vec![4, 5], 97),
        Err(LatticeError::DimensionMismatch)
    );
    assert_eq!(inner_product_mod(&vec![], &vec![4], 97), Err(LatticeError::DimensionMismatch));
}

#[test]
fn oprf_output_reduces_the_first_coefficient() {
    assert_eq!(oprf_output(&vec![1542, 5, 9], 97), Some(87));
    assert_eq!(oprf_output(&vec![-3], 97), Some(94));
    assert_eq!(oprf_output(&vec![], 97), None);
}

#[test]
fn direct_calculation_of_the_sample_input() {
    assert_eq!(direct_calculation("supersecret", &vec![5, 12, 3, 7]), 87);
    assert_eq!(direct_calculation("supersecret", &vec![]), 0);
}

#[test]
fn oblivious_evaluation_matches_direct_calculation() {
    let dim = 4;
    let server_k = vec![5i64, 12, 3, 7];
    let mut rng = rand::rng();
    let params = parameters();
    let (sk, pk) = generate_keys(&params, &mut rng);
    let pw = "supersecret";

    let ct_x = client_blind(pw, dim, &params, &pk, &mut rng).unwrap();
    assert_eq!(ct_x.len(), dim);
    let ct_y = server_eval(&ct_x, &server_k, &params).unwrap();
    let y = client_unblind(&ct_y, &sk).unwrap();
    assert_eq!(y[0], 1542);
    let output = oprf_output(&y, Q).unwrap();

    let x_plain = hash_to_vec(pw, dim);
    let mut acc: i64 = 0;
    for (a, k) in x_plain.iter().zip(server_k.iter()) {
        acc += *a * *k;
    }
    assert_eq!(acc % Q, output);
    assert_eq!(output, 87);
    assert!(0 <= output && output < 97);
    assert_eq!(direct_calculation(pw, &server_k), output);
}

#[test]
fn oblivious_evaluation_with_negative_key_coordinates() {
    let server_k = vec![-5i64, 12, -3, 7, 1, 0];
    let mut rng = rand::rng();
    let params = parameters();
    let (sk, pk) = generate_keys(&params, &mut rng);
    let ct_x = client_blind("another input", 6, &params, &pk, &mut rng).unwrap();
    let ct_y = server_eval(&ct_x, &server_k, &params).unwrap();
    let y = client_unblind(&ct_y, &sk).unwrap();
    assert_eq!(oprf_output(&y, Q).unwrap(), direct_calculation("another input", &server_k));
}

#[test]
fn server_eval_refuses_different_lengths() {
    let mut rng = rand::rng();
    let params = parameters();
    let (sk, pk) = generate_keys(&params, &mut rng);
    let ct_x = client_blind("supersecret", 4, &params, &pk, &mut rng).unwrap();
    assert_eq!(
        server_eval(&ct_x, &vec![5, 12, 3], &params).unwrap_err(),
        LatticeError::DimensionMismatch
    );
    assert_eq!(
        server_eval(&ct_x, &vec![5, 12, 3, 7, 1], &params).unwrap_err(),
        LatticeError::DimensionMismatch
    );
    assert_eq!(
        server_eval(&Vec::<Ciphertext>::new(), &vec![1], &params).unwrap_err(),
        LatticeError::DimensionMismatch
    );
}

#[test]
fn encrypt_vector_gives_one_ciphertext_per_coordinate() {
    let mut rng = rand::rng();
    let params = parameters();
    let (sk, pk) = generate_keys(&params, &mut rng);
    let cts = encrypt_vector(&vec![3, 1, 4, 1, 5], &params, &pk, &mut rng).unwrap();
    assert_eq!(cts.len(), 5);
    for (ct, expected) in cts.iter().zip([3i64, 1, 4, 1, 5]) {
        assert_eq!(client_unblind(ct, &sk).unwrap()[0], expected);
    }
    assert!(encrypt_vector(&vec![], &params, &pk, &mut rng).unwrap().is_empty());
}

#[test]
fn two_encryptions_of_one_input_differ() {
    let mut rng = rand::rng();
    let params = parameters();
    let (sk, pk) = generate_keys(&params, &mut rng);
    let first = client_blind("supersecret", 2, &params, &pk, &mut rng).unwrap();
    let second = client_blind("supersecret", 2, &params, &pk, &mut rng).unwrap();
    assert!(first[0] != second[0]);
    assert!(first[1] != second[1]);
}

#[test]
fn end_to_end_run_gives_equal_values() {
    let mut rng = rand::rng();
    let (oblivious, direct) =
        opfrs_lattice("supersecret", &vec![5, 12, 3, 7], 16, 2, &mut rng).unwrap();
    assert_eq!(oblivious, 87);
    assert_eq!(direct, 87);
}

#[test]
fn end_to_end_run_refuses_an_empty_key_vector() {
    let mut rng = rand::rng();
    assert_eq!(
        opfrs_lattice("supersecret", &vec![], 16, 2, &mut rng).unwrap_err(),
        LatticeError::Scheme
    );
}

#[test]
fn evaluation_of_empty_vectors_cannot_be_unblinded() {
    let mut rng = rand::rng();
    let params = parameters();
    let (sk, _pk) = generate_keys(&params, &mut rng);
    let ct = server_eval(&Vec::<Ciphertext>::new(), &vec![], &params).unwrap();
    assert_eq!(client_unblind(&ct, &sk).unwrap_err(), LatticeError::Scheme);
}

#[test]
fn keys_of_other_parameters_do_not_decrypt() {
    let mut rng = rand::rng();
    let params = parameters();
    let other = parameters();
    let (_sk, pk) = generate_keys(&params, &mut rng);
    let (other_sk, _other_pk) = generate_keys(&other, &mut rng);
    let cts = client_blind("supersecret", 1, &params, &pk, &mut rng).unwrap();
    assert_eq!(client_unblind(&cts[0], &other_sk).unwrap_err(), LatticeError::Scheme);
}

#[test]
fn a_large_inner_product_wraps_around_the_plaintext_modulus() {
    let mut rng = rand::rng();
    let params = parameters();
    let t = params.plaintext() as i64;
    let (sk, pk) = generate_keys(&params, &mut rng);
    let server_k = vec![1000i64, 0, 0, 0];
    let ct_x = client_blind("supersecret", 4, &params, &pk, &mut rng).unwrap();
    let ct_y = server_eval(&ct_x, &server_k, &params).unwrap();
    let y = client_unblind(&ct_y, &sk).unwrap();
    assert!(81000 >= t / 2);
    let a = 81000 % t;
    let centered = if a >= t / 2 { a - t } else { a };
    assert_eq!(y[0], centered);
    assert_eq!(direct_calculation("supersecret", &server_k), 81000 % 97);
}

#[test]
fn end_to_end_run_without_a_parameter_set() {
    let mut rng = rand::rng();
    let k = vec![5i64, 12, 3, 7];
    assert_eq!(
        opfrs_lattice("supersecret", &k, 16, 1000, &mut rng).unwrap_err(),
        LatticeError::NoParameters
    );
    assert_eq!(
        opfrs_lattice("supersecret", &k, 0, 2, &mut rng).unwrap_err(),
        LatticeError::NoParameters
    );
    assert_eq!(
        opfrs_lattice("supersecret", &k, 64, 2, &mut rng).unwrap_err(),
        LatticeError::NoParameters
    );
}

#[test]
fn default_parameters_are_those_of_the_scheme() {
    let ours = default_parameters(16, 2).unwrap();
    let theirs = BfvParameters::default_parameters_128(16).unwrap().nth(2).unwrap();
    assert_eq!(ours.degree(), theirs.degree());
    assert_eq!(ours.plaintext(), theirs.plaintext());
    assert_eq!(ours.moduli(), theirs.moduli());
    assert!(default_parameters(16, 1000).is_none());
    assert!(default_parameters(0, 0).is_none());
    assert!(default_parameters(64, 0).is_none());
    assert!(default_parameters(5, 0).is_none());
}

#[test]
fn client_blind_of_length_zero_is_empty() {
    let mut rng = rand::rng();
    let params = parameters();
    let (_sk, pk) = generate_keys(&params, &mut rng);
    assert!(client_blind("supersecret", 0, &params, &pk, &mut rng).unwrap().is_empty());
}

#[test]
fn evaluation_of_empty_vectors_is_the_zero_of_the_scheme() {
    let params = parameters();
    let ct = server_eval(&Vec::<Ciphertext>::new(), &vec![], &params).unwrap();
    assert!(ct == Ciphertext::zero(&params));
}

#[test]
fn each_ciphertext_meets_the_key_coordinate_of_its_position() {
    let mut rng = rand::rng();
    let params = parameters();
    let (sk, pk) = generate_keys(&params, &mut rng);
    let x = hash_to_vec("supersecret", 4);
    let ct_x = client_blind("supersecret", 4, &params, &pk, &mut rng).unwrap();
    for j in 0..4 {
        let mut k = vec![0i64; 4];
        k[j] = 1;
        let ct_y = server_eval(&ct_x, &k, &params).unwrap();
        assert_eq!(client_unblind(&ct_y, &sk).unwrap()[0], x[j]);
    }
    let ct_y = server_eval(&ct_x, &vec![1, 10, 100, 0], &params).unwrap();
    assert_eq!(client_unblind(&ct_y, &sk).unwrap()[0], x[0] + 10 * x[1] + 100 * x[2]);
}

#[test]
fn server_eval_is_the_sum_of_the_products() {
    let mut rng = rand::rng();
    let params = parameters();
    let (_sk, pk) = generate_keys(&params, &mut rng);
    let ct_x = client_blind("supersecret", 3, &params, &pk, &mut rng).unwrap();
    let k = vec![5i64, -12, 3];
    let mut expected = Ciphertext::zero(&params);
    for (ct, w) in ct_x.iter().zip(k.iter()) {
        let pt = Plaintext::try_encode(&[*w], Encoding::poly(), &params).unwrap();
        expected += &(ct * &pt);
    }
    assert!(server_eval(&ct_x, &k, &params).unwrap() == expected);
}
