use curve25519_dalek::constants::RISTRETTO_BASEPOINT_POINT;
use curve25519_dalek::ristretto::{CompressedRistretto, RistrettoPoint};
use curve25519_dalek::scalar::Scalar as DalekScalar;
use rand::Rng;
use sha2::{Digest, Sha256};
use zerosol::curve_ops::{CurveOpsManager, PrecomputedConstants, SpecializedOps};
use zerosol::error::ZerosolError;
use zerosol::point::{multi_scalar_mul, G1Point};
use zerosol::scalar::{scalar_add, scalar_from_bytes, scalar_mul, Scalar};
use zerosol::utils::{
    batch_scalar_mul, get_h_generator, hadamard_product, init_optimized_curve_ops, inner_product,
    pedersen_commit, scalar_powers, vector_add, vector_scalar_mul, vector_sub,
};

fn lib_point(p: &RistrettoPoint) -> G1Point {
    G1Point::from_bytes(&p.compress().to_bytes()).unwrap()
}

fn dalek_point(p: &G1Point) -> RistrettoPoint {
    CompressedRistretto(p.to_bytes()).decompress().unwrap()
}

fn dalek_scalar(s: &Scalar) -> DalekScalar {
    DalekScalar::from_bytes_mod_order(s.to_bytes())
}

fn is_one(s: &Scalar) -> bool {
    s.equals(&Scalar::one())
}

#[test]
fn curve_ops_test_batch_invert() {
    let scalars = vec![Scalar::from_u64(2), Scalar::from_u64(3), Scalar::from_u64(5)];
    let inverses = SpecializedOps::batch_invert(&scalars).unwrap();
    for (s, inv) in scalars.iter().zip(inverses.iter()) {
        assert!(is_one(&scalar_mul(s, inv)));
    }
}

#[test]
fn bulletproof_test_batch_invert() {
    let scalars = vec![Scalar::from_u64(2), Scalar::from_u64(3), Scalar::from_u64(5)];
    let inverses = SpecializedOps::batch_invert(&scalars).unwrap();
    assert_eq!(inverses.len(), 3);
    for (s, inv) in scalars.iter().zip(inverses.iter()) {
        assert!(is_one(&scalar_mul(s, inv)));
    }
}

#[test]
fn test_batch_scalar_inversion() {
    let scalars = vec![
        Scalar::from_u64(2),
        Scalar::from_u64(3),
        Scalar::from_u64(5),
        Scalar::from_u64(7),
    ];
    let inverses = SpecializedOps::batch_invert(&scalars).unwrap();
    for (s, inv) in scalars.iter().zip(inverses.iter()) {
        assert!(is_one(&scalar_mul(s, inv)));
    }
}

#[test]
fn batch_invert_matches_single_inversion_on_random_vectors() {
    let mut rng = rand::thread_rng();
    for len in 1..12 {
        let scalars: Vec<Scalar> = (0..len)
            .map(|_| {
                let b: [u8; 32] = rng.gen();
                scalar_from_bytes(&b)
            })
            .collect();
        let inverses = SpecializedOps::batch_invert(&scalars).unwrap();
        for (s, inv) in scalars.iter().zip(inverses.iter()) {
            assert!(is_one(&scalar_mul(s, inv)));
            assert_eq!(dalek_scalar(inv), dalek_scalar(s).invert());
        }
    }
}

#[test]
fn batch_invert_rejects_zero() {
    let scalars = vec![Scalar::from_u64(2), Scalar::zero(), Scalar::from_u64(5)];
    assert_eq!(SpecializedOps::batch_invert(&scalars).unwrap_err(), ZerosolError::DivisionByZero);
}

#[test]
fn batch_invert_of_empty_is_empty() {
    assert!(SpecializedOps::batch_invert(&[]).unwrap().is_empty());
}

#[test]
fn test_curve_ops_manager() {
    let manager = CurveOpsManager::new();
    let value = Scalar::from_u64(42);
    let blinding = Scalar::from_u64(123);
    let commitment = manager.pedersen_commit(&value, &blinding);
    let h = dalek_point(&get_h_generator());
    let expected = RISTRETTO_BASEPOINT_POINT * DalekScalar::from(42u64) + h * DalekScalar::from(123u64);
    assert_eq!(dalek_point(&commitment), expected);
}

#[test]
fn test_optimized_pedersen_commitment() {
    let ops = init_optimized_curve_ops();
    let value = Scalar::from_u64(42);
    let blinding = Scalar::from_u64(123);
    let optimized = ops.pedersen_commit(&value, &blinding);
    let standard = pedersen_commit(&value, &blinding);
    assert_eq!(optimized.to_bytes(), standard.to_bytes());
}

#[test]
fn pedersen_commitments_add_up() {
    let mut rng = rand::thread_rng();
    for _ in 0..8 {
        let v1 = Scalar::from_u64(rng.gen());
        let r1 = scalar_from_bytes(&rng.gen());
        let v2 = Scalar::from_u64(rng.gen());
        let r2 = scalar_from_bytes(&rng.gen());
        let sum = pedersen_commit(&v1, &r1).add(&pedersen_commit(&v2, &r2));
        let joint = pedersen_commit(&scalar_add(&v1, &v2), &scalar_add(&r1, &r2));
        assert_eq!(sum.to_bytes(), joint.to_bytes());
    }
}

#[test]
fn test_linear_combination() {
    let ops = init_optimized_curve_ops();
    let g = RISTRETTO_BASEPOINT_POINT;
    let scalars = vec![Scalar::from_u64(2), Scalar::from_u64(3), Scalar::from_u64(5)];
    let points = vec![
        lib_point(&g),
        lib_point(&(g * DalekScalar::from(2u64))),
        lib_point(&(g * DalekScalar::from(3u64))),
    ];
    let result = ops.linear_combination(&scalars, &points).unwrap();
    assert_eq!(dalek_point(&result), g * DalekScalar::from(23u64));
    assert_eq!(multi_scalar_mul(&scalars, &points).to_bytes(), result.to_bytes());
    assert_eq!(
        ops.linear_combination(&scalars[..2], &points).unwrap_err(),
        ZerosolError::InvalidProofStructure
    );
}

#[test]
fn fast_scalar_mul_agrees_with_plain_multiplication() {
    let ops = init_optimized_curve_ops();
    let s = Scalar::from_u64(987654321);
    let g = G1Point::generator();
    assert_eq!(ops.fast_scalar_mul(&g, &s).to_bytes(), g.mul(&s).to_bytes());
    let h = get_h_generator();
    assert_eq!(ops.fast_scalar_mul(&h, &s).to_bytes(), (dalek_point(&h) * DalekScalar::from(987654321u64)).compress().to_bytes());
}

#[test]
fn test_specialized_ops_batch_verify() {
    let g = RISTRETTO_BASEPOINT_POINT;
    let commitments = vec![
        lib_point(&g),
        lib_point(&(g * DalekScalar::from(2u64))),
        lib_point(&(g * DalekScalar::from(3u64))),
    ];
    let values = vec![Scalar::from_u64(1), Scalar::from_u64(2), Scalar::from_u64(3)];
    let blindings = vec![Scalar::zero(), Scalar::zero(), Scalar::zero()];
    let ops = init_optimized_curve_ops();
    assert!(SpecializedOps::batch_verify_commitments(&commitments, &values, &blindings, &ops).unwrap());
    let wrong = vec![Scalar::from_u64(1), Scalar::from_u64(2), Scalar::from_u64(4)];
    assert!(!SpecializedOps::batch_verify_commitments(&commitments, &wrong, &blindings, &ops).unwrap());
}

#[test]
fn test_precomputed_constants() {
    let constants = PrecomputedConstants::new();
    for i in 0..10 {
        let power = constants.power_of_two(i).unwrap();
        assert_eq!(dalek_scalar(&power), DalekScalar::from(1u64 << i));
    }
    for i in 0..16 {
        let s = constants.small_scalar(i).unwrap();
        assert_eq!(dalek_scalar(&s), DalekScalar::from(i as u64));
    }
    for i in 0..10 {
        let m = constants.generator_multiple(i).unwrap();
        assert_eq!(dalek_point(&m), RISTRETTO_BASEPOINT_POINT * DalekScalar::from(i as u64));
    }
    assert!(constants.power_of_two(33).is_none());
    assert!(constants.small_scalar(16).is_none());
    assert!(constants.generator_multiple(256).is_none());
}

#[test]
fn test_hash_to_curve_optimized() {
    let p1 = SpecializedOps::hash_to_curve_optimized(b"test_data_for_hashing");
    let p2 = SpecializedOps::hash_to_curve_optimized(b"test_data_for_hashing");
    assert_eq!(p1.to_bytes(), p2.to_bytes());
    let p3 = SpecializedOps::hash_to_curve_optimized(b"different_data");
    assert_ne!(p1.to_bytes(), p3.to_bytes());
}

#[test]
fn test_range_constraint_verification() {
    let g = RISTRETTO_BASEPOINT_POINT;
    let valid = vec![lib_point(&g), lib_point(&(g * DalekScalar::from(100u64)))];
    let invalid = vec![G1Point::identity(), lib_point(&g)];
    assert!(SpecializedOps::verify_range_constraints(&valid, 32));
    assert!(!SpecializedOps::verify_range_constraints(&invalid, 32));
}

#[test]
fn scalar_arithmetic_matches_dalek() {
    let a = scalar_from_bytes(&[7u8; 32]);
    let b = scalar_from_bytes(&[200u8; 32]);
    let da = DalekScalar::from_bytes_mod_order([7u8; 32]);
    let db = DalekScalar::from_bytes_mod_order([200u8; 32]);
    assert_eq!(dalek_scalar(&scalar_add(&a, &b)), da + db);
    assert_eq!(dalek_scalar(&scalar_mul(&a, &b)), da * db);
    assert_eq!(dalek_scalar(&zerosol::scalar::scalar_sub(&a, &b)), da - db);
    assert_eq!(dalek_scalar(&zerosol::scalar::scalar_neg(&a)), -da);
    assert_eq!(dalek_scalar(&zerosol::scalar::scalar_inv(&a)), da.invert());
    // reduction of a non-canonical encoding
    assert_eq!(scalar_from_bytes(&[255u8; 32]).to_bytes(), DalekScalar::from_bytes_mod_order([255u8; 32]).to_bytes());
}

#[test]
fn point_operations_match_dalek() {
    let g = RISTRETTO_BASEPOINT_POINT;
    let p = lib_point(&(g * DalekScalar::from(5u64)));
    let q = lib_point(&(g * DalekScalar::from(9u64)));
    assert_eq!(dalek_point(&p.add(&q)), g * DalekScalar::from(14u64));
    assert_eq!(dalek_point(&p.neg()), -(g * DalekScalar::from(5u64)));
    assert_eq!(G1Point::identity().to_bytes(), [0u8; 32]);
    assert_eq!(G1Point::generator().to_bytes(), g.compress().to_bytes());
    // an odd field element is not a canonical encoding
    let mut bad = [0u8; 32];
    bad[0] = 1;
    assert!(G1Point::from_bytes(&bad).is_none());
}

#[test]
fn hash_to_scalar_reduces_the_sha256_digest() {
    let digest: [u8; 32] = Sha256::digest(b"abc").into();
    let s = zerosol::utils::hash_to_scalar(b"abc");
    assert_eq!(s.to_bytes(), DalekScalar::from_bytes_mod_order(digest).to_bytes());
    let p = zerosol::utils::map_to_curve(b"abc");
    assert_eq!(dalek_point(&p), RISTRETTO_BASEPOINT_POINT * DalekScalar::from_bytes_mod_order(digest));
    assert_eq!(Scalar::from_u64(7).to_bytes(), DalekScalar::from(7u64).to_bytes());
}

#[test]
fn scalar_vector_helpers() {
    let a = vec![Scalar::from_u64(1), Scalar::from_u64(2), Scalar::from_u64(3)];
    let b = vec![Scalar::from_u64(4), Scalar::from_u64(5), Scalar::from_u64(6)];
    assert_eq!(dalek_scalar(&inner_product(&a, &b)), DalekScalar::from(32u64));
    let p = scalar_powers(&Scalar::from_u64(3), 5);
    let expected = [1u64, 3, 9, 27, 81];
    for (x, e) in p.iter().zip(expected.iter()) {
        assert_eq!(dalek_scalar(x), DalekScalar::from(*e));
    }
    assert!(scalar_powers(&Scalar::from_u64(3), 0).is_empty());
    let h = hadamard_product(&a, &b);
    assert_eq!(dalek_scalar(&h[2]), DalekScalar::from(18u64));
    assert_eq!(dalek_scalar(&vector_add(&a, &b)[1]), DalekScalar::from(7u64));
    assert_eq!(dalek_scalar(&vector_sub(&a, &b)[0]), -DalekScalar::from(3u64));
    assert_eq!(dalek_scalar(&vector_scalar_mul(&a, &Scalar::from_u64(10))[2]), DalekScalar::from(30u64));
    let g = G1Point::generator();
    let pts = vec![g.copy(), g.copy()];
    let m = batch_scalar_mul(&[Scalar::from_u64(2), Scalar::from_u64(5)], &pts);
    assert_eq!(dalek_point(&m[1]), RISTRETTO_BASEPOINT_POINT * DalekScalar::from(5u64));
}

#[test]
fn map_to_curve_with_index_appends_the_index() {
    let mut seed = b"label".to_vec();
    seed.extend_from_slice(&7u64.to_le_bytes());
    let a = zerosol::utils::map_to_curve_with_index(b"label", 7);
    assert_eq!(a.to_bytes(), zerosol::utils::map_to_curve(&seed).to_bytes());
}
