use zerosol::constraint_system::{ArithmeticConstraintVerifier, ConstraintSystemBuilder, R1CSVerifier};
use zerosol::point::G1Point;
use zerosol::scalar::Scalar;

#[test]
fn test_constraint_system_builder() {
    let mut builder = ConstraintSystemBuilder::new();
    let a = builder.add_variable();
    let b = builder.add_variable();
    let c = builder.add_variable();
    builder.add_multiplication_constraint(a, b, c);
    let witness = vec![Scalar::from_u64(3), Scalar::from_u64(4), Scalar::from_u64(12)];
    let cs = builder.build(witness);
    let verifier = R1CSVerifier::new(cs);
    assert!(verifier.verify_constraints().unwrap());
}

#[test]
fn test_constraint_system_basic() {
    let mut builder = ConstraintSystemBuilder::new();
    let a = builder.add_variable();
    let b = builder.add_variable();
    let c = builder.add_variable();
    builder.add_multiplication_constraint(a, b, c);
    let witness = vec![Scalar::from_u64(5), Scalar::from_u64(6), Scalar::from_u64(30)];
    let verifier = R1CSVerifier::new(builder.build(witness));
    assert!(verifier.verify_constraints().unwrap());
}

#[test]
fn test_constraint_system_invalid() {
    let mut builder = ConstraintSystemBuilder::new();
    let a = builder.add_variable();
    let b = builder.add_variable();
    let c = builder.add_variable();
    builder.add_multiplication_constraint(a, b, c);
    let witness = vec![Scalar::from_u64(5), Scalar::from_u64(6), Scalar::from_u64(31)];
    let verifier = R1CSVerifier::new(builder.build(witness));
    assert!(!verifier.verify_constraints().unwrap());
}

#[test]
fn short_witness_is_rejected() {
    let mut builder = ConstraintSystemBuilder::new();
    let a = builder.add_variable();
    let b = builder.add_variable();
    let c = builder.add_variable();
    builder.add_multiplication_constraint(a, b, c);
    let verifier = R1CSVerifier::new(builder.build(vec![Scalar::from_u64(2)]));
    assert_eq!(
        verifier.verify_constraints().unwrap_err(),
        zerosol::error::ZerosolError::InvalidProofStructure
    );
}

#[test]
fn addition_constraint_uses_the_constant_one() {
    // variable 0 holds the constant 1
    let mut builder = ConstraintSystemBuilder::new();
    let one = builder.add_variable();
    let a = builder.add_variable();
    let b = builder.add_variable();
    let c = builder.add_variable();
    assert_eq!(one, 0);
    builder.add_addition_constraint(a, b, c);
    let witness = vec![
        Scalar::from_u64(1),
        Scalar::from_u64(10),
        Scalar::from_u64(15),
        Scalar::from_u64(25),
    ];
    let verifier = R1CSVerifier::new(builder.build(witness));
    assert!(verifier.verify_constraints().unwrap());
}

#[test]
fn linear_constraint_sums_to_zero() {
    let mut builder = ConstraintSystemBuilder::new();
    let one = builder.add_variable();
    let a = builder.add_variable();
    let b = builder.add_variable();
    let ten = builder.add_public_input(Scalar::from_u64(10));
    let minus_one = zerosol::scalar::scalar_neg(&Scalar::one());
    builder.add_linear_constraint(vec![(a, Scalar::one()), (b, Scalar::one()), (ten, minus_one)]);
    assert_eq!(one, 0);
    let witness = vec![
        Scalar::from_u64(1),
        Scalar::from_u64(4),
        Scalar::from_u64(6),
        Scalar::from_u64(10),
    ];
    let verifier = R1CSVerifier::new(builder.build(witness));
    assert!(verifier.verify_constraints().unwrap());
}

#[test]
fn test_arithmetic_constraints() {
    let g = G1Point::generator();
    let comm_a = g.mul(&Scalar::from_u64(3));
    let comm_b = g.mul(&Scalar::from_u64(4));
    let comm_c = g.mul(&Scalar::from_u64(7));
    assert!(ArithmeticConstraintVerifier::verify_addition_constraint(&comm_a, &comm_b, &comm_c));
}

#[test]
fn test_arithmetic_constraint_addition() {
    let g = G1Point::generator();
    let comm_a = g.mul(&Scalar::from_u64(7));
    let comm_b = g.mul(&Scalar::from_u64(3));
    let comm_c = g.mul(&Scalar::from_u64(10));
    assert!(ArithmeticConstraintVerifier::verify_addition_constraint(&comm_a, &comm_b, &comm_c));
}

#[test]
fn test_arithmetic_constraint_addition_invalid() {
    let g = G1Point::generator();
    let comm_a = g.mul(&Scalar::from_u64(7));
    let comm_b = g.mul(&Scalar::from_u64(3));
    let comm_c = g.mul(&Scalar::from_u64(11));
    assert!(!ArithmeticConstraintVerifier::verify_addition_constraint(&comm_a, &comm_b, &comm_c));
}
