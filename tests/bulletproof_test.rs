use zerosol::bulletproof::{AggregatedRangeProof, BulletproofVerifier, InnerProductProof, RangeProof};
use zerosol::error::ZerosolError;
use zerosol::point::G1Point;
use zerosol::scalar::Scalar;
use zerosol::transcript::Transcript;
use zerosol::utils::map_to_curve;

#[test]
fn bulletproof_test_bulletproof_verifier_creation() {
    let verifier = BulletproofVerifier::new(64);
    assert_eq!(verifier.n, 64);
    assert_eq!(verifier.g.len(), 64);
    assert_eq!(verifier.h.len(), 64);
}

#[test]
fn test_transcript() {
    let mut transcript = Transcript::new();
    transcript.append_point(b"test_point", &G1Point::generator());
    transcript.append_scalar(b"test_scalar", &Scalar::one());
    let challenge = transcript.challenge_scalar(b"challenge");
    assert!(!challenge.is_zero());
}

#[test]
fn test_transcript_determinism() {
    let point = G1Point::generator();
    let scalar = Scalar::from_u64(42);
    let mut t1 = Transcript::new();
    let mut t2 = Transcript::new();
    t1.append_point(b"test", &point);
    t1.append_scalar(b"scalar", &scalar);
    t2.append_point(b"test", &point);
    t2.append_scalar(b"scalar", &scalar);
    let c1 = t1.challenge_scalar(b"challenge");
    let c2 = t2.challenge_scalar(b"challenge");
    assert_eq!(c1.to_bytes(), c2.to_bytes());
    // squeezing folds the challenge back, so the next challenge differs
    let c3 = t1.challenge_scalar(b"challenge");
    assert_ne!(c1.to_bytes(), c3.to_bytes());
}

#[test]
fn transcript_order_changes_the_challenge() {
    let mut t1 = Transcript::new();
    let mut t2 = Transcript::new();
    t1.append_message(b"a", b"1");
    t1.append_message(b"b", b"2");
    t2.append_message(b"b", b"2");
    t2.append_message(b"a", b"1");
    assert_ne!(t1.challenge_scalar(b"x").to_bytes(), t2.challenge_scalar(b"x").to_bytes());
    // length prefixes keep "ab"+"c" apart from "a"+"bc"
    let mut t3 = Transcript::new();
    let mut t4 = Transcript::new();
    t3.append_message(b"ab", b"c");
    t4.append_message(b"a", b"bc");
    assert_ne!(t3.challenge_scalar(b"x").to_bytes(), t4.challenge_scalar(b"x").to_bytes());
}

#[test]
fn generators_are_deterministic_distinct_and_not_identity() {
    let v1 = BulletproofVerifier::new(64);
    let v2 = BulletproofVerifier::new(64);
    let mut seen: Vec<[u8; 32]> = Vec::new();
    for i in 0..64 {
        assert_eq!(v1.g[i].to_bytes(), v2.g[i].to_bytes());
        assert_eq!(v1.h[i].to_bytes(), v2.h[i].to_bytes());
        seen.push(v1.g[i].to_bytes());
        seen.push(v1.h[i].to_bytes());
    }
    assert_eq!(v1.u.to_bytes(), v2.u.to_bytes());
    seen.push(v1.u.to_bytes());
    for (i, a) in seen.iter().enumerate() {
        assert_ne!(*a, [0u8; 32]);
        for b in seen.iter().skip(i + 1) {
            assert_ne!(a, b);
        }
    }
    // the labels are bp/g/<i>, bp/h/<i> and bp/u
    assert_eq!(v1.g[10].to_bytes(), map_to_curve(b"bp/g/10").to_bytes());
    assert_eq!(v1.h[3].to_bytes(), map_to_curve(b"bp/h/3").to_bytes());
    assert_eq!(v1.u.to_bytes(), map_to_curve(b"bp/u").to_bytes());
}

fn dummy_proof(rounds: usize) -> RangeProof {
    let g = G1Point::generator();
    RangeProof {
        a: g.copy(),
        s: g.copy(),
        t1: g.copy(),
        t2: g.copy(),
        t_hat: Scalar::one(),
        tau_x: Scalar::one(),
        mu: Scalar::one(),
        inner_product_proof: InnerProductProof {
            l_vec: (0..rounds).map(|_| g.copy()).collect(),
            r_vec: (0..rounds).map(|_| g.copy()).collect(),
            a: Scalar::one(),
            b: Scalar::one(),
        },
    }
}

#[test]
fn test_range_proof_structure() {
    let verifier = BulletproofVerifier::new(64);
    let v = G1Point::generator();
    // 32 bits need five folding rounds
    assert_eq!(
        verifier.verify_range_proof(&v, &dummy_proof(4), 32).unwrap_err(),
        ZerosolError::InvalidProofStructure
    );
    let mut uneven = dummy_proof(5);
    uneven.inner_product_proof.r_vec.pop();
    assert_eq!(
        verifier.verify_range_proof(&v, &uneven, 32).unwrap_err(),
        ZerosolError::InvalidProofStructure
    );
    // more bits than generators
    assert_eq!(
        verifier.verify_range_proof(&v, &dummy_proof(7), 128).unwrap_err(),
        ZerosolError::InvalidProofStructure
    );
    // a well-shaped forgery is rejected by the equations
    assert_eq!(verifier.verify_range_proof(&v, &dummy_proof(5), 32), Ok(false));
}

#[test]
fn aggregated_proof_needs_commitments() {
    let verifier = BulletproofVerifier::new(64);
    let agg = AggregatedRangeProof { commitments: Vec::new(), proof: dummy_proof(5) };
    assert_eq!(
        verifier.verify_aggregated_range_proof(&agg, 32).unwrap_err(),
        ZerosolError::InvalidProofStructure
    );
}
