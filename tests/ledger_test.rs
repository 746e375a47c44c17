use curve25519_dalek::constants::RISTRETTO_BASEPOINT_POINT;
use curve25519_dalek::ristretto::{CompressedRistretto, RistrettoPoint};
use curve25519_dalek::scalar::Scalar as S;
use curve25519_dalek::traits::{Identity, VartimeMultiscalarMul};
use rand::Rng;
use sha2::{Digest, Sha256};
use zerosol::bulletproof::{AggregatedRangeProof, BatchVerifier, BulletproofVerifier, InnerProductProof, RangeProof};
use zerosol::error::ZerosolError;
use zerosol::point::G1Point;
use zerosol::processor::{
    current_epoch, process_burn, process_fund, process_initialize, process_register,
    process_transfer, rollover_account, verify_epoch_constraints,
};
use zerosol::scalar::{scalar_from_bytes, Scalar};
use zerosol::state::{
    BurnProof, GlobalState, InnerProductProof as StoredIpp, NonceState, PendingAccount,
    ZerosolAccount, ZerosolProof,
};
use zerosol::sigma::{convert_zerosol_proof_to_range_proof, verify_transfer_proof};
use zerosol::transcript::Transcript;
use zerosol::utils::get_h_generator;

const PROGRAM_ID: [u8; 32] = [7u8; 32];

fn lp(p: &RistrettoPoint) -> G1Point {
    G1Point::from_bytes(&p.compress().to_bytes()).unwrap()
}

fn dp(p: &G1Point) -> RistrettoPoint {
    CompressedRistretto(p.to_bytes()).decompress().unwrap()
}

fn dpb(b: &[u8; 32]) -> RistrettoPoint {
    CompressedRistretto(*b).decompress().unwrap()
}

fn ls(s: &S) -> Scalar {
    scalar_from_bytes(&s.to_bytes())
}

fn ds(s: &Scalar) -> S {
    S::from_bytes_mod_order(s.to_bytes())
}

fn rs() -> S {
    let b: [u8; 32] = rand::thread_rng().gen();
    S::from_bytes_mod_order(b)
}

fn chal(t: &mut Transcript, label: &[u8]) -> S {
    ds(&t.challenge_scalar(label))
}

fn h_gen() -> RistrettoPoint {
    dp(&get_h_generator())
}

fn ip(a: &[S], b: &[S]) -> S {
    a.iter().zip(b.iter()).fold(S::ZERO, |acc, (x, y)| acc + x * y)
}

fn msm(s: &[S], p: &[RistrettoPoint]) -> RistrettoPoint {
    RistrettoPoint::vartime_multiscalar_mul(s.iter(), p.iter())
}

/// Honest prover for values in [0, 2^n) on a transcript, in the verifier's order.
fn prove_range(
    verifier: &BulletproofVerifier,
    t: &mut Transcript,
    values: &[u64],
    gammas: &[S],
    n: usize,
) -> (Vec<RistrettoPoint>, RangeProof) {
    let g = RISTRETTO_BASEPOINT_POINT;
    let h = h_gen();
    let m = values.len();
    let mn = m * n;
    let gs: Vec<RistrettoPoint> = verifier.g[..mn].iter().map(dp).collect();
    let hs: Vec<RistrettoPoint> = verifier.h[..mn].iter().map(dp).collect();
    let u = dp(&verifier.u);
    let vs: Vec<RistrettoPoint> = (0..m).map(|j| g * S::from(values[j]) + h * gammas[j]).collect();
    for j in 0..m {
        t.append_point(format!("V_{}", j).as_bytes(), &lp(&vs[j]));
    }
    let a_l: Vec<S> = (0..mn).map(|i| S::from((values[i / n] >> (i % n)) & 1)).collect();
    let a_r: Vec<S> = a_l.iter().map(|x| x - S::ONE).collect();
    let alpha = rs();
    let rho = rs();
    let s_l: Vec<S> = (0..mn).map(|_| rs()).collect();
    let s_r: Vec<S> = (0..mn).map(|_| rs()).collect();
    let big_a = h * alpha + msm(&a_l, &gs) + msm(&a_r, &hs);
    let big_s = h * rho + msm(&s_l, &gs) + msm(&s_r, &hs);
    t.append_point(b"A", &lp(&big_a));
    t.append_point(b"S", &lp(&big_s));
    let y = chal(t, b"y");
    let z = chal(t, b"z");
    let mut ypow = vec![S::ONE; mn];
    for i in 1..mn {
        ypow[i] = ypow[i - 1] * y;
    }
    let zpow = |k: usize| (0..k).fold(S::ONE, |acc, _| acc * z);
    let two = |k: usize| S::from(1u64 << k);
    let l0: Vec<S> = a_l.iter().map(|x| x - z).collect();
    let r0: Vec<S> = (0..mn).map(|i| ypow[i] * (a_r[i] + z) + zpow(2 + i / n) * two(i % n)).collect();
    let r1: Vec<S> = (0..mn).map(|i| ypow[i] * s_r[i]).collect();
    let t1 = ip(&l0, &r1) + ip(&s_l, &r0);
    let t2 = ip(&s_l, &r1);
    let tau1 = rs();
    let tau2 = rs();
    let big_t1 = g * t1 + h * tau1;
    let big_t2 = g * t2 + h * tau2;
    t.append_point(b"T1", &lp(&big_t1));
    t.append_point(b"T2", &lp(&big_t2));
    let x = chal(t, b"x");
    let l: Vec<S> = (0..mn).map(|i| l0[i] + s_l[i] * x).collect();
    let r: Vec<S> = (0..mn).map(|i| r0[i] + r1[i] * x).collect();
    let t_hat = ip(&l, &r);
    let mut tau_x = tau2 * x * x + tau1 * x;
    for j in 0..m {
        tau_x += zpow(2 + j) * gammas[j];
    }
    let mu = alpha + rho * x;
    let yinv = y.invert();
    let mut yinv_pow = S::ONE;
    let mut hp: Vec<RistrettoPoint> = Vec::new();
    for i in 0..mn {
        hp.push(hs[i] * yinv_pow);
        yinv_pow *= yinv;
    }
    let (mut a, mut b, mut gv, mut hv) = (l, r, gs, hp);
    let mut l_vec = Vec::new();
    let mut r_vec = Vec::new();
    while a.len() > 1 {
        let half = a.len() / 2;
        let c_l = ip(&a[..half], &b[half..]);
        let c_r = ip(&a[half..], &b[..half]);
        let big_l = msm(&a[..half], &gv[half..]) + msm(&b[half..], &hv[..half]) + u * c_l;
        let big_r = msm(&a[half..], &gv[..half]) + msm(&b[..half], &hv[half..]) + u * c_r;
        t.append_point(b"L", &lp(&big_l));
        t.append_point(b"R", &lp(&big_r));
        let uk = chal(t, b"u");
        let ui = uk.invert();
        a = (0..half).map(|i| a[i] * uk + a[i + half] * ui).collect();
        b = (0..half).map(|i| b[i] * ui + b[i + half] * uk).collect();
        gv = (0..half).map(|i| gv[i] * ui + gv[i + half] * uk).collect();
        hv = (0..half).map(|i| hv[i] * uk + hv[i + half] * ui).collect();
        l_vec.push(lp(&big_l));
        r_vec.push(lp(&big_r));
    }
    let proof = RangeProof {
        a: lp(&big_a),
        s: lp(&big_s),
        t1: lp(&big_t1),
        t2: lp(&big_t2),
        t_hat: ls(&t_hat),
        tau_x: ls(&tau_x),
        mu: ls(&mu),
        inner_product_proof: InnerProductProof { l_vec, r_vec, a: ls(&a[0]), b: ls(&b[0]) },
    };
    (vs, proof)
}

fn copy_proof(p: &RangeProof) -> RangeProof {
    RangeProof {
        a: p.a.copy(),
        s: p.s.copy(),
        t1: p.t1.copy(),
        t2: p.t2.copy(),
        t_hat: p.t_hat.copy(),
        tau_x: p.tau_x.copy(),
        mu: p.mu.copy(),
        inner_product_proof: InnerProductProof {
            l_vec: p.inner_product_proof.l_vec.iter().map(|x| x.copy()).collect(),
            r_vec: p.inner_product_proof.r_vec.iter().map(|x| x.copy()).collect(),
            a: p.inner_product_proof.a.copy(),
            b: p.inner_product_proof.b.copy(),
        },
    }
}

fn flip(s: &Scalar, bit: usize) -> Scalar {
    let mut b = s.to_bytes();
    b[bit / 8] ^= 1 << (bit % 8);
    scalar_from_bytes(&b)
}

#[test]
fn valid_range_proof_verifies() {
    let verifier = BulletproofVerifier::new(64);
    let gamma = rs();
    let mut t = Transcript::new();
    let (vs, proof) = prove_range(&verifier, &mut t, &[4_000_000_000], &[gamma], 32);
    assert_eq!(verifier.verify_range_proof(&lp(&vs[0]), &proof, 32), Ok(true));
    assert_eq!(verifier.verify_range_proof(&lp(&vs[0]), &proof, 32), Ok(true));
}

#[test]
fn valid_aggregated_range_proof_verifies() {
    let verifier = BulletproofVerifier::new(64);
    let mut t = Transcript::new();
    let (vs, proof) = prove_range(&verifier, &mut t, &[0, u32::MAX as u64], &[rs(), rs()], 32);
    let agg = AggregatedRangeProof { commitments: vs.iter().map(lp).collect(), proof };
    assert_eq!(verifier.verify_aggregated_range_proof(&agg, 32), Ok(true));
}

#[test]
fn out_of_range_value_does_not_verify() {
    let verifier = BulletproofVerifier::new(64);
    let mut t = Transcript::new();
    // the prover commits to 2^32 + 5 but can only encode the low 32 bits
    let (vs, proof) = prove_range(&verifier, &mut t, &[(1u64 << 32) + 5], &[rs()], 32);
    assert_eq!(verifier.verify_range_proof(&lp(&vs[0]), &proof, 32), Ok(false));
}

#[test]
fn perturbed_range_proof_fails() {
    let verifier = BulletproofVerifier::new(64);
    let mut t = Transcript::new();
    let (vs, proof) = prove_range(&verifier, &mut t, &[123456], &[rs()], 32);
    let v = lp(&vs[0]);
    for bit in [0usize, 1, 17, 100, 200, 251] {
        let mut p = copy_proof(&proof);
        p.t_hat = flip(&proof.t_hat, bit);
        assert_eq!(verifier.verify_range_proof(&v, &p, 32), Ok(false));
        let mut p = copy_proof(&proof);
        p.tau_x = flip(&proof.tau_x, bit);
        assert_eq!(verifier.verify_range_proof(&v, &p, 32), Ok(false));
        let mut p = copy_proof(&proof);
        p.mu = flip(&proof.mu, bit);
        assert_eq!(verifier.verify_range_proof(&v, &p, 32), Ok(false));
        let mut p = copy_proof(&proof);
        p.inner_product_proof.a = flip(&proof.inner_product_proof.a, bit);
        assert_eq!(verifier.verify_range_proof(&v, &p, 32), Ok(false));
        let mut p = copy_proof(&proof);
        p.inner_product_proof.b = flip(&proof.inner_product_proof.b, bit);
        assert_eq!(verifier.verify_range_proof(&v, &p, 32), Ok(false));
    }
    let shift = G1Point::generator();
    let mut p = copy_proof(&proof);
    p.a = proof.a.add(&shift);
    assert_eq!(verifier.verify_range_proof(&v, &p, 32), Ok(false));
    let mut p = copy_proof(&proof);
    p.t2 = proof.t2.add(&shift);
    assert_eq!(verifier.verify_range_proof(&v, &p, 32), Ok(false));
    let mut p = copy_proof(&proof);
    p.inner_product_proof.l_vec[2] = proof.inner_product_proof.l_vec[2].add(&shift);
    assert_eq!(verifier.verify_range_proof(&v, &p, 32), Ok(false));
    assert_eq!(verifier.verify_range_proof(&v.add(&shift), &proof, 32), Ok(false));
}

// ----- ledger scenarios -----

struct User {
    sk: S,
    pk: [u8; 32],
}

fn new_user() -> User {
    let sk = rs();
    User { sk, pk: (RISTRETTO_BASEPOINT_POINT * sk).compress().to_bytes() }
}

fn schnorr(user: &User) -> ([u8; 32], [u8; 32]) {
    let k = rs();
    let big_k = (RISTRETTO_BASEPOINT_POINT * k).compress().to_bytes();
    let mut hasher = Sha256::new();
    hasher.update(PROGRAM_ID);
    hasher.update(user.pk);
    hasher.update(big_k);
    let inner: [u8; 32] = hasher.finalize().into();
    let outer: [u8; 32] = Sha256::digest(inner).into();
    let c = S::from_bytes_mod_order(outer);
    let s = k + c * user.sk;
    (c.to_bytes(), s.to_bytes())
}

fn register(user: &User, epoch: u64) -> (ZerosolAccount, PendingAccount) {
    let (c, s) = schnorr(user);
    process_register(&PROGRAM_ID, user.pk, c, s, epoch).unwrap()
}

fn balance(a: &ZerosolAccount, p: &PendingAccount) -> (RistrettoPoint, RistrettoPoint) {
    (
        dpb(&a.commitment_left) + dpb(&p.commitment_left),
        dpb(&a.commitment_right) + dpb(&p.commitment_right),
    )
}

fn stored_ipp(p: &InnerProductProof) -> StoredIpp {
    StoredIpp {
        l_points: p.l_vec.iter().map(|x| x.to_bytes()).collect(),
        r_points: p.r_vec.iter().map(|x| x.to_bytes()).collect(),
        a: p.a.to_bytes(),
        b: p.b.to_bytes(),
    }
}

/// Burn proof for `amount` out of an account whose current balance is `bal`.
fn prove_burn(
    verifier: &BulletproofVerifier,
    user: &User,
    a: &ZerosolAccount,
    p: &PendingAccount,
    bal: u64,
    amount: u64,
    epoch: u64,
    nonce: [u8; 32],
) -> BurnProof {
    let g = RISTRETTO_BASEPOINT_POINT;
    let h = h_gen();
    let (cl, cr) = balance(a, p);
    let remaining = bal - amount;
    let tau = rs();
    let v = g * S::from(remaining) + h * tau;
    let mut t = Transcript::new();
    t.append_u64(b"epoch", epoch);
    t.append_message(b"nonce", &nonce);
    t.append_point(b"pk", &lp(&dpb(&user.pk)));
    t.append_point(b"CL", &lp(&cl));
    t.append_point(b"CR", &lp(&cr));
    t.append_u64(b"amount", amount);
    let (k_sk, k_b, k_tau) = (rs(), rs(), rs());
    t.append_point(b"A_y", &lp(&(g * k_sk)));
    t.append_point(b"A_b", &lp(&(g * k_b + cr * k_sk)));
    t.append_point(b"A_v", &lp(&(g * k_b + h * k_tau)));
    let c = chal(&mut t, b"c");
    let (vs, rp) = prove_range(verifier, &mut t, &[remaining], &[tau], 32);
    assert_eq!(vs[0], v);
    BurnProof {
        ba: rp.a.to_bytes(),
        bs: rp.s.to_bytes(),
        t_1: rp.t1.to_bytes(),
        t_2: rp.t2.to_bytes(),
        t_hat: rp.t_hat.to_bytes(),
        tau_x: rp.tau_x.to_bytes(),
        mu: rp.mu.to_bytes(),
        commitment: v.compress().to_bytes(),
        c: c.to_bytes(),
        s_sk: (k_sk + c * user.sk).to_bytes(),
        s_b: (k_b + c * S::from(remaining)).to_bytes(),
        s_tau: (k_tau + c * tau).to_bytes(),
        ip_proof: stored_ipp(&rp.inner_product_proof),
    }
}

fn g_times(v: u64) -> RistrettoPoint {
    RISTRETTO_BASEPOINT_POINT * S::from(v)
}

#[test]
fn test_initialize() {
    let g = process_initialize([1u8; 32], [2u8; 32], true, 3600, 1).unwrap();
    assert_eq!(g.current_epoch, 0);
    let bytes = g.to_bytes();
    let mut expected = Vec::new();
    expected.extend_from_slice(&[1u8; 32]);
    expected.extend_from_slice(&[2u8; 32]);
    expected.extend_from_slice(&3600u64.to_le_bytes());
    expected.extend_from_slice(&1u64.to_le_bytes());
    expected.extend_from_slice(&0u64.to_le_bytes());
    expected.extend_from_slice(&0u64.to_le_bytes());
    assert_eq!(bytes, expected);
    let back = GlobalState::from_bytes(&bytes).unwrap();
    assert_eq!(back.epoch_length, 3600);
    assert_eq!(back.fee, 1);
    assert_eq!(
        process_initialize([1u8; 32], [2u8; 32], false, 3600, 1).unwrap_err(),
        ZerosolError::MissingSignature
    );
}

#[test]
fn epoch_is_time_over_length() {
    let g = GlobalState::new([0u8; 32], [0u8; 32], 3600, 1);
    assert_eq!(current_epoch(&g, 7199), Ok(1));
    assert_eq!(current_epoch(&g, 7200), Ok(2));
    let zero = GlobalState::new([0u8; 32], [0u8; 32], 0, 1);
    assert_eq!(current_epoch(&zero, 5), Err(ZerosolError::InvalidEpoch));
}

#[test]
fn register_with_bad_signature() {
    let pk = RISTRETTO_BASEPOINT_POINT.compress().to_bytes();
    let c = S::from(2u64).to_bytes();
    let s = S::from(3u64).to_bytes();
    assert_eq!(
        process_register(&PROGRAM_ID, pk, c, s, 0).unwrap_err(),
        ZerosolError::InvalidRegistrationSignature
    );
    let mut bad_pk = [0u8; 32];
    bad_pk[0] = 1;
    assert_eq!(process_register(&PROGRAM_ID, bad_pk, c, s, 0).unwrap_err(), ZerosolError::InvalidEncoding);
}

#[test]
fn test_register() {
    let user = new_user();
    let (a, p) = register(&user, 0);
    assert!(a.is_registered);
    assert_eq!(a.public_key, user.pk);
    assert_eq!(a.commitment_left, user.pk);
    assert_eq!(a.commitment_right, RISTRETTO_BASEPOINT_POINT.compress().to_bytes());
    assert_eq!(p.commitment_left, [0u8; 32]);
    assert_eq!(p.commitment_right, [0u8; 32]);
    assert_eq!(a.last_rollover, 0);
    let bytes = a.to_bytes();
    assert_eq!(bytes.len(), 105);
    assert_eq!(bytes[104], 1);
    assert_eq!(ZerosolAccount::from_bytes(&bytes).unwrap().public_key, user.pk);
}

#[test]
fn fund_out_of_range() {
    let user = new_user();
    let (mut a, mut p) = register(&user, 0);
    assert_eq!(process_fund(&mut a, &mut p, 1u64 << 32, 0), Err(ZerosolError::TransferAmountOutOfRange));
    assert_eq!(p.commitment_left, [0u8; 32]);
    let mut unregistered = ZerosolAccount::new(user.pk);
    assert_eq!(process_fund(&mut unregistered, &mut p, 5, 0), Err(ZerosolError::AccountNotRegistered));
}

#[test]
fn valid_fund() {
    let user = new_user();
    let (mut a, mut p) = register(&user, 0);
    process_fund(&mut a, &mut p, 100, 0).unwrap();
    assert_eq!(dpb(&p.commitment_left), g_times(100));
    assert_eq!(a.commitment_left, user.pk);
    assert_eq!(a.commitment_right, RISTRETTO_BASEPOINT_POINT.compress().to_bytes());
    assert_eq!(a.last_rollover, 0);
}

#[test]
fn rollover_twice_in_one_epoch_is_a_no_op() {
    let user = new_user();
    let (mut a, mut p) = register(&user, 0);
    process_fund(&mut a, &mut p, 100, 0).unwrap();
    rollover_account(&mut a, &mut p, 1).unwrap();
    assert_eq!(dpb(&a.commitment_left), dpb(&user.pk) + g_times(100));
    assert_eq!(p.commitment_left, [0u8; 32]);
    assert_eq!(a.last_rollover, 1);
    let before = a.to_bytes();
    let before_p = p.to_bytes();
    rollover_account(&mut a, &mut p, 1).unwrap();
    assert_eq!(a.to_bytes(), before);
    assert_eq!(p.to_bytes(), before_p);
}

#[test]
fn cross_epoch_burn_then_replay() {
    let verifier = BulletproofVerifier::new(64);
    let global = GlobalState::new([0u8; 32], [0u8; 32], 1, 1);
    let user = new_user();
    let e0 = current_epoch(&global, 0).unwrap();
    let (mut a, mut p) = register(&user, e0);
    process_fund(&mut a, &mut p, 100, e0).unwrap();
    let e2 = current_epoch(&global, 2).unwrap();
    assert_eq!(e2, 2);
    let nonce = [9u8; 32];
    let mut ns = NonceState::new(nonce, 0);
    // the prover sees the state after the rollover that the burn performs first
    let mut a_r = ZerosolAccount::from_bytes(&a.to_bytes()).unwrap();
    let mut p_r = PendingAccount::from_bytes(&p.to_bytes()).unwrap();
    rollover_account(&mut a_r, &mut p_r, e2).unwrap();
    let proof = prove_burn(&verifier, &user, &a_r, &p_r, 100, 40, e2, nonce);
    process_burn(&verifier, &mut a, &mut p, &mut ns, 40, nonce, &proof, e2).unwrap();
    assert_eq!(dpb(&a.commitment_left), dpb(&user.pk) + g_times(100));
    assert_eq!(dpb(&p.commitment_left), -g_times(40));
    assert_eq!(p.commitment_right, [0u8; 32]);
    assert_eq!(a.last_rollover, 2);
    assert!(ns.used);
    assert_eq!(ns.epoch, 2);
    assert_eq!(ns.nonce, zerosol::processor::nonce_tag(&nonce, 2));
    // replay in the same epoch
    let before = (a.to_bytes(), p.to_bytes(), ns.to_bytes());
    assert_eq!(
        process_burn(&verifier, &mut a, &mut p, &mut ns, 40, nonce, &proof, e2),
        Err(ZerosolError::NonceAlreadySeen)
    );
    assert_eq!(before, (a.to_bytes(), p.to_bytes(), ns.to_bytes()));
    // the next rollover settles the withdrawal
    let mut a2 = ZerosolAccount::from_bytes(&a.to_bytes()).unwrap();
    let mut p2 = PendingAccount::from_bytes(&p.to_bytes()).unwrap();
    rollover_account(&mut a2, &mut p2, 3).unwrap();
    assert_eq!(dpb(&a2.commitment_left), dpb(&user.pk) + g_times(60));
    // the same nonce is accepted again in the next epoch
    let proof3 = prove_burn(&verifier, &user, &a2, &p2, 60, 10, 3, nonce);
    process_burn(&verifier, &mut a, &mut p, &mut ns, 10, nonce, &proof3, 3).unwrap();
    assert_eq!(ns.epoch, 3);
    assert_eq!(dpb(&p.commitment_left), -g_times(10));
}

#[test]
fn fund_then_burn_restores_settled_balance() {
    let verifier = BulletproofVerifier::new(32);
    let user = new_user();
    let (mut a, mut p) = register(&user, 0);
    let settled_before = a.commitment_left;
    process_fund(&mut a, &mut p, 25, 0).unwrap();
    let nonce = [3u8; 32];
    let mut ns = NonceState::new(nonce, 0);
    let proof = prove_burn(&verifier, &user, &a, &p, 25, 25, 0, nonce);
    process_burn(&verifier, &mut a, &mut p, &mut ns, 25, nonce, &proof, 0).unwrap();
    rollover_account(&mut a, &mut p, 1).unwrap();
    assert_eq!(a.commitment_left, settled_before);
}

#[test]
fn burn_rejects_bad_inputs() {
    let verifier = BulletproofVerifier::new(32);
    let user = new_user();
    let (mut a, mut p) = register(&user, 0);
    process_fund(&mut a, &mut p, 50, 0).unwrap();
    let nonce = [4u8; 32];
    let mut ns = NonceState::new(nonce, 0);
    let proof = prove_burn(&verifier, &user, &a, &p, 50, 20, 0, nonce);
    assert_eq!(
        process_burn(&verifier, &mut a, &mut p, &mut ns, 1u64 << 32, nonce, &proof, 0),
        Err(ZerosolError::TransferAmountOutOfRange)
    );
    // the proof is bound to the amount
    assert_eq!(
        process_burn(&verifier, &mut a, &mut p, &mut ns, 21, nonce, &proof, 0),
        Err(ZerosolError::BurnProofVerificationFailed)
    );
    // and to the epoch
    assert_eq!(
        process_burn(&verifier, &mut a, &mut p, &mut ns, 20, nonce, &proof, 1),
        Err(ZerosolError::BurnProofVerificationFailed)
    );
    // and to the nonce
    assert_eq!(
        process_burn(&verifier, &mut a, &mut p, &mut ns, 20, [5u8; 32], &proof, 0),
        Err(ZerosolError::BurnProofVerificationFailed)
    );
    // a prover cannot withdraw more than the balance: 2^32 - 30 is out of range
    let over = prove_burn(&verifier, &user, &a, &p, 50 + (1u64 << 32), 80 + (1u64 << 32) - (1u64 << 32), 0, nonce);
    assert_eq!(
        process_burn(&verifier, &mut a, &mut p, &mut ns, 80, nonce, &over, 0),
        Err(ZerosolError::BurnProofVerificationFailed)
    );
    process_burn(&verifier, &mut a, &mut p, &mut ns, 20, nonce, &proof, 0).unwrap();
}

fn lin(pairs: &[(S, RistrettoPoint)]) -> RistrettoPoint {
    pairs.iter().fold(RistrettoPoint::identity(), |acc, (s, p)| acc + p * s)
}

/// Honest transfer prover: `sender` pays `b_out` to `receiver`, keeping `b_new`.
fn prove_transfer(
    verifier: &BulletproofVerifier,
    accounts: &[ZerosolAccount],
    pendings: &[PendingAccount],
    cs: &[[u8; 32]],
    d: &[u8; 32],
    r: S,
    pks: &[[u8; 32]],
    sender: usize,
    sender_sk: S,
    receiver: usize,
    b_new: u64,
    b_out: u64,
    epoch: u64,
    nonce: [u8; 32],
) -> ZerosolProof {
    let g = RISTRETTO_BASEPOINT_POINT;
    let h = h_gen();
    let m = pks.len();
    let dp = dpb(d);
    let (tau1, tau2) = (rs(), rs());
    let v_new = g * S::from(b_new) + h * tau1;
    let v_out = g * S::from(b_out) + h * tau2;
    let mut t = Transcript::new();
    t.append_u64(b"epoch", epoch);
    t.append_message(b"nonce", &nonce);
    let bals: Vec<(RistrettoPoint, RistrettoPoint)> =
        accounts.iter().zip(pendings.iter()).map(|(a, p)| balance(a, p)).collect();
    for pk in pks {
        t.append_message(b"pk", pk);
    }
    for b in &bals {
        t.append_message(b"CL", &b.0.compress().to_bytes());
    }
    for b in &bals {
        t.append_message(b"CR", &b.1.compress().to_bytes());
    }
    for c in cs {
        t.append_message(b"C", c);
    }
    t.append_message(b"D", d);
    t.append_point(b"a", &lp(&v_new));
    t.append_point(b"b", &lp(&v_out));
    // conservation: D = r·G and Σ C_j = r·Σ pk_j
    let rho = chal(&mut t, b"rho");
    let base = g + pks.iter().fold(RistrettoPoint::identity(), |acc, pk| acc + dpb(pk) * rho);
    let k = rs();
    let a_r = base * k;
    t.append_point(b"A_r", &lp(&a_r));
    let w = chal(&mut t, b"w");
    let s_r = k + w * r;
    // per-slot OR-proofs
    let mut e0 = vec![S::ZERO; m];
    let mut es = vec![S::ZERO; m];
    let mut er = vec![S::ZERO; m];
    let mut s0 = vec![S::ZERO; m];
    let mut ssk = vec![S::ZERO; m];
    let mut sb = vec![S::ZERO; m];
    let mut st = vec![S::ZERO; m];
    let mut rb = vec![S::ZERO; m];
    let mut rr = vec![S::ZERO; m];
    let mut rt = vec![S::ZERO; m];
    let mut nonces = vec![(S::ZERO, S::ZERO, S::ZERO); m];
    for j in 0..m {
        let pk = dpb(&pks[j]);
        let cj = dpb(&cs[j]);
        let (cl, cr) = bals[j];
        let pts: Vec<RistrettoPoint>;
        if j == sender {
            let (k_sk, k_b, k_t) = (rs(), rs(), rs());
            nonces[j] = (k_sk, k_b, k_t);
            e0[j] = rs();
            s0[j] = rs();
            er[j] = rs();
            rb[j] = rs();
            rr[j] = rs();
            rt[j] = rs();
            pts = vec![
                lin(&[(s0[j], g), (-e0[j], dp)]),
                lin(&[(s0[j], pk), (-e0[j], cj)]),
                g * k_sk,
                g * k_b + (cr + dp) * k_sk,
                g * k_b + h * k_t,
                lin(&[(rb[j], g), (rr[j], pk), (-er[j], cj)]),
                lin(&[(rr[j], g), (-er[j], dp)]),
                lin(&[(rb[j], g), (rt[j], h), (-er[j], v_out)]),
            ];
        } else if j == receiver {
            let (k_b, k_r, k_t) = (rs(), rs(), rs());
            nonces[j] = (k_b, k_r, k_t);
            e0[j] = rs();
            s0[j] = rs();
            es[j] = rs();
            ssk[j] = rs();
            sb[j] = rs();
            st[j] = rs();
            pts = vec![
                lin(&[(s0[j], g), (-e0[j], dp)]),
                lin(&[(s0[j], pk), (-e0[j], cj)]),
                lin(&[(ssk[j], g), (-es[j], pk)]),
                lin(&[(sb[j], g), (ssk[j], cr + dp), (-es[j], cl + cj)]),
                lin(&[(sb[j], g), (st[j], h), (-es[j], v_new)]),
                g * k_b + pk * k_r,
                g * k_r,
                g * k_b + h * k_t,
            ];
        } else {
            let k0 = rs();
            nonces[j] = (k0, S::ZERO, S::ZERO);
            es[j] = rs();
            ssk[j] = rs();
            sb[j] = rs();
            st[j] = rs();
            er[j] = rs();
            rb[j] = rs();
            rr[j] = rs();
            rt[j] = rs();
            pts = vec![
                g * k0,
                pk * k0,
                lin(&[(ssk[j], g), (-es[j], pk)]),
                lin(&[(sb[j], g), (ssk[j], cr + dp), (-es[j], cl + cj)]),
                lin(&[(sb[j], g), (st[j], h), (-es[j], v_new)]),
                lin(&[(rb[j], g), (rr[j], pk), (-er[j], cj)]),
                lin(&[(rr[j], g), (-er[j], dp)]),
                lin(&[(rb[j], g), (rt[j], h), (-er[j], v_out)]),
            ];
        }
        for p in &pts {
            t.append_point(b"A", &lp(p));
        }
    }
    let c = chal(&mut t, b"c");
    for j in 0..m {
        if j == sender {
            es[j] = c - e0[j] - er[j];
            let (k_sk, k_b, k_t) = nonces[j];
            ssk[j] = k_sk + es[j] * sender_sk;
            sb[j] = k_b + es[j] * S::from(b_new);
            st[j] = k_t + es[j] * tau1;
        } else if j == receiver {
            let e_r = c - e0[j] - es[j];
            let (k_b, k_r, k_t) = nonces[j];
            rb[j] = k_b + e_r * S::from(b_out);
            rr[j] = k_r + e_r * r;
            rt[j] = k_t + e_r * tau2;
        } else {
            e0[j] = c - es[j] - er[j];
            s0[j] = nonces[j].0 + e0[j] * r;
        }
    }
    let (vs, rp) = prove_range(verifier, &mut t, &[b_new, b_out], &[tau1, tau2], 32);
    assert_eq!(vs[0], v_new);
    let bytes = |v: &Vec<S>| v.iter().map(|x| x.to_bytes()).collect::<Vec<[u8; 32]>>();
    ZerosolProof {
        ba: rp.a.to_bytes(),
        bs: rp.s.to_bytes(),
        a: v_new.compress().to_bytes(),
        b: v_out.compress().to_bytes(),
        cln_g: bytes(&ssk),
        crn_g: bytes(&sb),
        c_0g: bytes(&s0),
        dg: bytes(&rt),
        y_0g: bytes(&e0),
        gg: bytes(&st),
        c_xg: bytes(&rb),
        y_xg: bytes(&rr),
        f: bytes(&es),
        z_a: a_r.compress().to_bytes(),
        t_1: rp.t1.to_bytes(),
        t_2: rp.t2.to_bytes(),
        t_hat: rp.t_hat.to_bytes(),
        tau_x: rp.tau_x.to_bytes(),
        mu: rp.mu.to_bytes(),
        c: c.to_bytes(),
        s_r: s_r.to_bytes(),
        ip_proof: stored_ipp(&rp.inner_product_proof),
    }
}

fn clone_transfer_proof(p: &ZerosolProof) -> ZerosolProof {
    ZerosolProof {
        ba: p.ba,
        bs: p.bs,
        a: p.a,
        b: p.b,
        cln_g: p.cln_g.clone(),
        crn_g: p.crn_g.clone(),
        c_0g: p.c_0g.clone(),
        dg: p.dg.clone(),
        y_0g: p.y_0g.clone(),
        gg: p.gg.clone(),
        c_xg: p.c_xg.clone(),
        y_xg: p.y_xg.clone(),
        f: p.f.clone(),
        z_a: p.z_a,
        t_1: p.t_1,
        t_2: p.t_2,
        t_hat: p.t_hat,
        tau_x: p.tau_x,
        mu: p.mu,
        c: p.c,
        s_r: p.s_r,
        ip_proof: StoredIpp {
            l_points: p.ip_proof.l_points.clone(),
            r_points: p.ip_proof.r_points.clone(),
            a: p.ip_proof.a,
            b: p.ip_proof.b,
        },
    }
}

fn dummy_transfer_proof() -> ZerosolProof {
    let g = RISTRETTO_BASEPOINT_POINT.compress().to_bytes();
    ZerosolProof {
        ba: g,
        bs: g,
        a: g,
        b: g,
        cln_g: Vec::new(),
        crn_g: Vec::new(),
        c_0g: Vec::new(),
        dg: Vec::new(),
        y_0g: Vec::new(),
        gg: Vec::new(),
        c_xg: Vec::new(),
        y_xg: Vec::new(),
        f: Vec::new(),
        z_a: g,
        t_1: g,
        t_2: g,
        t_hat: [0u8; 32],
        tau_x: [0u8; 32],
        mu: [0u8; 32],
        c: [0u8; 32],
        s_r: [0u8; 32],
        ip_proof: StoredIpp { l_points: Vec::new(), r_points: Vec::new(), a: [0u8; 32], b: [0u8; 32] },
    }
}

fn copy_accounts(a: &[ZerosolAccount]) -> Vec<ZerosolAccount> {
    a.iter().map(|x| ZerosolAccount::from_bytes(&x.to_bytes()).unwrap()).collect()
}

fn copy_pendings(p: &[PendingAccount]) -> Vec<PendingAccount> {
    p.iter().map(|x| PendingAccount::from_bytes(&x.to_bytes()).unwrap()).collect()
}

/// Four slots: Alice (30 funded) pays Bob 5; Carol and Dave are cover.
struct TransferSetup {
    alice: User,
    bob: User,
    accounts: Vec<ZerosolAccount>,
    pendings: Vec<PendingAccount>,
    pks: Vec<[u8; 32]>,
    cs: Vec<[u8; 32]>,
    d: [u8; 32],
    r: S,
}

fn transfer_setup() -> TransferSetup {
    let alice = new_user();
    let bob = new_user();
    let carol = new_user();
    let dave = new_user();
    let (mut a_a, mut a_p) = register(&alice, 0);
    process_fund(&mut a_a, &mut a_p, 30, 0).unwrap();
    let (b_a, b_p) = register(&bob, 0);
    let (c_a, c_p) = register(&carol, 0);
    let (d_a, d_p) = register(&dave, 0);
    let r = rs();
    let d = (RISTRETTO_BASEPOINT_POINT * r).compress().to_bytes();
    let cs = vec![
        (-g_times(5) + dpb(&alice.pk) * r).compress().to_bytes(),
        (g_times(5) + dpb(&bob.pk) * r).compress().to_bytes(),
        (dpb(&carol.pk) * r).compress().to_bytes(),
        (dpb(&dave.pk) * r).compress().to_bytes(),
    ];
    let pks = vec![alice.pk, bob.pk, carol.pk, dave.pk];
    TransferSetup {
        alice,
        bob,
        accounts: vec![a_a, b_a, c_a, d_a],
        pendings: vec![a_p, b_p, c_p, d_p],
        pks,
        cs,
        d,
        r,
    }
}

fn honest_transfer(v: &BulletproofVerifier, s: &TransferSetup, nonce: [u8; 32]) -> ZerosolProof {
    prove_transfer(v, &s.accounts, &s.pendings, &s.cs, &s.d, s.r, &s.pks, 0, s.alice.sk, 1, 25, 5, 0, nonce)
}

#[test]
fn transfer_updates_every_slot_and_flipped_slots_fail() {
    let verifier = BulletproofVerifier::new(64);
    let s = transfer_setup();
    let (mut ben, mut ben_p) = register(&new_user(), 0);
    let nonce = [11u8; 32];
    let proof = honest_transfer(&verifier, &s, nonce);
    let mut parts = copy_accounts(&s.accounts);
    let mut pends = copy_pendings(&s.pendings);
    let mut ns = NonceState::new(nonce, 0);
    // flipping the sender and receiver slots without reproving fails
    let flipped = vec![s.cs[1], s.cs[0], s.cs[2], s.cs[3]];
    assert_eq!(
        process_transfer(&verifier, &mut ben, &mut ben_p, &mut ns, &mut parts, &mut pends, &flipped, s.d, &s.pks, nonce, &proof, 1, 0),
        Err(ZerosolError::TransferProofVerificationFailed)
    );
    assert!(!ns.used);
    process_transfer(&verifier, &mut ben, &mut ben_p, &mut ns, &mut parts, &mut pends, &s.cs, s.d, &s.pks, nonce, &proof, 1, 0)
        .unwrap();
    assert_eq!(dpb(&pends[0].commitment_left), g_times(30) + dpb(&s.cs[0]));
    assert_eq!(dpb(&pends[0].commitment_right), dpb(&s.d));
    assert_eq!(dpb(&pends[1].commitment_left), dpb(&s.cs[1]));
    assert_eq!(dpb(&pends[2].commitment_left), dpb(&s.cs[2]));
    assert_eq!(dpb(&ben_p.commitment_left), g_times(1));
    assert!(ns.used);
    assert_eq!(ns.nonce, zerosol::processor::nonce_tag(&nonce, 0));
    // replay in the same epoch
    assert_eq!(
        process_transfer(&verifier, &mut ben, &mut ben_p, &mut ns, &mut parts, &mut pends, &s.cs, s.d, &s.pks, nonce, &proof, 1, 0),
        Err(ZerosolError::NonceAlreadySeen)
    );
}

#[test]
fn transfer_without_the_key_fails() {
    let verifier = BulletproofVerifier::new(64);
    let s = transfer_setup();
    let nonce = [12u8; 32];
    // a prover who does not know Alice's key
    let forged = prove_transfer(&verifier, &s.accounts, &s.pendings, &s.cs, &s.d, s.r, &s.pks, 0, rs(), 1, 25, 5, 0, nonce);
    let (mut ben, mut ben_p) = register(&new_user(), 0);
    let mut parts = copy_accounts(&s.accounts);
    let mut pends = copy_pendings(&s.pendings);
    let mut ns = NonceState::new(nonce, 0);
    assert_eq!(
        process_transfer(&verifier, &mut ben, &mut ben_p, &mut ns, &mut parts, &mut pends, &s.cs, s.d, &s.pks, nonce, &forged, 1, 0),
        Err(ZerosolError::TransferProofVerificationFailed)
    );
    assert!(!ns.used);
}

#[test]
fn transfer_with_theft_from_a_cover_slot_fails() {
    let verifier = BulletproofVerifier::new(64);
    let s = transfer_setup();
    let nonce = [15u8; 32];
    // Carol's slot debited by 5 while Bob receives 10: amounts still sum to zero
    let carol_pk = dpb(&s.pks[2]);
    let mut theft = s.cs.clone();
    theft[1] = (g_times(10) + dpb(&s.bob.pk) * s.r).compress().to_bytes();
    theft[2] = (-g_times(5) + carol_pk * s.r).compress().to_bytes();
    let stolen = prove_transfer(&verifier, &s.accounts, &s.pendings, &theft, &s.d, s.r, &s.pks, 0, s.alice.sk, 1, 25, 10, 0, nonce);
    let (mut ben, mut ben_p) = register(&new_user(), 0);
    let mut parts = copy_accounts(&s.accounts);
    let mut pends = copy_pendings(&s.pendings);
    let mut ns = NonceState::new(nonce, 0);
    assert_eq!(
        process_transfer(&verifier, &mut ben, &mut ben_p, &mut ns, &mut parts, &mut pends, &theft, s.d, &s.pks, nonce, &stolen, 1, 0),
        Err(ZerosolError::TransferProofVerificationFailed)
    );
    assert!(!ns.used);
}

#[test]
fn transfer_verifier_reports_each_failure() {
    let verifier = BulletproofVerifier::new(64);
    let s = transfer_setup();
    let nonce = [13u8; 32];
    let proof = honest_transfer(&verifier, &s, nonce);
    let cls: Vec<[u8; 32]> = s.accounts.iter().zip(s.pendings.iter()).map(|(a, p)| balance(a, p).0.compress().to_bytes()).collect();
    let crs: Vec<[u8; 32]> = s.accounts.iter().zip(s.pendings.iter()).map(|(a, p)| balance(a, p).1.compress().to_bytes()).collect();
    let dd = lp(&dpb(&s.d));
    let check = |p: &ZerosolProof| {
        let dec = convert_zerosol_proof_to_range_proof(p).unwrap();
        verify_transfer_proof(&verifier, &dec, &s.pks, &cls, &crs, &s.cs, &dd, 0, &nonce)
    };
    assert_eq!(check(&proof), Ok(()));
    let mut p = clone_transfer_proof(&proof);
    p.s_r = (S::from_bytes_mod_order(p.s_r) + S::ONE).to_bytes();
    assert_eq!(check(&p), Err(ZerosolError::BalanceConservationFailed));
    let mut p = clone_transfer_proof(&proof);
    p.cln_g[2] = (S::from_bytes_mod_order(p.cln_g[2]) + S::ONE).to_bytes();
    assert_eq!(check(&p), Err(ZerosolError::SigmaProtocolChallengeFailed));
    let mut p = clone_transfer_proof(&proof);
    p.f.pop();
    assert_eq!(check(&p), Err(ZerosolError::InvalidProofStructure));
}

#[test]
fn transfer_verifier_reports_a_failed_range_proof() {
    let verifier = BulletproofVerifier::new(64);
    let s = transfer_setup();
    let nonce = [13u8; 32];
    let proof = honest_transfer(&verifier, &s, nonce);
    let cls: Vec<[u8; 32]> = s.accounts.iter().zip(s.pendings.iter()).map(|(a, p)| balance(a, p).0.compress().to_bytes()).collect();
    let crs: Vec<[u8; 32]> = s.accounts.iter().zip(s.pendings.iter()).map(|(a, p)| balance(a, p).1.compress().to_bytes()).collect();
    let dd = lp(&dpb(&s.d));
    let check = |p: &ZerosolProof| {
        let dec = convert_zerosol_proof_to_range_proof(p).unwrap();
        verify_transfer_proof(&verifier, &dec, &s.pks, &cls, &crs, &s.cs, &dd, 0, &nonce)
    };
    let mut p = clone_transfer_proof(&proof);
    p.mu = (S::from_bytes_mod_order(p.mu) + S::ONE).to_bytes();
    assert_eq!(check(&p), Err(ZerosolError::RangeProofVerificationFailed));
}

#[test]
fn beneficiary_in_the_set_gets_the_fee_in_its_slot() {
    let verifier = BulletproofVerifier::new(64);
    let s = transfer_setup();
    let nonce = [14u8; 32];
    let proof = honest_transfer(&verifier, &s, nonce);
    let mut ben = ZerosolAccount::from_bytes(&s.accounts[1].to_bytes()).unwrap();
    let mut ben_p = PendingAccount::from_bytes(&s.pendings[1].to_bytes()).unwrap();
    let mut parts = copy_accounts(&s.accounts);
    let mut pends = copy_pendings(&s.pendings);
    let mut ns = NonceState::new(nonce, 0);
    process_transfer(&verifier, &mut ben, &mut ben_p, &mut ns, &mut parts, &mut pends, &s.cs, s.d, &s.pks, nonce, &proof, 3, 0)
        .unwrap();
    assert_eq!(dpb(&pends[1].commitment_left), dpb(&s.cs[1]) + g_times(3));
    assert_eq!(ben_p.to_bytes(), pends[1].to_bytes());
    assert_eq!(ben.to_bytes(), parts[1].to_bytes());
}

#[test]
fn transfer_shape_checks() {
    let verifier = BulletproofVerifier::new(64);
    let alice = new_user();
    let (a_a, a_p) = register(&alice, 0);
    let (mut c_a, mut c_p) = register(&new_user(), 0);
    let nonce = [1u8; 32];
    let mut ns = NonceState::new(nonce, 0);
    let d = RISTRETTO_BASEPOINT_POINT.compress().to_bytes();
    let proof = dummy_transfer_proof();
    let mut parts: Vec<ZerosolAccount> = Vec::new();
    let mut pends: Vec<PendingAccount> = Vec::new();
    assert_eq!(
        process_transfer(&verifier, &mut c_a, &mut c_p, &mut ns, &mut parts, &mut pends, &Vec::new(), d, &Vec::new(), nonce, &proof, 1, 0),
        Err(ZerosolError::InvalidProofStructure)
    );
    let mut parts = copy_accounts(&[ZerosolAccount::from_bytes(&a_a.to_bytes()).unwrap(), ZerosolAccount::from_bytes(&a_a.to_bytes()).unwrap()]);
    let mut pends = copy_pendings(&[PendingAccount::from_bytes(&a_p.to_bytes()).unwrap(), PendingAccount::from_bytes(&a_p.to_bytes()).unwrap()]);
    assert_eq!(
        process_transfer(&verifier, &mut c_a, &mut c_p, &mut ns, &mut parts, &mut pends, &vec![d, d], d, &vec![alice.pk, alice.pk], nonce, &proof, 1, 0),
        Err(ZerosolError::InvalidProofStructure)
    );
    let b = new_user();
    let c = new_user();
    let mut parts3 = vec![ZerosolAccount::from_bytes(&a_a.to_bytes()).unwrap(), register(&b, 0).0, register(&c, 0).0];
    let mut pends3 = vec![PendingAccount::new(), PendingAccount::new(), PendingAccount::new()];
    assert_eq!(
        process_transfer(&verifier, &mut c_a, &mut c_p, &mut ns, &mut parts3, &mut pends3, &vec![d, d, d], d, &vec![alice.pk, b.pk, c.pk], nonce, &proof, 1, 0),
        Err(ZerosolError::InvalidProofStructure)
    );
    let mut parts = vec![ZerosolAccount::from_bytes(&a_a.to_bytes()).unwrap(), ZerosolAccount::new(b.pk)];
    let mut pends = vec![PendingAccount::new(), PendingAccount::new()];
    assert_eq!(
        process_transfer(&verifier, &mut c_a, &mut c_p, &mut ns, &mut parts, &mut pends, &vec![d, d], d, &vec![alice.pk, b.pk], nonce, &proof, 1, 0),
        Err(ZerosolError::AccountNotRegistered)
    );
}

#[test]
fn epoch_constraints_reject_identity_keys() {
    let user = new_user();
    assert!(verify_epoch_constraints(0, &vec![user.pk]));
    assert!(!verify_epoch_constraints(0, &vec![user.pk, [0u8; 32]]));
    let mut bad = [0u8; 32];
    bad[0] = 1;
    assert!(!verify_epoch_constraints(0, &vec![bad]));
}

#[test]
fn error_codes_follow_declaration_order() {
    assert_eq!(ZerosolError::InvalidInstruction.code(), 0);
    assert_eq!(ZerosolError::NonceAlreadySeen.code(), 5);
    assert_eq!(ZerosolError::EpochTransitionError.code(), 20);
    assert_eq!(ZerosolError::MissingSignature.code(), 23);
}

#[test]
fn account_layouts_round_trip() {
    let n = NonceState { nonce: [8u8; 32], epoch: 77, used: true };
    let bytes = n.to_bytes();
    assert_eq!(bytes.len(), 41);
    assert_eq!(&bytes[32..40], &77u64.to_le_bytes());
    let back = NonceState::from_bytes(&bytes).unwrap();
    assert_eq!(back.epoch, 77);
    assert!(back.used);
    let mut bad = bytes.clone();
    bad[40] = 2;
    assert_eq!(NonceState::from_bytes(&bad).unwrap_err(), ZerosolError::InvalidAccountData);
    assert_eq!(PendingAccount::from_bytes(&[0u8; 63]).unwrap_err(), ZerosolError::InvalidAccountData);
    let p = PendingAccount::new();
    assert_eq!(p.to_bytes(), vec![0u8; 64]);
    let _ = RistrettoPoint::identity();
}

#[test]
fn test_batch_verification() {
    let batch = BatchVerifier::new(64);
    assert_eq!(batch.verify_batch(&[]), Ok(true));
    let mut t1 = Transcript::new();
    let (v1, p1) = prove_range(&batch.verifier, &mut t1, &[17], &[rs()], 32);
    let mut t2 = Transcript::new();
    let (v2, p2) = prove_range(&batch.verifier, &mut t2, &[99], &[rs()], 32);
    let good = vec![(lp(&v1[0]), copy_proof(&p1), 32usize), (lp(&v2[0]), copy_proof(&p2), 32usize)];
    assert_eq!(batch.verify_batch(&good), Ok(true));
    let mut bad_proof = copy_proof(&p2);
    bad_proof.mu = flip(&p2.mu, 3);
    let bad = vec![(lp(&v1[0]), copy_proof(&p1), 32usize), (lp(&v2[0]), bad_proof, 32usize)];
    assert_eq!(batch.verify_batch(&bad), Ok(false));
    let misshaped = vec![(lp(&v1[0]), p1, 16usize)];
    assert_eq!(batch.verify_batch(&misshaped), Err(ZerosolError::InvalidProofStructure));
}
