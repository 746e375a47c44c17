use crate::bulletproof::{
    range_proof_accepts, range_shape_ok, BulletproofVerifier,
    InnerProductProof, RangeProof,
};
use crate::error::ZerosolError;
use crate::point::{basepoint_encoding, lin_comb, multi_scalar_mul, point_add_of, point_mul_of, point_values, ristretto_decodes, scalar_values, G1Point};
use crate::scalar::{group_order, le_value, scalar_from_bytes, scalar_neg, scalar_sub, sneg, ssub, Scalar};
use crate::state::{decode_point, BurnProof, ZerosolProof};
use crate::transcript::{after_challenge, challenge_of, frame, Transcript};
use crate::utils::{get_h_generator, h_generator_spec};
use vstd::bytes::spec_u64_to_le_bytes;
use vstd::prelude::*;

verus! {

/// Bit length of every range proof the ledger checks.
pub const RANGE_BITS: usize = 32;

/// A withdrawal proof with its points decoded and its scalars reduced.
#[derive(Debug)]
pub struct DecodedBurnProof {
    pub range_proof: RangeProof,
    pub commitment: G1Point,
    pub c: Scalar,
    pub s_sk: Scalar,
    pub s_b: Scalar,
    pub s_tau: Scalar,
}

/// The point list decodes to `ps`.
pub open spec fn decodes_to(bytes: Seq<[u8; 32]>, ps: Seq<G1Point>) -> bool {
    &&& bytes.len() == ps.len()
    &&& forall|i: int| 0 <= i < bytes.len() ==> (#[trigger] ps[i])@ == bytes[i]@
}

pub open spec fn all_decode(bytes: Seq<[u8; 32]>) -> bool {
    forall|i: int| 0 <= i < bytes.len() ==> ristretto_decodes(#[trigger] bytes[i]@)
}

pub open spec fn reduced(b: [u8; 32]) -> nat {
    le_value(b@) % group_order()
}

/// Every point of the stored burn proof is a canonical encoding.
pub open spec fn burn_proof_decodes(p: BurnProof) -> bool {
    &&& ristretto_decodes(p.ba@)
    &&& ristretto_decodes(p.bs@)
    &&& ristretto_decodes(p.t_1@)
    &&& ristretto_decodes(p.t_2@)
    &&& ristretto_decodes(p.commitment@)
    &&& all_decode(p.ip_proof.l_points@)
    &&& all_decode(p.ip_proof.r_points@)
}

/// `d` is the decoding of the stored proof `p`.
pub open spec fn burn_decoding(p: BurnProof, d: DecodedBurnProof) -> bool {
    let rp = d.range_proof;
    &&& rp.a@ == p.ba@
    &&& rp.s@ == p.bs@
    &&& rp.t1@ == p.t_1@
    &&& rp.t2@ == p.t_2@
    &&& rp.t_hat@ == reduced(p.t_hat)
    &&& rp.tau_x@ == reduced(p.tau_x)
    &&& rp.mu@ == reduced(p.mu)
    &&& decodes_to(p.ip_proof.l_points@, rp.inner_product_proof.l_vec@)
    &&& decodes_to(p.ip_proof.r_points@, rp.inner_product_proof.r_vec@)
    &&& rp.inner_product_proof.a@ == reduced(p.ip_proof.a)
    &&& rp.inner_product_proof.b@ == reduced(p.ip_proof.b)
    &&& d.commitment@ == p.commitment@
    &&& d.c@ == reduced(p.c)
    &&& d.s_sk@ == reduced(p.s_sk)
    &&& d.s_b@ == reduced(p.s_b)
    &&& d.s_tau@ == reduced(p.s_tau)
}

/// Decodes a list of points; `InvalidEncoding` if any is not canonical.
pub fn decode_points(bytes: &Vec<[u8; 32]>) -> (r: Result<Vec<G1Point>, ZerosolError>)
    ensures
        r.is_ok() == all_decode(bytes@),
        r matches Ok(ps) ==> decodes_to(bytes@, ps@),
        r.is_err() ==> r == Err::<Vec<G1Point>, ZerosolError>(ZerosolError::InvalidEncoding),
{
    let mut out: Vec<G1Point> = Vec::new();
    let mut i: usize = 0;
    while i < bytes.len()
        invariant
            i <= bytes@.len(),
            out@.len() == i,
            forall|j: int| 0 <= j < i ==> (#[trigger] out@[j])@ == bytes@[j]@,
            forall|j: int| 0 <= j < i ==> ristretto_decodes(#[trigger] bytes@[j]@),
        decreases bytes@.len() - i,
    {
        match decode_point(&bytes[i]) {
            Ok(p) => out.push(p),
            Err(e) => {
                return Err(e);
            },
        }
        i = i + 1;
    }
    Ok(out)
}

/// Decodes a stored burn proof; `InvalidEncoding` if any point is not canonical.
pub fn convert_burn_proof_to_range_proof(p: &BurnProof) -> (r: Result<DecodedBurnProof, ZerosolError>)
    ensures
        r.is_ok() == burn_proof_decodes(*p),
        r matches Ok(d) ==> burn_decoding(*p, d),
        r.is_err() ==> r == Err::<DecodedBurnProof, ZerosolError>(ZerosolError::InvalidEncoding),
{
    let a = decode_point(&p.ba)?;
    let s = decode_point(&p.bs)?;
    let t1 = decode_point(&p.t_1)?;
    let t2 = decode_point(&p.t_2)?;
    let v = decode_point(&p.commitment)?;
    let l_vec = decode_points(&p.ip_proof.l_points)?;
    let r_vec = decode_points(&p.ip_proof.r_points)?;
    let ipp = InnerProductProof {
        l_vec,
        r_vec,
        a: scalar_from_bytes(&p.ip_proof.a),
        b: scalar_from_bytes(&p.ip_proof.b),
    };
    let rp = RangeProof {
        a,
        s,
        t1,
        t2,
        t_hat: scalar_from_bytes(&p.t_hat),
        tau_x: scalar_from_bytes(&p.tau_x),
        mu: scalar_from_bytes(&p.mu),
        inner_product_proof: ipp,
    };
    Ok(DecodedBurnProof {
        range_proof: rp,
        commitment: v,
        c: scalar_from_bytes(&p.c),
        s_sk: scalar_from_bytes(&p.s_sk),
        s_b: scalar_from_bytes(&p.s_b),
        s_tau: scalar_from_bytes(&p.s_tau),
    })
}

// ----- the burn statement -----

pub open spec fn epoch_label() -> Seq<u8> {
    seq![101u8, 112, 111, 99, 104]
}

pub open spec fn nonce_label() -> Seq<u8> {
    seq![110u8, 111, 110, 99, 101]
}

pub open spec fn amount_label() -> Seq<u8> {
    seq![97u8, 109, 111, 117, 110, 116]
}

/// Transcript of the public burn statement: epoch, nonce, owner key, current
/// balance commitment `(C_L, C_R)`, then the cleartext amount.
pub open spec fn burn_statement_log(
    epoch: u64,
    nonce: Seq<u8>,
    pk: Seq<u8>,
    cl: Seq<u8>,
    cr: Seq<u8>,
    amount: u64,
) -> Seq<u8> {
    frame(epoch_label(), spec_u64_to_le_bytes(epoch)) + frame(nonce_label(), nonce) + frame(
        seq![112u8, 107],
        pk,
    ) + frame(seq![67u8, 76], cl) + frame(seq![67u8, 82], cr) + frame(
        amount_label(),
        spec_u64_to_le_bytes(amount),
    )
}

/// `C_L − amount·G`: the left commitment once the amount has left the account.
pub open spec fn remaining_left(cl: Seq<u8>, amount: u64) -> Seq<u8> {
    point_add_of(cl, point_mul_of(basepoint_encoding(), sneg(amount as nat)))
}

/// Σ commitment for the key: `s_sk·G − c·pk`.
pub open spec fn burn_a_y(d: DecodedBurnProof, pk: Seq<u8>) -> Seq<u8> {
    lin_comb(seq![d.s_sk@, sneg(d.c@)], seq![basepoint_encoding(), pk])
}

/// Σ commitment for the balance: `s_b·G + s_sk·C_R − c·(C_L − amount·G)`.
pub open spec fn burn_a_b(d: DecodedBurnProof, cl: Seq<u8>, cr: Seq<u8>, amount: u64) -> Seq<u8> {
    lin_comb(
        seq![d.s_b@, d.s_sk@, sneg(d.c@)],
        seq![basepoint_encoding(), cr, remaining_left(cl, amount)],
    )
}

/// Σ commitment for the range commitment: `s_b·G + s_τ·H − c·V`.
pub open spec fn burn_a_v(d: DecodedBurnProof) -> Seq<u8> {
    lin_comb(
        seq![d.s_b@, d.s_tau@, sneg(d.c@)],
        seq![basepoint_encoding(), h_generator_spec(), d.commitment@],
    )
}

/// The transcript once the three Σ commitments are absorbed.
pub open spec fn burn_sigma_log(
    d: DecodedBurnProof,
    epoch: u64,
    nonce: Seq<u8>,
    pk: Seq<u8>,
    cl: Seq<u8>,
    cr: Seq<u8>,
    amount: u64,
) -> Seq<u8> {
    burn_statement_log(epoch, nonce, pk, cl, cr, amount) + frame(seq![65u8, 95, 121], burn_a_y(d, pk))
        + frame(seq![65u8, 95, 98], burn_a_b(d, cl, cr, amount)) + frame(
        seq![65u8, 95, 118],
        burn_a_v(d),
    )
}

/// The Σ challenge equation: `c` is the challenge the transcript gives.
pub open spec fn burn_sigma_ok(
    d: DecodedBurnProof,
    epoch: u64,
    nonce: Seq<u8>,
    pk: Seq<u8>,
    cl: Seq<u8>,
    cr: Seq<u8>,
    amount: u64,
) -> bool {
    challenge_of(burn_sigma_log(d, epoch, nonce, pk, cl, cr, amount), seq![99u8]) == d.c@
}

/// The whole burn proof verifies: the Σ equation, then the range proof on the
/// same transcript for the single commitment `V`.
pub open spec fn burn_accepts(
    v: BulletproofVerifier,
    d: DecodedBurnProof,
    epoch: u64,
    nonce: Seq<u8>,
    pk: Seq<u8>,
    cl: Seq<u8>,
    cr: Seq<u8>,
    amount: u64,
) -> bool {
    &&& burn_sigma_ok(d, epoch, nonce, pk, cl, cr, amount)
    &&& range_shape_ok(1, RANGE_BITS as nat, d.range_proof, v.n as nat)
    &&& range_proof_accepts(
        after_challenge(burn_sigma_log(d, epoch, nonce, pk, cl, cr, amount), seq![99u8]),
        seq![d.commitment@],
        d.range_proof,
        RANGE_BITS as nat,
        point_values(v.g@),
        point_values(v.h@),
        v.u@,
    )
}

fn lin2(s0: &Scalar, s1: &Scalar, p0: &G1Point, p1: &G1Point) -> (r: G1Point)
    ensures
        r@ == lin_comb(seq![s0@, s1@], seq![p0@, p1@]),
{
    let mut ws: Vec<Scalar> = Vec::new();
    ws.push(s0.copy());
    ws.push(s1.copy());
    let mut ps: Vec<G1Point> = Vec::new();
    ps.push(p0.copy());
    ps.push(p1.copy());
    assert(scalar_values(ws@) =~= seq![s0@, s1@]);
    assert(point_values(ps@) =~= seq![p0@, p1@]);
    multi_scalar_mul(ws.as_slice(), ps.as_slice())
}

fn lin3(s0: &Scalar, s1: &Scalar, s2: &Scalar, p0: &G1Point, p1: &G1Point, p2: &G1Point) -> (r:
    G1Point)
    ensures
        r@ == lin_comb(seq![s0@, s1@, s2@], seq![p0@, p1@, p2@]),
{
    let mut ws: Vec<Scalar> = Vec::new();
    ws.push(s0.copy());
    ws.push(s1.copy());
    ws.push(s2.copy());
    let mut ps: Vec<G1Point> = Vec::new();
    ps.push(p0.copy());
    ps.push(p1.copy());
    ps.push(p2.copy());
    assert(scalar_values(ws@) =~= seq![s0@, s1@, s2@]);
    assert(point_values(ps@) =~= seq![p0@, p1@, p2@]);
    multi_scalar_mul(ws.as_slice(), ps.as_slice())
}

/// Absorbs the burn statement.
fn absorb_burn_statement(
    t: &mut Transcript,
    epoch: u64,
    nonce: &[u8; 32],
    pk: &G1Point,
    cl: &G1Point,
    cr: &G1Point,
    amount: u64,
)
    requires
        old(t)@ == Seq::<u8>::empty(),
    ensures
        final(t)@ == burn_statement_log(epoch, nonce@, pk@, cl@, cr@, amount),
{
    let le: [u8; 5] = [101u8, 112, 111, 99, 104];
    let ln: [u8; 5] = [110u8, 111, 110, 99, 101];
    let lpk: [u8; 2] = [112u8, 107];
    let lcl: [u8; 2] = [67u8, 76];
    let lcr: [u8; 2] = [67u8, 82];
    let la: [u8; 6] = [97u8, 109, 111, 117, 110, 116];
    assert(le@ =~= epoch_label());
    assert(ln@ =~= nonce_label());
    assert(lpk@ =~= seq![112u8, 107]);
    assert(lcl@ =~= seq![67u8, 76]);
    assert(lcr@ =~= seq![67u8, 82]);
    assert(la@ =~= amount_label());
    t.append_u64(&le, epoch);
    t.append_message(&ln, nonce);
    t.append_point(&lpk, pk);
    t.append_point(&lcl, cl);
    t.append_point(&lcr, cr);
    t.append_u64(&la, amount);
    assert(t@ =~= burn_statement_log(epoch, nonce@, pk@, cl@, cr@, amount));
}

/// Verifies a withdrawal of `amount` from the account with key `pk` and current
/// balance commitment `(cl, cr)`, bound to `epoch` and `nonce`. Fails with
/// `SigmaProtocolChallengeFailed` if the Σ challenge does not match, else with the
/// range verifier's outcome (`InvalidProofStructure` for a wrong shape,
/// `RangeProofVerificationFailed` if an equation fails).
pub fn verify_burn_proof(
    verifier: &BulletproofVerifier,
    d: &DecodedBurnProof,
    pk: &G1Point,
    cl: &G1Point,
    cr: &G1Point,
    amount: u64,
    epoch: u64,
    nonce: &[u8; 32],
) -> (r: Result<(), ZerosolError>)
    requires
        verifier.wf(),
    ensures
        r.is_ok() == burn_accepts(*verifier, *d, epoch, nonce@, pk@, cl@, cr@, amount),
        !burn_sigma_ok(*d, epoch, nonce@, pk@, cl@, cr@, amount) ==> r == Err::<(), ZerosolError>(
            ZerosolError::SigmaProtocolChallengeFailed,
        ),
        burn_sigma_ok(*d, epoch, nonce@, pk@, cl@, cr@, amount) && !range_shape_ok(
            1,
            RANGE_BITS as nat,
            d.range_proof,
            verifier.n as nat,
        ) ==> r == Err::<(), ZerosolError>(ZerosolError::InvalidProofStructure),
        r.is_err() ==> r == Err::<(), ZerosolError>(ZerosolError::SigmaProtocolChallengeFailed)
            || r == Err::<(), ZerosolError>(ZerosolError::InvalidProofStructure) || r == Err::<
            (),
            ZerosolError,
        >(ZerosolError::RangeProofVerificationFailed),
{
    let mut t = Transcript::new();
    absorb_burn_statement(&mut t, epoch, nonce, pk, cl, cr, amount);
    let g = G1Point::generator();
    let h = get_h_generator();
    let neg_c = scalar_neg(&d.c);
    let neg_amount = scalar_neg(&Scalar::from_u64(amount));
    let left = cl.add(&g.mul(&neg_amount));
    assert(left@ == remaining_left(cl@, amount));
    let a_y = lin2(&d.s_sk, &neg_c, &g, pk);
    let a_b = lin3(&d.s_b, &d.s_sk, &neg_c, &g, cr, &left);
    let a_v = lin3(&d.s_b, &d.s_tau, &neg_c, &g, &h, &d.commitment);
    let l1: [u8; 3] = [65u8, 95, 121];
    let l2: [u8; 3] = [65u8, 95, 98];
    let l3: [u8; 3] = [65u8, 95, 118];
    let lc: [u8; 1] = [99u8];
    assert(l1@ =~= seq![65u8, 95, 121]);
    assert(l2@ =~= seq![65u8, 95, 98]);
    assert(l3@ =~= seq![65u8, 95, 118]);
    assert(lc@ =~= seq![99u8]);
    t.append_point(&l1, &a_y);
    t.append_point(&l2, &a_b);
    t.append_point(&l3, &a_v);
    let c = t.challenge_scalar(&lc);
    if !c.equals(&d.c) {
        return Err(ZerosolError::SigmaProtocolChallengeFailed);
    }
    let mut vs: Vec<G1Point> = Vec::new();
    vs.push(d.commitment.copy());
    assert(point_values(vs@) =~= seq![d.commitment@]);
    match verifier.verify_with_transcript(&mut t, vs.as_slice(), &d.range_proof, RANGE_BITS) {
        Err(e) => Err(e),
        Ok(true) => Ok(()),
        Ok(false) => Err(ZerosolError::RangeProofVerificationFailed),
    }
}

// ----- the transfer statement -----

/// A transfer proof with its points decoded and its scalars reduced (see
/// `ZerosolProof` for the meaning of each part).
#[derive(Debug)]
pub struct DecodedTransferProof {
    pub range_proof: RangeProof,
    pub new_balance: G1Point,
    pub amount_commitment: G1Point,
    pub conservation_commitment: G1Point,
    pub c: Scalar,
    pub s_r: Scalar,
    pub e_zero: Vec<Scalar>,
    pub e_send: Vec<Scalar>,
    pub s_zero: Vec<Scalar>,
    pub s_send_sk: Vec<Scalar>,
    pub s_send_b: Vec<Scalar>,
    pub s_send_tau: Vec<Scalar>,
    pub s_recv_b: Vec<Scalar>,
    pub s_recv_r: Vec<Scalar>,
    pub s_recv_tau: Vec<Scalar>,
}

/// `s` is `b` reduced element by element.
pub open spec fn reduced_all(b: Seq<[u8; 32]>, s: Seq<Scalar>) -> bool {
    &&& b.len() == s.len()
    &&& forall|i: int| 0 <= i < b.len() ==> (#[trigger] s[i])@ == reduced(b[i])
}

/// The byte views of a list of encodings.
pub open spec fn bytes_values(b: Seq<[u8; 32]>) -> Seq<Seq<u8>> {
    b.map_values(|x: [u8; 32]| x@)
}

fn decode_scalars(b: &Vec<[u8; 32]>) -> (r: Vec<Scalar>)
    ensures
        reduced_all(b@, r@),
{
    let mut out: Vec<Scalar> = Vec::new();
    let mut i: usize = 0;
    while i < b.len()
        invariant
            i <= b@.len(),
            out@.len() == i,
            forall|j: int| 0 <= j < i ==> (#[trigger] out@[j])@ == reduced(b@[j]),
        decreases b@.len() - i,
    {
        out.push(scalar_from_bytes(&b[i]));
        i = i + 1;
    }
    out
}

/// Every point of the stored transfer proof is a canonical encoding.
pub open spec fn transfer_proof_decodes(p: ZerosolProof) -> bool {
    ristretto_decodes(p.ba@) && ristretto_decodes(p.bs@) && ristretto_decodes(p.t_1@)
        && ristretto_decodes(p.t_2@) && ristretto_decodes(p.a@) && ristretto_decodes(p.b@)
        && ristretto_decodes(p.z_a@) && all_decode(p.ip_proof.l_points@) && all_decode(
        p.ip_proof.r_points@,
    )
}

/// `d` is the decoding of the stored transfer proof `p`.
pub open spec fn transfer_decoding(p: ZerosolProof, d: DecodedTransferProof) -> bool {
    let rp = d.range_proof;
    &&& rp.a@ == p.ba@
    &&& rp.s@ == p.bs@
    &&& rp.t1@ == p.t_1@
    &&& rp.t2@ == p.t_2@
    &&& rp.t_hat@ == reduced(p.t_hat)
    &&& rp.tau_x@ == reduced(p.tau_x)
    &&& rp.mu@ == reduced(p.mu)
    &&& decodes_to(p.ip_proof.l_points@, rp.inner_product_proof.l_vec@)
    &&& decodes_to(p.ip_proof.r_points@, rp.inner_product_proof.r_vec@)
    &&& rp.inner_product_proof.a@ == reduced(p.ip_proof.a)
    &&& rp.inner_product_proof.b@ == reduced(p.ip_proof.b)
    &&& d.new_balance@ == p.a@
    &&& d.amount_commitment@ == p.b@
    &&& d.conservation_commitment@ == p.z_a@
    &&& d.c@ == reduced(p.c)
    &&& d.s_r@ == reduced(p.s_r)
    &&& reduced_all(p.y_0g@, d.e_zero@)
    &&& reduced_all(p.f@, d.e_send@)
    &&& reduced_all(p.c_0g@, d.s_zero@)
    &&& reduced_all(p.cln_g@, d.s_send_sk@)
    &&& reduced_all(p.crn_g@, d.s_send_b@)
    &&& reduced_all(p.gg@, d.s_send_tau@)
    &&& reduced_all(p.c_xg@, d.s_recv_b@)
    &&& reduced_all(p.y_xg@, d.s_recv_r@)
    &&& reduced_all(p.dg@, d.s_recv_tau@)
}

/// Decodes a stored transfer proof; `InvalidEncoding` if a point is not canonical.
pub fn convert_zerosol_proof_to_range_proof(p: &ZerosolProof) -> (r: Result<
    DecodedTransferProof,
    ZerosolError,
>)
    ensures
        r.is_ok() == transfer_proof_decodes(*p),
        r is Err ==> r == Err::<DecodedTransferProof, ZerosolError>(ZerosolError::InvalidEncoding),
        r matches Ok(d) ==> transfer_decoding(*p, d),
{
    let a = decode_point(&p.ba)?;
    let s = decode_point(&p.bs)?;
    let t1 = decode_point(&p.t_1)?;
    let t2 = decode_point(&p.t_2)?;
    let nb = decode_point(&p.a)?;
    let ac = decode_point(&p.b)?;
    let za = decode_point(&p.z_a)?;
    let l_vec = decode_points(&p.ip_proof.l_points)?;
    let r_vec = decode_points(&p.ip_proof.r_points)?;
    let ipp = InnerProductProof {
        l_vec,
        r_vec,
        a: scalar_from_bytes(&p.ip_proof.a),
        b: scalar_from_bytes(&p.ip_proof.b),
    };
    let rp = RangeProof {
        a,
        s,
        t1,
        t2,
        t_hat: scalar_from_bytes(&p.t_hat),
        tau_x: scalar_from_bytes(&p.tau_x),
        mu: scalar_from_bytes(&p.mu),
        inner_product_proof: ipp,
    };
    Ok(DecodedTransferProof {
        range_proof: rp,
        new_balance: nb,
        amount_commitment: ac,
        conservation_commitment: za,
        c: scalar_from_bytes(&p.c),
        s_r: scalar_from_bytes(&p.s_r),
        e_zero: decode_scalars(&p.y_0g),
        e_send: decode_scalars(&p.f),
        s_zero: decode_scalars(&p.c_0g),
        s_send_sk: decode_scalars(&p.cln_g),
        s_send_b: decode_scalars(&p.crn_g),
        s_send_tau: decode_scalars(&p.gg),
        s_recv_b: decode_scalars(&p.c_xg),
        s_recv_r: decode_scalars(&p.y_xg),
        s_recv_tau: decode_scalars(&p.dg),
    })
}

/// The log after absorbing every item of a list under one label.
pub open spec fn absorb_list(log: Seq<u8>, label: Seq<u8>, items: Seq<[u8; 32]>) -> Seq<u8>
    decreases items.len(),
{
    if items.len() == 0 {
        log
    } else {
        let n = (items.len() - 1) as int;
        absorb_list(log, label, items.subrange(0, n)) + frame(label, items[n]@)
    }
}

/// The log after absorbing every point of a list under one label.
pub open spec fn absorb_points(log: Seq<u8>, label: Seq<u8>, pts: Seq<Seq<u8>>) -> Seq<u8>
    decreases pts.len(),
{
    if pts.len() == 0 {
        log
    } else {
        let n = (pts.len() - 1) as int;
        absorb_points(log, label, pts.subrange(0, n)) + frame(label, pts[n])
    }
}

proof fn lemma_absorb_points_concat(log: Seq<u8>, label: Seq<u8>, a: Seq<Seq<u8>>, b: Seq<Seq<u8>>)
    ensures
        absorb_points(log, label, a + b) == absorb_points(absorb_points(log, label, a), label, b),
    decreases b.len(),
{
    if b.len() == 0 {
        assert(a + b =~= a);
    } else {
        let n = (b.len() - 1) as int;
        lemma_absorb_points_concat(log, label, a, b.subrange(0, n));
        assert((a + b).subrange(0, (a + b).len() - 1) =~= a + b.subrange(0, n));
    }
}

/// Absorbs every item of `items` under `label`.
pub fn append_list(t: &mut Transcript, label: &[u8], items: &Vec<[u8; 32]>)
    ensures
        final(t)@ == absorb_list(old(t)@, label@, items@),
{
    let ghost log0 = t@;
    let mut i: usize = 0;
    while i < items.len()
        invariant
            i <= items@.len(),
            t@ == absorb_list(log0, label@, items@.subrange(0, i as int)),
        decreases items@.len() - i,
    {
        t.append_message(label, &items[i]);
        i = i + 1;
        assert(items@.subrange(0, i as int).subrange(0, i - 1) =~= items@.subrange(0, i - 1));
    }
    assert(items@.subrange(0, items@.len() as int) =~= items@);
}

/// Absorbs every point of `pts` under `label`.
fn append_points(t: &mut Transcript, label: &[u8], pts: &Vec<G1Point>)
    ensures
        final(t)@ == absorb_points(old(t)@, label@, point_values(pts@)),
{
    let ghost log0 = t@;
    let mut i: usize = 0;
    while i < pts.len()
        invariant
            i <= pts@.len(),
            t@ == absorb_points(log0, label@, point_values(pts@).subrange(0, i as int)),
        decreases pts@.len() - i,
    {
        t.append_point(label, &pts[i]);
        i = i + 1;
        assert(point_values(pts@).subrange(0, i as int).subrange(0, i - 1) =~= point_values(
            pts@,
        ).subrange(0, i - 1));
    }
    assert(point_values(pts@).subrange(0, pts@.len() as int) =~= point_values(pts@));
}

/// Transcript of the public transfer statement: epoch, nonce, then the keys, the
/// current balances `(C_L, C_R)` and the ciphertexts `C_j` of every slot, then
/// `D` and the two range commitments.
pub open spec fn transfer_statement_log(
    epoch: u64,
    nonce: Seq<u8>,
    pks: Seq<[u8; 32]>,
    cls: Seq<[u8; 32]>,
    crs: Seq<[u8; 32]>,
    cs: Seq<[u8; 32]>,
    dd: Seq<u8>,
    d: DecodedTransferProof,
) -> Seq<u8> {
    let l0 = frame(epoch_label(), spec_u64_to_le_bytes(epoch)) + frame(nonce_label(), nonce);
    let l1 = absorb_list(l0, seq![112u8, 107], pks);
    let l2 = absorb_list(l1, seq![67u8, 76], cls);
    let l3 = absorb_list(l2, seq![67u8, 82], crs);
    absorb_list(l3, seq![67u8], cs) + frame(seq![68u8], dd) + frame(seq![97u8], d.new_balance@)
        + frame(seq![98u8], d.amount_commitment@)
}

/// `ρ`: the weight that folds the two conservation equations into one.
pub open spec fn conservation_rho(stmt: Seq<u8>) -> nat {
    challenge_of(stmt, seq![114u8, 104, 111])
}

pub open spec fn conservation_log(stmt: Seq<u8>, d: DecodedTransferProof) -> Seq<u8> {
    after_challenge(stmt, seq![114u8, 104, 111]) + frame(seq![65u8, 95, 114], d.conservation_commitment@)
}

/// The challenge `w` of the conservation proof.
pub open spec fn conservation_w(stmt: Seq<u8>, d: DecodedTransferProof) -> nat {
    challenge_of(conservation_log(stmt, d), seq![119u8])
}

/// `G + ρ·Σ pk_j`.
pub open spec fn conservation_base(rho: nat, pks: Seq<Seq<u8>>) -> Seq<u8> {
    lin_comb(seq![1nat] + Seq::new(pks.len(), |j: int| rho), seq![basepoint_encoding()] + pks)
}

/// `D + ρ·Σ C_j`.
pub open spec fn conservation_target(rho: nat, dd: Seq<u8>, cs: Seq<Seq<u8>>) -> Seq<u8> {
    lin_comb(seq![1nat] + Seq::new(cs.len(), |j: int| rho), seq![dd] + cs)
}

/// Balance conservation: one `r` gives both `D = r·G` and `Σ C_j = r·Σ pk_j`, so the
/// amounts of all slots sum to zero. Checked as `s_r·(G + ρΣpk) == A_r + w·(D + ρΣC)`.
pub open spec fn conservation_ok(
    stmt: Seq<u8>,
    d: DecodedTransferProof,
    pks: Seq<Seq<u8>>,
    dd: Seq<u8>,
    cs: Seq<Seq<u8>>,
) -> bool {
    let rho = conservation_rho(stmt);
    lin_comb(seq![d.s_r@], seq![conservation_base(rho, pks)]) == lin_comb(
        seq![1nat, conservation_w(stmt, d)],
        seq![d.conservation_commitment@, conservation_target(rho, dd, cs)],
    )
}

/// The eight Σ commitments that slot `j` recomputes: two for "unchanged"
/// (`C_j = r·pk_j`, `D = r·G`), three for "sender" (`pk_j = sk·G`,
/// `C_L + C_j − sk·(C_R + D) = b_new·G`, `C_new = b_new·G + τ·H`) and three for
/// "receiver" (`C_j = b_out·G + r·pk_j`, `D = r·G`, `C_out = b_out·G + τ'·H`).
pub open spec fn slot_points(
    d: DecodedTransferProof,
    j: int,
    pk: Seq<u8>,
    cl: Seq<u8>,
    cr: Seq<u8>,
    cj: Seq<u8>,
    dd: Seq<u8>,
) -> Seq<Seq<u8>> {
    let g = basepoint_encoding();
    let h = h_generator_spec();
    let e0 = d.e_zero@[j]@;
    let es = d.e_send@[j]@;
    let er = ssub(ssub(d.c@, e0), es);
    let s0 = d.s_zero@[j]@;
    let ssk = d.s_send_sk@[j]@;
    let sb = d.s_send_b@[j]@;
    let st = d.s_send_tau@[j]@;
    let rb = d.s_recv_b@[j]@;
    let rr = d.s_recv_r@[j]@;
    let rt = d.s_recv_tau@[j]@;
    seq![
        lin_comb(seq![s0, sneg(e0)], seq![g, dd]),
        lin_comb(seq![s0, sneg(e0)], seq![pk, cj]),
        lin_comb(seq![ssk, sneg(es)], seq![g, pk]),
        lin_comb(seq![sb, ssk, sneg(es)], seq![g, point_add_of(cr, dd), point_add_of(cl, cj)]),
        lin_comb(seq![sb, st, sneg(es)], seq![g, h, d.new_balance@]),
        lin_comb(seq![rb, rr, sneg(er)], seq![g, pk, cj]),
        lin_comb(seq![rr, sneg(er)], seq![g, dd]),
        lin_comb(seq![rb, rt, sneg(er)], seq![g, h, d.amount_commitment@]),
    ]
}

/// The Σ commitments of the first `k` slots, in order.
pub open spec fn all_slot_points(
    d: DecodedTransferProof,
    pks: Seq<Seq<u8>>,
    cls: Seq<Seq<u8>>,
    crs: Seq<Seq<u8>>,
    cs: Seq<Seq<u8>>,
    dd: Seq<u8>,
    k: nat,
) -> Seq<Seq<u8>>
    decreases k,
{
    if k == 0 {
        Seq::empty()
    } else {
        let j = (k - 1) as int;
        all_slot_points(d, pks, cls, crs, cs, dd, (k - 1) as nat) + slot_points(
            d,
            j,
            pks[j],
            cls[j],
            crs[j],
            cs[j],
            dd,
        )
    }
}

/// The transcript once the per-slot Σ commitments are absorbed.
pub open spec fn transfer_sigma_log(
    stmt: Seq<u8>,
    d: DecodedTransferProof,
    pks: Seq<Seq<u8>>,
    cls: Seq<Seq<u8>>,
    crs: Seq<Seq<u8>>,
    cs: Seq<Seq<u8>>,
    dd: Seq<u8>,
) -> Seq<u8> {
    absorb_points(
        after_challenge(conservation_log(stmt, d), seq![119u8]),
        seq![65u8],
        all_slot_points(d, pks, cls, crs, cs, dd, pks.len()),
    )
}

/// The per-slot OR-proofs: `c` is the challenge of the transcript.
pub open spec fn transfer_sigma_ok(
    stmt: Seq<u8>,
    d: DecodedTransferProof,
    pks: Seq<Seq<u8>>,
    cls: Seq<Seq<u8>>,
    crs: Seq<Seq<u8>>,
    cs: Seq<Seq<u8>>,
    dd: Seq<u8>,
) -> bool {
    challenge_of(transfer_sigma_log(stmt, d, pks, cls, crs, cs, dd), seq![99u8]) == d.c@
}

/// Every per-slot list of the proof has one entry per slot.
pub open spec fn transfer_lengths_ok(d: DecodedTransferProof, m: nat) -> bool {
    &&& d.e_zero@.len() == m
    &&& d.e_send@.len() == m
    &&& d.s_zero@.len() == m
    &&& d.s_send_sk@.len() == m
    &&& d.s_send_b@.len() == m
    &&& d.s_send_tau@.len() == m
    &&& d.s_recv_b@.len() == m
    &&& d.s_recv_r@.len() == m
    &&& d.s_recv_tau@.len() == m
}

/// The slot keys, balances and ciphertexts are valid points, one of each per slot.
pub open spec fn transfer_inputs_ok(
    pks: Seq<[u8; 32]>,
    cls: Seq<[u8; 32]>,
    crs: Seq<[u8; 32]>,
    cs: Seq<[u8; 32]>,
    dd: Seq<u8>,
) -> bool {
    &&& cls.len() == pks.len()
    &&& crs.len() == pks.len()
    &&& cs.len() == pks.len()
    &&& all_decode(pks)
    &&& all_decode(cls)
    &&& all_decode(crs)
    &&& all_decode(cs)
    &&& ristretto_decodes(dd)
}

/// The whole transfer proof verifies: balance conservation, the per-slot
/// OR-proofs, then the aggregated range proof for `[C_new, C_out]`, all on one
/// transcript that starts from the statement.
pub open spec fn transfer_accepts(
    v: BulletproofVerifier,
    d: DecodedTransferProof,
    epoch: u64,
    nonce: Seq<u8>,
    pks: Seq<[u8; 32]>,
    cls: Seq<[u8; 32]>,
    crs: Seq<[u8; 32]>,
    cs: Seq<[u8; 32]>,
    dd: Seq<u8>,
) -> bool {
    let stmt = transfer_statement_log(epoch, nonce, pks, cls, crs, cs, dd, d);
    let (p, l, r, c) = (bytes_values(pks), bytes_values(cls), bytes_values(crs), bytes_values(cs));
    &&& transfer_inputs_ok(pks, cls, crs, cs, dd)
    &&& transfer_lengths_ok(d, pks.len())
    &&& conservation_ok(stmt, d, p, dd, c)
    &&& transfer_sigma_ok(stmt, d, p, l, r, c, dd)
    &&& range_shape_ok(2, RANGE_BITS as nat, d.range_proof, v.n as nat)
    &&& range_proof_accepts(
        after_challenge(transfer_sigma_log(stmt, d, p, l, r, c, dd), seq![99u8]),
        seq![d.new_balance@, d.amount_commitment@],
        d.range_proof,
        RANGE_BITS as nat,
        point_values(v.g@),
        point_values(v.h@),
        v.u@,
    )
}

fn lin1(s0: &Scalar, p0: &G1Point) -> (r: G1Point)
    ensures
        r@ == lin_comb(seq![s0@], seq![p0@]),
{
    let mut ws: Vec<Scalar> = Vec::new();
    ws.push(s0.copy());
    let mut ps: Vec<G1Point> = Vec::new();
    ps.push(p0.copy());
    assert(scalar_values(ws@) =~= seq![s0@]);
    assert(point_values(ps@) =~= seq![p0@]);
    multi_scalar_mul(ws.as_slice(), ps.as_slice())
}

/// `first + ρ·Σ rest`.
fn fold_with_weight(first: &G1Point, rest: &Vec<G1Point>, rho: &Scalar) -> (r: G1Point)
    ensures
        r@ == lin_comb(
            seq![1nat] + Seq::new(rest@.len(), |j: int| rho@),
            seq![first@] + point_values(rest@),
        ),
{
    let mut ws: Vec<Scalar> = Vec::new();
    let mut ps: Vec<G1Point> = Vec::new();
    ws.push(Scalar::one());
    ps.push(first.copy());
    let mut i: usize = 0;
    while i < rest.len()
        invariant
            i <= rest@.len(),
            scalar_values(ws@) == seq![1nat] + Seq::new(i as nat, |j: int| rho@),
            point_values(ps@) == seq![first@] + point_values(rest@).subrange(0, i as int),
        decreases rest@.len() - i,
    {
        let ghost w0 = ws@;
        let ghost p0 = ps@;
        let wc = rho.copy();
        let pc = rest[i].copy();
        ws.push(wc);
        ps.push(pc);
        assert(scalar_values(ws@) =~= scalar_values(w0).push(wc@));
        assert(point_values(ps@) =~= point_values(p0).push(pc@));
        i = i + 1;
        assert(scalar_values(ws@) =~= seq![1nat] + Seq::new(i as nat, |j: int| rho@));
        assert(point_values(ps@) =~= seq![first@] + point_values(rest@).subrange(0, i as int));
    }
    assert(point_values(rest@).subrange(0, rest@.len() as int) =~= point_values(rest@));
    multi_scalar_mul(ws.as_slice(), ps.as_slice())
}

/// The eight Σ commitments of slot `j`.
fn slot_commitments(
    d: &DecodedTransferProof,
    j: usize,
    pk: &G1Point,
    cl: &G1Point,
    cr: &G1Point,
    cj: &G1Point,
    dd: &G1Point,
) -> (r: Vec<G1Point>)
    requires
        transfer_lengths_ok(*d, d.e_zero@.len()),
        j < d.e_zero@.len(),
    ensures
        point_values(r@) == slot_points(*d, j as int, pk@, cl@, cr@, cj@, dd@),
{
    let g = G1Point::generator();
    let h = get_h_generator();
    let e0 = &d.e_zero[j];
    let es = &d.e_send[j];
    let er = scalar_sub(&scalar_sub(&d.c, e0), es);
    let n0 = scalar_neg(e0);
    let ns = scalar_neg(es);
    let nr = scalar_neg(&er);
    let s0 = &d.s_zero[j];
    let ssk = &d.s_send_sk[j];
    let sb = &d.s_send_b[j];
    let st = &d.s_send_tau[j];
    let rb = &d.s_recv_b[j];
    let rr = &d.s_recv_r[j];
    let rt = &d.s_recv_tau[j];
    let crd = cr.add(dd);
    let clc = cl.add(cj);
    let mut out: Vec<G1Point> = Vec::new();
    out.push(lin2(s0, &n0, &g, dd));
    out.push(lin2(s0, &n0, pk, cj));
    out.push(lin2(ssk, &ns, &g, pk));
    out.push(lin3(sb, ssk, &ns, &g, &crd, &clc));
    out.push(lin3(sb, st, &ns, &g, &h, &d.new_balance));
    out.push(lin3(rb, rr, &nr, &g, pk, cj));
    out.push(lin2(rr, &nr, &g, dd));
    out.push(lin3(rb, rt, &nr, &g, &h, &d.amount_commitment));
    assert(point_values(out@) =~= slot_points(*d, j as int, pk@, cl@, cr@, cj@, dd@));
    out
}

/// Verifies a transfer proof for the slots `(pks, cls, crs, cs)` and `D`, bound to
/// `epoch` and `nonce`. Errors: `InvalidProofStructure` (lengths),
/// `InvalidEncoding` (a slot point), `BalanceConservationFailed`,
/// `SigmaProtocolChallengeFailed`, and the range verifier's errors.
pub fn verify_transfer_proof(
    verifier: &BulletproofVerifier,
    d: &DecodedTransferProof,
    pks: &Vec<[u8; 32]>,
    cls: &Vec<[u8; 32]>,
    crs: &Vec<[u8; 32]>,
    cs: &Vec<[u8; 32]>,
    dd: &G1Point,
    epoch: u64,
    nonce: &[u8; 32],
) -> (r: Result<(), ZerosolError>)
    requires
        verifier.wf(),
    ensures
        r.is_ok() == transfer_accepts(*verifier, *d, epoch, nonce@, pks@, cls@, crs@, cs@, dd@),
        r.is_err() ==> r == Err::<(), ZerosolError>(ZerosolError::InvalidProofStructure) || r
            == Err::<(), ZerosolError>(ZerosolError::InvalidEncoding) || r == Err::<
            (),
            ZerosolError,
        >(ZerosolError::BalanceConservationFailed) || r == Err::<(), ZerosolError>(
            ZerosolError::SigmaProtocolChallengeFailed,
        ) || r == Err::<(), ZerosolError>(ZerosolError::RangeProofVerificationFailed),
        ({
            let stmt = transfer_statement_log(epoch, nonce@, pks@, cls@, crs@, cs@, dd@, *d);
            transfer_inputs_ok(pks@, cls@, crs@, cs@, dd@) && transfer_lengths_ok(*d, pks@.len())
                && !conservation_ok(stmt, *d, bytes_values(pks@), dd@, bytes_values(cs@))
        }) ==> r == Err::<(), ZerosolError>(ZerosolError::BalanceConservationFailed),
        ({
            let stmt = transfer_statement_log(epoch, nonce@, pks@, cls@, crs@, cs@, dd@, *d);
            let (p, l, rv, c) = (
                bytes_values(pks@),
                bytes_values(cls@),
                bytes_values(crs@),
                bytes_values(cs@),
            );
            transfer_inputs_ok(pks@, cls@, crs@, cs@, dd@) && transfer_lengths_ok(*d, pks@.len())
                && conservation_ok(stmt, *d, p, dd@, c) && !transfer_sigma_ok(
                stmt,
                *d,
                p,
                l,
                rv,
                c,
                dd@,
            )
        }) ==> r == Err::<(), ZerosolError>(ZerosolError::SigmaProtocolChallengeFailed),
        !transfer_inputs_ok(pks@, cls@, crs@, cs@, dd@) || !transfer_lengths_ok(*d, pks@.len())
            ==> r == Err::<(), ZerosolError>(ZerosolError::InvalidProofStructure) || r == Err::<
            (),
            ZerosolError,
        >(ZerosolError::InvalidEncoding),
{
    let m = pks.len();
    if cls.len() != m || crs.len() != m || cs.len() != m || d.e_zero.len() != m || d.e_send.len()
        != m || d.s_zero.len() != m || d.s_send_sk.len() != m || d.s_send_b.len() != m
        || d.s_send_tau.len() != m || d.s_recv_b.len() != m || d.s_recv_r.len() != m
        || d.s_recv_tau.len() != m {
        return Err(ZerosolError::InvalidProofStructure);
    }
    let ddb = dd.to_bytes();
    assert(ristretto_decodes(ddb@));
    let pk_pts = decode_points(pks)?;
    let cl_pts = decode_points(cls)?;
    let cr_pts = decode_points(crs)?;
    let c_pts = decode_points(cs)?;
    assert(point_values(pk_pts@) =~= bytes_values(pks@));
    assert(point_values(cl_pts@) =~= bytes_values(cls@));
    assert(point_values(cr_pts@) =~= bytes_values(crs@));
    assert(point_values(c_pts@) =~= bytes_values(cs@));
    let ghost p = bytes_values(pks@);
    let ghost l = bytes_values(cls@);
    let ghost rv = bytes_values(crs@);
    let ghost c = bytes_values(cs@);
    // statement
    let mut t = Transcript::new();
    let le: [u8; 5] = [101u8, 112, 111, 99, 104];
    let ln: [u8; 5] = [110u8, 111, 110, 99, 101];
    assert(le@ =~= epoch_label());
    assert(ln@ =~= nonce_label());
    t.append_u64(&le, epoch);
    t.append_message(&ln, nonce);
    assert(t@ =~= frame(epoch_label(), spec_u64_to_le_bytes(epoch)) + frame(nonce_label(), nonce@));
    let l_pk: [u8; 2] = [112u8, 107];
    let l_cl: [u8; 2] = [67u8, 76];
    let l_cr: [u8; 2] = [67u8, 82];
    let l_c: [u8; 1] = [67u8];
    let l_d: [u8; 1] = [68u8];
    let l_a: [u8; 1] = [97u8];
    let l_b: [u8; 1] = [98u8];
    assert(l_pk@ =~= seq![112u8, 107]);
    assert(l_cl@ =~= seq![67u8, 76]);
    assert(l_cr@ =~= seq![67u8, 82]);
    assert(l_c@ =~= seq![67u8]);
    assert(l_d@ =~= seq![68u8]);
    assert(l_a@ =~= seq![97u8]);
    assert(l_b@ =~= seq![98u8]);
    append_list(&mut t, &l_pk, pks);
    append_list(&mut t, &l_cl, cls);
    append_list(&mut t, &l_cr, crs);
    append_list(&mut t, &l_c, cs);
    t.append_point(&l_d, dd);
    t.append_point(&l_a, &d.new_balance);
    t.append_point(&l_b, &d.amount_commitment);
    let ghost stmt = t@;
    assert(stmt == transfer_statement_log(epoch, nonce@, pks@, cls@, crs@, cs@, dd@, *d));
    // balance conservation
    let l_rho: [u8; 3] = [114u8, 104, 111];
    let l_ar: [u8; 3] = [65u8, 95, 114];
    let l_w: [u8; 1] = [119u8];
    assert(l_rho@ =~= seq![114u8, 104, 111]);
    assert(l_ar@ =~= seq![65u8, 95, 114]);
    assert(l_w@ =~= seq![119u8]);
    let rho = t.challenge_scalar(&l_rho);
    t.append_point(&l_ar, &d.conservation_commitment);
    let w = t.challenge_scalar(&l_w);
    let g = G1Point::generator();
    let base = fold_with_weight(&g, &pk_pts, &rho);
    let target = fold_with_weight(dd, &c_pts, &rho);
    let lhs = lin1(&d.s_r, &base);
    let one = Scalar::one();
    let rhs = lin2(&one, &w, &d.conservation_commitment, &target);
    assert(rho@ == conservation_rho(stmt));
    assert(w@ == conservation_w(stmt, *d));
    assert(base@ == conservation_base(rho@, p));
    assert(target@ == conservation_target(rho@, dd@, c));
    if !lhs.eq(&rhs) {
        return Err(ZerosolError::BalanceConservationFailed);
    }
    assert(conservation_ok(stmt, *d, p, dd@, c));
    assert(t@ == after_challenge(conservation_log(stmt, *d), seq![119u8]));
    // per-slot OR-proofs
    let l_pt: [u8; 1] = [65u8];
    assert(l_pt@ =~= seq![65u8]);
    let ghost base_log = t@;
    let mut j: usize = 0;
    while j < m
        invariant
            j <= m,
            m == pks@.len(),
            transfer_lengths_ok(*d, m as nat),
            pk_pts@.len() == m,
            cl_pts@.len() == m,
            cr_pts@.len() == m,
            c_pts@.len() == m,
            point_values(pk_pts@) == p,
            point_values(cl_pts@) == l,
            point_values(cr_pts@) == rv,
            point_values(c_pts@) == c,
            l_pt@ == seq![65u8],
            t@ == absorb_points(base_log, seq![65u8], all_slot_points(*d, p, l, rv, c, dd@, j as nat)),
        decreases m - j,
    {
        let pts = slot_commitments(d, j, &pk_pts[j], &cl_pts[j], &cr_pts[j], &c_pts[j], dd);
        proof {
            assert(pk_pts@[j as int]@ == p[j as int]);
            assert(cl_pts@[j as int]@ == l[j as int]);
            assert(cr_pts@[j as int]@ == rv[j as int]);
            assert(c_pts@[j as int]@ == c[j as int]);
            lemma_absorb_points_concat(
                base_log,
                seq![65u8],
                all_slot_points(*d, p, l, rv, c, dd@, j as nat),
                point_values(pts@),
            );
        }
        append_points(&mut t, &l_pt, &pts);
        j = j + 1;
    }
    let l_cc: [u8; 1] = [99u8];
    assert(l_cc@ =~= seq![99u8]);
    assert(t@ == transfer_sigma_log(stmt, *d, p, l, rv, c, dd@));
    let c2 = t.challenge_scalar(&l_cc);
    if !c2.equals(&d.c) {
        return Err(ZerosolError::SigmaProtocolChallengeFailed);
    }
    let mut vs: Vec<G1Point> = Vec::new();
    vs.push(d.new_balance.copy());
    vs.push(d.amount_commitment.copy());
    assert(point_values(vs@) =~= seq![d.new_balance@, d.amount_commitment@]);
    assert(transfer_sigma_ok(stmt, *d, p, l, rv, c, dd@));
    assert(transfer_inputs_ok(pks@, cls@, crs@, cs@, dd@));
    assert(transfer_lengths_ok(*d, pks@.len()));
    let ghost log_r = t@;
    assert(log_r == after_challenge(transfer_sigma_log(stmt, *d, p, l, rv, c, dd@), seq![99u8]));
    match verifier.verify_with_transcript(&mut t, vs.as_slice(), &d.range_proof, RANGE_BITS) {
        Err(e) => Err(e),
        Ok(true) => {
            assert(transfer_accepts(*verifier, *d, epoch, nonce@, pks@, cls@, crs@, cs@, dd@));
            Ok(())
        },
        Ok(false) => Err(ZerosolError::RangeProofVerificationFailed),
    }
}

} // verus!
