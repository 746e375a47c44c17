use crate::curve_ops::{lemma_sinv_unique, sinv, SpecializedOps};
use crate::error::ZerosolError;
use crate::generators::{
    decimal, derive_generators, g_generator, h_vector_generator, push_decimal, u_generator,
};
use crate::point::{
    basepoint_encoding, lin_comb, multi_scalar_mul, point_values, scalar_values, G1Point,
};
use crate::scalar::{
    group_order, sadd, scalar_add, scalar_mul, scalar_neg, scalar_sub, smul, sneg, ssub, Scalar,
};
use crate::transcript::{after_challenge, challenge_of, frame, Transcript};
use crate::utils::{get_h_generator, h_generator_spec, scalar_powers, spow};
use vstd::arithmetic::power2::pow2;
use vstd::prelude::*;

verus! {

/// The inner-product argument: one `(L, R)` pair per folding round, then the
/// two final scalars.
#[derive(Debug)]
pub struct InnerProductProof {
    pub l_vec: Vec<G1Point>,
    pub r_vec: Vec<G1Point>,
    pub a: Scalar,
    pub b: Scalar,
}

/// A Bulletproof range proof `(A, S, T1, T2; t̂, τ_x, μ; IPP)`.
#[derive(Debug)]
pub struct RangeProof {
    pub a: G1Point,
    pub s: G1Point,
    pub t1: G1Point,
    pub t2: G1Point,
    pub t_hat: Scalar,
    pub tau_x: Scalar,
    pub mu: Scalar,
    pub inner_product_proof: InnerProductProof,
}

/// Commitments together with the proof that each lies in range.
#[derive(Debug)]
pub struct AggregatedRangeProof {
    pub commitments: Vec<G1Point>,
    pub proof: RangeProof,
}

// ----- transcript schedule -----

/// `V_<j>`
pub open spec fn v_label(j: nat) -> Seq<u8> {
    seq![86u8, 95] + decimal(j)
}

/// The log after absorbing each commitment `V_j` under `V_<j>`.
pub open spec fn absorb_commitments(log: Seq<u8>, vs: Seq<Seq<u8>>) -> Seq<u8>
    decreases vs.len(),
{
    if vs.len() == 0 {
        log
    } else {
        let n = (vs.len() - 1) as int;
        absorb_commitments(log, vs.subrange(0, n)) + frame(v_label(n as nat), vs[n])
    }
}

pub open spec fn log_before_y(log0: Seq<u8>, vs: Seq<Seq<u8>>, p: RangeProof) -> Seq<u8> {
    absorb_commitments(log0, vs) + frame(seq![65u8], p.a@) + frame(seq![83u8], p.s@)
}

pub open spec fn chal_y(log0: Seq<u8>, vs: Seq<Seq<u8>>, p: RangeProof) -> nat {
    challenge_of(log_before_y(log0, vs, p), seq![121u8])
}

pub open spec fn log_before_z(log0: Seq<u8>, vs: Seq<Seq<u8>>, p: RangeProof) -> Seq<u8> {
    after_challenge(log_before_y(log0, vs, p), seq![121u8])
}

pub open spec fn chal_z(log0: Seq<u8>, vs: Seq<Seq<u8>>, p: RangeProof) -> nat {
    challenge_of(log_before_z(log0, vs, p), seq![122u8])
}

pub open spec fn log_before_x(log0: Seq<u8>, vs: Seq<Seq<u8>>, p: RangeProof) -> Seq<u8> {
    after_challenge(log_before_z(log0, vs, p), seq![122u8]) + frame(seq![84u8, 49], p.t1@)
        + frame(seq![84u8, 50], p.t2@)
}

pub open spec fn chal_x(log0: Seq<u8>, vs: Seq<Seq<u8>>, p: RangeProof) -> nat {
    challenge_of(log_before_x(log0, vs, p), seq![120u8])
}

/// The log when the folding rounds start.
pub open spec fn log_rounds(log0: Seq<u8>, vs: Seq<Seq<u8>>, p: RangeProof) -> Seq<u8> {
    after_challenge(log_before_x(log0, vs, p), seq![120u8])
}

/// The log after `j` folding rounds (each absorbs `L_j`, `R_j` and squeezes `u`).
pub open spec fn round_log(base: Seq<u8>, p: RangeProof, j: nat) -> Seq<u8>
    decreases j,
{
    if j == 0 {
        base
    } else {
        let prev = round_log(base, p, (j - 1) as nat);
        after_challenge(
            prev + frame(seq![76u8], p.inner_product_proof.l_vec@[j - 1]@) + frame(
                seq![82u8],
                p.inner_product_proof.r_vec@[j - 1]@,
            ),
            seq![117u8],
        )
    }
}

/// The challenge `u_j` of folding round `j`.
pub open spec fn round_chal(base: Seq<u8>, p: RangeProof, j: nat) -> nat {
    challenge_of(
        round_log(base, p, j) + frame(seq![76u8], p.inner_product_proof.l_vec@[j as int]@)
            + frame(seq![82u8], p.inner_product_proof.r_vec@[j as int]@),
        seq![117u8],
    )
}

pub open spec fn round_chals(log0: Seq<u8>, vs: Seq<Seq<u8>>, p: RangeProof) -> Seq<nat> {
    Seq::new(
        p.inner_product_proof.l_vec@.len(),
        |j: int| round_chal(log_rounds(log0, vs, p), p, j as nat),
    )
}

// ----- verification equations -----

/// `Σ_{i<len} x^i` modulo the group order.
pub open spec fn sum_pows(x: nat, len: nat) -> nat
    decreases len,
{
    if len == 0 {
        0
    } else {
        sadd(sum_pows(x, (len - 1) as nat), spow(x, (len - 1) as nat))
    }
}

/// `δ(y, z) = (z − z²)·Σ_{i<mn} y^i − (Σ_{j<m} z^{j+3})·Σ_{i<n} 2^i`.
pub open spec fn delta(y: nat, z: nat, m: nat, n: nat) -> nat {
    ssub(
        smul(ssub(z, smul(z, z)), sum_pows(y, m * n)),
        smul(smul(spow(z, 3), sum_pows(z, m)), sum_pows(2, n)),
    )
}

/// Left side of the polynomial identity: `t̂·G + τ_x·H`.
pub open spec fn poly_lhs(p: RangeProof) -> Seq<u8> {
    lin_comb(seq![p.t_hat@, p.tau_x@], seq![basepoint_encoding(), h_generator_spec()])
}

/// Right side: `Σ_j z^{j+2}·V_j + δ·G + x·T1 + x²·T2`.
pub open spec fn poly_rhs(vs: Seq<Seq<u8>>, p: RangeProof, y: nat, z: nat, x: nat, n: nat) -> Seq<
    u8,
> {
    lin_comb(
        Seq::new(vs.len(), |j: int| spow(z, (j + 2) as nat)) + seq![
            delta(y, z, vs.len(), n),
            x,
            smul(x, x),
        ],
        vs + seq![basepoint_encoding(), p.t1@, p.t2@],
    )
}

/// Half the vector length in folding round `j`.
pub open spec fn fold_half(size: nat, j: nat) -> nat
    decreases j,
{
    if j == 0 {
        size / 2
    } else {
        fold_half(size, (j - 1) as nat) / 2
    }
}

/// Coefficient that `j` folding rounds give to position `i`: per round, `lo[r]`
/// in the lower half and `hi[r]` in the upper half.
pub open spec fn fold_coeff(hi: Seq<nat>, lo: Seq<nat>, size: nat, i: nat, j: nat) -> nat
    decreases j,
{
    if j == 0 {
        1
    } else {
        let r = (j - 1) as nat;
        let half = fold_half(size, r);
        let pick = if half > 0 && i % (2 * half) >= half {
            hi[r as int]
        } else {
            lo[r as int]
        };
        smul(fold_coeff(hi, lo, size, i, r), pick)
    }
}

/// Weight of `H[i]` in the initial target: `(z·y^i + z^{2+⌊i/n⌋}·2^{i mod n})·y^{−i}`.
pub open spec fn h_weight(y: nat, yinv: nat, z: nat, n: nat, i: nat) -> nat {
    smul(
        sadd(smul(z, spow(y, i)), smul(spow(z, 2 + i / n), spow(2, i % n))),
        spow(yinv, i),
    )
}

/// Weights of the folded target (the `t̂·u` term binds the inner product `⟨l, r⟩`
/// to `t̂`; without it an honest proof could not meet `a·b·u` at the end)
/// `P = A + x·S − μ·H − z·ΣG[i] + Σ h_weight(i)·H[i] + t̂·u + Σ_j (u_j²·L_j + u_j^{−2}·R_j)`.
pub open spec fn ipp_lhs_weights(
    p: RangeProof,
    y: nat,
    z: nat,
    x: nat,
    us: Seq<nat>,
    n: nat,
    mn: nat,
) -> Seq<nat> {
    let yinv = sinv(y);
    let k = us.len();
    seq![1nat, x, sneg(p.mu@)] + Seq::new(mn, |i: int| sneg(z)) + Seq::new(
        mn,
        |i: int| h_weight(y, yinv, z, n, i as nat),
    ) + seq![p.t_hat@] + Seq::new(k, |j: int| smul(us[j], us[j])) + Seq::new(
        k,
        |j: int| smul(sinv(us[j]), sinv(us[j])),
    )
}

pub open spec fn ipp_lhs_points(p: RangeProof, gs: Seq<Seq<u8>>, hs: Seq<Seq<u8>>, u: Seq<u8>, mn: nat) -> Seq<
    Seq<u8>,
> {
    seq![p.a@, p.s@, h_generator_spec()] + gs.subrange(0, mn as int) + hs.subrange(0, mn as int)
        + seq![u] + point_values(p.inner_product_proof.l_vec@) + point_values(
        p.inner_product_proof.r_vec@,
    )
}

/// Weights of `a·G'[0] + b·H'[0] + (a·b)·u`, with the folded generators
/// expanded over `G[i]` and `H[i]`.
pub open spec fn ipp_rhs_weights(p: RangeProof, y: nat, us: Seq<nat>, mn: nat) -> Seq<nat> {
    let yinv = sinv(y);
    let uinvs = us.map_values(|c: nat| sinv(c));
    let k = us.len();
    let a = p.inner_product_proof.a@;
    let b = p.inner_product_proof.b@;
    Seq::new(mn, |i: int| smul(a, fold_coeff(us, uinvs, mn, i as nat, k))) + Seq::new(
        mn,
        |i: int| smul(smul(b, fold_coeff(uinvs, us, mn, i as nat, k)), spow(yinv, i as nat)),
    ) + seq![smul(a, b)]
}

pub open spec fn ipp_rhs_points(gs: Seq<Seq<u8>>, hs: Seq<Seq<u8>>, u: Seq<u8>, mn: nat) -> Seq<
    Seq<u8>,
> {
    gs.subrange(0, mn as int) + hs.subrange(0, mn as int) + seq![u]
}

/// The proof has the shape that `m` commitments of `n` bits need, with `total`
/// generators available.
pub open spec fn range_shape_ok(m: nat, n: nat, p: RangeProof, total: nat) -> bool {
    &&& m > 0
    &&& n > 0
    &&& p.inner_product_proof.l_vec@.len() == p.inner_product_proof.r_vec@.len()
    &&& m * n <= total
    &&& pow2(p.inner_product_proof.l_vec@.len()) == m * n
}

/// Whether the proof verifies for commitments `vs` on a transcript that has
/// absorbed `log0`: every challenge is invertible, the polynomial identity holds,
/// and the folded inner-product target matches `a·G'[0] + b·H'[0] + (a·b)·u`.
pub open spec fn range_proof_accepts(
    log0: Seq<u8>,
    vs: Seq<Seq<u8>>,
    p: RangeProof,
    n: nat,
    gs: Seq<Seq<u8>>,
    hs: Seq<Seq<u8>>,
    u: Seq<u8>,
) -> bool {
    let y = chal_y(log0, vs, p);
    let z = chal_z(log0, vs, p);
    let x = chal_x(log0, vs, p);
    let us = round_chals(log0, vs, p);
    let mn = vs.len() * n;
    &&& y != 0
    &&& forall|j: int| 0 <= j < us.len() ==> us[j] != 0
    &&& poly_lhs(p) == poly_rhs(vs, p, y, z, x, n)
    &&& lin_comb(ipp_lhs_weights(p, y, z, x, us, n, mn), ipp_lhs_points(p, gs, hs, u, mn))
        == lin_comb(ipp_rhs_weights(p, y, us, mn), ipp_rhs_points(gs, hs, u, mn))
}

/// Whether `pow2(k) == target`.
pub fn is_two_power(k: usize, target: usize) -> (r: bool)
    ensures
        r == (pow2(k as nat) == target),
{
    let mut p: usize = 1;
    let mut j: usize = 0;
    assert(pow2(0) == 1) by {
        vstd::arithmetic::power::lemma_pow0(2);
    }
    while j < k
        invariant
            j <= k,
            p == pow2(j as nat),
            p <= target || j == 0,
        decreases k - j,
    {
        if p > target / 2 {
            proof {
                vstd::arithmetic::power2::lemma_pow2_unfold((j + 1) as nat);
                if j + 1 < k {
                    vstd::arithmetic::power2::lemma_pow2_strictly_increases(
                        (j + 1) as nat,
                        k as nat,
                    );
                }
            }
            return false;
        }
        proof {
            vstd::arithmetic::power2::lemma_pow2_unfold((j + 1) as nat);
        }
        p = p * 2;
        j = j + 1;
    }
    p == target
}

/// `Σ_{i<len} x^i`.
pub fn sum_powers(x: &Scalar, len: usize) -> (r: Scalar)
    ensures
        r@ == sum_pows(x@, len as nat),
{
    let mut acc = Scalar::zero();
    let mut cur = Scalar::one();
    let mut i: usize = 0;
    while i < len
        invariant
            i <= len,
            acc@ == sum_pows(x@, i as nat),
            cur@ == spow(x@, i as nat),
        decreases len - i,
    {
        acc = scalar_add(&acc, &cur);
        cur = scalar_mul(&cur, x);
        i = i + 1;
    }
    acc
}

/// Coefficient that the folding rounds give to position `i` (see `fold_coeff`).
fn fold_coefficient(hi: &Vec<Scalar>, lo: &Vec<Scalar>, size: usize, i: usize) -> (r: Scalar)
    requires
        hi@.len() == lo@.len(),
    ensures
        r@ == fold_coeff(scalar_values(hi@), scalar_values(lo@), size as nat, i as nat, hi@.len()),
{
    let ghost sh = scalar_values(hi@);
    let ghost sl = scalar_values(lo@);
    let mut c = Scalar::one();
    let mut half: usize = size / 2;
    let mut j: usize = 0;
    while j < hi.len()
        invariant
            hi@.len() == lo@.len(),
            sh == scalar_values(hi@),
            sl == scalar_values(lo@),
            j <= hi@.len(),
            half == fold_half(size as nat, j as nat),
            half <= size / 2,
            c@ == fold_coeff(sh, sl, size as nat, i as nat, j as nat),
        decreases hi@.len() - j,
    {
        if half > 0 && i % (2 * half) >= half {
            c = scalar_mul(&c, &hi[j]);
        } else {
            c = scalar_mul(&c, &lo[j]);
        }
        half = half / 2;
        j = j + 1;
    }
    c
}

/// Absorbs the statement and the proof into the transcript in protocol order and
/// returns the challenges `y`, `z`, `x` and `u_1..u_k`.
fn absorb_range_proof(t: &mut Transcript, commitments: &[G1Point], p: &RangeProof) -> (r: (
    Scalar,
    Scalar,
    Scalar,
    Vec<Scalar>,
))
    requires
        p.inner_product_proof.l_vec@.len() == p.inner_product_proof.r_vec@.len(),
    ensures
        r.0@ == chal_y(old(t)@, point_values(commitments@), *p),
        r.1@ == chal_z(old(t)@, point_values(commitments@), *p),
        r.2@ == chal_x(old(t)@, point_values(commitments@), *p),
        scalar_values(r.3@) == round_chals(old(t)@, point_values(commitments@), *p),
        final(t)@ == round_log(
            log_rounds(old(t)@, point_values(commitments@), *p),
            *p,
            p.inner_product_proof.l_vec@.len(),
        ),
{
    let ghost log0 = t@;
    let ghost vs = point_values(commitments@);
    let mut j: usize = 0;
    while j < commitments.len()
        invariant
            j <= commitments@.len(),
            vs == point_values(commitments@),
            t@ == absorb_commitments(log0, point_values(commitments@.subrange(0, j as int))),
        decreases commitments@.len() - j,
    {
        let mut label: Vec<u8> = Vec::new();
        label.push(86u8);
        label.push(95u8);
        push_decimal(&mut label, j as u64);
        assert(label@ =~= v_label(j as nat));
        t.append_point(label.as_slice(), &commitments[j]);
        j = j + 1;
        proof {
            let cur = point_values(commitments@.subrange(0, j as int));
            assert(cur.subrange(0, j - 1) =~= point_values(commitments@.subrange(0, j - 1)));
        }
    }
    assert(commitments@.subrange(0, commitments@.len() as int) =~= commitments@);
    let la: [u8; 1] = [65u8];
    let ls: [u8; 1] = [83u8];
    let ly: [u8; 1] = [121u8];
    let lz: [u8; 1] = [122u8];
    let lt1: [u8; 2] = [84u8, 49];
    let lt2: [u8; 2] = [84u8, 50];
    let lx: [u8; 1] = [120u8];
    let ll: [u8; 1] = [76u8];
    let lr: [u8; 1] = [82u8];
    let lu: [u8; 1] = [117u8];
    assert(la@ =~= seq![65u8]);
    assert(ls@ =~= seq![83u8]);
    assert(ly@ =~= seq![121u8]);
    assert(lz@ =~= seq![122u8]);
    assert(lt1@ =~= seq![84u8, 49]);
    assert(lt2@ =~= seq![84u8, 50]);
    assert(lx@ =~= seq![120u8]);
    assert(ll@ =~= seq![76u8]);
    assert(lr@ =~= seq![82u8]);
    assert(lu@ =~= seq![117u8]);
    t.append_point(&la, &p.a);
    t.append_point(&ls, &p.s);
    let y = t.challenge_scalar(&ly);
    let z = t.challenge_scalar(&lz);
    t.append_point(&lt1, &p.t1);
    t.append_point(&lt2, &p.t2);
    let x = t.challenge_scalar(&lx);
    let ghost base = t@;
    let ipp = &p.inner_product_proof;
    let mut us: Vec<Scalar> = Vec::new();
    let mut k: usize = 0;
    while k < ipp.l_vec.len()
        invariant
            k <= ipp.l_vec@.len(),
            ipp.l_vec@.len() == ipp.r_vec@.len(),
            ipp == p.inner_product_proof,
            ll@ == seq![76u8],
            lr@ == seq![82u8],
            lu@ == seq![117u8],
            t@ == round_log(base, *p, k as nat),
            us@.len() == k,
            forall|i: int| 0 <= i < k ==> (#[trigger] us@[i])@ == round_chal(base, *p, i as nat),
        decreases ipp.l_vec@.len() - k,
    {
        t.append_point(&ll, &ipp.l_vec[k]);
        t.append_point(&lr, &ipp.r_vec[k]);
        let u = t.challenge_scalar(&lu);
        us.push(u);
        k = k + 1;
    }
    assert(scalar_values(us@) =~= round_chals(log0, vs, *p));
    (y, z, x, us)
}

/// The polynomial identity `t̂·G + τ_x·H == Σ_j z^{j+2}·V_j + δ·G + x·T1 + x²·T2`.
fn poly_check(
    commitments: &[G1Point],
    p: &RangeProof,
    y: &Scalar,
    z: &Scalar,
    x: &Scalar,
    n: usize,
) -> (r: bool)
    requires
        commitments@.len() > 0,
        commitments@.len() * n <= usize::MAX,
        commitments@.len() + 3 <= usize::MAX,
    ensures
        r == (poly_lhs(*p) == poly_rhs(point_values(commitments@), *p, y@, z@, x@, n as nat)),
{
    let m = commitments.len();
    let g = G1Point::generator();
    let h = get_h_generator();
    let mut lw: Vec<Scalar> = Vec::new();
    lw.push(p.t_hat.copy());
    lw.push(p.tau_x.copy());
    let mut lp: Vec<G1Point> = Vec::new();
    lp.push(g.copy());
    lp.push(h);
    assert(scalar_values(lw@) =~= seq![p.t_hat@, p.tau_x@]);
    assert(point_values(lp@) =~= seq![basepoint_encoding(), h_generator_spec()]);
    let lhs = multi_scalar_mul(lw.as_slice(), lp.as_slice());

    let zz = scalar_mul(z, z);
    let sy = sum_powers(y, m * n);
    let zpows = scalar_powers(z, m + 3);
    let sz = sum_powers(z, m);
    let two = Scalar::from_u64(2);
    let s2 = sum_powers(&two, n);
    let left = scalar_mul(&scalar_sub(z, &zz), &sy);
    let right = scalar_mul(&scalar_mul(&zpows[3], &sz), &s2);
    let d = scalar_sub(&left, &right);
    assert(d@ == delta(y@, z@, m as nat, n as nat));

    let ghost vs = point_values(commitments@);
    let mut rw: Vec<Scalar> = Vec::new();
    let mut rp: Vec<G1Point> = Vec::new();
    let mut j: usize = 0;
    while j < m
        invariant
            j <= m,
            m == commitments@.len(),
            m + 3 <= usize::MAX,
            zpows@.len() == m + 3,
            forall|i: int| 0 <= i < m + 3 ==> (#[trigger] zpows@[i])@ == spow(z@, i as nat),
            scalar_values(rw@) == Seq::new(j as nat, |i: int| spow(z@, (i + 2) as nat)),
            point_values(rp@) == vs.subrange(0, j as int),
            vs == point_values(commitments@),
        decreases m - j,
    {
        let ghost old_rw = rw@;
        let ghost old_rp = rp@;
        let zc = zpows[j + 2].copy();
        assert(zc@ == spow(z@, (j + 2) as nat));
        rw.push(zc);
        rp.push(commitments[j].copy());
        assert(rw@ == old_rw.push(zc));
        assert(scalar_values(rw@) =~= scalar_values(old_rw).push(zc@));
        assert(point_values(rp@) =~= point_values(old_rp).push(commitments@[j as int]@));
        j = j + 1;
        assert(scalar_values(rw@) =~= Seq::new(j as nat, |i: int| spow(z@, (i + 2) as nat)));
        assert(point_values(rp@) =~= vs.subrange(0, j as int));
    }
    rw.push(d);
    rw.push(x.copy());
    rw.push(scalar_mul(x, x));
    rp.push(g);
    rp.push(p.t1.copy());
    rp.push(p.t2.copy());
    assert(scalar_values(rw@) =~= Seq::new(m as nat, |i: int| spow(z@, (i + 2) as nat)) + seq![
        delta(y@, z@, m as nat, n as nat),
        x@,
        smul(x@, x@),
    ]);
    assert(vs.subrange(0, m as int) =~= vs);
    assert(point_values(rp@) =~= vs + seq![basepoint_encoding(), p.t1@, p.t2@]);
    let rhs = multi_scalar_mul(rw.as_slice(), rp.as_slice());
    lhs.eq(&rhs)
}

/// Appends `src` to `dst`.
fn extend_scalars(dst: &mut Vec<Scalar>, src: &Vec<Scalar>)
    ensures
        scalar_values(final(dst)@) == scalar_values(old(dst)@) + scalar_values(src@),
{
    let ghost d0 = scalar_values(dst@);
    let mut i: usize = 0;
    while i < src.len()
        invariant
            i <= src@.len(),
            scalar_values(dst@) == d0 + scalar_values(src@).subrange(0, i as int),
        decreases src@.len() - i,
    {
        let ghost before = dst@;
        let c = src[i].copy();
        dst.push(c);
        assert(scalar_values(dst@) =~= scalar_values(before).push(c@));
        i = i + 1;
        assert(scalar_values(src@).subrange(0, i as int) =~= scalar_values(src@).subrange(
            0,
            i - 1,
        ).push(c@));
    }
    assert(scalar_values(src@).subrange(0, src@.len() as int) =~= scalar_values(src@));
}

/// Appends the first `len` points of `src` to `dst`.
fn extend_points(dst: &mut Vec<G1Point>, src: &Vec<G1Point>, len: usize)
    requires
        len <= src@.len(),
    ensures
        point_values(final(dst)@) == point_values(old(dst)@) + point_values(src@).subrange(
            0,
            len as int,
        ),
{
    let ghost d0 = point_values(dst@);
    let mut i: usize = 0;
    while i < len
        invariant
            i <= len,
            len <= src@.len(),
            point_values(dst@) == d0 + point_values(src@).subrange(0, i as int),
        decreases len - i,
    {
        let ghost before = dst@;
        let c = src[i].copy();
        dst.push(c);
        assert(point_values(dst@) =~= point_values(before).push(c@));
        i = i + 1;
        assert(point_values(src@).subrange(0, i as int) =~= point_values(src@).subrange(
            0,
            i - 1,
        ).push(c@));
    }
}

impl BulletproofVerifier {
    /// The folded inner-product check, as one comparison of two multi-scalar
    /// multiplications.
    fn ipp_check(
        &self,
        p: &RangeProof,
        y: &Scalar,
        yinv: &Scalar,
        z: &Scalar,
        x: &Scalar,
        us: &Vec<Scalar>,
        uinvs: &Vec<Scalar>,
        n: usize,
        mn: usize,
    ) -> (r: bool)
        requires
            self.wf(),
            n > 0,
            mn <= self.n,
            mn + 3 <= usize::MAX,
            us@.len() == uinvs@.len(),
            us@.len() == p.inner_product_proof.l_vec@.len(),
            us@.len() == p.inner_product_proof.r_vec@.len(),
            yinv@ == sinv(y@),
            forall|j: int| 0 <= j < us@.len() ==> (#[trigger] uinvs@[j])@ == sinv(us@[j]@),
        ensures
            r == (lin_comb(
                ipp_lhs_weights(*p, y@, z@, x@, scalar_values(us@), n as nat, mn as nat),
                ipp_lhs_points(*p, point_values(self.g@), point_values(self.h@), self.u@, mn as nat),
            ) == lin_comb(
                ipp_rhs_weights(*p, y@, scalar_values(us@), mn as nat),
                ipp_rhs_points(point_values(self.g@), point_values(self.h@), self.u@, mn as nat),
            )),
    {
        let ghost su = scalar_values(us@);
        let ghost sui = scalar_values(uinvs@);
        assert(sui =~= su.map_values(|c: nat| sinv(c)));
        let k = us.len();
        let ipp = &p.inner_product_proof;
        let ypows = scalar_powers(y, mn);
        let yinvpows = scalar_powers(yinv, mn);
        let zpows = scalar_powers(z, mn + 3);
        let two = Scalar::from_u64(2);
        let twopows = scalar_powers(&two, n);
        let neg_z = scalar_neg(z);

        // G and H weights of the target
        let mut gw: Vec<Scalar> = Vec::new();
        let mut hw: Vec<Scalar> = Vec::new();
        let mut ga: Vec<Scalar> = Vec::new();
        let mut hb: Vec<Scalar> = Vec::new();
        let mut i: usize = 0;
        while i < mn
            invariant
                i <= mn,
                n > 0,
                mn + 3 <= usize::MAX,
                us@.len() == k,
                uinvs@.len() == k,
                su == scalar_values(us@),
                sui == scalar_values(uinvs@),
                yinv@ == sinv(y@),
                ypows@.len() == mn,
                yinvpows@.len() == mn,
                zpows@.len() == mn + 3,
                twopows@.len() == n,
                forall|j: int| 0 <= j < mn ==> (#[trigger] ypows@[j])@ == spow(y@, j as nat),
                forall|j: int| 0 <= j < mn ==> (#[trigger] yinvpows@[j])@ == spow(yinv@, j as nat),
                forall|j: int| 0 <= j < mn + 3 ==> (#[trigger] zpows@[j])@ == spow(z@, j as nat),
                forall|j: int| 0 <= j < n ==> (#[trigger] twopows@[j])@ == spow(2, j as nat),
                neg_z@ == sneg(z@),
                gw@.len() == i,
                hw@.len() == i,
                ga@.len() == i,
                hb@.len() == i,
                forall|j: int| 0 <= j < i ==> (#[trigger] gw@[j])@ == sneg(z@),
                forall|j: int|
                    0 <= j < i ==> (#[trigger] hw@[j])@ == h_weight(
                        y@,
                        yinv@,
                        z@,
                        n as nat,
                        j as nat,
                    ),
                forall|j: int|
                    0 <= j < i ==> (#[trigger] ga@[j])@ == smul(
                        ipp.a@,
                        fold_coeff(su, sui, mn as nat, j as nat, k as nat),
                    ),
                forall|j: int|
                    0 <= j < i ==> (#[trigger] hb@[j])@ == smul(
                        smul(ipp.b@, fold_coeff(sui, su, mn as nat, j as nat, k as nat)),
                        spow(yinv@, j as nat),
                    ),
            decreases mn - i,
        {
            gw.push(neg_z.copy());
            proof {
                vstd::arithmetic::div_mod::lemma_div_is_ordered_by_denominator(i as int, 1, n as int);
            }
            assert(i / 1 == i);
            let blk = i / n;
            let pos = i % n;
            let t1 = scalar_mul(z, &ypows[i]);
            let t2 = scalar_mul(&zpows[2 + blk], &twopows[pos]);
            let w = scalar_mul(&scalar_add(&t1, &t2), &yinvpows[i]);
            hw.push(w);
            let cg = fold_coefficient(us, uinvs, mn, i);
            ga.push(scalar_mul(&ipp.a, &cg));
            let ch = fold_coefficient(uinvs, us, mn, i);
            hb.push(scalar_mul(&scalar_mul(&ipp.b, &ch), &yinvpows[i]));
            i = i + 1;
        }

        // u_j² and u_j^{-2}
        let mut lw: Vec<Scalar> = Vec::new();
        let mut rw: Vec<Scalar> = Vec::new();
        let mut j: usize = 0;
        while j < k
            invariant
                j <= k,
                us@.len() == k,
                uinvs@.len() == k,
                forall|t: int| 0 <= t < k ==> (#[trigger] uinvs@[t])@ == sinv(us@[t]@),
                lw@.len() == j,
                rw@.len() == j,
                forall|t: int| 0 <= t < j ==> (#[trigger] lw@[t])@ == smul(us@[t]@, us@[t]@),
                forall|t: int|
                    0 <= t < j ==> (#[trigger] rw@[t])@ == smul(sinv(us@[t]@), sinv(us@[t]@)),
            decreases k - j,
        {
            lw.push(scalar_mul(&us[j], &us[j]));
            rw.push(scalar_mul(&uinvs[j], &uinvs[j]));
            j = j + 1;
        }

        let h_blind = get_h_generator();
        let mut w1: Vec<Scalar> = Vec::new();
        w1.push(Scalar::one());
        w1.push(x.copy());
        w1.push(scalar_neg(&p.mu));
        assert(scalar_values(w1@) =~= seq![1nat, x@, sneg(p.mu@)]);
        extend_scalars(&mut w1, &gw);
        extend_scalars(&mut w1, &hw);
        let ghost w1a = scalar_values(w1@);
        let th = p.t_hat.copy();
        w1.push(th);
        assert(scalar_values(w1@) =~= w1a + seq![p.t_hat@]);
        extend_scalars(&mut w1, &lw);
        extend_scalars(&mut w1, &rw);
        let mut p1: Vec<G1Point> = Vec::new();
        p1.push(p.a.copy());
        p1.push(p.s.copy());
        p1.push(h_blind);
        assert(point_values(p1@) =~= seq![p.a@, p.s@, h_generator_spec()]);
        extend_points(&mut p1, &self.g, mn);
        extend_points(&mut p1, &self.h, mn);
        let ghost p1a = point_values(p1@);
        let uc = self.u.copy();
        p1.push(uc);
        assert(point_values(p1@) =~= p1a + seq![self.u@]);
        extend_points(&mut p1, &ipp.l_vec, k);
        extend_points(&mut p1, &ipp.r_vec, k);

        let mut w2: Vec<Scalar> = Vec::new();
        extend_scalars(&mut w2, &ga);
        extend_scalars(&mut w2, &hb);
        w2.push(scalar_mul(&ipp.a, &ipp.b));
        let mut p2: Vec<G1Point> = Vec::new();
        extend_points(&mut p2, &self.g, mn);
        extend_points(&mut p2, &self.h, mn);
        p2.push(self.u.copy());

        proof {
            let yv = y@;
            let zv = z@;
            let xv = x@;
            let nn = n as nat;
            let m2 = mn as nat;
            assert(scalar_values(gw@) =~= Seq::new(m2, |t: int| sneg(zv)));
            assert(scalar_values(hw@) =~= Seq::new(
                m2,
                |t: int| h_weight(yv, sinv(yv), zv, nn, t as nat),
            ));
            assert(scalar_values(lw@) =~= Seq::new(k as nat, |t: int| smul(su[t], su[t])));
            assert(scalar_values(rw@) =~= Seq::new(
                k as nat,
                |t: int| smul(sinv(su[t]), sinv(su[t])),
            ));
            assert(scalar_values(ga@) =~= Seq::new(
                m2,
                |t: int| smul(ipp.a@, fold_coeff(su, su.map_values(|c: nat| sinv(c)), m2, t as nat, k as nat)),
            ));
            assert(scalar_values(hb@) =~= Seq::new(
                m2,
                |t: int|
                    smul(
                        smul(ipp.b@, fold_coeff(su.map_values(|c: nat| sinv(c)), su, m2, t as nat, k as nat)),
                        spow(sinv(yv), t as nat),
                    ),
            ));
            assert(point_values(ipp.l_vec@).subrange(0, k as int) =~= point_values(ipp.l_vec@));
            assert(point_values(ipp.r_vec@).subrange(0, k as int) =~= point_values(ipp.r_vec@));
            assert(scalar_values(w1@) =~= ipp_lhs_weights(*p, yv, zv, xv, su, nn, m2));
            assert(point_values(p1@) =~= ipp_lhs_points(
                *p,
                point_values(self.g@),
                point_values(self.h@),
                self.u@,
                m2,
            ));
            assert(scalar_values(w2@) =~= ipp_rhs_weights(*p, yv, su, m2));
            assert(point_values(p2@) =~= ipp_rhs_points(
                point_values(self.g@),
                point_values(self.h@),
                self.u@,
                m2,
            ));
        }
        let lhs = multi_scalar_mul(w1.as_slice(), p1.as_slice());
        let rhs = multi_scalar_mul(w2.as_slice(), p2.as_slice());
        lhs.eq(&rhs)
    }
}

/// Range-proof verifier holding the vector generators `G[i]`, `H[i]` and `u`.
#[derive(Debug)]
pub struct BulletproofVerifier {
    pub g: Vec<G1Point>,
    pub h: Vec<G1Point>,
    pub u: G1Point,
    pub n: usize,
}

impl BulletproofVerifier {
    /// The generators are the domain-separated ones and there are `n` of each.
    pub open spec fn wf(&self) -> bool {
        &&& self.g@.len() == self.n
        &&& self.h@.len() == self.n
        &&& forall|i: int| 0 <= i < self.n ==> (#[trigger] self.g@[i])@ == g_generator(i as nat)
        &&& forall|i: int| 0 <= i < self.n ==> (#[trigger] self.h@[i])@ == h_vector_generator(
            i as nat,
        )
        &&& self.u@ == u_generator()
        &&& self.n <= 0xffff_0000
    }

    /// Two verifiers built for the same size hold identical generators.
    pub proof fn lemma_generator_determinism(v1: BulletproofVerifier, v2: BulletproofVerifier)
        requires
            v1.wf(),
            v2.wf(),
            v1.n == v2.n,
        ensures
            point_values(v1.g@) == point_values(v2.g@),
            point_values(v1.h@) == point_values(v2.h@),
            v1.u@ == v2.u@,
    {
        assert(point_values(v1.g@) =~= point_values(v2.g@));
        assert(point_values(v1.h@) =~= point_values(v2.h@));
    }

    /// A verifier with `n` generators of each vector.
    pub fn new(n: usize) -> (r: BulletproofVerifier)
        requires
            n <= 0xffff_0000,
        ensures
            r.wf(),
            r.n == n,
    {
        let (g, h, u) = derive_generators(n);
        BulletproofVerifier { g, h, u, n }
    }
}

impl BulletproofVerifier {
    /// Verifies a range proof for `commitments`, each of `bit_length` bits, on a
    /// transcript that may already hold earlier statement data. A proof of the
    /// wrong shape is `InvalidProofStructure` and leaves the transcript untouched;
    /// otherwise the result says whether every verification equation holds.
    pub fn verify_with_transcript(
        &self,
        t: &mut Transcript,
        commitments: &[G1Point],
        proof: &RangeProof,
        bit_length: usize,
    ) -> (r: Result<bool, ZerosolError>)
        requires
            self.wf(),
        ensures
            !range_shape_ok(commitments@.len(), bit_length as nat, *proof, self.n as nat) ==> r
                == Err::<bool, ZerosolError>(ZerosolError::InvalidProofStructure) && final(t)@
                == old(t)@,
            range_shape_ok(commitments@.len(), bit_length as nat, *proof, self.n as nat) ==> r
                == Ok::<bool, ZerosolError>(
                range_proof_accepts(
                    old(t)@,
                    point_values(commitments@),
                    *proof,
                    bit_length as nat,
                    point_values(self.g@),
                    point_values(self.h@),
                    self.u@,
                ),
            ) && final(t)@ == round_log(
                log_rounds(old(t)@, point_values(commitments@), *proof),
                *proof,
                proof.inner_product_proof.l_vec@.len(),
            ),
    {
        let m = commitments.len();
        let n = bit_length;
        let ipp = &proof.inner_product_proof;
        let k = ipp.l_vec.len();
        if m == 0 || n == 0 || k != ipp.r_vec.len() {
            return Err(ZerosolError::InvalidProofStructure);
        }
        let total = self.n;
        if n > total || m > total / n {
            proof {
                if n <= total {
                    vstd::arithmetic::div_mod::lemma_fundamental_div_mod(total as int, n as int);
                    let qq = total as int / n as int;
                    let rr = total as int % n as int;
                    assert(m * n > total) by (nonlinear_arith)
                        requires
                            m > qq,
                            total == n * qq + rr,
                            rr < n,
                            n > 0,
                    ;
                } else {
                    assert(m * n > total) by (nonlinear_arith)
                        requires
                            m >= 1,
                            n > total,
                    ;
                }
            }
            return Err(ZerosolError::InvalidProofStructure);
        }
        proof {
            vstd::arithmetic::div_mod::lemma_fundamental_div_mod(total as int, n as int);
            let qq = total as int / n as int;
            let rr = total as int % n as int;
            assert(m * n <= total) by (nonlinear_arith)
                requires
                    m <= qq,
                    total == n * qq + rr,
                    rr >= 0,
                    n > 0,
            ;
        }
        let mn = m * n;
        assert(m <= mn) by (nonlinear_arith)
            requires
                mn == m * n,
                n >= 1,
        ;
        if !is_two_power(k, mn) {
            return Err(ZerosolError::InvalidProofStructure);
        }
        let ghost log0 = t@;
        let ghost vs = point_values(commitments@);
        let (y, z, x, us) = absorb_range_proof(t, commitments, proof);
        let ghost su = scalar_values(us@);
        let mut to_inv: Vec<Scalar> = Vec::new();
        to_inv.push(y.copy());
        assert(scalar_values(to_inv@) =~= seq![y@]);
        extend_scalars(&mut to_inv, &us);
        assert(scalar_values(to_inv@) == seq![y@] + su);
        assert(scalar_values(to_inv@).len() == k + 1);
        assert(to_inv@.len() == k + 1);
        match SpecializedOps::batch_invert(to_inv.as_slice()) {
            Err(_) => {
                proof {
                    let w = choose|i: int| 0 <= i < to_inv@.len() && (#[trigger] to_inv@[i])@ == 0;
                    assert(scalar_values(to_inv@)[w] == 0);
                    assert((seq![y@] + su)[w] == 0);
                    if w > 0 {
                        assert(su[w - 1] == 0);
                    }
                }
                Ok(false)
            },
            Ok(inv) => {
                let yinv = inv[0].copy();
                proof {
                    assert(scalar_values(to_inv@)[0] == y@);
                    lemma_sinv_unique(y@, yinv@);
                }
                let mut uinvs: Vec<Scalar> = Vec::new();
                let mut j: usize = 0;
                while j < k
                    invariant
                        j <= k,
                        us@.len() == k,
                        inv@.len() == k + 1,
                        scalar_values(to_inv@) == seq![y@] + su,
                        su == scalar_values(us@),
                        to_inv@.len() == k + 1,
                        forall|i: int| 0 <= i < k + 1 ==> (#[trigger] inv@[i])@ < group_order(),
                        forall|i: int|
                            0 <= i < k + 1 ==> crate::scalar::is_inverse(
                                (#[trigger] to_inv@[i])@,
                                inv@[i]@,
                            ),
                        uinvs@.len() == j,
                        forall|i: int| 0 <= i < j ==> (#[trigger] uinvs@[i])@ == sinv(us@[i]@),
                    decreases k - j,
                {
                    let c = inv[j + 1].copy();
                    proof {
                        assert(scalar_values(to_inv@)[j + 1] == su[j as int]);
                        assert(to_inv@[j + 1]@ == us@[j as int]@);
                        lemma_sinv_unique(us@[j as int]@, c@);
                    }
                    uinvs.push(c);
                    j = j + 1;
                }
                proof {
                    assert forall|i: int| 0 <= i < su.len() implies su[i] != 0 by {
                        assert(scalar_values(to_inv@)[i + 1] == su[i]);
                        assert(crate::scalar::is_inverse(to_inv@[i + 1]@, inv@[i + 1]@));
                        if su[i] == 0 {
                            assert(crate::scalar::smul(0, inv@[i + 1]@) == 0);
                        }
                    }
                    if y@ == 0 {
                        assert(crate::scalar::smul(0, inv@[0]@) == 0);
                    }
                }
                if !poly_check(commitments, proof, &y, &z, &x, n) {
                    return Ok(false);
                }
                let ok = self.ipp_check(proof, &y, &yinv, &z, &x, &us, &uinvs, n, mn);
                Ok(ok)
            },
        }
    }

    /// Verifies an aggregated range proof on a fresh transcript.
    pub fn verify_aggregated_range_proof(
        &self,
        aggregated_proof: &AggregatedRangeProof,
        bit_length: usize,
    ) -> (r: Result<bool, ZerosolError>)
        requires
            self.wf(),
        ensures
            !range_shape_ok(
                aggregated_proof.commitments@.len(),
                bit_length as nat,
                aggregated_proof.proof,
                self.n as nat,
            ) ==> r == Err::<bool, ZerosolError>(ZerosolError::InvalidProofStructure),
            range_shape_ok(
                aggregated_proof.commitments@.len(),
                bit_length as nat,
                aggregated_proof.proof,
                self.n as nat,
            ) ==> r == Ok::<bool, ZerosolError>(
                range_proof_accepts(
                    Seq::empty(),
                    point_values(aggregated_proof.commitments@),
                    aggregated_proof.proof,
                    bit_length as nat,
                    point_values(self.g@),
                    point_values(self.h@),
                    self.u@,
                ),
            ),
    {
        let mut t = Transcript::new();
        self.verify_with_transcript(
            &mut t,
            aggregated_proof.commitments.as_slice(),
            &aggregated_proof.proof,
            bit_length,
        )
    }

    /// Verifies a range proof for a single commitment on a fresh transcript.
    pub fn verify_range_proof(
        &self,
        commitment: &G1Point,
        proof: &RangeProof,
        bit_length: usize,
    ) -> (r: Result<bool, ZerosolError>)
        requires
            self.wf(),
        ensures
            !range_shape_ok(1, bit_length as nat, *proof, self.n as nat) ==> r == Err::<
                bool,
                ZerosolError,
            >(ZerosolError::InvalidProofStructure),
            range_shape_ok(1, bit_length as nat, *proof, self.n as nat) ==> r == Ok::<
                bool,
                ZerosolError,
            >(
                range_proof_accepts(
                    Seq::empty(),
                    seq![commitment@],
                    *proof,
                    bit_length as nat,
                    point_values(self.g@),
                    point_values(self.h@),
                    self.u@,
                ),
            ),
    {
        let mut vs: Vec<G1Point> = Vec::new();
        vs.push(commitment.copy());
        assert(point_values(vs@) =~= seq![commitment@]);
        let mut t = Transcript::new();
        self.verify_with_transcript(&mut t, vs.as_slice(), proof, bit_length)
    }
}

/// Verifies several single-commitment range proofs, each on its own transcript.
#[derive(Debug)]
pub struct BatchVerifier {
    pub verifier: BulletproofVerifier,
}

impl BatchVerifier {
    pub fn new(n: usize) -> (r: BatchVerifier)
        requires
            n <= 0xffff_0000,
        ensures
            r.verifier.wf(),
            r.verifier.n == n,
    {
        BatchVerifier { verifier: BulletproofVerifier::new(n) }
    }

    /// `Ok(true)` exactly when every `(commitment, proof, bit_length)` verifies;
    /// `InvalidProofStructure` if some proof has the wrong shape.
    pub fn verify_batch(&self, proofs: &[(G1Point, RangeProof, usize)]) -> (r: Result<bool, ZerosolError>)
        requires
            self.verifier.wf(),
        ensures
            (forall|i: int|
                0 <= i < proofs@.len() ==> range_shape_ok(
                    1,
                    (#[trigger] proofs@[i]).2 as nat,
                    proofs@[i].1,
                    self.verifier.n as nat,
                )) ==> r == Ok::<bool, ZerosolError>(
                forall|i: int|
                    0 <= i < proofs@.len() ==> range_proof_accepts(
                        Seq::empty(),
                        seq![(#[trigger] proofs@[i]).0@],
                        proofs@[i].1,
                        proofs@[i].2 as nat,
                        point_values(self.verifier.g@),
                        point_values(self.verifier.h@),
                        self.verifier.u@,
                    ),
            ),
            r is Err ==> r == Err::<bool, ZerosolError>(ZerosolError::InvalidProofStructure)
                && exists|i: int|
                0 <= i < proofs@.len() && !range_shape_ok(
                    1,
                    (#[trigger] proofs@[i]).2 as nat,
                    proofs@[i].1,
                    self.verifier.n as nat,
                ),
    {
        let mut all = true;
        let mut i: usize = 0;
        while i < proofs.len()
            invariant
                self.verifier.wf(),
                i <= proofs@.len(),
                forall|j: int|
                    0 <= j < i ==> range_shape_ok(
                        1,
                        (#[trigger] proofs@[j]).2 as nat,
                        proofs@[j].1,
                        self.verifier.n as nat,
                    ),
                all == forall|j: int|
                    0 <= j < i ==> range_proof_accepts(
                        Seq::empty(),
                        seq![(#[trigger] proofs@[j]).0@],
                        proofs@[j].1,
                        proofs@[j].2 as nat,
                        point_values(self.verifier.g@),
                        point_values(self.verifier.h@),
                        self.verifier.u@,
                    ),
            decreases proofs@.len() - i,
        {
            let entry = &proofs[i];
            match self.verifier.verify_range_proof(&entry.0, &entry.1, entry.2) {
                Err(e) => {
                    return Err(e);
                },
                Ok(ok) => {
                    all = all && ok;
                },
            }
            i = i + 1;
        }
        Ok(all)
    }
}

} // verus!
