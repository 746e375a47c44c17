use crate::error::ZerosolError;
use crate::point::{
    basepoint_encoding, identity_encoding, lin_comb, multi_scalar_mul, point_add_of,
    point_mul_of, point_values, scalar_values, G1Point,
};
use crate::scalar::{group_order, is_inverse, scalar_inv, scalar_mul, smul, Scalar};
use crate::utils::{get_h_generator, h_generator_spec, map_to_curve, map_to_curve_spec, pedersen_spec, spow};
use vstd::prelude::*;

verus! {

/// Modular multiplication is associative.
pub proof fn lemma_smul_assoc(a: nat, b: nat, c: nat)
    ensures
        smul(smul(a, b), c) == smul(a, smul(b, c)),
{
    let q = group_order() as int;
    vstd::arithmetic::div_mod::lemma_mul_mod_noop_left((a * b) as int, c as int, q);
    vstd::arithmetic::div_mod::lemma_mul_mod_noop_right(a as int, (b * c) as int, q);
    vstd::arithmetic::mul::lemma_mul_is_associative(a as int, b as int, c as int);
}

/// Modular multiplication is commutative.
pub proof fn lemma_smul_comm(a: nat, b: nat)
    ensures
        smul(a, b) == smul(b, a),
{
    vstd::arithmetic::mul::lemma_mul_is_commutative(a as int, b as int);
}

/// `Π_{j<i} s_j` modulo the group order.
pub open spec fn prefix_product(s: Seq<nat>, i: nat) -> nat
    decreases i,
{
    if i == 0 || i > s.len() {
        1
    } else {
        smul(prefix_product(s, (i - 1) as nat), s[i - 1])
    }
}

/// The inverse of `a` modulo the group order, where one exists.
pub open spec fn sinv(a: nat) -> nat {
    choose|r: nat| r < group_order() && is_inverse(a, r)
}

/// A reduced inverse is unique, so it is the one `sinv` names.
pub proof fn lemma_sinv_unique(a: nat, r: nat)
    requires
        r < group_order(),
        is_inverse(a, r),
    ensures
        sinv(a) == r,
{
    let t = sinv(a);
    assert(t < group_order() && is_inverse(a, t));
    // t = t·(a·r) = (t·a)·r = r
    lemma_smul_assoc(t, a, r);
    lemma_smul_comm(t, a);
    vstd::arithmetic::div_mod::lemma_small_mod(t, group_order());
    vstd::arithmetic::div_mod::lemma_small_mod(r, group_order());
    lemma_smul_comm(1, r);
}

#[derive(Debug)]
pub struct SpecializedOps;

impl SpecializedOps {
    /// Inverts every scalar with one field inversion (Montgomery's trick).
    /// Fails with `DivisionByZero` exactly when some input is zero.
    pub fn batch_invert(scalars: &[Scalar]) -> (r: Result<Vec<Scalar>, ZerosolError>)
        ensures
            r.is_err() == (exists|i: int| 0 <= i < scalars@.len() && (#[trigger] scalars@[i])@ == 0),
            r.is_err() ==> r == Err::<Vec<Scalar>, ZerosolError>(ZerosolError::DivisionByZero),
            r.is_ok() ==> r.unwrap()@.len() == scalars@.len(),
            r.is_ok() ==> forall|i: int|
                0 <= i < scalars@.len() ==> (#[trigger] r.unwrap()@[i])@ < group_order(),
            r.is_ok() ==> forall|i: int|
                0 <= i < scalars@.len() ==> is_inverse(
                    (#[trigger] scalars@[i])@,
                    r.unwrap()@[i]@,
                ),
    {
        let ghost s = crate::point::scalar_values(scalars@);
        let n = scalars.len();
        let mut products: Vec<Scalar> = Vec::new();
        let mut acc = Scalar::one();
        let mut i: usize = 0;
        while i < n
            invariant
                n == scalars@.len(),
                s == crate::point::scalar_values(scalars@),
                i <= n,
                products@.len() == i,
                acc@ == prefix_product(s, i as nat),
                forall|j: int| 0 <= j < i ==> (#[trigger] products@[j])@ == prefix_product(s, j as nat),
                forall|j: int| 0 <= j < i ==> (#[trigger] scalars@[j])@ != 0,
            decreases n - i,
        {
            if scalars[i].is_zero() {
                return Err(ZerosolError::DivisionByZero);
            }
            products.push(acc.copy());
            acc = scalar_mul(&acc, &scalars[i]);
            i = i + 1;
        }
        if acc.is_zero() {
            // The group order is prime, so this product of nonzero scalars is
            // never zero; inverting one by one keeps the result total regardless.
            let mut out: Vec<Scalar> = Vec::new();
            let mut k: usize = 0;
            while k < n
                invariant
                    n == scalars@.len(),
                    k <= n,
                    out@.len() == k,
                    forall|j: int| 0 <= j < n ==> (#[trigger] scalars@[j])@ != 0,
                    forall|j: int| 0 <= j < k ==> is_inverse((#[trigger] scalars@[j])@, out@[j]@),
                    forall|j: int| 0 <= j < k ==> (#[trigger] out@[j])@ < group_order(),
                decreases n - k,
            {
                out.push(scalar_inv(&scalars[k]));
                k = k + 1;
            }
            return Ok(out);
        }
        let mut inv_acc = scalar_inv(&acc);
        let mut results: Vec<Scalar> = Vec::new();
        let mut k: usize = 0;
        while k < n
            invariant
                n == scalars@.len(),
                s == crate::point::scalar_values(scalars@),
                k <= n,
                products@.len() == n,
                results@.len() == k,
                forall|j: int| 0 <= j < n ==> (#[trigger] products@[j])@ == prefix_product(s, j as nat),
                is_inverse(prefix_product(s, (n - k) as nat), inv_acc@),
                forall|j: int|
                    0 <= j < k ==> is_inverse(
                        (#[trigger] scalars@[n - 1 - j])@,
                        results@[j]@,
                    ),
                forall|j: int| 0 <= j < k ==> (#[trigger] results@[j])@ < group_order(),
            decreases n - k,
        {
            let idx = n - 1 - k;
            let res = scalar_mul(&products[idx], &inv_acc);
            proof {
                let p = prefix_product(s, idx as nat);
                let si = scalars@[idx as int]@;
                assert(prefix_product(s, (idx + 1) as nat) == smul(p, si));
                // si * (p * inv) == (p * si) * inv == 1
                lemma_smul_assoc(si, p, inv_acc@);
                lemma_smul_comm(si, p);
                lemma_smul_assoc(p, si, inv_acc@);
                lemma_smul_comm(si, smul(p, inv_acc@));
                assert(is_inverse(si, res@));
                // p * (inv * si) == (p * si) * inv == 1
                lemma_smul_assoc(p, inv_acc@, si);
                lemma_smul_comm(inv_acc@, si);
            }
            inv_acc = scalar_mul(&inv_acc, &scalars[idx]);
            results.push(res);
            k = k + 1;
        }
        // results hold the inverses in reverse order
        let mut out: Vec<Scalar> = Vec::new();
        let mut m: usize = 0;
        while m < n
            invariant
                n == scalars@.len(),
                m <= n,
                results@.len() == n,
                out@.len() == m,
                forall|j: int|
                    0 <= j < n ==> is_inverse((#[trigger] scalars@[n - 1 - j])@, results@[j]@),
                forall|j: int| 0 <= j < m ==> is_inverse((#[trigger] scalars@[j])@, out@[j]@),
                forall|j: int| 0 <= j < n ==> (#[trigger] results@[j])@ < group_order(),
                forall|j: int| 0 <= j < m ==> (#[trigger] out@[j])@ < group_order(),
            decreases n - m,
        {
            let x = results[n - 1 - m].copy();
            proof {
                let j = (n - 1 - m) as int;
                assert(is_inverse(scalars@[n - 1 - j]@, results@[j]@));
            }
            out.push(x);
            m = m + 1;
        }
        Ok(out)
    }
}

impl SpecializedOps {
    /// No commitment is the identity point.
    pub fn verify_range_constraints(commitments: &[G1Point], range_bits: usize) -> (r: bool)
        ensures
            r == (forall|i: int| 0 <= i < commitments@.len() ==> (#[trigger] commitments@[i])@ != identity_encoding()),
    {
        let o = G1Point::identity();
        let mut i: usize = 0;
        while i < commitments.len()
            invariant
                i <= commitments@.len(),
                o@ == identity_encoding(),
                forall|j: int| 0 <= j < i ==> (#[trigger] commitments@[j])@ != identity_encoding(),
            decreases commitments@.len() - i,
        {
            if commitments[i].eq(&o) {
                return false;
            }
            i = i + 1;
        }
        true
    }

    /// Hash to the curve (see `map_to_curve`).
    pub fn hash_to_curve_optimized(data: &[u8]) -> (r: G1Point)
        ensures
            r@ == map_to_curve_spec(data@),
    {
        map_to_curve(data)
    }

    /// Whether each commitment opens to its value and blinding;
    /// `InvalidProofStructure` if the lists differ in length.
    pub fn batch_verify_commitments(
        commitments: &[G1Point],
        values: &[Scalar],
        blindings: &[Scalar],
        ops_manager: &CurveOpsManager,
    ) -> (r: Result<bool, ZerosolError>)
        requires
            ops_manager.wf(),
        ensures
            (commitments@.len() != values@.len() || values@.len() != blindings@.len()) ==> r
                == Err::<bool, ZerosolError>(ZerosolError::InvalidProofStructure),
            (commitments@.len() == values@.len() && values@.len() == blindings@.len()) ==> r
                == Ok::<bool, ZerosolError>(
                forall|i: int|
                    0 <= i < commitments@.len() ==> (#[trigger] commitments@[i])@ == pedersen_spec(
                        values@[i]@,
                        blindings@[i]@,
                    ),
            ),
    {
        if commitments.len() != values.len() || values.len() != blindings.len() {
            return Err(ZerosolError::InvalidProofStructure);
        }
        let mut i: usize = 0;
        while i < commitments.len()
            invariant
                ops_manager.wf(),
                i <= commitments@.len(),
                commitments@.len() == values@.len(),
                values@.len() == blindings@.len(),
                forall|j: int|
                    0 <= j < i ==> (#[trigger] commitments@[j])@ == pedersen_spec(
                        values@[j]@,
                        blindings@[j]@,
                    ),
            decreases commitments@.len() - i,
        {
            let expected = ops_manager.pedersen_commit(&values[i], &blindings[i]);
            if !commitments[i].eq(&expected) {
                return Ok(false);
            }
            i = i + 1;
        }
        Ok(true)
    }
}

/// The precomputed generators `G` and `H`, built once and shared by reference.
#[derive(Debug)]
pub struct CurveOpsManager {
    pub generator: G1Point,
    pub h_generator: G1Point,
}

impl CurveOpsManager {
    pub open spec fn wf(&self) -> bool {
        &&& self.generator@ == basepoint_encoding()
        &&& self.h_generator@ == h_generator_spec()
    }

    pub fn new() -> (r: CurveOpsManager)
        ensures
            r.wf(),
    {
        CurveOpsManager { generator: G1Point::generator(), h_generator: get_h_generator() }
    }

    /// `scalar · point`, through the base-point table when `point` is `G`.
    pub fn fast_scalar_mul(&self, point: &G1Point, scalar: &Scalar) -> (r: G1Point)
        requires
            self.wf(),
        ensures
            r@ == point_mul_of(point@, scalar@),
    {
        if point.eq(&self.generator) {
            G1Point::mul_base(scalar)
        } else {
            point.mul(scalar)
        }
    }

    /// `value · G + blinding · H`.
    pub fn pedersen_commit(&self, value: &Scalar, blinding: &Scalar) -> (r: G1Point)
        requires
            self.wf(),
        ensures
            r@ == pedersen_spec(value@, blinding@),
    {
        G1Point::mul_base(value).add(&self.h_generator.mul(blinding))
    }

    /// `Σ coefficients[i] · points[i]`; `InvalidProofStructure` if the lengths differ.
    pub fn linear_combination(&self, coefficients: &[Scalar], points: &[G1Point]) -> (r: Result<
        G1Point,
        ZerosolError,
    >)
        ensures
            coefficients@.len() != points@.len() ==> r == Err::<G1Point, ZerosolError>(
                ZerosolError::InvalidProofStructure,
            ),
            coefficients@.len() == points@.len() ==> (r matches Ok(p) && p@ == lin_comb(
                scalar_values(coefficients@),
                point_values(points@),
            )),
    {
        if coefficients.len() != points.len() {
            return Err(ZerosolError::InvalidProofStructure);
        }
        Ok(multi_scalar_mul(coefficients, points))
    }

    /// Decodes a batch of encodings; `InvalidEncoding` if any is not canonical.
    pub fn batch_validate_points(&self, points: &Vec<[u8; 32]>) -> (r: Result<Vec<G1Point>, ZerosolError>)
        ensures
            r.is_ok() == crate::sigma::all_decode(points@),
            r matches Ok(ps) ==> crate::sigma::decodes_to(points@, ps@),
            r.is_err() ==> r == Err::<Vec<G1Point>, ZerosolError>(ZerosolError::InvalidEncoding),
    {
        crate::sigma::decode_points(points)
    }
}

/// `i · G` built by repeated addition from the identity.
pub open spec fn generator_multiple_spec(i: nat) -> Seq<u8>
    decreases i,
{
    if i == 0 {
        identity_encoding()
    } else {
        point_add_of(generator_multiple_spec((i - 1) as nat), basepoint_encoding())
    }
}

/// Precomputed constants: `2^0..2^32`, the scalars `0..16` and `0·G..255·G`.
#[derive(Debug)]
pub struct PrecomputedConstants {
    pub powers_of_two: Vec<Scalar>,
    pub small_scalars: Vec<Scalar>,
    pub generator_multiples: Vec<G1Point>,
}

impl PrecomputedConstants {
    pub open spec fn wf(&self) -> bool {
        &&& self.powers_of_two@.len() == 33
        &&& forall|i: int| 0 <= i < 33 ==> (#[trigger] self.powers_of_two@[i])@ == spow(2, i as nat)
        &&& self.small_scalars@.len() == 16
        &&& forall|i: int| 0 <= i < 16 ==> (#[trigger] self.small_scalars@[i])@ == i
        &&& self.generator_multiples@.len() == 256
        &&& forall|i: int| 0 <= i < 256 ==> (#[trigger] self.generator_multiples@[i])@ == generator_multiple_spec(i as nat)
    }

    pub fn new() -> (r: PrecomputedConstants)
        ensures
            r.wf(),
    {
        let two = Scalar::from_u64(2);
        let powers_of_two = crate::utils::scalar_powers(&two, 33);
        let mut small_scalars: Vec<Scalar> = Vec::new();
        let mut i: u64 = 0;
        while i < 16
            invariant
                i <= 16,
                small_scalars@.len() == i,
                forall|j: int| 0 <= j < i ==> (#[trigger] small_scalars@[j])@ == j,
            decreases 16 - i,
        {
            small_scalars.push(Scalar::from_u64(i));
            i = i + 1;
        }
        let g = G1Point::generator();
        let mut generator_multiples: Vec<G1Point> = Vec::new();
        let mut current = G1Point::identity();
        let mut k: usize = 0;
        while k < 256
            invariant
                k <= 256,
                g@ == basepoint_encoding(),
                current@ == generator_multiple_spec(k as nat),
                generator_multiples@.len() == k,
                forall|j: int| 0 <= j < k ==> (#[trigger] generator_multiples@[j])@ == generator_multiple_spec(j as nat),
            decreases 256 - k,
        {
            let next = current.add(&g);
            generator_multiples.push(current);
            current = next;
            k = k + 1;
        }
        PrecomputedConstants { powers_of_two, small_scalars, generator_multiples }
    }

    /// `2^exponent` for `exponent ≤ 32`.
    pub fn power_of_two(&self, exponent: usize) -> (r: Option<Scalar>)
        requires
            self.wf(),
        ensures
            exponent <= 32 ==> (r matches Some(s) && s@ == spow(2, exponent as nat)),
            exponent > 32 ==> r is None,
    {
        if exponent <= 32 {
            Some(self.powers_of_two[exponent].copy())
        } else {
            None
        }
    }

    /// The scalar `value` for `value < 16`.
    pub fn small_scalar(&self, value: usize) -> (r: Option<Scalar>)
        requires
            self.wf(),
        ensures
            value < 16 ==> (r matches Some(s) && s@ == value),
            value >= 16 ==> r is None,
    {
        if value < 16 {
            Some(self.small_scalars[value].copy())
        } else {
            None
        }
    }

    /// `multiple · G` for `multiple < 256`.
    pub fn generator_multiple(&self, multiple: usize) -> (r: Option<G1Point>)
        requires
            self.wf(),
        ensures
            multiple < 256 ==> (r matches Some(p) && p@ == generator_multiple_spec(multiple as nat)),
            multiple >= 256 ==> r is None,
    {
        if multiple < 256 {
            Some(self.generator_multiples[multiple].copy())
        } else {
            None
        }
    }
}

} // verus!
