use crate::point::{
    basepoint_encoding, point_add_of, point_mul_of, scalar_values, G1Point,
};
use crate::scalar::{
    group_order, le_value, sadd, scalar_add, scalar_from_bytes, scalar_mul, scalar_neg,
    scalar_sub, smul, sneg, ssub, Scalar,
};
use sha2::Digest;
use vstd::prelude::*;

verus! {

/// The SHA-256 digest of a byte string.
pub uninterp spec fn sha256_of(data: Seq<u8>) -> Seq<u8>;

pub const MAX_TRANSFER_AMOUNT: u64 = 4294967295;

/// Relies on sha2's `Sha256::digest`: the 32-byte SHA-256 digest of `data`.
#[verifier::external_body]
pub(crate) fn sha256(data: &[u8]) -> (r: [u8; 32])
    ensures
        r@ == sha256_of(data@),
{
    sha2::Sha256::digest(data).into()
}

/// Appends `src` to the end of `dst`.
pub fn append_bytes(dst: &mut Vec<u8>, src: &[u8])
    ensures
        final(dst)@ == old(dst)@ + src@,
{
    let mut i: usize = 0;
    while i < src.len()
        invariant
            i <= src@.len(),
            dst@ == old(dst)@ + src@.subrange(0, i as int),
        decreases src@.len() - i,
    {
        dst.push(src[i]);
        i = i + 1;
        assert(src@.subrange(0, i as int) =~= src@.subrange(0, i - 1) + seq![src@[i - 1]]);
    }
    assert(src@.subrange(0, src@.len() as int) =~= src@);
}

pub open spec fn hash_to_scalar_spec(data: Seq<u8>) -> nat {
    le_value(sha256_of(data)) % group_order()
}

/// SHA-256 of `data`, reduced modulo the group order.
pub fn hash_to_scalar(data: &[u8]) -> (r: Scalar)
    ensures
        r@ == hash_to_scalar_spec(data@),
{
    let h = sha256(data);
    scalar_from_bytes(&h)
}

pub open spec fn map_to_curve_spec(seed: Seq<u8>) -> Seq<u8> {
    point_mul_of(basepoint_encoding(), hash_to_scalar_spec(seed))
}

/// Hash to the curve: `hash_to_scalar(seed) · G`.
pub fn map_to_curve(seed: &[u8]) -> (r: G1Point)
    ensures
        r@ == map_to_curve_spec(seed@),
{
    let s = hash_to_scalar(seed);
    G1Point::generator().mul(&s)
}

/// Hash to the curve of `input` followed by the 8-byte little-endian `index`.
pub fn map_to_curve_with_index(input: &[u8], index: u64) -> (r: G1Point)
    ensures
        r@ == map_to_curve_spec(input@ + vstd::bytes::spec_u64_to_le_bytes(index)),
{
    let mut data: Vec<u8> = Vec::new();
    append_bytes(&mut data, input);
    let idx = vstd::bytes::u64_to_le_bytes(index);
    append_bytes(&mut data, idx.as_slice());
    map_to_curve(data.as_slice())
}

/// Domain-separation label of the Pedersen blinding generator `H`.
pub open spec fn h_label() -> Seq<u8> {
    seq![112u8, 101, 100, 101, 114, 115, 101, 110, 47, 104]
}

pub open spec fn h_generator_spec() -> Seq<u8> {
    map_to_curve_spec(h_label())
}

/// The Pedersen blinding generator `H`, hashed to the curve from the label `pedersen/h`.
pub fn get_h_generator() -> (r: G1Point)
    ensures
        r@ == h_generator_spec(),
{
    let label: [u8; 10] = [112u8, 101, 100, 101, 114, 115, 101, 110, 47, 104];
    assert(label@ =~= h_label());
    map_to_curve(&label)
}

pub open spec fn pedersen_spec(value: nat, blinding: nat) -> Seq<u8> {
    point_add_of(
        point_mul_of(basepoint_encoding(), value),
        point_mul_of(h_generator_spec(), blinding),
    )
}

/// Pedersen commitment `value · G + blinding · H`.
pub fn pedersen_commit(value: &Scalar, blinding: &Scalar) -> (r: G1Point)
    ensures
        r@ == pedersen_spec(value@, blinding@),
{
    let g = G1Point::generator();
    let h = get_h_generator();
    g.mul(value).add(&h.mul(blinding))
}

/// The challenge a Schnorr proof `(c, s)` for `pk` on `message` must reproduce:
/// `K = s·G + (−c)·pk`, then the scalar hash of `SHA-256(message ‖ pk ‖ K)`.
pub open spec fn schnorr_challenge(pk: Seq<u8>, message: Seq<u8>, c: nat, s: nat) -> nat {
    let k = point_add_of(point_mul_of(basepoint_encoding(), s), point_mul_of(pk, sneg(c)));
    hash_to_scalar_spec(sha256_of(message + pk + k))
}

/// Verifies a Schnorr proof of knowledge of the secret key of `public_key`.
pub fn verify_schnorr_signature(
    public_key: &G1Point,
    message: &[u8],
    challenge: &Scalar,
    response: &Scalar,
) -> (r: bool)
    ensures
        r == (schnorr_challenge(public_key@, message@, challenge@, response@) == challenge@),
{
    let g = G1Point::generator();
    let k = g.mul(response).add(&public_key.mul(&scalar_neg(challenge)));
    let mut data: Vec<u8> = Vec::new();
    append_bytes(&mut data, message);
    let pkb = public_key.to_bytes();
    append_bytes(&mut data, &pkb);
    let kb = k.to_bytes();
    append_bytes(&mut data, &kb);
    let h = sha256(data.as_slice());
    let computed = hash_to_scalar(&h);
    computed.equals(challenge)
}

/// `Σ a_i · b_i` modulo the group order.
pub open spec fn inner_product_spec(a: Seq<nat>, b: Seq<nat>) -> nat
    decreases a.len(),
{
    if a.len() == 0 || b.len() == 0 {
        0
    } else {
        let n = (a.len() - 1) as int;
        sadd(inner_product_spec(a.subrange(0, n), b.subrange(0, n)), smul(a[n], b[n]))
    }
}

/// Inner product of two scalar vectors of equal length.
pub fn inner_product(a: &[Scalar], b: &[Scalar]) -> (r: Scalar)
    requires
        a@.len() == b@.len(),
    ensures
        r@ == inner_product_spec(scalar_values(a@), scalar_values(b@)),
{
    let mut acc = Scalar::zero();
    let mut i: usize = 0;
    while i < a.len()
        invariant
            i <= a@.len(),
            a@.len() == b@.len(),
            acc@ == inner_product_spec(
                scalar_values(a@.subrange(0, i as int)),
                scalar_values(b@.subrange(0, i as int)),
            ),
        decreases a@.len() - i,
    {
        let t = scalar_mul(&a[i], &b[i]);
        acc = scalar_add(&acc, &t);
        i = i + 1;
        proof {
            let sa = scalar_values(a@.subrange(0, i as int));
            let sb = scalar_values(b@.subrange(0, i as int));
            assert(sa.subrange(0, i - 1) =~= scalar_values(a@.subrange(0, i - 1)));
            assert(sb.subrange(0, i - 1) =~= scalar_values(b@.subrange(0, i - 1)));
        }
    }
    assert(a@.subrange(0, a@.len() as int) =~= a@);
    assert(b@.subrange(0, b@.len() as int) =~= b@);
    acc
}

/// `x^i` modulo the group order.
pub open spec fn spow(x: nat, i: nat) -> nat
    decreases i,
{
    if i == 0 {
        1
    } else {
        smul(spow(x, (i - 1) as nat), x)
    }
}

/// The powers `[1, x, x², …, x^(n−1)]`.
pub fn scalar_powers(x: &Scalar, n: usize) -> (r: Vec<Scalar>)
    ensures
        r@.len() == n,
        forall|i: int| 0 <= i < n ==> (#[trigger] r@[i])@ == spow(x@, i as nat),
{
    let mut powers: Vec<Scalar> = Vec::new();
    let mut current = Scalar::one();
    let mut i: usize = 0;
    while i < n
        invariant
            i <= n,
            powers@.len() == i,
            current@ == spow(x@, i as nat),
            forall|j: int| 0 <= j < i ==> (#[trigger] powers@[j])@ == spow(x@, j as nat),
        decreases n - i,
    {
        let next = scalar_mul(&current, x);
        powers.push(current);
        current = next;
        i = i + 1;
    }
    powers
}

/// Element-wise product.
pub fn hadamard_product(a: &[Scalar], b: &[Scalar]) -> (r: Vec<Scalar>)
    requires
        a@.len() == b@.len(),
    ensures
        r@.len() == a@.len(),
        forall|i: int| 0 <= i < a@.len() ==> (#[trigger] r@[i])@ == smul(a@[i]@, b@[i]@),
{
    let mut out: Vec<Scalar> = Vec::new();
    let mut i: usize = 0;
    while i < a.len()
        invariant
            i <= a@.len(),
            a@.len() == b@.len(),
            out@.len() == i,
            forall|j: int| 0 <= j < i ==> (#[trigger] out@[j])@ == smul(a@[j]@, b@[j]@),
        decreases a@.len() - i,
    {
        out.push(scalar_mul(&a[i], &b[i]));
        i = i + 1;
    }
    out
}

/// Element-wise sum.
pub fn vector_add(a: &[Scalar], b: &[Scalar]) -> (r: Vec<Scalar>)
    requires
        a@.len() == b@.len(),
    ensures
        r@.len() == a@.len(),
        forall|i: int| 0 <= i < a@.len() ==> (#[trigger] r@[i])@ == sadd(a@[i]@, b@[i]@),
{
    let mut out: Vec<Scalar> = Vec::new();
    let mut i: usize = 0;
    while i < a.len()
        invariant
            i <= a@.len(),
            a@.len() == b@.len(),
            out@.len() == i,
            forall|j: int| 0 <= j < i ==> (#[trigger] out@[j])@ == sadd(a@[j]@, b@[j]@),
        decreases a@.len() - i,
    {
        out.push(scalar_add(&a[i], &b[i]));
        i = i + 1;
    }
    out
}

/// Element-wise difference.
pub fn vector_sub(a: &[Scalar], b: &[Scalar]) -> (r: Vec<Scalar>)
    requires
        a@.len() == b@.len(),
    ensures
        r@.len() == a@.len(),
        forall|i: int| 0 <= i < a@.len() ==> (#[trigger] r@[i])@ == ssub(a@[i]@, b@[i]@),
{
    let mut out: Vec<Scalar> = Vec::new();
    let mut i: usize = 0;
    while i < a.len()
        invariant
            i <= a@.len(),
            a@.len() == b@.len(),
            out@.len() == i,
            forall|j: int| 0 <= j < i ==> (#[trigger] out@[j])@ == ssub(a@[j]@, b@[j]@),
        decreases a@.len() - i,
    {
        out.push(scalar_sub(&a[i], &b[i]));
        i = i + 1;
    }
    out
}

/// Every element multiplied by `s`.
pub fn vector_scalar_mul(v: &[Scalar], s: &Scalar) -> (r: Vec<Scalar>)
    ensures
        r@.len() == v@.len(),
        forall|i: int| 0 <= i < v@.len() ==> (#[trigger] r@[i])@ == smul(v@[i]@, s@),
{
    let mut out: Vec<Scalar> = Vec::new();
    let mut i: usize = 0;
    while i < v.len()
        invariant
            i <= v@.len(),
            out@.len() == i,
            forall|j: int| 0 <= j < i ==> (#[trigger] out@[j])@ == smul(v@[j]@, s@),
        decreases v@.len() - i,
    {
        out.push(scalar_mul(&v[i], s));
        i = i + 1;
    }
    out
}

/// `[s_0 · P_0, s_1 · P_1, …]`.
pub fn batch_scalar_mul(scalars: &[Scalar], points: &[G1Point]) -> (r: Vec<G1Point>)
    requires
        scalars@.len() == points@.len(),
    ensures
        r@.len() == points@.len(),
        forall|i: int|
            0 <= i < points@.len() ==> (#[trigger] r@[i])@ == point_mul_of(points@[i]@, scalars@[i]@),
{
    let mut out: Vec<G1Point> = Vec::new();
    let mut i: usize = 0;
    while i < points.len()
        invariant
            i <= points@.len(),
            scalars@.len() == points@.len(),
            out@.len() == i,
            forall|j: int|
                0 <= j < i ==> (#[trigger] out@[j])@ == point_mul_of(points@[j]@, scalars@[j]@),
        decreases points@.len() - i,
    {
        out.push(points[i].mul(&scalars[i]));
        i = i + 1;
    }
    out
}

/// Builds the shared accelerator that every handler takes by reference.
pub fn init_optimized_curve_ops() -> (r: crate::curve_ops::CurveOpsManager)
    ensures
        r.wf(),
{
    crate::curve_ops::CurveOpsManager::new()
}

} // verus!
