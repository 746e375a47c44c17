use crate::scalar::{le_value, Scalar};
use curve25519_dalek::traits::{Identity, VartimeMultiscalarMul};
use vstd::prelude::*;

verus! {

/// Whether a 32-byte string is the canonical encoding of a Ristretto point.
pub uninterp spec fn ristretto_decodes(b: Seq<u8>) -> bool;

/// Encoding of the sum of two encoded points.
pub uninterp spec fn point_add_of(a: Seq<u8>, b: Seq<u8>) -> Seq<u8>;

/// Encoding of the negation of an encoded point.
pub uninterp spec fn point_neg_of(a: Seq<u8>) -> Seq<u8>;

/// Encoding of `s · P` for an encoded point `P` and a scalar value `s`.
pub uninterp spec fn point_mul_of(p: Seq<u8>, s: nat) -> Seq<u8>;

/// The encoding of the identity element `O`: 32 zero bytes.
pub open spec fn identity_encoding() -> Seq<u8> {
    Seq::new(32, |i: int| 0u8)
}

/// The encoding of the Ristretto base point `G`.
pub open spec fn basepoint_encoding() -> Seq<u8> {
    seq![
        0xe2u8, 0xf2, 0xae, 0x0a, 0x6a, 0xbc, 0x4e, 0x71, 0xa8, 0x84, 0xa9, 0x61, 0xc5, 0x00,
        0x51, 0x5f, 0x58, 0xe3, 0x0b, 0x6a, 0xa5, 0x82, 0xdd, 0x8d, 0xb6, 0xa6, 0x59, 0x45,
        0xe0, 0x8d, 0x2d, 0x76,
    ]
}

/// `Σ s_i · P_i`, summed from the identity in index order.
pub open spec fn lin_comb(scalars: Seq<nat>, points: Seq<Seq<u8>>) -> Seq<u8>
    decreases scalars.len(),
{
    if scalars.len() == 0 || points.len() == 0 {
        identity_encoding()
    } else {
        let n = (scalars.len() - 1) as int;
        point_add_of(
            lin_comb(scalars.subrange(0, n), points.subrange(0, n)),
            point_mul_of(points[n], scalars[n]),
        )
    }
}

/// Relies on curve25519_dalek's `CompressedRistretto::decompress` and `compress`:
/// only canonical encodings decode, and they compress back to themselves.
#[verifier::external_body]
fn decode_raw(b: &[u8; 32]) -> (r: Option<[u8; 32]>)
    ensures
        r.is_some() == ristretto_decodes(b@),
        r.is_some() ==> r.unwrap()@ == b@,
{
    let c = curve25519_dalek::ristretto::CompressedRistretto(*b);
    c.decompress().map(|p| p.compress().to_bytes())
}

/// Relies on curve25519_dalek's `CompressedRistretto::decompress` (which succeeds on the
/// canonical encodings required here), `RistrettoPoint` addition and `compress`: the
/// encoding of the sum, named `point_add_of`.
#[verifier::external_body]
fn add_raw(a: &[u8; 32], b: &[u8; 32]) -> (r: [u8; 32])
    requires
        ristretto_decodes(a@),
        ristretto_decodes(b@),
    ensures
        r@ == point_add_of(a@, b@),
        ristretto_decodes(r@),
{
    let x = curve25519_dalek::ristretto::CompressedRistretto(*a).decompress().unwrap();
    let y = curve25519_dalek::ristretto::CompressedRistretto(*b).decompress().unwrap();
    (x + y).compress().to_bytes()
}

/// Relies on curve25519_dalek's `decompress`, `RistrettoPoint` negation and `compress`:
/// the encoding of the inverse element, named `point_neg_of`.
#[verifier::external_body]
fn neg_raw(a: &[u8; 32]) -> (r: [u8; 32])
    requires
        ristretto_decodes(a@),
    ensures
        r@ == point_neg_of(a@),
        ristretto_decodes(r@),
{
    let x = curve25519_dalek::ristretto::CompressedRistretto(*a).decompress().unwrap();
    (-x).compress().to_bytes()
}

/// Relies on curve25519_dalek's `decompress`, `Scalar::from_bytes_mod_order` and
/// `RistrettoPoint * Scalar`: the encoding of `s · P`, named `point_mul_of`.
#[verifier::external_body]
fn mul_raw(a: &[u8; 32], s: &[u8; 32]) -> (r: [u8; 32])
    requires
        ristretto_decodes(a@),
    ensures
        r@ == point_mul_of(a@, le_value(s@) % crate::scalar::group_order()),
        ristretto_decodes(r@),
{
    let x = curve25519_dalek::ristretto::CompressedRistretto(*a).decompress().unwrap();
    let k = curve25519_dalek::scalar::Scalar::from_bytes_mod_order(*s);
    (x * k).compress().to_bytes()
}

/// Relies on curve25519_dalek's `RISTRETTO_BASEPOINT_TABLE`: `s · G` from the
/// precomputed base-point table.
#[verifier::external_body]
fn mul_base_raw(s: &[u8; 32]) -> (r: [u8; 32])
    ensures
        r@ == point_mul_of(basepoint_encoding(), le_value(s@) % crate::scalar::group_order()),
        ristretto_decodes(r@),
{
    let k = curve25519_dalek::scalar::Scalar::from_bytes_mod_order(*s);
    (curve25519_dalek::constants::RISTRETTO_BASEPOINT_TABLE * &k).compress().to_bytes()
}

/// Relies on curve25519_dalek's `RISTRETTO_BASEPOINT_COMPRESSED` constant.
#[verifier::external_body]
fn basepoint_raw() -> (r: [u8; 32])
    ensures
        r@ == basepoint_encoding(),
        ristretto_decodes(r@),
{
    curve25519_dalek::constants::RISTRETTO_BASEPOINT_COMPRESSED.to_bytes()
}

/// Relies on curve25519_dalek's `Identity` for `RistrettoPoint`, which
/// compresses to 32 zero bytes.
#[verifier::external_body]
fn identity_raw() -> (r: [u8; 32])
    ensures
        r@ == identity_encoding(),
        ristretto_decodes(r@),
{
    curve25519_dalek::ristretto::RistrettoPoint::identity().compress().to_bytes()
}

/// A Ristretto group element, held as its canonical compressed encoding.
#[derive(Debug)]
pub struct G1Point {
    bytes: [u8; 32],
}

impl View for G1Point {
    type V = Seq<u8>;

    closed spec fn view(&self) -> Seq<u8> {
        self.bytes@
    }
}

impl G1Point {
    #[verifier::type_invariant]
    spec fn decodes(&self) -> bool {
        ristretto_decodes(self.bytes@)
    }

    pub fn generator() -> (r: G1Point)
        ensures
            r@ == basepoint_encoding(),
    {
        G1Point { bytes: basepoint_raw() }
    }

    pub fn identity() -> (r: G1Point)
        ensures
            r@ == identity_encoding(),
    {
        G1Point { bytes: identity_raw() }
    }

    pub fn add(&self, other: &G1Point) -> (r: G1Point)
        ensures
            r@ == point_add_of(self@, other@),
    {
        proof {
            use_type_invariant(self);
            use_type_invariant(other);
        }
        G1Point { bytes: add_raw(&self.bytes, &other.bytes) }
    }

    pub fn mul(&self, scalar: &Scalar) -> (r: G1Point)
        ensures
            r@ == point_mul_of(self@, scalar@),
    {
        proof {
            use_type_invariant(self);
        }
        let s = scalar.to_bytes();
        proof {
            vstd::arithmetic::div_mod::lemma_small_mod(scalar@, crate::scalar::group_order());
        }
        G1Point { bytes: mul_raw(&self.bytes, &s) }
    }

    /// `scalar · G` through the precomputed base-point table.
    pub fn mul_base(scalar: &Scalar) -> (r: G1Point)
        ensures
            r@ == point_mul_of(basepoint_encoding(), scalar@),
    {
        let s = scalar.to_bytes();
        proof {
            vstd::arithmetic::div_mod::lemma_small_mod(scalar@, crate::scalar::group_order());
        }
        G1Point { bytes: mul_base_raw(&s) }
    }

    pub fn neg(&self) -> (r: G1Point)
        ensures
            r@ == point_neg_of(self@),
    {
        proof {
            use_type_invariant(self);
        }
        G1Point { bytes: neg_raw(&self.bytes) }
    }

    pub fn eq(&self, other: &G1Point) -> (r: bool)
        ensures
            r == (self@ == other@),
    {
        let mut i: usize = 0;
        while i < 32
            invariant
                i <= 32,
                forall|j: int| 0 <= j < i ==> self.bytes@[j] == other.bytes@[j],
            decreases 32 - i,
        {
            if self.bytes[i] != other.bytes[i] {
                assert(self.bytes@[i as int] != other.bytes@[i as int]);
                return false;
            }
            i = i + 1;
        }
        assert(self.bytes@ =~= other.bytes@);
        true
    }

    pub fn to_bytes(&self) -> (r: [u8; 32])
        ensures
            r@ == self@,
            ristretto_decodes(r@),
    {
        proof {
            use_type_invariant(self);
        }
        self.bytes
    }

    /// Decodes a canonical encoding; `None` for any other 32 bytes.
    pub fn from_bytes(bytes: &[u8; 32]) -> (r: Option<G1Point>)
        ensures
            r.is_some() == ristretto_decodes(bytes@),
            r.is_some() ==> r.unwrap()@ == bytes@,
    {
        match decode_raw(bytes) {
            Some(b) => Some(G1Point { bytes: b }),
            None => None,
        }
    }

    pub fn copy(&self) -> (r: G1Point)
        ensures
            r@ == self@,
    {
        proof {
            use_type_invariant(self);
        }
        G1Point { bytes: self.bytes }
    }
}

/// Relies on curve25519_dalek's `VartimeMultiscalarMul::vartime_multiscalar_mul`
/// for `RistrettoPoint`: `Σ s_i · P_i`. The group is commutative, so this is the
/// element that `lin_comb` sums from the identity in index order, and encodings
/// are canonical.
#[verifier::external_body]
fn msm_raw(scalars: &Vec<[u8; 32]>, points: &Vec<[u8; 32]>) -> (r: [u8; 32])
    requires
        scalars@.len() == points@.len(),
        forall|i: int| 0 <= i < points@.len() ==> ristretto_decodes(#[trigger] points@[i]@),
    ensures
        r@ == lin_comb(
            scalars@.map_values(|s: [u8; 32]| le_value(s@) % crate::scalar::group_order()),
            points@.map_values(|p: [u8; 32]| p@),
        ),
        ristretto_decodes(r@),
{
    let ks = scalars.iter().map(|s| curve25519_dalek::scalar::Scalar::from_bytes_mod_order(*s));
    let ps = points.iter().map(|p| curve25519_dalek::ristretto::CompressedRistretto(*p).decompress().unwrap());
    curve25519_dalek::ristretto::RistrettoPoint::vartime_multiscalar_mul(ks, ps).compress().to_bytes()
}

pub open spec fn scalar_values(s: Seq<Scalar>) -> Seq<nat> {
    s.map_values(|x: Scalar| x@)
}

pub open spec fn point_values(p: Seq<G1Point>) -> Seq<Seq<u8>> {
    p.map_values(|x: G1Point| x@)
}

/// Multi-scalar multiplication `Σ scalars[i] · points[i]`.
pub fn multi_scalar_mul(scalars: &[Scalar], points: &[G1Point]) -> (r: G1Point)
    requires
        scalars@.len() == points@.len(),
    ensures
        r@ == lin_comb(scalar_values(scalars@), point_values(points@)),
{
    let mut ks: Vec<[u8; 32]> = Vec::new();
    let mut ps: Vec<[u8; 32]> = Vec::new();
    let mut i: usize = 0;
    while i < scalars.len()
        invariant
            i <= scalars@.len(),
            scalars@.len() == points@.len(),
            ks@.len() == i,
            ps@.len() == i,
            forall|j: int| 0 <= j < i ==> le_value(#[trigger] ks@[j]@) == scalars@[j]@,
            forall|j: int| 0 <= j < i ==> scalars@[j]@ < crate::scalar::group_order(),
            forall|j: int| 0 <= j < i ==> #[trigger] ps@[j]@ == points@[j]@,
            forall|j: int| 0 <= j < i ==> ristretto_decodes(#[trigger] ps@[j]@),
        decreases scalars@.len() - i,
    {
        let pt = &points[i];
        proof {
            use_type_invariant(pt);
        }
        ks.push(scalars[i].to_bytes());
        ps.push(pt.to_bytes());
        i = i + 1;
    }
    let b = msm_raw(&ks, &ps);
    proof {
        let a = ks@.map_values(|s: [u8; 32]| le_value(s@) % crate::scalar::group_order());
        assert forall|j: int| 0 <= j < a.len() implies a[j] == scalar_values(scalars@)[j] by {
            vstd::arithmetic::div_mod::lemma_small_mod(
                scalars@[j]@,
                crate::scalar::group_order(),
            );
        }
        assert(a =~= scalar_values(scalars@));
        assert(ps@.map_values(|p: [u8; 32]| p@) =~= point_values(points@));
    }
    G1Point { bytes: b }
}

} // verus!
