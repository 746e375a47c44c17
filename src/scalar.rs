use vstd::prelude::*;

verus! {

/// The order of the Ristretto group: 2^252 + 27742317777372353535851937790883648493.
pub open spec fn group_order() -> nat {
    0x40000000000000000000000000000000 * 0x40000000000000000000000000000000
        + 27742317777372353535851937790883648493
}

/// Little-endian value of a byte string.
pub open spec fn le_value(b: Seq<u8>) -> nat
    decreases b.len(),
{
    if b.len() == 0 {
        0
    } else {
        b[0] as nat + 256 * le_value(b.subrange(1, b.len() as int))
    }
}

/// The `n`-byte little-endian encoding of `v` (truncated to `n` bytes).
pub open spec fn le_bytes(v: nat, n: nat) -> Seq<u8>
    decreases n,
{
    if n == 0 {
        Seq::empty()
    } else {
        seq![(v % 256) as u8] + le_bytes(v / 256, (n - 1) as nat)
    }
}

pub open spec fn sadd(a: nat, b: nat) -> nat {
    (a + b) % group_order()
}

pub open spec fn smul(a: nat, b: nat) -> nat {
    (a * b) % group_order()
}

pub open spec fn ssub(a: nat, b: nat) -> nat {
    ((a - b) % (group_order() as int)) as nat
}

pub open spec fn sneg(a: nat) -> nat {
    ((0 - a) % (group_order() as int)) as nat
}

/// `r` is the multiplicative inverse of `a` modulo the group order.
pub open spec fn is_inverse(a: nat, r: nat) -> bool {
    smul(a, r) == 1
}

/// The canonical 32-byte encoding of a scalar value.
pub open spec fn scalar_encoding(v: nat) -> Seq<u8> {
    le_bytes(v, 32)
}

pub proof fn lemma_le_bytes_of_value(b: Seq<u8>)
    ensures
        le_bytes(le_value(b), b.len()) == b,
    decreases b.len(),
{
    if b.len() > 0 {
        let rest = b.subrange(1, b.len() as int);
        lemma_le_bytes_of_value(rest);
        let v = le_value(b);
        assert(v == b[0] as nat + 256 * le_value(rest));
        assert(v % 256 == b[0] as nat) by (nonlinear_arith)
            requires
                v == b[0] as nat + 256 * le_value(rest),
                b[0] < 256,
        ;
        assert(v / 256 == le_value(rest)) by (nonlinear_arith)
            requires
                v == b[0] as nat + 256 * le_value(rest),
                b[0] < 256,
        ;
        assert(le_bytes(v, b.len()) =~= b);
    }
}

/// An integer modulo the group order, held as its canonical 32-byte little-endian encoding.
#[derive(Debug)]
pub struct Scalar {
    bytes: [u8; 32],
}

impl View for Scalar {
    type V = nat;

    closed spec fn view(&self) -> nat {
        le_value(self.bytes@)
    }
}

impl Scalar {
    #[verifier::type_invariant]
    spec fn canonical(&self) -> bool {
        le_value(self.bytes@) < group_order()
    }

    /// The scalar whose value is `v`.
    pub fn from_u64(v: u64) -> (r: Scalar)
        ensures
            r@ == v as nat,
    {
        Scalar { bytes: u64_to_scalar_bytes(v) }
    }

    pub fn zero() -> (r: Scalar)
        ensures
            r@ == 0,
    {
        Scalar::from_u64(0)
    }

    pub fn one() -> (r: Scalar)
        ensures
            r@ == 1,
    {
        Scalar::from_u64(1)
    }

    /// The canonical little-endian encoding.
    pub fn to_bytes(&self) -> (r: [u8; 32])
        ensures
            r@ == scalar_encoding(self@),
            le_value(r@) == self@,
            self@ < group_order(),
    {
        proof {
            use_type_invariant(self);
            lemma_le_bytes_of_value(self.bytes@);
        }
        self.bytes
    }

    /// Equality of values.
    pub fn equals(&self, other: &Scalar) -> (r: bool)
        ensures
            r == (self@ == other@),
    {
        proof {
            lemma_le_bytes_of_value(self.bytes@);
            lemma_le_bytes_of_value(other.bytes@);
        }
        let mut i: usize = 0;
        while i < 32
            invariant
                i <= 32,
                forall|j: int| 0 <= j < i ==> self.bytes@[j] == other.bytes@[j],
            decreases 32 - i,
        {
            if self.bytes[i] != other.bytes[i] {
                assert(self.bytes@[i as int] != other.bytes@[i as int]);
                assert(self.bytes@ != other.bytes@);
                assert(self@ != other@) by {
                    if self@ == other@ {
                        lemma_le_bytes_of_value(self.bytes@);
                        lemma_le_bytes_of_value(other.bytes@);
                        assert(self.bytes@ == le_bytes(self@, 32));
                        assert(other.bytes@ == le_bytes(other@, 32));
                    }
                }
                return false;
            }
            i = i + 1;
        }
        assert(self.bytes@ =~= other.bytes@);
        true
    }

    pub fn is_zero(&self) -> (r: bool)
        ensures
            r == (self@ == 0),
    {
        let z = Scalar::zero();
        self.equals(&z)
    }

    pub fn copy(&self) -> (r: Scalar)
        ensures
            r@ == self@,
    {
        proof {
            use_type_invariant(self);
        }
        Scalar { bytes: self.bytes }
    }
}

/// Relies on curve25519_dalek's `Scalar::from(u64)` and `to_bytes`: the canonical
/// encoding of `v`, whose value is below the group order.
#[verifier::external_body]
fn u64_to_scalar_bytes(v: u64) -> (r: [u8; 32])
    ensures
        le_value(r@) == v as nat,
{
    curve25519_dalek::scalar::Scalar::from(v).to_bytes()
}

/// Relies on curve25519_dalek's `Scalar::from_bytes_mod_order`: reduction of a
/// little-endian integer modulo the group order.
#[verifier::external_body]
pub fn scalar_from_bytes(bytes: &[u8; 32]) -> (r: Scalar)
    ensures
        r@ == le_value(bytes@) % group_order(),
{
    Scalar { bytes: curve25519_dalek::scalar::Scalar::from_bytes_mod_order(*bytes).to_bytes() }
}

/// Relies on curve25519_dalek's `Scalar::from_bytes_mod_order` and scalar `+`:
/// addition modulo the group order.
#[verifier::external_body]
pub fn scalar_add(a: &Scalar, b: &Scalar) -> (r: Scalar)
    ensures
        r@ == sadd(a@, b@),
{
    let x = curve25519_dalek::scalar::Scalar::from_bytes_mod_order(a.bytes);
    let y = curve25519_dalek::scalar::Scalar::from_bytes_mod_order(b.bytes);
    Scalar { bytes: (x + y).to_bytes() }
}

/// Relies on curve25519_dalek's `Scalar::from_bytes_mod_order` and scalar `-`:
/// subtraction modulo the group order.
#[verifier::external_body]
pub fn scalar_sub(a: &Scalar, b: &Scalar) -> (r: Scalar)
    ensures
        r@ == ssub(a@, b@),
{
    let x = curve25519_dalek::scalar::Scalar::from_bytes_mod_order(a.bytes);
    let y = curve25519_dalek::scalar::Scalar::from_bytes_mod_order(b.bytes);
    Scalar { bytes: (x - y).to_bytes() }
}

/// Relies on curve25519_dalek's `Scalar::from_bytes_mod_order` and scalar `*`:
/// multiplication modulo the group order.
#[verifier::external_body]
pub fn scalar_mul(a: &Scalar, b: &Scalar) -> (r: Scalar)
    ensures
        r@ == smul(a@, b@),
{
    let x = curve25519_dalek::scalar::Scalar::from_bytes_mod_order(a.bytes);
    let y = curve25519_dalek::scalar::Scalar::from_bytes_mod_order(b.bytes);
    Scalar { bytes: (x * y).to_bytes() }
}

/// Relies on curve25519_dalek's `Scalar::from_bytes_mod_order` and unary `-`:
/// negation modulo the group order.
#[verifier::external_body]
pub fn scalar_neg(a: &Scalar) -> (r: Scalar)
    ensures
        r@ == sneg(a@),
{
    let x = curve25519_dalek::scalar::Scalar::from_bytes_mod_order(a.bytes);
    Scalar { bytes: (-x).to_bytes() }
}

/// Relies on curve25519_dalek's `Scalar::invert`: for a nonzero scalar, its
/// multiplicative inverse modulo the (prime) group order; the result is reduced.
#[verifier::external_body]
pub fn scalar_inv(a: &Scalar) -> (r: Scalar)
    ensures
        a@ != 0 ==> is_inverse(a@, r@),
        r@ < group_order(),
{
    let x = curve25519_dalek::scalar::Scalar::from_bytes_mod_order(a.bytes);
    Scalar { bytes: x.invert().to_bytes() }
}

} // verus!
