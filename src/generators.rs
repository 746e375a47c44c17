use crate::point::G1Point;
use crate::utils::{append_bytes, map_to_curve, map_to_curve_spec};
use vstd::prelude::*;

verus! {

/// Decimal ASCII digits of `n`, most significant first.
pub open spec fn decimal(n: nat) -> Seq<u8>
    decreases n,
{
    if n < 10 {
        seq![(48 + n) as u8]
    } else {
        decimal(n / 10) + seq![(48 + n % 10) as u8]
    }
}

/// Appends the decimal digits of `n`.
pub fn push_decimal(out: &mut Vec<u8>, n: u64)
    ensures
        final(out)@ == old(out)@ + decimal(n as nat),
    decreases n,
{
    if n >= 10 {
        push_decimal(out, n / 10);
    }
    let d: u8 = (48 + n % 10) as u8;
    out.push(d);
    assert(final(out)@ =~= old(out)@ + decimal(n as nat));
}

/// `bp/g/`
pub open spec fn g_prefix() -> Seq<u8> {
    seq![98u8, 112, 47, 103, 47]
}

/// `bp/h/`
pub open spec fn h_prefix() -> Seq<u8> {
    seq![98u8, 112, 47, 104, 47]
}

/// `bp/u`
pub open spec fn u_label() -> Seq<u8> {
    seq![98u8, 112, 47, 117]
}

/// The `i`-th vector generator under a prefix: hash to the curve of `prefix ‖ decimal(i)`.
pub open spec fn vector_generator(prefix: Seq<u8>, i: nat) -> Seq<u8> {
    map_to_curve_spec(prefix + decimal(i))
}

pub open spec fn g_generator(i: nat) -> Seq<u8> {
    vector_generator(g_prefix(), i)
}

pub open spec fn h_vector_generator(i: nat) -> Seq<u8> {
    vector_generator(h_prefix(), i)
}

pub open spec fn u_generator() -> Seq<u8> {
    map_to_curve_spec(u_label())
}

/// Derives the `i`-th generator under `prefix`.
pub fn derive_generator(prefix: &[u8], i: u64) -> (r: G1Point)
    ensures
        r@ == vector_generator(prefix@, i as nat),
{
    let mut seed: Vec<u8> = Vec::new();
    append_bytes(&mut seed, prefix);
    push_decimal(&mut seed, i);
    map_to_curve(seed.as_slice())
}

/// Derives `G[0..n)`, `H[0..n)` and `u`.
pub fn derive_generators(n: usize) -> (r: (Vec<G1Point>, Vec<G1Point>, G1Point))
    ensures
        r.0@.len() == n,
        r.1@.len() == n,
        forall|i: int| 0 <= i < n ==> (#[trigger] r.0@[i])@ == g_generator(i as nat),
        forall|i: int| 0 <= i < n ==> (#[trigger] r.1@[i])@ == h_vector_generator(i as nat),
        r.2@ == u_generator(),
{
    let gp: [u8; 5] = [98u8, 112, 47, 103, 47];
    let hp: [u8; 5] = [98u8, 112, 47, 104, 47];
    let up: [u8; 4] = [98u8, 112, 47, 117];
    assert(gp@ =~= g_prefix());
    assert(hp@ =~= h_prefix());
    assert(up@ =~= u_label());
    let mut g: Vec<G1Point> = Vec::new();
    let mut h: Vec<G1Point> = Vec::new();
    let mut i: usize = 0;
    while i < n
        invariant
            i <= n,
            gp@ == g_prefix(),
            hp@ == h_prefix(),
            g@.len() == i,
            h@.len() == i,
            forall|j: int| 0 <= j < i ==> (#[trigger] g@[j])@ == g_generator(j as nat),
            forall|j: int| 0 <= j < i ==> (#[trigger] h@[j])@ == h_vector_generator(j as nat),
        decreases n - i,
    {
        g.push(derive_generator(&gp, i as u64));
        h.push(derive_generator(&hp, i as u64));
        i = i + 1;
    }
    let u = map_to_curve(&up);
    (g, h, u)
}

} // verus!
