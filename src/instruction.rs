use crate::error::ZerosolError;
use crate::state::{read_array32, BurnProof, InnerProductProof, ZerosolProof};
use vstd::bytes::{spec_u32_from_le_bytes, spec_u32_to_le_bytes, spec_u64_to_le_bytes};
use vstd::prelude::*;

verus! {

/// An instruction of the program.
#[derive(Debug)]
pub enum ZerosolInstruction {
    Initialize { epoch_length: u64, fee: u64 },
    Register { public_key: [u8; 32], challenge: [u8; 32], response: [u8; 32] },
    Fund { amount: u64 },
    Transfer {
        commitments_c: Vec<[u8; 32]>,
        commitment_d: [u8; 32],
        public_keys: Vec<[u8; 32]>,
        nonce: [u8; 32],
        beneficiary: [u8; 32],
        proof: ZerosolProof,
    },
    Burn { amount: u64, nonce: [u8; 32], proof: BurnProof },
    RollOver,
}

/// The concatenation of 32-byte items.
pub open spec fn concat32(v: Seq<[u8; 32]>) -> Seq<u8>
    decreases v.len(),
{
    if v.len() == 0 {
        Seq::empty()
    } else {
        let n = (v.len() - 1) as int;
        concat32(v.subrange(0, n)) + v[n]@
    }
}

/// A vector: its length as 4 little-endian bytes, then the items.
pub open spec fn vec32_layout(v: Seq<[u8; 32]>) -> Seq<u8> {
    spec_u32_to_le_bytes(v.len() as u32) + concat32(v)
}

pub open spec fn ipp_layout(p: InnerProductProof) -> Seq<u8> {
    vec32_layout(p.l_points@) + (vec32_layout(p.r_points@) + (p.a@ + (p.b@)))
}

pub open spec fn ipp_fits(p: InnerProductProof) -> bool {
    vec_fits(p.l_points@) && vec_fits(p.r_points@)
}

pub open spec fn zerosol_proof_layout(p: ZerosolProof) -> Seq<u8> {
    p.ba@ + (p.bs@ + (p.a@ + (p.b@ + (vec32_layout(p.cln_g@) + (vec32_layout(p.crn_g@) + (vec32_layout(p.c_0g@) + (vec32_layout(p.dg@) + (vec32_layout(p.y_0g@) + (vec32_layout(p.gg@) + (vec32_layout(p.c_xg@) + (vec32_layout(p.y_xg@) + (vec32_layout(p.f@) + (p.z_a@ + (p.t_1@ + (p.t_2@ + (p.t_hat@ + (p.tau_x@ + (p.mu@ + (p.c@ + (p.s_r@ + (ipp_layout(p.ip_proof))))))))))))))))))))))
}

pub open spec fn zerosol_proof_fits(p: ZerosolProof) -> bool {
    vec_fits(p.cln_g@) && vec_fits(p.crn_g@) && vec_fits(p.c_0g@) && vec_fits(p.dg@) && vec_fits(p.y_0g@) && vec_fits(p.gg@) && vec_fits(p.c_xg@) && vec_fits(p.y_xg@) && vec_fits(p.f@) && ipp_fits(p.ip_proof)
}

pub open spec fn burn_proof_layout(p: BurnProof) -> Seq<u8> {
    p.ba@ + (p.bs@ + (p.t_1@ + (p.t_2@ + (p.t_hat@ + (p.tau_x@ + (p.mu@ + (p.commitment@ + (p.c@ + (p.s_sk@ + (p.s_b@ + (p.s_tau@ + (ipp_layout(p.ip_proof)))))))))))))
}

pub open spec fn burn_proof_fits(p: BurnProof) -> bool {
    ipp_fits(p.ip_proof)
}

/// Payload of a transfer: ciphertexts, `D`, keys, nonce, beneficiary, proof.
pub open spec fn transfer_body(
    cs: Seq<[u8; 32]>,
    dd: [u8; 32],
    pks: Seq<[u8; 32]>,
    nonce: [u8; 32],
    ben: [u8; 32],
    proof: ZerosolProof,
) -> Seq<u8> {
    vec32_layout(cs) + (dd@ + (vec32_layout(pks) + (nonce@ + (ben@ + zerosol_proof_layout(proof)))))
}

/// Payload of a burn: amount, nonce, proof.
pub open spec fn burn_body(amount: u64, nonce: [u8; 32], proof: BurnProof) -> Seq<u8> {
    spec_u64_to_le_bytes(amount) + (nonce@ + burn_proof_layout(proof))
}

/// The wire encoding: a one-byte tag, then the payload fields in order
/// (integers little-endian, vectors length-prefixed).
pub open spec fn instruction_layout(i: ZerosolInstruction) -> Seq<u8> {
    match i {
        ZerosolInstruction::Initialize { epoch_length, fee } => seq![0u8] + spec_u64_to_le_bytes(
            epoch_length,
        ) + spec_u64_to_le_bytes(fee),
        ZerosolInstruction::Register { public_key, challenge, response } => seq![1u8]
            + public_key@ + challenge@ + response@,
        ZerosolInstruction::Fund { amount } => seq![2u8] + spec_u64_to_le_bytes(amount),
        ZerosolInstruction::Transfer {
            commitments_c,
            commitment_d,
            public_keys,
            nonce,
            beneficiary,
            proof,
        } => seq![3u8] + transfer_body(
            commitments_c@,
            commitment_d,
            public_keys@,
            nonce,
            beneficiary,
            proof,
        ),
        ZerosolInstruction::Burn { amount, nonce, proof } => seq![4u8] + burn_body(amount, nonce, proof),
        ZerosolInstruction::RollOver => seq![5u8],
    }
}

fn take32(data: &[u8], pos: usize) -> (r: Result<([u8; 32], usize), ZerosolError>)
    requires
        pos <= data@.len(),
    ensures
        r matches Ok((a, p)) ==> p == pos + 32 && p <= data@.len() && data@.subrange(
            pos as int,
            p as int,
        ) == a@,
        r.is_err() ==> r == Err::<([u8; 32], usize), ZerosolError>(ZerosolError::InvalidInstruction),
        pos + 32 <= data@.len() ==> r.is_ok(),
{
    if data.len() - pos < 32 {
        return Err(ZerosolError::InvalidInstruction);
    }
    let a = read_array32(data, pos);
    Ok((a, pos + 32))
}

fn take_u64(data: &[u8], pos: usize) -> (r: Result<(u64, usize), ZerosolError>)
    requires
        pos <= data@.len(),
    ensures
        r matches Ok((v, p)) ==> p == pos + 8 && p <= data@.len() && data@.subrange(
            pos as int,
            p as int,
        ) == spec_u64_to_le_bytes(v),
        r.is_err() ==> r == Err::<(u64, usize), ZerosolError>(ZerosolError::InvalidInstruction),
        pos + 8 <= data@.len() ==> r.is_ok(),
{
    if data.len() - pos < 8 {
        return Err(ZerosolError::InvalidInstruction);
    }
    let len = data.len();
    let mut b: Vec<u8> = Vec::new();
    let mut i: usize = 0;
    while i < 8
        invariant
            len == data@.len(),
            i <= 8,
            pos + 8 <= data@.len(),
            b@ == data@.subrange(pos as int, pos + i),
        decreases 8 - i,
    {
        b.push(data[pos + i]);
        i = i + 1;
        assert(b@ =~= data@.subrange(pos as int, pos + i));
    }
    let v = vstd::bytes::u64_from_le_bytes(b.as_slice());
    proof {
        vstd::bytes::lemma_auto_spec_u64_to_from_le_bytes();
    }
    Ok((v, pos + 8))
}

/// `l` stands in `d` at `pos`.
pub open spec fn layout_at(d: Seq<u8>, pos: int, l: Seq<u8>) -> bool {
    0 <= pos && pos + l.len() <= d.len() && d.subrange(pos, pos + l.len()) == l
}

/// The vector's length fits its 4-byte prefix.
pub open spec fn vec_fits(v: Seq<[u8; 32]>) -> bool {
    v.len() <= u32::MAX
}

proof fn lemma_concat32_len(v: Seq<[u8; 32]>)
    ensures
        concat32(v).len() == 32 * v.len(),
    decreases v.len(),
{
    if v.len() > 0 {
        lemma_concat32_len(v.subrange(0, v.len() - 1));
    }
}

proof fn lemma_peel(d: Seq<u8>, pos: int, a: Seq<u8>, b: Seq<u8>)
    requires
        layout_at(d, pos, a + b),
    ensures
        layout_at(d, pos, a),
        layout_at(d, pos + a.len(), b),
{
    let whole = d.subrange(pos, pos + (a + b).len());
    assert(whole == a + b);
    assert(d.subrange(pos, pos + a.len()) =~= whole.subrange(0, a.len() as int));
    assert(whole.subrange(0, a.len() as int) =~= a);
    assert(d.subrange(pos + a.len(), pos + a.len() + b.len()) =~= whole.subrange(
        a.len() as int,
        (a.len() + b.len()) as int,
    ));
    assert(whole.subrange(a.len() as int, (a.len() + b.len()) as int) =~= b);
}

fn take_vec32(data: &[u8], pos: usize) -> (r: Result<(Vec<[u8; 32]>, usize), ZerosolError>)
    requires
        pos <= data@.len(),
    ensures
        r matches Ok((v, p)) ==> pos <= p <= data@.len() && data@.subrange(pos as int, p as int)
            == vec32_layout(v@),
        r.is_err() ==> r == Err::<(Vec<[u8; 32]>, usize), ZerosolError>(
            ZerosolError::InvalidInstruction,
        ),
        forall|v: Seq<[u8; 32]>|
            vec_fits(v) && #[trigger] layout_at(data@, pos as int, vec32_layout(v)) ==> (r matches Ok(
                (_, p),
            ) && p == pos + vec32_layout(v).len()),
{
    proof {
        vstd::bytes::lemma_auto_spec_u32_to_from_le_bytes();
        assert forall|v: Seq<[u8; 32]>|
            vec_fits(v) && #[trigger] layout_at(data@, pos as int, vec32_layout(v)) implies pos + 4
            <= data@.len() && data@.subrange(pos as int, pos + 4) == spec_u32_to_le_bytes(
            v.len() as u32,
        ) && pos + 4 + 32 * v.len() <= data@.len() by {
            lemma_concat32_len(v);
            lemma_peel(data@, pos as int, spec_u32_to_le_bytes(v.len() as u32), concat32(v));
        }
    }
    if data.len() - pos < 4 {
        return Err(ZerosolError::InvalidInstruction);
    }
    let len = data.len();
    let mut b: Vec<u8> = Vec::new();
    let mut i: usize = 0;
    while i < 4
        invariant
            len == data@.len(),
            i <= 4,
            pos + 4 <= data@.len(),
            b@ == data@.subrange(pos as int, pos + i),
        decreases 4 - i,
    {
        b.push(data[pos + i]);
        i = i + 1;
        assert(b@ =~= data@.subrange(pos as int, pos + i));
    }
    let n = vstd::bytes::u32_from_le_bytes(b.as_slice());
    proof {
        vstd::bytes::lemma_auto_spec_u32_to_from_le_bytes();
    }
    let start = pos + 4;
    let mut cur = start;
    let mut out: Vec<[u8; 32]> = Vec::new();
    let mut k: u32 = 0;
    proof {
        assert forall|v: Seq<[u8; 32]>|
            vec_fits(v) && #[trigger] layout_at(data@, pos as int, vec32_layout(v)) implies v.len()
            == n && start + 32 * n <= data@.len() by {
            assert(spec_u32_from_le_bytes(spec_u32_to_le_bytes(v.len() as u32)) == v.len() as u32);
        }
    }
    while k < n
        invariant
            start == pos + 4,
            cur == start + 32 * k,
            forall|v: Seq<[u8; 32]>|
                vec_fits(v) && #[trigger] layout_at(data@, pos as int, vec32_layout(v)) ==> v.len()
                    == n && start + 32 * n <= data@.len(),
            start <= cur <= data@.len(),
            out@.len() == k,
            k <= n,
            data@.subrange(start as int, cur as int) == concat32(out@),
        decreases n - k,
    {
        let (a, next) = take32(data, cur)?;
        proof {
            assert(data@.subrange(start as int, next as int) =~= data@.subrange(start as int, cur as int)
                + data@.subrange(cur as int, next as int));
            let o2 = out@.push(a);
            assert(o2.subrange(0, o2.len() - 1) =~= out@);
        }
        out.push(a);
        cur = next;
        k = k + 1;
    }
    proof {
        assert(data@.subrange(pos as int, cur as int) =~= data@.subrange(pos as int, start as int)
            + data@.subrange(start as int, cur as int));
        assert(out@.len() as u32 == n);
        vstd::bytes::lemma_auto_spec_u32_to_from_le_bytes();
        assert forall|v: Seq<[u8; 32]>|
            vec_fits(v) && #[trigger] layout_at(data@, pos as int, vec32_layout(v)) implies cur
            == pos + vec32_layout(v).len() by {
            lemma_concat32_len(v);
        }
    }
    Ok((out, cur))
}

proof fn lemma_split(d: Seq<u8>, a: int, b: int, c: int)
    requires
        0 <= a <= b <= c <= d.len(),
    ensures
        d.subrange(a, c) == d.subrange(a, b) + d.subrange(b, c),
{
    assert(d.subrange(a, c) =~= d.subrange(a, b) + d.subrange(b, c));
}

fn parse_ipp(data: &[u8], pos: usize) -> (r: Result<(InnerProductProof, usize), ZerosolError>)
    requires
        pos <= data@.len(),
    ensures
        r matches Ok((x, p)) ==> pos <= p <= data@.len() && data@.subrange(pos as int, p as int)
            == ipp_layout(x),
        r.is_err() ==> r == Err::<(InnerProductProof, usize), ZerosolError>(ZerosolError::InvalidInstruction),
        forall|x: InnerProductProof| ipp_fits(x) && #[trigger] layout_at(data@, pos as int, ipp_layout(x)) ==> (r matches Ok((_, p)) && p == pos + (ipp_layout(x)).len()),
{
    let (l_points, p0) = match take_vec32(data, pos) {
        Ok(v) => v,
        Err(e) => {
            proof {
                assert forall|x: InnerProductProof| ipp_fits(x) && #[trigger] layout_at(data@, pos as int, ipp_layout(x)) implies false by {
                     lemma_peel(data@, pos as int, vec32_layout(x.l_points@), vec32_layout(x.r_points@) + (x.a@ + (x.b@)));
                }
            }
            return Err(e);
        },
    };
    proof {
        assert forall|x: InnerProductProof| ipp_fits(x) && #[trigger] layout_at(data@, pos as int, ipp_layout(x)) implies layout_at(data@, p0 as int, vec32_layout(x.r_points@) + (x.a@ + (x.b@))) && p0 + (vec32_layout(x.r_points@) + (x.a@ + (x.b@))).len() == pos + (ipp_layout(x)).len() by {
             lemma_peel(data@, pos as int, vec32_layout(x.l_points@), vec32_layout(x.r_points@) + (x.a@ + (x.b@)));
        }
    }
    let (r_points, p1) = match take_vec32(data, p0) {
        Ok(v) => v,
        Err(e) => {
            proof {
                assert forall|x: InnerProductProof| ipp_fits(x) && #[trigger] layout_at(data@, pos as int, ipp_layout(x)) implies false by {
                     lemma_peel(data@, p0 as int, vec32_layout(x.r_points@), x.a@ + (x.b@));
                }
            }
            return Err(e);
        },
    };
    proof {
        assert forall|x: InnerProductProof| ipp_fits(x) && #[trigger] layout_at(data@, pos as int, ipp_layout(x)) implies layout_at(data@, p1 as int, x.a@ + (x.b@)) && p1 + (x.a@ + (x.b@)).len() == pos + (ipp_layout(x)).len() by {
             lemma_peel(data@, p0 as int, vec32_layout(x.r_points@), x.a@ + (x.b@));
        }
    }
    let (a, p2) = match take32(data, p1) {
        Ok(v) => v,
        Err(e) => {
            proof {
                assert forall|x: InnerProductProof| ipp_fits(x) && #[trigger] layout_at(data@, pos as int, ipp_layout(x)) implies false by {
                     lemma_peel(data@, p1 as int, x.a@, x.b@);
                }
            }
            return Err(e);
        },
    };
    proof {
        assert forall|x: InnerProductProof| ipp_fits(x) && #[trigger] layout_at(data@, pos as int, ipp_layout(x)) implies layout_at(data@, p2 as int, x.b@) && p2 + (x.b@).len() == pos + (ipp_layout(x)).len() by {
             lemma_peel(data@, p1 as int, x.a@, x.b@);
        }
    }
    let (b, p3) = match take32(data, p2) {
        Ok(v) => v,
        Err(e) => {
            proof {
                assert forall|x: InnerProductProof| ipp_fits(x) && #[trigger] layout_at(data@, pos as int, ipp_layout(x)) implies false by {
                     
                }
            }
            return Err(e);
        },
    };
    proof {
        assert forall|x: InnerProductProof| ipp_fits(x) && #[trigger] layout_at(data@, pos as int, ipp_layout(x)) implies p3 == pos + (ipp_layout(x)).len() by {
             
        }
    }
    let x = InnerProductProof { l_points, r_points, a, b };
    proof {
        lemma_split(data@, p1 as int, p2 as int, p3 as int);
        lemma_split(data@, p0 as int, p1 as int, p3 as int);
        lemma_split(data@, pos as int, p0 as int, p3 as int);
    }
    Ok((x, p3))
}

#[verifier::spinoff_prover]
#[verifier::rlimit(100)]
fn parse_zerosol_proof(data: &[u8], pos: usize) -> (r: Result<(ZerosolProof, usize), ZerosolError>)
    requires
        pos <= data@.len(),
    ensures
        r matches Ok((x, p)) ==> pos <= p <= data@.len() && data@.subrange(pos as int, p as int)
            == zerosol_proof_layout(x),
        r.is_err() ==> r == Err::<(ZerosolProof, usize), ZerosolError>(ZerosolError::InvalidInstruction),
        forall|x: ZerosolProof| zerosol_proof_fits(x) && #[trigger] layout_at(data@, pos as int, zerosol_proof_layout(x)) ==> (r matches Ok((_, p)) && p == pos + (zerosol_proof_layout(x)).len()),
{
    let (ba, p0) = match take32(data, pos) {
        Ok(v) => v,
        Err(e) => {
            proof {
                assert forall|x: ZerosolProof| zerosol_proof_fits(x) && #[trigger] layout_at(data@, pos as int, zerosol_proof_layout(x)) implies false by {
                     lemma_peel(data@, pos as int, x.ba@, x.bs@ + (x.a@ + (x.b@ + (vec32_layout(x.cln_g@) + (vec32_layout(x.crn_g@) + (vec32_layout(x.c_0g@) + (vec32_layout(x.dg@) + (vec32_layout(x.y_0g@) + (vec32_layout(x.gg@) + (vec32_layout(x.c_xg@) + (vec32_layout(x.y_xg@) + (vec32_layout(x.f@) + (x.z_a@ + (x.t_1@ + (x.t_2@ + (x.t_hat@ + (x.tau_x@ + (x.mu@ + (x.c@ + (x.s_r@ + (ipp_layout(x.ip_proof))))))))))))))))))))));
                }
            }
            return Err(e);
        },
    };
    proof {
        assert forall|x: ZerosolProof| zerosol_proof_fits(x) && #[trigger] layout_at(data@, pos as int, zerosol_proof_layout(x)) implies layout_at(data@, p0 as int, x.bs@ + (x.a@ + (x.b@ + (vec32_layout(x.cln_g@) + (vec32_layout(x.crn_g@) + (vec32_layout(x.c_0g@) + (vec32_layout(x.dg@) + (vec32_layout(x.y_0g@) + (vec32_layout(x.gg@) + (vec32_layout(x.c_xg@) + (vec32_layout(x.y_xg@) + (vec32_layout(x.f@) + (x.z_a@ + (x.t_1@ + (x.t_2@ + (x.t_hat@ + (x.tau_x@ + (x.mu@ + (x.c@ + (x.s_r@ + (ipp_layout(x.ip_proof)))))))))))))))))))))) && p0 + (x.bs@ + (x.a@ + (x.b@ + (vec32_layout(x.cln_g@) + (vec32_layout(x.crn_g@) + (vec32_layout(x.c_0g@) + (vec32_layout(x.dg@) + (vec32_layout(x.y_0g@) + (vec32_layout(x.gg@) + (vec32_layout(x.c_xg@) + (vec32_layout(x.y_xg@) + (vec32_layout(x.f@) + (x.z_a@ + (x.t_1@ + (x.t_2@ + (x.t_hat@ + (x.tau_x@ + (x.mu@ + (x.c@ + (x.s_r@ + (ipp_layout(x.ip_proof)))))))))))))))))))))).len() == pos + (zerosol_proof_layout(x)).len() by {
             lemma_peel(data@, pos as int, x.ba@, x.bs@ + (x.a@ + (x.b@ + (vec32_layout(x.cln_g@) + (vec32_layout(x.crn_g@) + (vec32_layout(x.c_0g@) + (vec32_layout(x.dg@) + (vec32_layout(x.y_0g@) + (vec32_layout(x.gg@) + (vec32_layout(x.c_xg@) + (vec32_layout(x.y_xg@) + (vec32_layout(x.f@) + (x.z_a@ + (x.t_1@ + (x.t_2@ + (x.t_hat@ + (x.tau_x@ + (x.mu@ + (x.c@ + (x.s_r@ + (ipp_layout(x.ip_proof))))))))))))))))))))));
        }
    }
    let (bs, p1) = match take32(data, p0) {
        Ok(v) => v,
        Err(e) => {
            proof {
                assert forall|x: ZerosolProof| zerosol_proof_fits(x) && #[trigger] layout_at(data@, pos as int, zerosol_proof_layout(x)) implies false by {
                     lemma_peel(data@, p0 as int, x.bs@, x.a@ + (x.b@ + (vec32_layout(x.cln_g@) + (vec32_layout(x.crn_g@) + (vec32_layout(x.c_0g@) + (vec32_layout(x.dg@) + (vec32_layout(x.y_0g@) + (vec32_layout(x.gg@) + (vec32_layout(x.c_xg@) + (vec32_layout(x.y_xg@) + (vec32_layout(x.f@) + (x.z_a@ + (x.t_1@ + (x.t_2@ + (x.t_hat@ + (x.tau_x@ + (x.mu@ + (x.c@ + (x.s_r@ + (ipp_layout(x.ip_proof)))))))))))))))))))));
                }
            }
            return Err(e);
        },
    };
    proof {
        assert forall|x: ZerosolProof| zerosol_proof_fits(x) && #[trigger] layout_at(data@, pos as int, zerosol_proof_layout(x)) implies layout_at(data@, p1 as int, x.a@ + (x.b@ + (vec32_layout(x.cln_g@) + (vec32_layout(x.crn_g@) + (vec32_layout(x.c_0g@) + (vec32_layout(x.dg@) + (vec32_layout(x.y_0g@) + (vec32_layout(x.gg@) + (vec32_layout(x.c_xg@) + (vec32_layout(x.y_xg@) + (vec32_layout(x.f@) + (x.z_a@ + (x.t_1@ + (x.t_2@ + (x.t_hat@ + (x.tau_x@ + (x.mu@ + (x.c@ + (x.s_r@ + (ipp_layout(x.ip_proof))))))))))))))))))))) && p1 + (x.a@ + (x.b@ + (vec32_layout(x.cln_g@) + (vec32_layout(x.crn_g@) + (vec32_layout(x.c_0g@) + (vec32_layout(x.dg@) + (vec32_layout(x.y_0g@) + (vec32_layout(x.gg@) + (vec32_layout(x.c_xg@) + (vec32_layout(x.y_xg@) + (vec32_layout(x.f@) + (x.z_a@ + (x.t_1@ + (x.t_2@ + (x.t_hat@ + (x.tau_x@ + (x.mu@ + (x.c@ + (x.s_r@ + (ipp_layout(x.ip_proof))))))))))))))))))))).len() == pos + (zerosol_proof_layout(x)).len() by {
             lemma_peel(data@, p0 as int, x.bs@, x.a@ + (x.b@ + (vec32_layout(x.cln_g@) + (vec32_layout(x.crn_g@) + (vec32_layout(x.c_0g@) + (vec32_layout(x.dg@) + (vec32_layout(x.y_0g@) + (vec32_layout(x.gg@) + (vec32_layout(x.c_xg@) + (vec32_layout(x.y_xg@) + (vec32_layout(x.f@) + (x.z_a@ + (x.t_1@ + (x.t_2@ + (x.t_hat@ + (x.tau_x@ + (x.mu@ + (x.c@ + (x.s_r@ + (ipp_layout(x.ip_proof)))))))))))))))))))));
        }
    }
    let (a, p2) = match take32(data, p1) {
        Ok(v) => v,
        Err(e) => {
            proof {
                assert forall|x: ZerosolProof| zerosol_proof_fits(x) && #[trigger] layout_at(data@, pos as int, zerosol_proof_layout(x)) implies false by {
                     lemma_peel(data@, p1 as int, x.a@, x.b@ + (vec32_layout(x.cln_g@) + (vec32_layout(x.crn_g@) + (vec32_layout(x.c_0g@) + (vec32_layout(x.dg@) + (vec32_layout(x.y_0g@) + (vec32_layout(x.gg@) + (vec32_layout(x.c_xg@) + (vec32_layout(x.y_xg@) + (vec32_layout(x.f@) + (x.z_a@ + (x.t_1@ + (x.t_2@ + (x.t_hat@ + (x.tau_x@ + (x.mu@ + (x.c@ + (x.s_r@ + (ipp_layout(x.ip_proof))))))))))))))))))));
                }
            }
            return Err(e);
        },
    };
    proof {
        assert forall|x: ZerosolProof| zerosol_proof_fits(x) && #[trigger] layout_at(data@, pos as int, zerosol_proof_layout(x)) implies layout_at(data@, p2 as int, x.b@ + (vec32_layout(x.cln_g@) + (vec32_layout(x.crn_g@) + (vec32_layout(x.c_0g@) + (vec32_layout(x.dg@) + (vec32_layout(x.y_0g@) + (vec32_layout(x.gg@) + (vec32_layout(x.c_xg@) + (vec32_layout(x.y_xg@) + (vec32_layout(x.f@) + (x.z_a@ + (x.t_1@ + (x.t_2@ + (x.t_hat@ + (x.tau_x@ + (x.mu@ + (x.c@ + (x.s_r@ + (ipp_layout(x.ip_proof)))))))))))))))))))) && p2 + (x.b@ + (vec32_layout(x.cln_g@) + (vec32_layout(x.crn_g@) + (vec32_layout(x.c_0g@) + (vec32_layout(x.dg@) + (vec32_layout(x.y_0g@) + (vec32_layout(x.gg@) + (vec32_layout(x.c_xg@) + (vec32_layout(x.y_xg@) + (vec32_layout(x.f@) + (x.z_a@ + (x.t_1@ + (x.t_2@ + (x.t_hat@ + (x.tau_x@ + (x.mu@ + (x.c@ + (x.s_r@ + (ipp_layout(x.ip_proof)))))))))))))))))))).len() == pos + (zerosol_proof_layout(x)).len() by {
             lemma_peel(data@, p1 as int, x.a@, x.b@ + (vec32_layout(x.cln_g@) + (vec32_layout(x.crn_g@) + (vec32_layout(x.c_0g@) + (vec32_layout(x.dg@) + (vec32_layout(x.y_0g@) + (vec32_layout(x.gg@) + (vec32_layout(x.c_xg@) + (vec32_layout(x.y_xg@) + (vec32_layout(x.f@) + (x.z_a@ + (x.t_1@ + (x.t_2@ + (x.t_hat@ + (x.tau_x@ + (x.mu@ + (x.c@ + (x.s_r@ + (ipp_layout(x.ip_proof))))))))))))))))))));
        }
    }
    let (b, p3) = match take32(data, p2) {
        Ok(v) => v,
        Err(e) => {
            proof {
                assert forall|x: ZerosolProof| zerosol_proof_fits(x) && #[trigger] layout_at(data@, pos as int, zerosol_proof_layout(x)) implies false by {
                     lemma_peel(data@, p2 as int, x.b@, vec32_layout(x.cln_g@) + (vec32_layout(x.crn_g@) + (vec32_layout(x.c_0g@) + (vec32_layout(x.dg@) + (vec32_layout(x.y_0g@) + (vec32_layout(x.gg@) + (vec32_layout(x.c_xg@) + (vec32_layout(x.y_xg@) + (vec32_layout(x.f@) + (x.z_a@ + (x.t_1@ + (x.t_2@ + (x.t_hat@ + (x.tau_x@ + (x.mu@ + (x.c@ + (x.s_r@ + (ipp_layout(x.ip_proof)))))))))))))))))));
                }
            }
            return Err(e);
        },
    };
    proof {
        assert forall|x: ZerosolProof| zerosol_proof_fits(x) && #[trigger] layout_at(data@, pos as int, zerosol_proof_layout(x)) implies layout_at(data@, p3 as int, vec32_layout(x.cln_g@) + (vec32_layout(x.crn_g@) + (vec32_layout(x.c_0g@) + (vec32_layout(x.dg@) + (vec32_layout(x.y_0g@) + (vec32_layout(x.gg@) + (vec32_layout(x.c_xg@) + (vec32_layout(x.y_xg@) + (vec32_layout(x.f@) + (x.z_a@ + (x.t_1@ + (x.t_2@ + (x.t_hat@ + (x.tau_x@ + (x.mu@ + (x.c@ + (x.s_r@ + (ipp_layout(x.ip_proof))))))))))))))))))) && p3 + (vec32_layout(x.cln_g@) + (vec32_layout(x.crn_g@) + (vec32_layout(x.c_0g@) + (vec32_layout(x.dg@) + (vec32_layout(x.y_0g@) + (vec32_layout(x.gg@) + (vec32_layout(x.c_xg@) + (vec32_layout(x.y_xg@) + (vec32_layout(x.f@) + (x.z_a@ + (x.t_1@ + (x.t_2@ + (x.t_hat@ + (x.tau_x@ + (x.mu@ + (x.c@ + (x.s_r@ + (ipp_layout(x.ip_proof))))))))))))))))))).len() == pos + (zerosol_proof_layout(x)).len() by {
             lemma_peel(data@, p2 as int, x.b@, vec32_layout(x.cln_g@) + (vec32_layout(x.crn_g@) + (vec32_layout(x.c_0g@) + (vec32_layout(x.dg@) + (vec32_layout(x.y_0g@) + (vec32_layout(x.gg@) + (vec32_layout(x.c_xg@) + (vec32_layout(x.y_xg@) + (vec32_layout(x.f@) + (x.z_a@ + (x.t_1@ + (x.t_2@ + (x.t_hat@ + (x.tau_x@ + (x.mu@ + (x.c@ + (x.s_r@ + (ipp_layout(x.ip_proof)))))))))))))))))));
        }
    }
    let (cln_g, p4) = match take_vec32(data, p3) {
        Ok(v) => v,
        Err(e) => {
            proof {
                assert forall|x: ZerosolProof| zerosol_proof_fits(x) && #[trigger] layout_at(data@, pos as int, zerosol_proof_layout(x)) implies false by {
                     lemma_peel(data@, p3 as int, vec32_layout(x.cln_g@), vec32_layout(x.crn_g@) + (vec32_layout(x.c_0g@) + (vec32_layout(x.dg@) + (vec32_layout(x.y_0g@) + (vec32_layout(x.gg@) + (vec32_layout(x.c_xg@) + (vec32_layout(x.y_xg@) + (vec32_layout(x.f@) + (x.z_a@ + (x.t_1@ + (x.t_2@ + (x.t_hat@ + (x.tau_x@ + (x.mu@ + (x.c@ + (x.s_r@ + (ipp_layout(x.ip_proof))))))))))))))))));
                }
            }
            return Err(e);
        },
    };
    proof {
        assert forall|x: ZerosolProof| zerosol_proof_fits(x) && #[trigger] layout_at(data@, pos as int, zerosol_proof_layout(x)) implies layout_at(data@, p4 as int, vec32_layout(x.crn_g@) + (vec32_layout(x.c_0g@) + (vec32_layout(x.dg@) + (vec32_layout(x.y_0g@) + (vec32_layout(x.gg@) + (vec32_layout(x.c_xg@) + (vec32_layout(x.y_xg@) + (vec32_layout(x.f@) + (x.z_a@ + (x.t_1@ + (x.t_2@ + (x.t_hat@ + (x.tau_x@ + (x.mu@ + (x.c@ + (x.s_r@ + (ipp_layout(x.ip_proof)))))))))))))))))) && p4 + (vec32_layout(x.crn_g@) + (vec32_layout(x.c_0g@) + (vec32_layout(x.dg@) + (vec32_layout(x.y_0g@) + (vec32_layout(x.gg@) + (vec32_layout(x.c_xg@) + (vec32_layout(x.y_xg@) + (vec32_layout(x.f@) + (x.z_a@ + (x.t_1@ + (x.t_2@ + (x.t_hat@ + (x.tau_x@ + (x.mu@ + (x.c@ + (x.s_r@ + (ipp_layout(x.ip_proof)))))))))))))))))).len() == pos + (zerosol_proof_layout(x)).len() by {
             lemma_peel(data@, p3 as int, vec32_layout(x.cln_g@), vec32_layout(x.crn_g@) + (vec32_layout(x.c_0g@) + (vec32_layout(x.dg@) + (vec32_layout(x.y_0g@) + (vec32_layout(x.gg@) + (vec32_layout(x.c_xg@) + (vec32_layout(x.y_xg@) + (vec32_layout(x.f@) + (x.z_a@ + (x.t_1@ + (x.t_2@ + (x.t_hat@ + (x.tau_x@ + (x.mu@ + (x.c@ + (x.s_r@ + (ipp_layout(x.ip_proof))))))))))))))))));
        }
    }
    let (crn_g, p5) = match take_vec32(data, p4) {
        Ok(v) => v,
        Err(e) => {
            proof {
                assert forall|x: ZerosolProof| zerosol_proof_fits(x) && #[trigger] layout_at(data@, pos as int, zerosol_proof_layout(x)) implies false by {
                     lemma_peel(data@, p4 as int, vec32_layout(x.crn_g@), vec32_layout(x.c_0g@) + (vec32_layout(x.dg@) + (vec32_layout(x.y_0g@) + (vec32_layout(x.gg@) + (vec32_layout(x.c_xg@) + (vec32_layout(x.y_xg@) + (vec32_layout(x.f@) + (x.z_a@ + (x.t_1@ + (x.t_2@ + (x.t_hat@ + (x.tau_x@ + (x.mu@ + (x.c@ + (x.s_r@ + (ipp_layout(x.ip_proof)))))))))))))))));
                }
            }
            return Err(e);
        },
    };
    proof {
        assert forall|x: ZerosolProof| zerosol_proof_fits(x) && #[trigger] layout_at(data@, pos as int, zerosol_proof_layout(x)) implies layout_at(data@, p5 as int, vec32_layout(x.c_0g@) + (vec32_layout(x.dg@) + (vec32_layout(x.y_0g@) + (vec32_layout(x.gg@) + (vec32_layout(x.c_xg@) + (vec32_layout(x.y_xg@) + (vec32_layout(x.f@) + (x.z_a@ + (x.t_1@ + (x.t_2@ + (x.t_hat@ + (x.tau_x@ + (x.mu@ + (x.c@ + (x.s_r@ + (ipp_layout(x.ip_proof))))))))))))))))) && p5 + (vec32_layout(x.c_0g@) + (vec32_layout(x.dg@) + (vec32_layout(x.y_0g@) + (vec32_layout(x.gg@) + (vec32_layout(x.c_xg@) + (vec32_layout(x.y_xg@) + (vec32_layout(x.f@) + (x.z_a@ + (x.t_1@ + (x.t_2@ + (x.t_hat@ + (x.tau_x@ + (x.mu@ + (x.c@ + (x.s_r@ + (ipp_layout(x.ip_proof))))))))))))))))).len() == pos + (zerosol_proof_layout(x)).len() by {
             lemma_peel(data@, p4 as int, vec32_layout(x.crn_g@), vec32_layout(x.c_0g@) + (vec32_layout(x.dg@) + (vec32_layout(x.y_0g@) + (vec32_layout(x.gg@) + (vec32_layout(x.c_xg@) + (vec32_layout(x.y_xg@) + (vec32_layout(x.f@) + (x.z_a@ + (x.t_1@ + (x.t_2@ + (x.t_hat@ + (x.tau_x@ + (x.mu@ + (x.c@ + (x.s_r@ + (ipp_layout(x.ip_proof)))))))))))))))));
        }
    }
    let (c_0g, p6) = match take_vec32(data, p5) {
        Ok(v) => v,
        Err(e) => {
            proof {
                assert forall|x: ZerosolProof| zerosol_proof_fits(x) && #[trigger] layout_at(data@, pos as int, zerosol_proof_layout(x)) implies false by {
                     lemma_peel(data@, p5 as int, vec32_layout(x.c_0g@), vec32_layout(x.dg@) + (vec32_layout(x.y_0g@) + (vec32_layout(x.gg@) + (vec32_layout(x.c_xg@) + (vec32_layout(x.y_xg@) + (vec32_layout(x.f@) + (x.z_a@ + (x.t_1@ + (x.t_2@ + (x.t_hat@ + (x.tau_x@ + (x.mu@ + (x.c@ + (x.s_r@ + (ipp_layout(x.ip_proof))))))))))))))));
                }
            }
            return Err(e);
        },
    };
    proof {
        assert forall|x: ZerosolProof| zerosol_proof_fits(x) && #[trigger] layout_at(data@, pos as int, zerosol_proof_layout(x)) implies layout_at(data@, p6 as int, vec32_layout(x.dg@) + (vec32_layout(x.y_0g@) + (vec32_layout(x.gg@) + (vec32_layout(x.c_xg@) + (vec32_layout(x.y_xg@) + (vec32_layout(x.f@) + (x.z_a@ + (x.t_1@ + (x.t_2@ + (x.t_hat@ + (x.tau_x@ + (x.mu@ + (x.c@ + (x.s_r@ + (ipp_layout(x.ip_proof)))))))))))))))) && p6 + (vec32_layout(x.dg@) + (vec32_layout(x.y_0g@) + (vec32_layout(x.gg@) + (vec32_layout(x.c_xg@) + (vec32_layout(x.y_xg@) + (vec32_layout(x.f@) + (x.z_a@ + (x.t_1@ + (x.t_2@ + (x.t_hat@ + (x.tau_x@ + (x.mu@ + (x.c@ + (x.s_r@ + (ipp_layout(x.ip_proof)))))))))))))))).len() == pos + (zerosol_proof_layout(x)).len() by {
             lemma_peel(data@, p5 as int, vec32_layout(x.c_0g@), vec32_layout(x.dg@) + (vec32_layout(x.y_0g@) + (vec32_layout(x.gg@) + (vec32_layout(x.c_xg@) + (vec32_layout(x.y_xg@) + (vec32_layout(x.f@) + (x.z_a@ + (x.t_1@ + (x.t_2@ + (x.t_hat@ + (x.tau_x@ + (x.mu@ + (x.c@ + (x.s_r@ + (ipp_layout(x.ip_proof))))))))))))))));
        }
    }
    let (dg, p7) = match take_vec32(data, p6) {
        Ok(v) => v,
        Err(e) => {
            proof {
                assert forall|x: ZerosolProof| zerosol_proof_fits(x) && #[trigger] layout_at(data@, pos as int, zerosol_proof_layout(x)) implies false by {
                     lemma_peel(data@, p6 as int, vec32_layout(x.dg@), vec32_layout(x.y_0g@) + (vec32_layout(x.gg@) + (vec32_layout(x.c_xg@) + (vec32_layout(x.y_xg@) + (vec32_layout(x.f@) + (x.z_a@ + (x.t_1@ + (x.t_2@ + (x.t_hat@ + (x.tau_x@ + (x.mu@ + (x.c@ + (x.s_r@ + (ipp_layout(x.ip_proof)))))))))))))));
                }
            }
            return Err(e);
        },
    };
    proof {
        assert forall|x: ZerosolProof| zerosol_proof_fits(x) && #[trigger] layout_at(data@, pos as int, zerosol_proof_layout(x)) implies layout_at(data@, p7 as int, vec32_layout(x.y_0g@) + (vec32_layout(x.gg@) + (vec32_layout(x.c_xg@) + (vec32_layout(x.y_xg@) + (vec32_layout(x.f@) + (x.z_a@ + (x.t_1@ + (x.t_2@ + (x.t_hat@ + (x.tau_x@ + (x.mu@ + (x.c@ + (x.s_r@ + (ipp_layout(x.ip_proof))))))))))))))) && p7 + (vec32_layout(x.y_0g@) + (vec32_layout(x.gg@) + (vec32_layout(x.c_xg@) + (vec32_layout(x.y_xg@) + (vec32_layout(x.f@) + (x.z_a@ + (x.t_1@ + (x.t_2@ + (x.t_hat@ + (x.tau_x@ + (x.mu@ + (x.c@ + (x.s_r@ + (ipp_layout(x.ip_proof))))))))))))))).len() == pos + (zerosol_proof_layout(x)).len() by {
             lemma_peel(data@, p6 as int, vec32_layout(x.dg@), vec32_layout(x.y_0g@) + (vec32_layout(x.gg@) + (vec32_layout(x.c_xg@) + (vec32_layout(x.y_xg@) + (vec32_layout(x.f@) + (x.z_a@ + (x.t_1@ + (x.t_2@ + (x.t_hat@ + (x.tau_x@ + (x.mu@ + (x.c@ + (x.s_r@ + (ipp_layout(x.ip_proof)))))))))))))));
        }
    }
    let (y_0g, p8) = match take_vec32(data, p7) {
        Ok(v) => v,
        Err(e) => {
            proof {
                assert forall|x: ZerosolProof| zerosol_proof_fits(x) && #[trigger] layout_at(data@, pos as int, zerosol_proof_layout(x)) implies false by {
                     lemma_peel(data@, p7 as int, vec32_layout(x.y_0g@), vec32_layout(x.gg@) + (vec32_layout(x.c_xg@) + (vec32_layout(x.y_xg@) + (vec32_layout(x.f@) + (x.z_a@ + (x.t_1@ + (x.t_2@ + (x.t_hat@ + (x.tau_x@ + (x.mu@ + (x.c@ + (x.s_r@ + (ipp_layout(x.ip_proof))))))))))))));
                }
            }
            return Err(e);
        },
    };
    proof {
        assert forall|x: ZerosolProof| zerosol_proof_fits(x) && #[trigger] layout_at(data@, pos as int, zerosol_proof_layout(x)) implies layout_at(data@, p8 as int, vec32_layout(x.gg@) + (vec32_layout(x.c_xg@) + (vec32_layout(x.y_xg@) + (vec32_layout(x.f@) + (x.z_a@ + (x.t_1@ + (x.t_2@ + (x.t_hat@ + (x.tau_x@ + (x.mu@ + (x.c@ + (x.s_r@ + (ipp_layout(x.ip_proof)))))))))))))) && p8 + (vec32_layout(x.gg@) + (vec32_layout(x.c_xg@) + (vec32_layout(x.y_xg@) + (vec32_layout(x.f@) + (x.z_a@ + (x.t_1@ + (x.t_2@ + (x.t_hat@ + (x.tau_x@ + (x.mu@ + (x.c@ + (x.s_r@ + (ipp_layout(x.ip_proof)))))))))))))).len() == pos + (zerosol_proof_layout(x)).len() by {
             lemma_peel(data@, p7 as int, vec32_layout(x.y_0g@), vec32_layout(x.gg@) + (vec32_layout(x.c_xg@) + (vec32_layout(x.y_xg@) + (vec32_layout(x.f@) + (x.z_a@ + (x.t_1@ + (x.t_2@ + (x.t_hat@ + (x.tau_x@ + (x.mu@ + (x.c@ + (x.s_r@ + (ipp_layout(x.ip_proof))))))))))))));
        }
    }
    let (gg, p9) = match take_vec32(data, p8) {
        Ok(v) => v,
        Err(e) => {
            proof {
                assert forall|x: ZerosolProof| zerosol_proof_fits(x) && #[trigger] layout_at(data@, pos as int, zerosol_proof_layout(x)) implies false by {
                     lemma_peel(data@, p8 as int, vec32_layout(x.gg@), vec32_layout(x.c_xg@) + (vec32_layout(x.y_xg@) + (vec32_layout(x.f@) + (x.z_a@ + (x.t_1@ + (x.t_2@ + (x.t_hat@ + (x.tau_x@ + (x.mu@ + (x.c@ + (x.s_r@ + (ipp_layout(x.ip_proof)))))))))))));
                }
            }
            return Err(e);
        },
    };
    proof {
        assert forall|x: ZerosolProof| zerosol_proof_fits(x) && #[trigger] layout_at(data@, pos as int, zerosol_proof_layout(x)) implies layout_at(data@, p9 as int, vec32_layout(x.c_xg@) + (vec32_layout(x.y_xg@) + (vec32_layout(x.f@) + (x.z_a@ + (x.t_1@ + (x.t_2@ + (x.t_hat@ + (x.tau_x@ + (x.mu@ + (x.c@ + (x.s_r@ + (ipp_layout(x.ip_proof))))))))))))) && p9 + (vec32_layout(x.c_xg@) + (vec32_layout(x.y_xg@) + (vec32_layout(x.f@) + (x.z_a@ + (x.t_1@ + (x.t_2@ + (x.t_hat@ + (x.tau_x@ + (x.mu@ + (x.c@ + (x.s_r@ + (ipp_layout(x.ip_proof))))))))))))).len() == pos + (zerosol_proof_layout(x)).len() by {
             lemma_peel(data@, p8 as int, vec32_layout(x.gg@), vec32_layout(x.c_xg@) + (vec32_layout(x.y_xg@) + (vec32_layout(x.f@) + (x.z_a@ + (x.t_1@ + (x.t_2@ + (x.t_hat@ + (x.tau_x@ + (x.mu@ + (x.c@ + (x.s_r@ + (ipp_layout(x.ip_proof)))))))))))));
        }
    }
    let (c_xg, p10) = match take_vec32(data, p9) {
        Ok(v) => v,
        Err(e) => {
            proof {
                assert forall|x: ZerosolProof| zerosol_proof_fits(x) && #[trigger] layout_at(data@, pos as int, zerosol_proof_layout(x)) implies false by {
                     lemma_peel(data@, p9 as int, vec32_layout(x.c_xg@), vec32_layout(x.y_xg@) + (vec32_layout(x.f@) + (x.z_a@ + (x.t_1@ + (x.t_2@ + (x.t_hat@ + (x.tau_x@ + (x.mu@ + (x.c@ + (x.s_r@ + (ipp_layout(x.ip_proof))))))))))));
                }
            }
            return Err(e);
        },
    };
    proof {
        assert forall|x: ZerosolProof| zerosol_proof_fits(x) && #[trigger] layout_at(data@, pos as int, zerosol_proof_layout(x)) implies layout_at(data@, p10 as int, vec32_layout(x.y_xg@) + (vec32_layout(x.f@) + (x.z_a@ + (x.t_1@ + (x.t_2@ + (x.t_hat@ + (x.tau_x@ + (x.mu@ + (x.c@ + (x.s_r@ + (ipp_layout(x.ip_proof)))))))))))) && p10 + (vec32_layout(x.y_xg@) + (vec32_layout(x.f@) + (x.z_a@ + (x.t_1@ + (x.t_2@ + (x.t_hat@ + (x.tau_x@ + (x.mu@ + (x.c@ + (x.s_r@ + (ipp_layout(x.ip_proof)))))))))))).len() == pos + (zerosol_proof_layout(x)).len() by {
             lemma_peel(data@, p9 as int, vec32_layout(x.c_xg@), vec32_layout(x.y_xg@) + (vec32_layout(x.f@) + (x.z_a@ + (x.t_1@ + (x.t_2@ + (x.t_hat@ + (x.tau_x@ + (x.mu@ + (x.c@ + (x.s_r@ + (ipp_layout(x.ip_proof))))))))))));
        }
    }
    let (y_xg, p11) = match take_vec32(data, p10) {
        Ok(v) => v,
        Err(e) => {
            proof {
                assert forall|x: ZerosolProof| zerosol_proof_fits(x) && #[trigger] layout_at(data@, pos as int, zerosol_proof_layout(x)) implies false by {
                     lemma_peel(data@, p10 as int, vec32_layout(x.y_xg@), vec32_layout(x.f@) + (x.z_a@ + (x.t_1@ + (x.t_2@ + (x.t_hat@ + (x.tau_x@ + (x.mu@ + (x.c@ + (x.s_r@ + (ipp_layout(x.ip_proof)))))))))));
                }
            }
            return Err(e);
        },
    };
    proof {
        assert forall|x: ZerosolProof| zerosol_proof_fits(x) && #[trigger] layout_at(data@, pos as int, zerosol_proof_layout(x)) implies layout_at(data@, p11 as int, vec32_layout(x.f@) + (x.z_a@ + (x.t_1@ + (x.t_2@ + (x.t_hat@ + (x.tau_x@ + (x.mu@ + (x.c@ + (x.s_r@ + (ipp_layout(x.ip_proof))))))))))) && p11 + (vec32_layout(x.f@) + (x.z_a@ + (x.t_1@ + (x.t_2@ + (x.t_hat@ + (x.tau_x@ + (x.mu@ + (x.c@ + (x.s_r@ + (ipp_layout(x.ip_proof))))))))))).len() == pos + (zerosol_proof_layout(x)).len() by {
             lemma_peel(data@, p10 as int, vec32_layout(x.y_xg@), vec32_layout(x.f@) + (x.z_a@ + (x.t_1@ + (x.t_2@ + (x.t_hat@ + (x.tau_x@ + (x.mu@ + (x.c@ + (x.s_r@ + (ipp_layout(x.ip_proof)))))))))));
        }
    }
    let (f, p12) = match take_vec32(data, p11) {
        Ok(v) => v,
        Err(e) => {
            proof {
                assert forall|x: ZerosolProof| zerosol_proof_fits(x) && #[trigger] layout_at(data@, pos as int, zerosol_proof_layout(x)) implies false by {
                     lemma_peel(data@, p11 as int, vec32_layout(x.f@), x.z_a@ + (x.t_1@ + (x.t_2@ + (x.t_hat@ + (x.tau_x@ + (x.mu@ + (x.c@ + (x.s_r@ + (ipp_layout(x.ip_proof))))))))));
                }
            }
            return Err(e);
        },
    };
    proof {
        assert forall|x: ZerosolProof| zerosol_proof_fits(x) && #[trigger] layout_at(data@, pos as int, zerosol_proof_layout(x)) implies layout_at(data@, p12 as int, x.z_a@ + (x.t_1@ + (x.t_2@ + (x.t_hat@ + (x.tau_x@ + (x.mu@ + (x.c@ + (x.s_r@ + (ipp_layout(x.ip_proof)))))))))) && p12 + (x.z_a@ + (x.t_1@ + (x.t_2@ + (x.t_hat@ + (x.tau_x@ + (x.mu@ + (x.c@ + (x.s_r@ + (ipp_layout(x.ip_proof)))))))))).len() == pos + (zerosol_proof_layout(x)).len() by {
             lemma_peel(data@, p11 as int, vec32_layout(x.f@), x.z_a@ + (x.t_1@ + (x.t_2@ + (x.t_hat@ + (x.tau_x@ + (x.mu@ + (x.c@ + (x.s_r@ + (ipp_layout(x.ip_proof))))))))));
        }
    }
    let (z_a, p13) = match take32(data, p12) {
        Ok(v) => v,
        Err(e) => {
            proof {
                assert forall|x: ZerosolProof| zerosol_proof_fits(x) && #[trigger] layout_at(data@, pos as int, zerosol_proof_layout(x)) implies false by {
                     lemma_peel(data@, p12 as int, x.z_a@, x.t_1@ + (x.t_2@ + (x.t_hat@ + (x.tau_x@ + (x.mu@ + (x.c@ + (x.s_r@ + (ipp_layout(x.ip_proof)))))))));
                }
            }
            return Err(e);
        },
    };
    proof {
        assert forall|x: ZerosolProof| zerosol_proof_fits(x) && #[trigger] layout_at(data@, pos as int, zerosol_proof_layout(x)) implies layout_at(data@, p13 as int, x.t_1@ + (x.t_2@ + (x.t_hat@ + (x.tau_x@ + (x.mu@ + (x.c@ + (x.s_r@ + (ipp_layout(x.ip_proof))))))))) && p13 + (x.t_1@ + (x.t_2@ + (x.t_hat@ + (x.tau_x@ + (x.mu@ + (x.c@ + (x.s_r@ + (ipp_layout(x.ip_proof))))))))).len() == pos + (zerosol_proof_layout(x)).len() by {
             lemma_peel(data@, p12 as int, x.z_a@, x.t_1@ + (x.t_2@ + (x.t_hat@ + (x.tau_x@ + (x.mu@ + (x.c@ + (x.s_r@ + (ipp_layout(x.ip_proof)))))))));
        }
    }
    let (t_1, p14) = match take32(data, p13) {
        Ok(v) => v,
        Err(e) => {
            proof {
                assert forall|x: ZerosolProof| zerosol_proof_fits(x) && #[trigger] layout_at(data@, pos as int, zerosol_proof_layout(x)) implies false by {
                     lemma_peel(data@, p13 as int, x.t_1@, x.t_2@ + (x.t_hat@ + (x.tau_x@ + (x.mu@ + (x.c@ + (x.s_r@ + (ipp_layout(x.ip_proof))))))));
                }
            }
            return Err(e);
        },
    };
    proof {
        assert forall|x: ZerosolProof| zerosol_proof_fits(x) && #[trigger] layout_at(data@, pos as int, zerosol_proof_layout(x)) implies layout_at(data@, p14 as int, x.t_2@ + (x.t_hat@ + (x.tau_x@ + (x.mu@ + (x.c@ + (x.s_r@ + (ipp_layout(x.ip_proof)))))))) && p14 + (x.t_2@ + (x.t_hat@ + (x.tau_x@ + (x.mu@ + (x.c@ + (x.s_r@ + (ipp_layout(x.ip_proof)))))))).len() == pos + (zerosol_proof_layout(x)).len() by {
             lemma_peel(data@, p13 as int, x.t_1@, x.t_2@ + (x.t_hat@ + (x.tau_x@ + (x.mu@ + (x.c@ + (x.s_r@ + (ipp_layout(x.ip_proof))))))));
        }
    }
    let (t_2, p15) = match take32(data, p14) {
        Ok(v) => v,
        Err(e) => {
            proof {
                assert forall|x: ZerosolProof| zerosol_proof_fits(x) && #[trigger] layout_at(data@, pos as int, zerosol_proof_layout(x)) implies false by {
                     lemma_peel(data@, p14 as int, x.t_2@, x.t_hat@ + (x.tau_x@ + (x.mu@ + (x.c@ + (x.s_r@ + (ipp_layout(x.ip_proof)))))));
                }
            }
            return Err(e);
        },
    };
    proof {
        assert forall|x: ZerosolProof| zerosol_proof_fits(x) && #[trigger] layout_at(data@, pos as int, zerosol_proof_layout(x)) implies layout_at(data@, p15 as int, x.t_hat@ + (x.tau_x@ + (x.mu@ + (x.c@ + (x.s_r@ + (ipp_layout(x.ip_proof))))))) && p15 + (x.t_hat@ + (x.tau_x@ + (x.mu@ + (x.c@ + (x.s_r@ + (ipp_layout(x.ip_proof))))))).len() == pos + (zerosol_proof_layout(x)).len() by {
             lemma_peel(data@, p14 as int, x.t_2@, x.t_hat@ + (x.tau_x@ + (x.mu@ + (x.c@ + (x.s_r@ + (ipp_layout(x.ip_proof)))))));
        }
    }
    let (t_hat, p16) = match take32(data, p15) {
        Ok(v) => v,
        Err(e) => {
            proof {
                assert forall|x: ZerosolProof| zerosol_proof_fits(x) && #[trigger] layout_at(data@, pos as int, zerosol_proof_layout(x)) implies false by {
                     lemma_peel(data@, p15 as int, x.t_hat@, x.tau_x@ + (x.mu@ + (x.c@ + (x.s_r@ + (ipp_layout(x.ip_proof))))));
                }
            }
            return Err(e);
        },
    };
    proof {
        assert forall|x: ZerosolProof| zerosol_proof_fits(x) && #[trigger] layout_at(data@, pos as int, zerosol_proof_layout(x)) implies layout_at(data@, p16 as int, x.tau_x@ + (x.mu@ + (x.c@ + (x.s_r@ + (ipp_layout(x.ip_proof)))))) && p16 + (x.tau_x@ + (x.mu@ + (x.c@ + (x.s_r@ + (ipp_layout(x.ip_proof)))))).len() == pos + (zerosol_proof_layout(x)).len() by {
             lemma_peel(data@, p15 as int, x.t_hat@, x.tau_x@ + (x.mu@ + (x.c@ + (x.s_r@ + (ipp_layout(x.ip_proof))))));
        }
    }
    let (tau_x, p17) = match take32(data, p16) {
        Ok(v) => v,
        Err(e) => {
            proof {
                assert forall|x: ZerosolProof| zerosol_proof_fits(x) && #[trigger] layout_at(data@, pos as int, zerosol_proof_layout(x)) implies false by {
                     lemma_peel(data@, p16 as int, x.tau_x@, x.mu@ + (x.c@ + (x.s_r@ + (ipp_layout(x.ip_proof)))));
                }
            }
            return Err(e);
        },
    };
    proof {
        assert forall|x: ZerosolProof| zerosol_proof_fits(x) && #[trigger] layout_at(data@, pos as int, zerosol_proof_layout(x)) implies layout_at(data@, p17 as int, x.mu@ + (x.c@ + (x.s_r@ + (ipp_layout(x.ip_proof))))) && p17 + (x.mu@ + (x.c@ + (x.s_r@ + (ipp_layout(x.ip_proof))))).len() == pos + (zerosol_proof_layout(x)).len() by {
             lemma_peel(data@, p16 as int, x.tau_x@, x.mu@ + (x.c@ + (x.s_r@ + (ipp_layout(x.ip_proof)))));
        }
    }
    let (mu, p18) = match take32(data, p17) {
        Ok(v) => v,
        Err(e) => {
            proof {
                assert forall|x: ZerosolProof| zerosol_proof_fits(x) && #[trigger] layout_at(data@, pos as int, zerosol_proof_layout(x)) implies false by {
                     lemma_peel(data@, p17 as int, x.mu@, x.c@ + (x.s_r@ + (ipp_layout(x.ip_proof))));
                }
            }
            return Err(e);
        },
    };
    proof {
        assert forall|x: ZerosolProof| zerosol_proof_fits(x) && #[trigger] layout_at(data@, pos as int, zerosol_proof_layout(x)) implies layout_at(data@, p18 as int, x.c@ + (x.s_r@ + (ipp_layout(x.ip_proof)))) && p18 + (x.c@ + (x.s_r@ + (ipp_layout(x.ip_proof)))).len() == pos + (zerosol_proof_layout(x)).len() by {
             lemma_peel(data@, p17 as int, x.mu@, x.c@ + (x.s_r@ + (ipp_layout(x.ip_proof))));
        }
    }
    let (c, p19) = match take32(data, p18) {
        Ok(v) => v,
        Err(e) => {
            proof {
                assert forall|x: ZerosolProof| zerosol_proof_fits(x) && #[trigger] layout_at(data@, pos as int, zerosol_proof_layout(x)) implies false by {
                     lemma_peel(data@, p18 as int, x.c@, x.s_r@ + (ipp_layout(x.ip_proof)));
                }
            }
            return Err(e);
        },
    };
    proof {
        assert forall|x: ZerosolProof| zerosol_proof_fits(x) && #[trigger] layout_at(data@, pos as int, zerosol_proof_layout(x)) implies layout_at(data@, p19 as int, x.s_r@ + (ipp_layout(x.ip_proof))) && p19 + (x.s_r@ + (ipp_layout(x.ip_proof))).len() == pos + (zerosol_proof_layout(x)).len() by {
             lemma_peel(data@, p18 as int, x.c@, x.s_r@ + (ipp_layout(x.ip_proof)));
        }
    }
    let (s_r, p20) = match take32(data, p19) {
        Ok(v) => v,
        Err(e) => {
            proof {
                assert forall|x: ZerosolProof| zerosol_proof_fits(x) && #[trigger] layout_at(data@, pos as int, zerosol_proof_layout(x)) implies false by {
                     lemma_peel(data@, p19 as int, x.s_r@, ipp_layout(x.ip_proof));
                }
            }
            return Err(e);
        },
    };
    proof {
        assert forall|x: ZerosolProof| zerosol_proof_fits(x) && #[trigger] layout_at(data@, pos as int, zerosol_proof_layout(x)) implies layout_at(data@, p20 as int, ipp_layout(x.ip_proof)) && p20 + (ipp_layout(x.ip_proof)).len() == pos + (zerosol_proof_layout(x)).len() by {
             lemma_peel(data@, p19 as int, x.s_r@, ipp_layout(x.ip_proof));
        }
    }
    let (ip_proof, p21) = match parse_ipp(data, p20) {
        Ok(v) => v,
        Err(e) => {
            proof {
                assert forall|x: ZerosolProof| zerosol_proof_fits(x) && #[trigger] layout_at(data@, pos as int, zerosol_proof_layout(x)) implies false by {
                     
                }
            }
            return Err(e);
        },
    };
    proof {
        assert forall|x: ZerosolProof| zerosol_proof_fits(x) && #[trigger] layout_at(data@, pos as int, zerosol_proof_layout(x)) implies p21 == pos + (zerosol_proof_layout(x)).len() by {
             
        }
    }
    let x = ZerosolProof { ba, bs, a, b, cln_g, crn_g, c_0g, dg, y_0g, gg, c_xg, y_xg, f, z_a, t_1, t_2, t_hat, tau_x, mu, c, s_r, ip_proof };
    proof {
        lemma_split(data@, p19 as int, p20 as int, p21 as int);
        lemma_split(data@, p18 as int, p19 as int, p21 as int);
        lemma_split(data@, p17 as int, p18 as int, p21 as int);
        lemma_split(data@, p16 as int, p17 as int, p21 as int);
        lemma_split(data@, p15 as int, p16 as int, p21 as int);
        lemma_split(data@, p14 as int, p15 as int, p21 as int);
        lemma_split(data@, p13 as int, p14 as int, p21 as int);
        lemma_split(data@, p12 as int, p13 as int, p21 as int);
        lemma_split(data@, p11 as int, p12 as int, p21 as int);
        lemma_split(data@, p10 as int, p11 as int, p21 as int);
        lemma_split(data@, p9 as int, p10 as int, p21 as int);
        lemma_split(data@, p8 as int, p9 as int, p21 as int);
        lemma_split(data@, p7 as int, p8 as int, p21 as int);
        lemma_split(data@, p6 as int, p7 as int, p21 as int);
        lemma_split(data@, p5 as int, p6 as int, p21 as int);
        lemma_split(data@, p4 as int, p5 as int, p21 as int);
        lemma_split(data@, p3 as int, p4 as int, p21 as int);
        lemma_split(data@, p2 as int, p3 as int, p21 as int);
        lemma_split(data@, p1 as int, p2 as int, p21 as int);
        lemma_split(data@, p0 as int, p1 as int, p21 as int);
        lemma_split(data@, pos as int, p0 as int, p21 as int);
    }
    Ok((x, p21))
}

fn parse_burn_proof(data: &[u8], pos: usize) -> (r: Result<(BurnProof, usize), ZerosolError>)
    requires
        pos <= data@.len(),
    ensures
        r matches Ok((x, p)) ==> pos <= p <= data@.len() && data@.subrange(pos as int, p as int)
            == burn_proof_layout(x),
        r.is_err() ==> r == Err::<(BurnProof, usize), ZerosolError>(ZerosolError::InvalidInstruction),
        forall|x: BurnProof| burn_proof_fits(x) && #[trigger] layout_at(data@, pos as int, burn_proof_layout(x)) ==> (r matches Ok((_, p)) && p == pos + (burn_proof_layout(x)).len()),
{
    let (ba, p0) = match take32(data, pos) {
        Ok(v) => v,
        Err(e) => {
            proof {
                assert forall|x: BurnProof| burn_proof_fits(x) && #[trigger] layout_at(data@, pos as int, burn_proof_layout(x)) implies false by {
                     lemma_peel(data@, pos as int, x.ba@, x.bs@ + (x.t_1@ + (x.t_2@ + (x.t_hat@ + (x.tau_x@ + (x.mu@ + (x.commitment@ + (x.c@ + (x.s_sk@ + (x.s_b@ + (x.s_tau@ + (ipp_layout(x.ip_proof)))))))))))));
                }
            }
            return Err(e);
        },
    };
    proof {
        assert forall|x: BurnProof| burn_proof_fits(x) && #[trigger] layout_at(data@, pos as int, burn_proof_layout(x)) implies layout_at(data@, p0 as int, x.bs@ + (x.t_1@ + (x.t_2@ + (x.t_hat@ + (x.tau_x@ + (x.mu@ + (x.commitment@ + (x.c@ + (x.s_sk@ + (x.s_b@ + (x.s_tau@ + (ipp_layout(x.ip_proof))))))))))))) && p0 + (x.bs@ + (x.t_1@ + (x.t_2@ + (x.t_hat@ + (x.tau_x@ + (x.mu@ + (x.commitment@ + (x.c@ + (x.s_sk@ + (x.s_b@ + (x.s_tau@ + (ipp_layout(x.ip_proof))))))))))))).len() == pos + (burn_proof_layout(x)).len() by {
             lemma_peel(data@, pos as int, x.ba@, x.bs@ + (x.t_1@ + (x.t_2@ + (x.t_hat@ + (x.tau_x@ + (x.mu@ + (x.commitment@ + (x.c@ + (x.s_sk@ + (x.s_b@ + (x.s_tau@ + (ipp_layout(x.ip_proof)))))))))))));
        }
    }
    let (bs, p1) = match take32(data, p0) {
        Ok(v) => v,
        Err(e) => {
            proof {
                assert forall|x: BurnProof| burn_proof_fits(x) && #[trigger] layout_at(data@, pos as int, burn_proof_layout(x)) implies false by {
                     lemma_peel(data@, p0 as int, x.bs@, x.t_1@ + (x.t_2@ + (x.t_hat@ + (x.tau_x@ + (x.mu@ + (x.commitment@ + (x.c@ + (x.s_sk@ + (x.s_b@ + (x.s_tau@ + (ipp_layout(x.ip_proof))))))))))));
                }
            }
            return Err(e);
        },
    };
    proof {
        assert forall|x: BurnProof| burn_proof_fits(x) && #[trigger] layout_at(data@, pos as int, burn_proof_layout(x)) implies layout_at(data@, p1 as int, x.t_1@ + (x.t_2@ + (x.t_hat@ + (x.tau_x@ + (x.mu@ + (x.commitment@ + (x.c@ + (x.s_sk@ + (x.s_b@ + (x.s_tau@ + (ipp_layout(x.ip_proof)))))))))))) && p1 + (x.t_1@ + (x.t_2@ + (x.t_hat@ + (x.tau_x@ + (x.mu@ + (x.commitment@ + (x.c@ + (x.s_sk@ + (x.s_b@ + (x.s_tau@ + (ipp_layout(x.ip_proof)))))))))))).len() == pos + (burn_proof_layout(x)).len() by {
             lemma_peel(data@, p0 as int, x.bs@, x.t_1@ + (x.t_2@ + (x.t_hat@ + (x.tau_x@ + (x.mu@ + (x.commitment@ + (x.c@ + (x.s_sk@ + (x.s_b@ + (x.s_tau@ + (ipp_layout(x.ip_proof))))))))))));
        }
    }
    let (t_1, p2) = match take32(data, p1) {
        Ok(v) => v,
        Err(e) => {
            proof {
                assert forall|x: BurnProof| burn_proof_fits(x) && #[trigger] layout_at(data@, pos as int, burn_proof_layout(x)) implies false by {
                     lemma_peel(data@, p1 as int, x.t_1@, x.t_2@ + (x.t_hat@ + (x.tau_x@ + (x.mu@ + (x.commitment@ + (x.c@ + (x.s_sk@ + (x.s_b@ + (x.s_tau@ + (ipp_layout(x.ip_proof)))))))))));
                }
            }
            return Err(e);
        },
    };
    proof {
        assert forall|x: BurnProof| burn_proof_fits(x) && #[trigger] layout_at(data@, pos as int, burn_proof_layout(x)) implies layout_at(data@, p2 as int, x.t_2@ + (x.t_hat@ + (x.tau_x@ + (x.mu@ + (x.commitment@ + (x.c@ + (x.s_sk@ + (x.s_b@ + (x.s_tau@ + (ipp_layout(x.ip_proof))))))))))) && p2 + (x.t_2@ + (x.t_hat@ + (x.tau_x@ + (x.mu@ + (x.commitment@ + (x.c@ + (x.s_sk@ + (x.s_b@ + (x.s_tau@ + (ipp_layout(x.ip_proof))))))))))).len() == pos + (burn_proof_layout(x)).len() by {
             lemma_peel(data@, p1 as int, x.t_1@, x.t_2@ + (x.t_hat@ + (x.tau_x@ + (x.mu@ + (x.commitment@ + (x.c@ + (x.s_sk@ + (x.s_b@ + (x.s_tau@ + (ipp_layout(x.ip_proof)))))))))));
        }
    }
    let (t_2, p3) = match take32(data, p2) {
        Ok(v) => v,
        Err(e) => {
            proof {
                assert forall|x: BurnProof| burn_proof_fits(x) && #[trigger] layout_at(data@, pos as int, burn_proof_layout(x)) implies false by {
                     lemma_peel(data@, p2 as int, x.t_2@, x.t_hat@ + (x.tau_x@ + (x.mu@ + (x.commitment@ + (x.c@ + (x.s_sk@ + (x.s_b@ + (x.s_tau@ + (ipp_layout(x.ip_proof))))))))));
                }
            }
            return Err(e);
        },
    };
    proof {
        assert forall|x: BurnProof| burn_proof_fits(x) && #[trigger] layout_at(data@, pos as int, burn_proof_layout(x)) implies layout_at(data@, p3 as int, x.t_hat@ + (x.tau_x@ + (x.mu@ + (x.commitment@ + (x.c@ + (x.s_sk@ + (x.s_b@ + (x.s_tau@ + (ipp_layout(x.ip_proof)))))))))) && p3 + (x.t_hat@ + (x.tau_x@ + (x.mu@ + (x.commitment@ + (x.c@ + (x.s_sk@ + (x.s_b@ + (x.s_tau@ + (ipp_layout(x.ip_proof)))))))))).len() == pos + (burn_proof_layout(x)).len() by {
             lemma_peel(data@, p2 as int, x.t_2@, x.t_hat@ + (x.tau_x@ + (x.mu@ + (x.commitment@ + (x.c@ + (x.s_sk@ + (x.s_b@ + (x.s_tau@ + (ipp_layout(x.ip_proof))))))))));
        }
    }
    let (t_hat, p4) = match take32(data, p3) {
        Ok(v) => v,
        Err(e) => {
            proof {
                assert forall|x: BurnProof| burn_proof_fits(x) && #[trigger] layout_at(data@, pos as int, burn_proof_layout(x)) implies false by {
                     lemma_peel(data@, p3 as int, x.t_hat@, x.tau_x@ + (x.mu@ + (x.commitment@ + (x.c@ + (x.s_sk@ + (x.s_b@ + (x.s_tau@ + (ipp_layout(x.ip_proof)))))))));
                }
            }
            return Err(e);
        },
    };
    proof {
        assert forall|x: BurnProof| burn_proof_fits(x) && #[trigger] layout_at(data@, pos as int, burn_proof_layout(x)) implies layout_at(data@, p4 as int, x.tau_x@ + (x.mu@ + (x.commitment@ + (x.c@ + (x.s_sk@ + (x.s_b@ + (x.s_tau@ + (ipp_layout(x.ip_proof))))))))) && p4 + (x.tau_x@ + (x.mu@ + (x.commitment@ + (x.c@ + (x.s_sk@ + (x.s_b@ + (x.s_tau@ + (ipp_layout(x.ip_proof))))))))).len() == pos + (burn_proof_layout(x)).len() by {
             lemma_peel(data@, p3 as int, x.t_hat@, x.tau_x@ + (x.mu@ + (x.commitment@ + (x.c@ + (x.s_sk@ + (x.s_b@ + (x.s_tau@ + (ipp_layout(x.ip_proof)))))))));
        }
    }
    let (tau_x, p5) = match take32(data, p4) {
        Ok(v) => v,
        Err(e) => {
            proof {
                assert forall|x: BurnProof| burn_proof_fits(x) && #[trigger] layout_at(data@, pos as int, burn_proof_layout(x)) implies false by {
                     lemma_peel(data@, p4 as int, x.tau_x@, x.mu@ + (x.commitment@ + (x.c@ + (x.s_sk@ + (x.s_b@ + (x.s_tau@ + (ipp_layout(x.ip_proof))))))));
                }
            }
            return Err(e);
        },
    };
    proof {
        assert forall|x: BurnProof| burn_proof_fits(x) && #[trigger] layout_at(data@, pos as int, burn_proof_layout(x)) implies layout_at(data@, p5 as int, x.mu@ + (x.commitment@ + (x.c@ + (x.s_sk@ + (x.s_b@ + (x.s_tau@ + (ipp_layout(x.ip_proof)))))))) && p5 + (x.mu@ + (x.commitment@ + (x.c@ + (x.s_sk@ + (x.s_b@ + (x.s_tau@ + (ipp_layout(x.ip_proof)))))))).len() == pos + (burn_proof_layout(x)).len() by {
             lemma_peel(data@, p4 as int, x.tau_x@, x.mu@ + (x.commitment@ + (x.c@ + (x.s_sk@ + (x.s_b@ + (x.s_tau@ + (ipp_layout(x.ip_proof))))))));
        }
    }
    let (mu, p6) = match take32(data, p5) {
        Ok(v) => v,
        Err(e) => {
            proof {
                assert forall|x: BurnProof| burn_proof_fits(x) && #[trigger] layout_at(data@, pos as int, burn_proof_layout(x)) implies false by {
                     lemma_peel(data@, p5 as int, x.mu@, x.commitment@ + (x.c@ + (x.s_sk@ + (x.s_b@ + (x.s_tau@ + (ipp_layout(x.ip_proof)))))));
                }
            }
            return Err(e);
        },
    };
    proof {
        assert forall|x: BurnProof| burn_proof_fits(x) && #[trigger] layout_at(data@, pos as int, burn_proof_layout(x)) implies layout_at(data@, p6 as int, x.commitment@ + (x.c@ + (x.s_sk@ + (x.s_b@ + (x.s_tau@ + (ipp_layout(x.ip_proof))))))) && p6 + (x.commitment@ + (x.c@ + (x.s_sk@ + (x.s_b@ + (x.s_tau@ + (ipp_layout(x.ip_proof))))))).len() == pos + (burn_proof_layout(x)).len() by {
             lemma_peel(data@, p5 as int, x.mu@, x.commitment@ + (x.c@ + (x.s_sk@ + (x.s_b@ + (x.s_tau@ + (ipp_layout(x.ip_proof)))))));
        }
    }
    let (commitment, p7) = match take32(data, p6) {
        Ok(v) => v,
        Err(e) => {
            proof {
                assert forall|x: BurnProof| burn_proof_fits(x) && #[trigger] layout_at(data@, pos as int, burn_proof_layout(x)) implies false by {
                     lemma_peel(data@, p6 as int, x.commitment@, x.c@ + (x.s_sk@ + (x.s_b@ + (x.s_tau@ + (ipp_layout(x.ip_proof))))));
                }
            }
            return Err(e);
        },
    };
    proof {
        assert forall|x: BurnProof| burn_proof_fits(x) && #[trigger] layout_at(data@, pos as int, burn_proof_layout(x)) implies layout_at(data@, p7 as int, x.c@ + (x.s_sk@ + (x.s_b@ + (x.s_tau@ + (ipp_layout(x.ip_proof)))))) && p7 + (x.c@ + (x.s_sk@ + (x.s_b@ + (x.s_tau@ + (ipp_layout(x.ip_proof)))))).len() == pos + (burn_proof_layout(x)).len() by {
             lemma_peel(data@, p6 as int, x.commitment@, x.c@ + (x.s_sk@ + (x.s_b@ + (x.s_tau@ + (ipp_layout(x.ip_proof))))));
        }
    }
    let (c, p8) = match take32(data, p7) {
        Ok(v) => v,
        Err(e) => {
            proof {
                assert forall|x: BurnProof| burn_proof_fits(x) && #[trigger] layout_at(data@, pos as int, burn_proof_layout(x)) implies false by {
                     lemma_peel(data@, p7 as int, x.c@, x.s_sk@ + (x.s_b@ + (x.s_tau@ + (ipp_layout(x.ip_proof)))));
                }
            }
            return Err(e);
        },
    };
    proof {
        assert forall|x: BurnProof| burn_proof_fits(x) && #[trigger] layout_at(data@, pos as int, burn_proof_layout(x)) implies layout_at(data@, p8 as int, x.s_sk@ + (x.s_b@ + (x.s_tau@ + (ipp_layout(x.ip_proof))))) && p8 + (x.s_sk@ + (x.s_b@ + (x.s_tau@ + (ipp_layout(x.ip_proof))))).len() == pos + (burn_proof_layout(x)).len() by {
             lemma_peel(data@, p7 as int, x.c@, x.s_sk@ + (x.s_b@ + (x.s_tau@ + (ipp_layout(x.ip_proof)))));
        }
    }
    let (s_sk, p9) = match take32(data, p8) {
        Ok(v) => v,
        Err(e) => {
            proof {
                assert forall|x: BurnProof| burn_proof_fits(x) && #[trigger] layout_at(data@, pos as int, burn_proof_layout(x)) implies false by {
                     lemma_peel(data@, p8 as int, x.s_sk@, x.s_b@ + (x.s_tau@ + (ipp_layout(x.ip_proof))));
                }
            }
            return Err(e);
        },
    };
    proof {
        assert forall|x: BurnProof| burn_proof_fits(x) && #[trigger] layout_at(data@, pos as int, burn_proof_layout(x)) implies layout_at(data@, p9 as int, x.s_b@ + (x.s_tau@ + (ipp_layout(x.ip_proof)))) && p9 + (x.s_b@ + (x.s_tau@ + (ipp_layout(x.ip_proof)))).len() == pos + (burn_proof_layout(x)).len() by {
             lemma_peel(data@, p8 as int, x.s_sk@, x.s_b@ + (x.s_tau@ + (ipp_layout(x.ip_proof))));
        }
    }
    let (s_b, p10) = match take32(data, p9) {
        Ok(v) => v,
        Err(e) => {
            proof {
                assert forall|x: BurnProof| burn_proof_fits(x) && #[trigger] layout_at(data@, pos as int, burn_proof_layout(x)) implies false by {
                     lemma_peel(data@, p9 as int, x.s_b@, x.s_tau@ + (ipp_layout(x.ip_proof)));
                }
            }
            return Err(e);
        },
    };
    proof {
        assert forall|x: BurnProof| burn_proof_fits(x) && #[trigger] layout_at(data@, pos as int, burn_proof_layout(x)) implies layout_at(data@, p10 as int, x.s_tau@ + (ipp_layout(x.ip_proof))) && p10 + (x.s_tau@ + (ipp_layout(x.ip_proof))).len() == pos + (burn_proof_layout(x)).len() by {
             lemma_peel(data@, p9 as int, x.s_b@, x.s_tau@ + (ipp_layout(x.ip_proof)));
        }
    }
    let (s_tau, p11) = match take32(data, p10) {
        Ok(v) => v,
        Err(e) => {
            proof {
                assert forall|x: BurnProof| burn_proof_fits(x) && #[trigger] layout_at(data@, pos as int, burn_proof_layout(x)) implies false by {
                     lemma_peel(data@, p10 as int, x.s_tau@, ipp_layout(x.ip_proof));
                }
            }
            return Err(e);
        },
    };
    proof {
        assert forall|x: BurnProof| burn_proof_fits(x) && #[trigger] layout_at(data@, pos as int, burn_proof_layout(x)) implies layout_at(data@, p11 as int, ipp_layout(x.ip_proof)) && p11 + (ipp_layout(x.ip_proof)).len() == pos + (burn_proof_layout(x)).len() by {
             lemma_peel(data@, p10 as int, x.s_tau@, ipp_layout(x.ip_proof));
        }
    }
    let (ip_proof, p12) = match parse_ipp(data, p11) {
        Ok(v) => v,
        Err(e) => {
            proof {
                assert forall|x: BurnProof| burn_proof_fits(x) && #[trigger] layout_at(data@, pos as int, burn_proof_layout(x)) implies false by {
                     
                }
            }
            return Err(e);
        },
    };
    proof {
        assert forall|x: BurnProof| burn_proof_fits(x) && #[trigger] layout_at(data@, pos as int, burn_proof_layout(x)) implies p12 == pos + (burn_proof_layout(x)).len() by {
             
        }
    }
    let x = BurnProof { ba, bs, t_1, t_2, t_hat, tau_x, mu, commitment, c, s_sk, s_b, s_tau, ip_proof };
    proof {
        lemma_split(data@, p10 as int, p11 as int, p12 as int);
        lemma_split(data@, p9 as int, p10 as int, p12 as int);
        lemma_split(data@, p8 as int, p9 as int, p12 as int);
        lemma_split(data@, p7 as int, p8 as int, p12 as int);
        lemma_split(data@, p6 as int, p7 as int, p12 as int);
        lemma_split(data@, p5 as int, p6 as int, p12 as int);
        lemma_split(data@, p4 as int, p5 as int, p12 as int);
        lemma_split(data@, p3 as int, p4 as int, p12 as int);
        lemma_split(data@, p2 as int, p3 as int, p12 as int);
        lemma_split(data@, p1 as int, p2 as int, p12 as int);
        lemma_split(data@, p0 as int, p1 as int, p12 as int);
        lemma_split(data@, pos as int, p0 as int, p12 as int);
    }
    Ok((x, p12))
}

#[verifier::spinoff_prover]
#[verifier::rlimit(100)]
fn parse_transfer_body(data: &[u8], pos: usize) -> (r: Result<((Vec<[u8; 32]>, [u8; 32], Vec<[u8; 32]>, [u8; 32], [u8; 32], ZerosolProof), usize), ZerosolError>)
    requires
        pos <= data@.len(),
    ensures
        r matches Ok((x, p)) ==> pos <= p <= data@.len() && data@.subrange(pos as int, p as int)
            == transfer_body(x.0@, x.1, x.2@, x.3, x.4, x.5),
        r.is_err() ==> r == Err::<((Vec<[u8; 32]>, [u8; 32], Vec<[u8; 32]>, [u8; 32], [u8; 32], ZerosolProof), usize), ZerosolError>(ZerosolError::InvalidInstruction),
        forall|cs: Seq<[u8; 32]>, dd: [u8; 32], pks: Seq<[u8; 32]>, nonce: [u8; 32], ben: [u8; 32], proof: ZerosolProof| vec_fits(cs) && vec_fits(pks) && zerosol_proof_fits(proof) && #[trigger] layout_at(data@, pos as int, transfer_body(cs, dd, pks, nonce, ben, proof)) ==> (r matches Ok((_, p)) && p == pos + (transfer_body(cs, dd, pks, nonce, ben, proof)).len()),
{
    let (commitments_c, p0) = match take_vec32(data, pos) {
        Ok(v) => v,
        Err(e) => {
            proof {
                assert forall|cs: Seq<[u8; 32]>, dd: [u8; 32], pks: Seq<[u8; 32]>, nonce: [u8; 32], ben: [u8; 32], proof: ZerosolProof| vec_fits(cs) && vec_fits(pks) && zerosol_proof_fits(proof) && #[trigger] layout_at(data@, pos as int, transfer_body(cs, dd, pks, nonce, ben, proof)) implies false by {
                     lemma_peel(data@, pos as int, vec32_layout(cs), dd@ + (vec32_layout(pks) + (nonce@ + (ben@ + (zerosol_proof_layout(proof))))));
                }
            }
            return Err(e);
        },
    };
    proof {
        assert forall|cs: Seq<[u8; 32]>, dd: [u8; 32], pks: Seq<[u8; 32]>, nonce: [u8; 32], ben: [u8; 32], proof: ZerosolProof| vec_fits(cs) && vec_fits(pks) && zerosol_proof_fits(proof) && #[trigger] layout_at(data@, pos as int, transfer_body(cs, dd, pks, nonce, ben, proof)) implies layout_at(data@, p0 as int, dd@ + (vec32_layout(pks) + (nonce@ + (ben@ + (zerosol_proof_layout(proof)))))) && p0 + (dd@ + (vec32_layout(pks) + (nonce@ + (ben@ + (zerosol_proof_layout(proof)))))).len() == pos + (transfer_body(cs, dd, pks, nonce, ben, proof)).len() by {
             lemma_peel(data@, pos as int, vec32_layout(cs), dd@ + (vec32_layout(pks) + (nonce@ + (ben@ + (zerosol_proof_layout(proof))))));
        }
    }
    let (commitment_d, p1) = match take32(data, p0) {
        Ok(v) => v,
        Err(e) => {
            proof {
                assert forall|cs: Seq<[u8; 32]>, dd: [u8; 32], pks: Seq<[u8; 32]>, nonce: [u8; 32], ben: [u8; 32], proof: ZerosolProof| vec_fits(cs) && vec_fits(pks) && zerosol_proof_fits(proof) && #[trigger] layout_at(data@, pos as int, transfer_body(cs, dd, pks, nonce, ben, proof)) implies false by {
                     lemma_peel(data@, p0 as int, dd@, vec32_layout(pks) + (nonce@ + (ben@ + (zerosol_proof_layout(proof)))));
                }
            }
            return Err(e);
        },
    };
    proof {
        assert forall|cs: Seq<[u8; 32]>, dd: [u8; 32], pks: Seq<[u8; 32]>, nonce: [u8; 32], ben: [u8; 32], proof: ZerosolProof| vec_fits(cs) && vec_fits(pks) && zerosol_proof_fits(proof) && #[trigger] layout_at(data@, pos as int, transfer_body(cs, dd, pks, nonce, ben, proof)) implies layout_at(data@, p1 as int, vec32_layout(pks) + (nonce@ + (ben@ + (zerosol_proof_layout(proof))))) && p1 + (vec32_layout(pks) + (nonce@ + (ben@ + (zerosol_proof_layout(proof))))).len() == pos + (transfer_body(cs, dd, pks, nonce, ben, proof)).len() by {
             lemma_peel(data@, p0 as int, dd@, vec32_layout(pks) + (nonce@ + (ben@ + (zerosol_proof_layout(proof)))));
        }
    }
    let (public_keys, p2) = match take_vec32(data, p1) {
        Ok(v) => v,
        Err(e) => {
            proof {
                assert forall|cs: Seq<[u8; 32]>, dd: [u8; 32], pks: Seq<[u8; 32]>, nonce: [u8; 32], ben: [u8; 32], proof: ZerosolProof| vec_fits(cs) && vec_fits(pks) && zerosol_proof_fits(proof) && #[trigger] layout_at(data@, pos as int, transfer_body(cs, dd, pks, nonce, ben, proof)) implies false by {
                     lemma_peel(data@, p1 as int, vec32_layout(pks), nonce@ + (ben@ + (zerosol_proof_layout(proof))));
                }
            }
            return Err(e);
        },
    };
    proof {
        assert forall|cs: Seq<[u8; 32]>, dd: [u8; 32], pks: Seq<[u8; 32]>, nonce: [u8; 32], ben: [u8; 32], proof: ZerosolProof| vec_fits(cs) && vec_fits(pks) && zerosol_proof_fits(proof) && #[trigger] layout_at(data@, pos as int, transfer_body(cs, dd, pks, nonce, ben, proof)) implies layout_at(data@, p2 as int, nonce@ + (ben@ + (zerosol_proof_layout(proof)))) && p2 + (nonce@ + (ben@ + (zerosol_proof_layout(proof)))).len() == pos + (transfer_body(cs, dd, pks, nonce, ben, proof)).len() by {
             lemma_peel(data@, p1 as int, vec32_layout(pks), nonce@ + (ben@ + (zerosol_proof_layout(proof))));
        }
    }
    let (nonce, p3) = match take32(data, p2) {
        Ok(v) => v,
        Err(e) => {
            proof {
                assert forall|cs: Seq<[u8; 32]>, dd: [u8; 32], pks: Seq<[u8; 32]>, nonce: [u8; 32], ben: [u8; 32], proof: ZerosolProof| vec_fits(cs) && vec_fits(pks) && zerosol_proof_fits(proof) && #[trigger] layout_at(data@, pos as int, transfer_body(cs, dd, pks, nonce, ben, proof)) implies false by {
                     lemma_peel(data@, p2 as int, nonce@, ben@ + (zerosol_proof_layout(proof)));
                }
            }
            return Err(e);
        },
    };
    proof {
        assert forall|cs: Seq<[u8; 32]>, dd: [u8; 32], pks: Seq<[u8; 32]>, nonce: [u8; 32], ben: [u8; 32], proof: ZerosolProof| vec_fits(cs) && vec_fits(pks) && zerosol_proof_fits(proof) && #[trigger] layout_at(data@, pos as int, transfer_body(cs, dd, pks, nonce, ben, proof)) implies layout_at(data@, p3 as int, ben@ + (zerosol_proof_layout(proof))) && p3 + (ben@ + (zerosol_proof_layout(proof))).len() == pos + (transfer_body(cs, dd, pks, nonce, ben, proof)).len() by {
             lemma_peel(data@, p2 as int, nonce@, ben@ + (zerosol_proof_layout(proof)));
        }
    }
    let (beneficiary, p4) = match take32(data, p3) {
        Ok(v) => v,
        Err(e) => {
            proof {
                assert forall|cs: Seq<[u8; 32]>, dd: [u8; 32], pks: Seq<[u8; 32]>, nonce: [u8; 32], ben: [u8; 32], proof: ZerosolProof| vec_fits(cs) && vec_fits(pks) && zerosol_proof_fits(proof) && #[trigger] layout_at(data@, pos as int, transfer_body(cs, dd, pks, nonce, ben, proof)) implies false by {
                     lemma_peel(data@, p3 as int, ben@, zerosol_proof_layout(proof));
                }
            }
            return Err(e);
        },
    };
    proof {
        assert forall|cs: Seq<[u8; 32]>, dd: [u8; 32], pks: Seq<[u8; 32]>, nonce: [u8; 32], ben: [u8; 32], proof: ZerosolProof| vec_fits(cs) && vec_fits(pks) && zerosol_proof_fits(proof) && #[trigger] layout_at(data@, pos as int, transfer_body(cs, dd, pks, nonce, ben, proof)) implies layout_at(data@, p4 as int, zerosol_proof_layout(proof)) && p4 + (zerosol_proof_layout(proof)).len() == pos + (transfer_body(cs, dd, pks, nonce, ben, proof)).len() by {
             lemma_peel(data@, p3 as int, ben@, zerosol_proof_layout(proof));
        }
    }
    let (proof, p5) = match parse_zerosol_proof(data, p4) {
        Ok(v) => v,
        Err(e) => {
            proof {
                assert forall|cs: Seq<[u8; 32]>, dd: [u8; 32], pks: Seq<[u8; 32]>, nonce: [u8; 32], ben: [u8; 32], proof: ZerosolProof| vec_fits(cs) && vec_fits(pks) && zerosol_proof_fits(proof) && #[trigger] layout_at(data@, pos as int, transfer_body(cs, dd, pks, nonce, ben, proof)) implies false by {
                     
                }
            }
            return Err(e);
        },
    };
    proof {
        assert forall|cs: Seq<[u8; 32]>, dd: [u8; 32], pks: Seq<[u8; 32]>, nonce: [u8; 32], ben: [u8; 32], proof: ZerosolProof| vec_fits(cs) && vec_fits(pks) && zerosol_proof_fits(proof) && #[trigger] layout_at(data@, pos as int, transfer_body(cs, dd, pks, nonce, ben, proof)) implies p5 == pos + (transfer_body(cs, dd, pks, nonce, ben, proof)).len() by {
             
        }
    }
    let x = (commitments_c, commitment_d, public_keys, nonce, beneficiary, proof);
    proof {
        lemma_split(data@, p3 as int, p4 as int, p5 as int);
        lemma_split(data@, p2 as int, p3 as int, p5 as int);
        lemma_split(data@, p1 as int, p2 as int, p5 as int);
        lemma_split(data@, p0 as int, p1 as int, p5 as int);
        lemma_split(data@, pos as int, p0 as int, p5 as int);
    }
    Ok((x, p5))
}

fn parse_burn_body(data: &[u8], pos: usize) -> (r: Result<((u64, [u8; 32], BurnProof), usize), ZerosolError>)
    requires
        pos <= data@.len(),
    ensures
        r matches Ok((x, p)) ==> pos <= p <= data@.len() && data@.subrange(pos as int, p as int)
            == burn_body(x.0, x.1, x.2),
        r.is_err() ==> r == Err::<((u64, [u8; 32], BurnProof), usize), ZerosolError>(ZerosolError::InvalidInstruction),
        forall|amount: u64, nonce: [u8; 32], proof: BurnProof| burn_proof_fits(proof) && #[trigger] layout_at(data@, pos as int, burn_body(amount, nonce, proof)) ==> (r matches Ok((_, p)) && p == pos + (burn_body(amount, nonce, proof)).len()),
{
    let (amount, p0) = match take_u64(data, pos) {
        Ok(v) => v,
        Err(e) => {
            proof {
                assert forall|amount: u64, nonce: [u8; 32], proof: BurnProof| burn_proof_fits(proof) && #[trigger] layout_at(data@, pos as int, burn_body(amount, nonce, proof)) implies false by {
                    vstd::bytes::lemma_auto_spec_u64_to_from_le_bytes(); lemma_peel(data@, pos as int, spec_u64_to_le_bytes(amount), nonce@ + (burn_proof_layout(proof)));
                }
            }
            return Err(e);
        },
    };
    proof {
        assert forall|amount: u64, nonce: [u8; 32], proof: BurnProof| burn_proof_fits(proof) && #[trigger] layout_at(data@, pos as int, burn_body(amount, nonce, proof)) implies layout_at(data@, p0 as int, nonce@ + (burn_proof_layout(proof))) && p0 + (nonce@ + (burn_proof_layout(proof))).len() == pos + (burn_body(amount, nonce, proof)).len() by {
            vstd::bytes::lemma_auto_spec_u64_to_from_le_bytes(); lemma_peel(data@, pos as int, spec_u64_to_le_bytes(amount), nonce@ + (burn_proof_layout(proof)));
        }
    }
    let (nonce, p1) = match take32(data, p0) {
        Ok(v) => v,
        Err(e) => {
            proof {
                assert forall|amount: u64, nonce: [u8; 32], proof: BurnProof| burn_proof_fits(proof) && #[trigger] layout_at(data@, pos as int, burn_body(amount, nonce, proof)) implies false by {
                     lemma_peel(data@, p0 as int, nonce@, burn_proof_layout(proof));
                }
            }
            return Err(e);
        },
    };
    proof {
        assert forall|amount: u64, nonce: [u8; 32], proof: BurnProof| burn_proof_fits(proof) && #[trigger] layout_at(data@, pos as int, burn_body(amount, nonce, proof)) implies layout_at(data@, p1 as int, burn_proof_layout(proof)) && p1 + (burn_proof_layout(proof)).len() == pos + (burn_body(amount, nonce, proof)).len() by {
             lemma_peel(data@, p0 as int, nonce@, burn_proof_layout(proof));
        }
    }
    let (proof, p2) = match parse_burn_proof(data, p1) {
        Ok(v) => v,
        Err(e) => {
            proof {
                assert forall|amount: u64, nonce: [u8; 32], proof: BurnProof| burn_proof_fits(proof) && #[trigger] layout_at(data@, pos as int, burn_body(amount, nonce, proof)) implies false by {
                     
                }
            }
            return Err(e);
        },
    };
    proof {
        assert forall|amount: u64, nonce: [u8; 32], proof: BurnProof| burn_proof_fits(proof) && #[trigger] layout_at(data@, pos as int, burn_body(amount, nonce, proof)) implies p2 == pos + (burn_body(amount, nonce, proof)).len() by {
             
        }
    }
    let x = (amount, nonce, proof);
    proof {
        lemma_split(data@, p0 as int, p1 as int, p2 as int);
        lemma_split(data@, pos as int, p0 as int, p2 as int);
    }
    Ok((x, p2))
}

impl ZerosolInstruction {
    /// Decodes an instruction. Any decoded instruction encodes back to exactly
    /// `data`, and every encoding of an instruction (vectors of at most
    /// `u32::MAX` items) decodes; an empty input, an unknown tag, a short payload
    /// or trailing bytes are `InvalidInstruction`.
    #[verifier::spinoff_prover]
    #[verifier::rlimit(100)]
    pub fn try_from_slice(data: &[u8]) -> (r: Result<ZerosolInstruction, ZerosolError>)
        ensures
            r matches Ok(i) ==> instruction_layout(i) == data@,
            r.is_err() ==> r == Err::<ZerosolInstruction, ZerosolError>(
                ZerosolError::InvalidInstruction,
            ),
            data@.len() == 0 || data@[0] > 5 ==> r.is_err(),
            data@.len() == 17 && data@[0] == 0 ==> r.is_ok(),
            data@.len() == 97 && data@[0] == 1 ==> r.is_ok(),
            data@.len() == 9 && data@[0] == 2 ==> r.is_ok(),
            data@.len() == 1 && data@[0] == 5 ==> r.is_ok(),
            forall|
                cs: Seq<[u8; 32]>,
                dd: [u8; 32],
                pks: Seq<[u8; 32]>,
                nonce: [u8; 32],
                ben: [u8; 32],
                proof: ZerosolProof,
            |
                vec_fits(cs) && vec_fits(pks) && zerosol_proof_fits(proof) && data@ == seq![3u8]
                    + #[trigger] transfer_body(cs, dd, pks, nonce, ben, proof) ==> r.is_ok(),
            forall|amount: u64, nonce: [u8; 32], proof: BurnProof|
                burn_proof_fits(proof) && data@ == seq![4u8] + #[trigger] burn_body(amount, nonce, proof)
                    ==> r.is_ok(),
    {
        let len = data.len();
        if len == 0 {
            return Err(ZerosolError::InvalidInstruction);
        }
        let tag = data[0];
        proof {
            lemma_split(data@, 0, 1, len as int);
            assert(data@.subrange(0, 1) =~= seq![tag]);
            assert(data@.subrange(0, len as int) =~= data@);
        }
        if tag == 0 {
            let (epoch_length, p0) = take_u64(data, 1)?;
            let (fee, p1) = take_u64(data, p0)?;
            if p1 != len {
                return Err(ZerosolError::InvalidInstruction);
            }
            proof {
                lemma_split(data@, 1, p0 as int, p1 as int);
            }
            let i = ZerosolInstruction::Initialize { epoch_length, fee };
            assert(instruction_layout(i) =~= data@);
            Ok(i)
        } else if tag == 1 {
            let (public_key, p0) = take32(data, 1)?;
            let (challenge, p1) = take32(data, p0)?;
            let (response, p2) = take32(data, p1)?;
            if p2 != len {
                return Err(ZerosolError::InvalidInstruction);
            }
            proof {
                lemma_split(data@, 1, p0 as int, p1 as int);
                lemma_split(data@, 1, p1 as int, p2 as int);
            }
            let i = ZerosolInstruction::Register { public_key, challenge, response };
            assert(instruction_layout(i) =~= data@);
            Ok(i)
        } else if tag == 2 {
            let (amount, p0) = take_u64(data, 1)?;
            if p0 != len {
                return Err(ZerosolError::InvalidInstruction);
            }
            let i = ZerosolInstruction::Fund { amount };
            assert(instruction_layout(i) =~= data@);
            Ok(i)
        } else if tag == 3 {
            proof {
                assert forall|
                    cs: Seq<[u8; 32]>,
                    dd: [u8; 32],
                    pks: Seq<[u8; 32]>,
                    nonce: [u8; 32],
                    ben: [u8; 32],
                    proof: ZerosolProof,
                |
                    vec_fits(cs) && vec_fits(pks) && zerosol_proof_fits(proof) && data@ == seq![3u8]
                        + #[trigger] transfer_body(cs, dd, pks, nonce, ben, proof) implies layout_at(
                    data@,
                    1,
                    transfer_body(cs, dd, pks, nonce, ben, proof),
                ) && 1 + transfer_body(cs, dd, pks, nonce, ben, proof).len() == len by {
                    assert(layout_at(data@, 0, data@));
                    lemma_peel(data@, 0, seq![3u8], transfer_body(cs, dd, pks, nonce, ben, proof));
                }
            }
            let (body, p) = match parse_transfer_body(data, 1) {
                Ok(v) => v,
                Err(e) => {
                    return Err(e);
                },
            };
            if p != len {
                return Err(ZerosolError::InvalidInstruction);
            }
            let (commitments_c, commitment_d, public_keys, nonce, beneficiary, proof) = body;
            let i = ZerosolInstruction::Transfer {
                commitments_c,
                commitment_d,
                public_keys,
                nonce,
                beneficiary,
                proof,
            };
            assert(instruction_layout(i) =~= data@);
            Ok(i)
        } else if tag == 4 {
            proof {
                assert forall|amount: u64, nonce: [u8; 32], proof: BurnProof|
                    burn_proof_fits(proof) && data@ == seq![4u8] + #[trigger] burn_body(
                        amount,
                        nonce,
                        proof,
                    ) implies layout_at(data@, 1, burn_body(amount, nonce, proof)) && 1 + burn_body(
                    amount,
                    nonce,
                    proof,
                ).len() == len by {
                    assert(layout_at(data@, 0, data@));
                    lemma_peel(data@, 0, seq![4u8], burn_body(amount, nonce, proof));
                }
            }
            let (body, p) = match parse_burn_body(data, 1) {
                Ok(v) => v,
                Err(e) => {
                    return Err(e);
                },
            };
            if p != len {
                return Err(ZerosolError::InvalidInstruction);
            }
            let (amount, nonce, proof) = body;
            let i = ZerosolInstruction::Burn { amount, nonce, proof };
            assert(instruction_layout(i) =~= data@);
            Ok(i)
        } else if tag == 5 {
            if len != 1 {
                return Err(ZerosolError::InvalidInstruction);
            }
            let i = ZerosolInstruction::RollOver;
            assert(instruction_layout(i) =~= data@);
            Ok(i)
        } else {
            Err(ZerosolError::InvalidInstruction)
        }
    }
}

} // verus!
