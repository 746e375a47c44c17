use crate::error::ZerosolError;
use crate::point::{identity_encoding, G1Point};
use crate::utils::append_bytes;
use vstd::bytes::{spec_u64_from_le_bytes, spec_u64_to_le_bytes, u64_from_le_bytes, u64_to_le_bytes};
use vstd::prelude::*;

verus! {

/// Copies 32 bytes of `data` starting at `off`.
pub fn read_array32(data: &[u8], off: usize) -> (r: [u8; 32])
    requires
        off + 32 <= data@.len(),
    ensures
        r@ == data@.subrange(off as int, off + 32),
{
    let len = data.len();
    let mut a: [u8; 32] = [0u8; 32];
    let mut i: usize = 0;
    while i < 32
        invariant
            len == data@.len(),
            i <= 32,
            off + 32 <= data@.len(),
            forall|j: int| 0 <= j < i ==> a@[j] == data@[off + j],
        decreases 32 - i,
    {
        a[i] = data[off + i];
        i = i + 1;
    }
    assert(a@ =~= data@.subrange(off as int, off + 32));
    a
}

/// Byte-wise equality of two 32-byte strings.
pub fn bytes32_eq(a: &[u8; 32], b: &[u8; 32]) -> (r: bool)
    ensures
        r == (a@ == b@),
{
    let mut i: usize = 0;
    while i < 32
        invariant
            i <= 32,
            forall|j: int| 0 <= j < i ==> a@[j] == b@[j],
        decreases 32 - i,
    {
        if a[i] != b[i] {
            assert(a@[i as int] != b@[i as int]);
            return false;
        }
        i = i + 1;
    }
    assert(a@ =~= b@);
    true
}

fn read_u64(data: &[u8], off: usize) -> (r: u64)
    requires
        off + 8 <= data@.len(),
    ensures
        r == spec_u64_from_le_bytes(data@.subrange(off as int, off + 8)),
{
    let len = data.len();
    let mut b: Vec<u8> = Vec::new();
    let mut i: usize = 0;
    while i < 8
        invariant
            len == data@.len(),
            i <= 8,
            off + 8 <= data@.len(),
            b@ == data@.subrange(off as int, off + i),
        decreases 8 - i,
    {
        b.push(data[off + i]);
        i = i + 1;
        assert(b@ =~= data@.subrange(off as int, off + i));
    }
    u64_from_le_bytes(b.as_slice())
}

pub open spec fn bool_byte(b: bool) -> u8 {
    if b {
        1
    } else {
        0
    }
}

/// A registered account: the settled twisted-ElGamal balance `(C_L, C_R)`, the
/// owner's public key, the epoch of the last rollover, and the registration flag.
#[derive(Debug)]
pub struct ZerosolAccount {
    pub commitment_left: [u8; 32],
    pub commitment_right: [u8; 32],
    pub public_key: [u8; 32],
    pub last_rollover: u64,
    pub is_registered: bool,
}

pub const ZEROSOL_ACCOUNT_LEN: usize = 105;

/// `C_L ‖ C_R ‖ pk ‖ last_epoch (8, LE) ‖ registered (1)`.
pub open spec fn account_layout(a: ZerosolAccount) -> Seq<u8> {
    a.commitment_left@ + a.commitment_right@ + a.public_key@ + spec_u64_to_le_bytes(a.last_rollover)
        + seq![bool_byte(a.is_registered)]
}

impl ZerosolAccount {
    /// An unregistered account for `public_key` with zeroed commitments.
    pub fn new(public_key: [u8; 32]) -> (r: ZerosolAccount)
        ensures
            r.public_key == public_key,
            r.commitment_left@ == identity_encoding(),
            r.commitment_right@ == identity_encoding(),
            r.last_rollover == 0,
            !r.is_registered,
    {
        let z: [u8; 32] = [0u8; 32];
        assert(z@ =~= identity_encoding());
        ZerosolAccount {
            commitment_left: z,
            commitment_right: z,
            public_key,
            last_rollover: 0,
            is_registered: false,
        }
    }

    pub fn get_commitment_left(&self) -> (r: Result<G1Point, ZerosolError>)
        ensures
            r matches Ok(p) ==> p@ == self.commitment_left@,
            r.is_err() ==> r == Err::<G1Point, ZerosolError>(ZerosolError::InvalidEncoding),
            r.is_ok() == crate::point::ristretto_decodes(self.commitment_left@),
    {
        decode_point(&self.commitment_left)
    }

    pub fn get_commitment_right(&self) -> (r: Result<G1Point, ZerosolError>)
        ensures
            r matches Ok(p) ==> p@ == self.commitment_right@,
            r.is_err() ==> r == Err::<G1Point, ZerosolError>(ZerosolError::InvalidEncoding),
            r.is_ok() == crate::point::ristretto_decodes(self.commitment_right@),
    {
        decode_point(&self.commitment_right)
    }

    pub fn get_public_key(&self) -> (r: Result<G1Point, ZerosolError>)
        ensures
            r matches Ok(p) ==> p@ == self.public_key@,
            r.is_err() ==> r == Err::<G1Point, ZerosolError>(ZerosolError::InvalidEncoding),
            r.is_ok() == crate::point::ristretto_decodes(self.public_key@),
    {
        decode_point(&self.public_key)
    }

    pub fn set_commitment_left(&mut self, point: &G1Point)
        ensures
            final(self).commitment_left@ == point@,
            final(self).commitment_right == old(self).commitment_right,
            final(self).public_key == old(self).public_key,
            final(self).last_rollover == old(self).last_rollover,
            final(self).is_registered == old(self).is_registered,
    {
        self.commitment_left = point.to_bytes();
    }

    pub fn set_commitment_right(&mut self, point: &G1Point)
        ensures
            final(self).commitment_right@ == point@,
            final(self).commitment_left == old(self).commitment_left,
            final(self).public_key == old(self).public_key,
            final(self).last_rollover == old(self).last_rollover,
            final(self).is_registered == old(self).is_registered,
    {
        self.commitment_right = point.to_bytes();
    }

    /// The on-ledger bytes.
    pub fn to_bytes(&self) -> (r: Vec<u8>)
        ensures
            r@ == account_layout(*self),
    {
        let mut out: Vec<u8> = Vec::new();
        append_bytes(&mut out, &self.commitment_left);
        append_bytes(&mut out, &self.commitment_right);
        append_bytes(&mut out, &self.public_key);
        let e = u64_to_le_bytes(self.last_rollover);
        append_bytes(&mut out, e.as_slice());
        out.push(if self.is_registered { 1u8 } else { 0u8 });
        assert(out@ =~= account_layout(*self));
        out
    }

    /// Reads the on-ledger bytes; `InvalidAccountData` unless there are exactly
    /// 105 of them and the flag byte is 0 or 1.
    pub fn from_bytes(data: &[u8]) -> (r: Result<ZerosolAccount, ZerosolError>)
        ensures
            r.is_ok() == (data@.len() == ZEROSOL_ACCOUNT_LEN && data@[104] <= 1),
            r.is_err() ==> r == Err::<ZerosolAccount, ZerosolError>(ZerosolError::InvalidAccountData),
            r matches Ok(a) ==> account_layout(a) == data@,
    {
        if data.len() != ZEROSOL_ACCOUNT_LEN || data[104] > 1 {
            return Err(ZerosolError::InvalidAccountData);
        }
        let cl = read_array32(data, 0);
        let cr = read_array32(data, 32);
        let pk = read_array32(data, 64);
        let e = read_u64(data, 96);
        let reg = data[104] == 1;
        let a = ZerosolAccount {
            commitment_left: cl,
            commitment_right: cr,
            public_key: pk,
            last_rollover: e,
            is_registered: reg,
        };
        proof {
            vstd::bytes::lemma_auto_spec_u64_to_from_le_bytes();
            assert(account_layout(a) =~= data@);
        }
        Ok(a)
    }
}

/// Decodes a stored point; `InvalidEncoding` if it is not canonical.
pub fn decode_point(bytes: &[u8; 32]) -> (r: Result<G1Point, ZerosolError>)
    ensures
        r matches Ok(p) ==> p@ == bytes@,
        r.is_err() ==> r == Err::<G1Point, ZerosolError>(ZerosolError::InvalidEncoding),
        r.is_ok() == crate::point::ristretto_decodes(bytes@),
{
    match G1Point::from_bytes(bytes) {
        Some(p) => Ok(p),
        None => Err(ZerosolError::InvalidEncoding),
    }
}

/// The pending delta `(C_L, C_R)` accumulated since the last rollover.
#[derive(Debug)]
pub struct PendingAccount {
    pub commitment_left: [u8; 32],
    pub commitment_right: [u8; 32],
}

pub const PENDING_ACCOUNT_LEN: usize = 64;

pub open spec fn pending_layout(p: PendingAccount) -> Seq<u8> {
    p.commitment_left@ + p.commitment_right@
}

impl PendingAccount {
    /// The empty delta `(O, O)`.
    pub fn new() -> (r: PendingAccount)
        ensures
            r.commitment_left@ == identity_encoding(),
            r.commitment_right@ == identity_encoding(),
    {
        let z: [u8; 32] = [0u8; 32];
        assert(z@ =~= identity_encoding());
        PendingAccount { commitment_left: z, commitment_right: z }
    }

    pub fn get_commitment_left(&self) -> (r: Result<G1Point, ZerosolError>)
        ensures
            r matches Ok(p) ==> p@ == self.commitment_left@,
            r.is_err() ==> r == Err::<G1Point, ZerosolError>(ZerosolError::InvalidEncoding),
            r.is_ok() == crate::point::ristretto_decodes(self.commitment_left@),
    {
        decode_point(&self.commitment_left)
    }

    pub fn get_commitment_right(&self) -> (r: Result<G1Point, ZerosolError>)
        ensures
            r matches Ok(p) ==> p@ == self.commitment_right@,
            r.is_err() ==> r == Err::<G1Point, ZerosolError>(ZerosolError::InvalidEncoding),
            r.is_ok() == crate::point::ristretto_decodes(self.commitment_right@),
    {
        decode_point(&self.commitment_right)
    }

    pub fn set_commitment_left(&mut self, point: &G1Point)
        ensures
            final(self).commitment_left@ == point@,
            final(self).commitment_right == old(self).commitment_right,
    {
        self.commitment_left = point.to_bytes();
    }

    pub fn set_commitment_right(&mut self, point: &G1Point)
        ensures
            final(self).commitment_right@ == point@,
            final(self).commitment_left == old(self).commitment_left,
    {
        self.commitment_right = point.to_bytes();
    }

    pub fn to_bytes(&self) -> (r: Vec<u8>)
        ensures
            r@ == pending_layout(*self),
    {
        let mut out: Vec<u8> = Vec::new();
        append_bytes(&mut out, &self.commitment_left);
        append_bytes(&mut out, &self.commitment_right);
        out
    }

    /// `InvalidAccountData` unless there are exactly 64 bytes.
    pub fn from_bytes(data: &[u8]) -> (r: Result<PendingAccount, ZerosolError>)
        ensures
            r.is_ok() == (data@.len() == PENDING_ACCOUNT_LEN),
            r.is_err() ==> r == Err::<PendingAccount, ZerosolError>(ZerosolError::InvalidAccountData),
            r matches Ok(a) ==> pending_layout(a) == data@,
    {
        if data.len() != PENDING_ACCOUNT_LEN {
            return Err(ZerosolError::InvalidAccountData);
        }
        let a = PendingAccount { commitment_left: read_array32(data, 0), commitment_right: read_array32(data, 32) };
        assert(pending_layout(a) =~= data@);
        Ok(a)
    }
}

/// Program-wide configuration.
#[derive(Debug)]
pub struct GlobalState {
    pub authority: [u8; 32],
    pub token_mint: [u8; 32],
    pub epoch_length: u64,
    pub fee: u64,
    pub last_global_update: u64,
    pub current_epoch: u64,
}

pub const GLOBAL_STATE_LEN: usize = 96;

/// `authority ‖ mint ‖ epoch_length ‖ fee ‖ last_update ‖ current_epoch` (integers 8 bytes LE).
pub open spec fn global_layout(g: GlobalState) -> Seq<u8> {
    g.authority@ + g.token_mint@ + spec_u64_to_le_bytes(g.epoch_length) + spec_u64_to_le_bytes(g.fee)
        + spec_u64_to_le_bytes(g.last_global_update) + spec_u64_to_le_bytes(g.current_epoch)
}

impl GlobalState {
    pub fn new(authority: [u8; 32], token_mint: [u8; 32], epoch_length: u64, fee: u64) -> (r:
        GlobalState)
        ensures
            r.authority == authority,
            r.token_mint == token_mint,
            r.epoch_length == epoch_length,
            r.fee == fee,
            r.last_global_update == 0,
            r.current_epoch == 0,
    {
        GlobalState {
            authority,
            token_mint,
            epoch_length,
            fee,
            last_global_update: 0,
            current_epoch: 0,
        }
    }

    pub fn to_bytes(&self) -> (r: Vec<u8>)
        ensures
            r@ == global_layout(*self),
    {
        let mut out: Vec<u8> = Vec::new();
        append_bytes(&mut out, &self.authority);
        append_bytes(&mut out, &self.token_mint);
        let a = u64_to_le_bytes(self.epoch_length);
        append_bytes(&mut out, a.as_slice());
        let b = u64_to_le_bytes(self.fee);
        append_bytes(&mut out, b.as_slice());
        let c = u64_to_le_bytes(self.last_global_update);
        append_bytes(&mut out, c.as_slice());
        let d = u64_to_le_bytes(self.current_epoch);
        append_bytes(&mut out, d.as_slice());
        assert(out@ =~= global_layout(*self));
        out
    }

    /// `InvalidAccountData` unless there are exactly 96 bytes.
    pub fn from_bytes(data: &[u8]) -> (r: Result<GlobalState, ZerosolError>)
        ensures
            r.is_ok() == (data@.len() == GLOBAL_STATE_LEN),
            r.is_err() ==> r == Err::<GlobalState, ZerosolError>(ZerosolError::InvalidAccountData),
            r matches Ok(g) ==> global_layout(g) == data@,
    {
        if data.len() != GLOBAL_STATE_LEN {
            return Err(ZerosolError::InvalidAccountData);
        }
        let g = GlobalState {
            authority: read_array32(data, 0),
            token_mint: read_array32(data, 32),
            epoch_length: read_u64(data, 64),
            fee: read_u64(data, 72),
            last_global_update: read_u64(data, 80),
            current_epoch: read_u64(data, 88),
        };
        proof {
            vstd::bytes::lemma_auto_spec_u64_to_from_le_bytes();
            assert(global_layout(g) =~= data@);
        }
        Ok(g)
    }
}

/// Replay record of a nonce: the tag, the epoch it was used in, and whether it was used.
#[derive(Debug)]
pub struct NonceState {
    pub nonce: [u8; 32],
    pub epoch: u64,
    pub used: bool,
}

pub const NONCE_STATE_LEN: usize = 41;

pub open spec fn nonce_layout(n: NonceState) -> Seq<u8> {
    n.nonce@ + spec_u64_to_le_bytes(n.epoch) + seq![bool_byte(n.used)]
}

impl NonceState {
    pub fn new(nonce: [u8; 32], epoch: u64) -> (r: NonceState)
        ensures
            r.nonce == nonce,
            r.epoch == epoch,
            !r.used,
    {
        NonceState { nonce, epoch, used: false }
    }

    pub fn to_bytes(&self) -> (r: Vec<u8>)
        ensures
            r@ == nonce_layout(*self),
    {
        let mut out: Vec<u8> = Vec::new();
        append_bytes(&mut out, &self.nonce);
        let e = u64_to_le_bytes(self.epoch);
        append_bytes(&mut out, e.as_slice());
        out.push(if self.used { 1u8 } else { 0u8 });
        assert(out@ =~= nonce_layout(*self));
        out
    }

    /// `InvalidAccountData` unless there are exactly 41 bytes and the flag is 0 or 1.
    pub fn from_bytes(data: &[u8]) -> (r: Result<NonceState, ZerosolError>)
        ensures
            r.is_ok() == (data@.len() == NONCE_STATE_LEN && data@[40] <= 1),
            r.is_err() ==> r == Err::<NonceState, ZerosolError>(ZerosolError::InvalidAccountData),
            r matches Ok(n) ==> nonce_layout(n) == data@,
    {
        if data.len() != NONCE_STATE_LEN || data[40] > 1 {
            return Err(ZerosolError::InvalidAccountData);
        }
        let n = NonceState { nonce: read_array32(data, 0), epoch: read_u64(data, 32), used: data[40] == 1 };
        proof {
            vstd::bytes::lemma_auto_spec_u64_to_from_le_bytes();
            assert(nonce_layout(n) =~= data@);
        }
        Ok(n)
    }
}

/// Inner-product argument as stored: the `L`, `R` encodings and the final scalars.
#[derive(Debug)]
pub struct InnerProductProof {
    pub l_points: Vec<[u8; 32]>,
    pub r_points: Vec<[u8; 32]>,
    pub a: [u8; 32],
    pub b: [u8; 32],
}

/// Anonymous-transfer proof as stored.
///
/// - `ba, bs, t_1, t_2, t_hat, tau_x, mu, ip_proof`: the aggregated range proof for
///   `[a, b]`, the Pedersen commitments to the sender's new balance and to the amount.
/// - `z_a`, `s_r`: commitment and response of the proof that one randomness `r`
///   gives both `D = r·G` and `Σ C_j = r·Σ pk_j` (the amounts of all slots sum to 0).
/// - `c`: the challenge of the per-slot OR-proofs. Slot `j` proves one of three
///   branches: unchanged (`C_j = r·pk_j`), sender (it knows `sk_j` and the new
///   balance in `a` is what is left), or receiver (`C_j − r·pk_j` is the amount in
///   `b`). The branch challenges are `y_0g[j]`, `f[j]` and `c − y_0g[j] − f[j]`.
/// - responses per slot: `c_0g` (unchanged: `r`); `cln_g, crn_g, gg` (sender:
///   `sk, b_new, τ_new`); `c_xg, y_xg, dg` (receiver: `b_out, r, τ_out`).
#[derive(Debug)]
pub struct ZerosolProof {
    pub ba: [u8; 32],
    pub bs: [u8; 32],
    pub a: [u8; 32],
    pub b: [u8; 32],
    pub cln_g: Vec<[u8; 32]>,
    pub crn_g: Vec<[u8; 32]>,
    pub c_0g: Vec<[u8; 32]>,
    pub dg: Vec<[u8; 32]>,
    pub y_0g: Vec<[u8; 32]>,
    pub gg: Vec<[u8; 32]>,
    pub c_xg: Vec<[u8; 32]>,
    pub y_xg: Vec<[u8; 32]>,
    pub f: Vec<[u8; 32]>,
    pub z_a: [u8; 32],
    pub t_1: [u8; 32],
    pub t_2: [u8; 32],
    pub t_hat: [u8; 32],
    pub tau_x: [u8; 32],
    pub mu: [u8; 32],
    pub c: [u8; 32],
    pub s_r: [u8; 32],
    pub ip_proof: InnerProductProof,
}

/// Withdrawal proof as stored: a range proof on `commitment` (a Pedersen
/// commitment to the remaining balance) and the responses `c, s_sk, s_b, s_τ` of
/// the Σ-protocol that ties it to the account.
#[derive(Debug)]
pub struct BurnProof {
    pub ba: [u8; 32],
    pub bs: [u8; 32],
    pub t_1: [u8; 32],
    pub t_2: [u8; 32],
    pub t_hat: [u8; 32],
    pub tau_x: [u8; 32],
    pub mu: [u8; 32],
    pub commitment: [u8; 32],
    pub c: [u8; 32],
    pub s_sk: [u8; 32],
    pub s_b: [u8; 32],
    pub s_tau: [u8; 32],
    pub ip_proof: InnerProductProof,
}

} // verus!
