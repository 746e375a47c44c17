use crate::bulletproof::{is_two_power, BulletproofVerifier};
use crate::error::ZerosolError;
use crate::point::{
    basepoint_encoding, identity_encoding, point_add_of, point_mul_of, ristretto_decodes, G1Point,
};
use crate::scalar::{group_order, le_value, scalar_from_bytes, scalar_neg, sneg, Scalar};
use crate::sigma::{
    burn_accepts, burn_decoding, burn_proof_decodes, convert_burn_proof_to_range_proof,
    convert_zerosol_proof_to_range_proof, transfer_accepts, transfer_decoding,
    transfer_proof_decodes, verify_burn_proof, verify_transfer_proof,
};
use crate::state::{
    bytes32_eq, decode_point, BurnProof, GlobalState, NonceState, PendingAccount, ZerosolAccount,
    ZerosolProof,
};
use crate::utils::{
    append_bytes, schnorr_challenge, sha256, sha256_of, verify_schnorr_signature, MAX_TRANSFER_AMOUNT,
};
use vstd::bytes::{spec_u64_to_le_bytes, u64_to_le_bytes};
use vstd::prelude::*;

verus! {

/// `epoch(now) = ⌊now / epoch_length⌋`; `InvalidEpoch` for a zero epoch length.
pub fn current_epoch(global: &GlobalState, now: u64) -> (r: Result<u64, ZerosolError>)
    ensures
        global.epoch_length == 0 ==> r == Err::<u64, ZerosolError>(ZerosolError::InvalidEpoch),
        global.epoch_length > 0 ==> r == Ok::<u64, ZerosolError>(now / global.epoch_length),
{
    if global.epoch_length == 0 {
        Err(ZerosolError::InvalidEpoch)
    } else {
        Ok(now / global.epoch_length)
    }
}

/// Creates the global state; the caller must have signed as the authority.
pub fn process_initialize(
    authority: [u8; 32],
    token_mint: [u8; 32],
    authority_signed: bool,
    epoch_length: u64,
    fee: u64,
) -> (r: Result<GlobalState, ZerosolError>)
    ensures
        !authority_signed ==> r == Err::<GlobalState, ZerosolError>(ZerosolError::MissingSignature),
        authority_signed ==> (r matches Ok(g) && g.authority == authority && g.token_mint
            == token_mint && g.epoch_length == epoch_length && g.fee == fee && g.last_global_update
            == 0 && g.current_epoch == 0),
{
    if !authority_signed {
        return Err(ZerosolError::MissingSignature);
    }
    Ok(GlobalState::new(authority, token_mint, epoch_length, fee))
}

// ----- rollover -----

/// `a1, p1` is `a0, p0` rolled over to `epoch`: nothing changes unless the account
/// is behind; then the pending delta is added into the settled balance and reset
/// to `(O, O)`.
pub open spec fn is_rollover_of(
    a0: ZerosolAccount,
    p0: PendingAccount,
    epoch: u64,
    a1: ZerosolAccount,
    p1: PendingAccount,
) -> bool {
    if a0.last_rollover >= epoch {
        a1 == a0 && p1 == p0
    } else {
        &&& a1.commitment_left@ == point_add_of(a0.commitment_left@, p0.commitment_left@)
        &&& a1.commitment_right@ == point_add_of(a0.commitment_right@, p0.commitment_right@)
        &&& a1.public_key == a0.public_key
        &&& a1.is_registered == a0.is_registered
        &&& a1.last_rollover == epoch
        &&& p1.commitment_left@ == identity_encoding()
        &&& p1.commitment_right@ == identity_encoding()
    }
}

/// The commitments a rollover reads are valid points (or no rollover is due).
pub open spec fn rollover_decodes(a0: ZerosolAccount, p0: PendingAccount, epoch: u64) -> bool {
    a0.last_rollover >= epoch || (ristretto_decodes(a0.commitment_left@) && ristretto_decodes(
        a0.commitment_right@,
    ) && ristretto_decodes(p0.commitment_left@) && ristretto_decodes(p0.commitment_right@))
}

/// Outcome of `rollover_account`: the rollover, or `InvalidEncoding` and no change.
pub open spec fn rollover_post(
    a0: ZerosolAccount,
    p0: PendingAccount,
    epoch: u64,
    a1: ZerosolAccount,
    p1: PendingAccount,
    r: Result<(), ZerosolError>,
) -> bool {
    if rollover_decodes(a0, p0, epoch) {
        r.is_ok() && is_rollover_of(a0, p0, epoch, a1, p1)
    } else {
        r == Err::<(), ZerosolError>(ZerosolError::InvalidEncoding) && a1 == a0 && p1 == p0
    }
}

fn copy_account(a: &ZerosolAccount) -> (r: ZerosolAccount)
    ensures
        r == *a,
{
    ZerosolAccount {
        commitment_left: a.commitment_left,
        commitment_right: a.commitment_right,
        public_key: a.public_key,
        last_rollover: a.last_rollover,
        is_registered: a.is_registered,
    }
}

fn copy_pending(p: &PendingAccount) -> (r: PendingAccount)
    ensures
        r == *p,
{
    PendingAccount { commitment_left: p.commitment_left, commitment_right: p.commitment_right }
}

/// Folds the pending delta into the settled balance when the account is behind
/// `current_epoch`.
pub fn rollover_account(
    account: &mut ZerosolAccount,
    pending: &mut PendingAccount,
    current_epoch: u64,
) -> (r: Result<(), ZerosolError>)
    ensures
        rollover_post(*old(account), *old(pending), current_epoch, *final(account), *final(pending), r),
{
    if account.last_rollover >= current_epoch {
        return Ok(());
    }
    let cl = decode_point(&account.commitment_left)?;
    let cr = decode_point(&account.commitment_right)?;
    let pl = decode_point(&pending.commitment_left)?;
    let pr = decode_point(&pending.commitment_right)?;
    account.set_commitment_left(&cl.add(&pl));
    account.set_commitment_right(&cr.add(&pr));
    account.last_rollover = current_epoch;
    *pending = PendingAccount::new();
    Ok(())
}

/// Calling RollOver a second time in the same epoch changes nothing.
pub proof fn lemma_rollover_idempotent(
    a0: ZerosolAccount,
    p0: PendingAccount,
    epoch: u64,
    a1: ZerosolAccount,
    p1: PendingAccount,
    r1: Result<(), ZerosolError>,
    a2: ZerosolAccount,
    p2: PendingAccount,
    r2: Result<(), ZerosolError>,
)
    requires
        rollover_post(a0, p0, epoch, a1, p1, r1),
        r1.is_ok(),
        rollover_post(a1, p1, epoch, a2, p2, r2),
    ensures
        r2.is_ok(),
        a2 == a1,
        p2 == p1,
{
}

// ----- register -----

/// Registers the owner of `public_key`, who proves knowledge of its secret key
/// with the Schnorr pair `(challenge, response)` over the program id. The new
/// account holds `C_settled = (pk, G)`, `C_pending = (O, O)` and is current as of
/// `current_epoch`.
pub fn process_register(
    program_id: &[u8; 32],
    public_key: [u8; 32],
    challenge: [u8; 32],
    response: [u8; 32],
    current_epoch: u64,
) -> (r: Result<(ZerosolAccount, PendingAccount), ZerosolError>)
    ensures
        !ristretto_decodes(public_key@) ==> r == Err::<(ZerosolAccount, PendingAccount), ZerosolError>(
            ZerosolError::InvalidEncoding,
        ),
        ristretto_decodes(public_key@) ==> (r.is_ok() <==> schnorr_challenge(
            public_key@,
            program_id@,
            le_value(challenge@) % group_order(),
            le_value(response@) % group_order(),
        ) == le_value(challenge@) % group_order()),
        r.is_err() && ristretto_decodes(public_key@) ==> r == Err::<
            (ZerosolAccount, PendingAccount),
            ZerosolError,
        >(ZerosolError::InvalidRegistrationSignature),
        r matches Ok(ap) ==> ap.0.public_key == public_key && ap.0.commitment_left@
            == public_key@ && ap.0.commitment_right@ == basepoint_encoding()
            && ap.0.last_rollover == current_epoch && ap.0.is_registered
            && ap.1.commitment_left@ == identity_encoding() && ap.1.commitment_right@
            == identity_encoding(),
{
    let pk = decode_point(&public_key)?;
    let c = scalar_from_bytes(&challenge);
    let s = scalar_from_bytes(&response);
    if !verify_schnorr_signature(&pk, program_id, &c, &s) {
        return Err(ZerosolError::InvalidRegistrationSignature);
    }
    let mut account = ZerosolAccount::new(public_key);
    account.is_registered = true;
    account.last_rollover = current_epoch;
    account.set_commitment_left(&pk);
    account.set_commitment_right(&G1Point::generator());
    Ok((account, PendingAccount::new()))
}

// ----- fund -----

/// Deposits `amount` (at most `MAX_TRANSFER_AMOUNT`) into a registered account,
/// rolling it over first if it is behind: `C_pending.L += amount·G`.
pub fn process_fund(
    account: &mut ZerosolAccount,
    pending: &mut PendingAccount,
    amount: u64,
    current_epoch: u64,
) -> (r: Result<(), ZerosolError>)
    ensures
        amount > MAX_TRANSFER_AMOUNT ==> r == Err::<(), ZerosolError>(
            ZerosolError::TransferAmountOutOfRange,
        ),
        amount <= MAX_TRANSFER_AMOUNT && !old(account).is_registered ==> r == Err::<(), ZerosolError>(
            ZerosolError::AccountNotRegistered,
        ),
        r.is_err() ==> *final(account) == *old(account) && *final(pending) == *old(pending),
        r.is_ok() ==> amount <= MAX_TRANSFER_AMOUNT && old(account).is_registered,
        r.is_ok() ==> exists|p_mid: PendingAccount|
            is_rollover_of(*old(account), *old(pending), current_epoch, *final(account), p_mid)
                && final(pending).commitment_left@ == point_add_of(
                p_mid.commitment_left@,
                point_mul_of(basepoint_encoding(), amount as nat),
            ) && final(pending).commitment_right == p_mid.commitment_right,
        amount <= MAX_TRANSFER_AMOUNT && old(account).is_registered && rollover_decodes(
            *old(account),
            *old(pending),
            current_epoch,
        ) && (old(account).last_rollover < current_epoch || ristretto_decodes(
            old(pending).commitment_left@,
        )) ==> r.is_ok(),
{
    if amount > MAX_TRANSFER_AMOUNT {
        return Err(ZerosolError::TransferAmountOutOfRange);
    }
    if !account.is_registered {
        return Err(ZerosolError::AccountNotRegistered);
    }
    let mut a = copy_account(account);
    let mut p = copy_pending(pending);
    rollover_account(&mut a, &mut p, current_epoch)?;
    let ghost p_mid = p;
    let left = if a.last_rollover == account.last_rollover {
        decode_point(&p.commitment_left)?
    } else {
        G1Point::identity()
    };
    let delta = G1Point::generator().mul(&Scalar::from_u64(amount));
    p.set_commitment_left(&left.add(&delta));
    *account = a;
    *pending = p;
    Ok(())
}

// ----- burn -----

/// The tag a nonce record is keyed by: `SHA-256(nonce ‖ epoch (8, LE))`.
pub open spec fn nonce_tag_spec(nonce: Seq<u8>, epoch: u64) -> Seq<u8> {
    sha256_of(nonce + spec_u64_to_le_bytes(epoch))
}

/// The tag of `nonce` in `epoch`.
pub fn nonce_tag(nonce: &[u8; 32], epoch: u64) -> (r: [u8; 32])
    ensures
        r@ == nonce_tag_spec(nonce@, epoch),
{
    let mut data: Vec<u8> = Vec::new();
    append_bytes(&mut data, nonce);
    let e = u64_to_le_bytes(epoch);
    append_bytes(&mut data, e.as_slice());
    sha256(data.as_slice())
}

/// The nonce record already marks `nonce` as used in `epoch`.
pub open spec fn nonce_seen(ns: NonceState, nonce: [u8; 32], epoch: u64) -> bool {
    ns.used && ns.epoch == epoch && ns.nonce@ == nonce_tag_spec(nonce@, epoch)
}

/// Once a nonce is recorded in an epoch, it is seen again in that epoch and not
/// in the next.
pub proof fn lemma_nonce_uniqueness(ns: NonceState, nonce: [u8; 32], epoch: u64)
    requires
        ns.nonce@ == nonce_tag_spec(nonce@, epoch),
        ns.epoch == epoch,
        ns.used,
        epoch < u64::MAX,
    ensures
        nonce_seen(ns, nonce, epoch),
        !nonce_seen(ns, nonce, (epoch + 1) as u64),
{
}

/// Withdraws `amount` from a registered account with a proof that the remaining
/// balance is in range: after a rollover if one is due, `C_pending.L −= amount·G`
/// and the nonce is recorded as used in `current_epoch`.
pub fn process_burn(
    verifier: &BulletproofVerifier,
    account: &mut ZerosolAccount,
    pending: &mut PendingAccount,
    nonce_state: &mut NonceState,
    amount: u64,
    nonce: [u8; 32],
    proof: &BurnProof,
    current_epoch: u64,
) -> (r: Result<(), ZerosolError>)
    requires
        verifier.wf(),
    ensures
        amount > MAX_TRANSFER_AMOUNT ==> r == Err::<(), ZerosolError>(
            ZerosolError::TransferAmountOutOfRange,
        ),
        amount <= MAX_TRANSFER_AMOUNT && nonce_seen(*old(nonce_state), nonce, current_epoch) ==> r
            == Err::<(), ZerosolError>(ZerosolError::NonceAlreadySeen),
        amount <= MAX_TRANSFER_AMOUNT && !nonce_seen(*old(nonce_state), nonce, current_epoch)
            && !old(account).is_registered ==> r == Err::<(), ZerosolError>(
            ZerosolError::AccountNotRegistered,
        ),
        r.is_err() ==> *final(account) == *old(account) && *final(pending) == *old(pending)
            && *final(nonce_state) == *old(nonce_state),
        r.is_ok() ==> amount <= MAX_TRANSFER_AMOUNT && !nonce_seen(
            *old(nonce_state),
            nonce,
            current_epoch,
        ) && old(account).is_registered,
        r.is_err() ==> r == Err::<(), ZerosolError>(ZerosolError::TransferAmountOutOfRange) || r
            == Err::<(), ZerosolError>(ZerosolError::NonceAlreadySeen) || r == Err::<(), ZerosolError>(
            ZerosolError::AccountNotRegistered,
        ) || r == Err::<(), ZerosolError>(ZerosolError::InvalidEncoding) || r == Err::<
            (),
            ZerosolError,
        >(ZerosolError::BurnProofVerificationFailed),
        amount <= MAX_TRANSFER_AMOUNT && !nonce_seen(*old(nonce_state), nonce, current_epoch)
            && old(account).is_registered && rollover_decodes(*old(account), *old(pending), current_epoch)
            && (forall|a1: ZerosolAccount, p_mid: PendingAccount|
            #[trigger] is_rollover_of(*old(account), *old(pending), current_epoch, a1, p_mid) ==> {
                &&& ristretto_decodes(a1.public_key@)
                &&& ristretto_decodes(a1.commitment_left@)
                &&& ristretto_decodes(a1.commitment_right@)
                &&& ristretto_decodes(p_mid.commitment_left@)
                &&& ristretto_decodes(p_mid.commitment_right@)
                &&& !(burn_proof_decodes(*proof) && exists|d| #[trigger] burn_decoding(*proof, d) && burn_accepts(
                    *verifier,
                    d,
                    current_epoch,
                    nonce@,
                    a1.public_key@,
                    point_add_of(a1.commitment_left@, p_mid.commitment_left@),
                    point_add_of(a1.commitment_right@, p_mid.commitment_right@),
                    amount,
                ))
            }) ==> r == Err::<(), ZerosolError>(ZerosolError::BurnProofVerificationFailed),
        r.is_ok() ==> final(nonce_state).nonce@ == nonce_tag_spec(nonce@, current_epoch) && final(nonce_state).epoch
            == current_epoch && final(nonce_state).used,
        r.is_ok() ==> exists|p_mid: PendingAccount|
            is_rollover_of(*old(account), *old(pending), current_epoch, *final(account), p_mid)
                && final(pending).commitment_left@ == point_add_of(
                p_mid.commitment_left@,
                point_mul_of(basepoint_encoding(), sneg(amount as nat)),
            ) && final(pending).commitment_right == p_mid.commitment_right,
        amount <= MAX_TRANSFER_AMOUNT && !nonce_seen(*old(nonce_state), nonce, current_epoch)
            && old(account).is_registered && rollover_decodes(*old(account), *old(pending), current_epoch)
            && burn_proof_decodes(*proof) && (forall|a1: ZerosolAccount, p_mid: PendingAccount|
            #[trigger] is_rollover_of(*old(account), *old(pending), current_epoch, a1, p_mid) ==> {
                &&& ristretto_decodes(a1.public_key@)
                &&& ristretto_decodes(a1.commitment_left@)
                &&& ristretto_decodes(a1.commitment_right@)
                &&& ristretto_decodes(p_mid.commitment_left@)
                &&& ristretto_decodes(p_mid.commitment_right@)
                &&& forall|d| #[trigger] burn_decoding(*proof, d) ==> burn_accepts(
                    *verifier,
                    d,
                    current_epoch,
                    nonce@,
                    a1.public_key@,
                    point_add_of(a1.commitment_left@, p_mid.commitment_left@),
                    point_add_of(a1.commitment_right@, p_mid.commitment_right@),
                    amount,
                )
            }) ==> r.is_ok(),
        r.is_ok() ==> exists|d, p_mid: PendingAccount|
            is_rollover_of(*old(account), *old(pending), current_epoch, *final(account), p_mid)
                && burn_decoding(*proof, d) && burn_accepts(
                *verifier,
                d,
                current_epoch,
                nonce@,
                final(account).public_key@,
                point_add_of(final(account).commitment_left@, p_mid.commitment_left@),
                point_add_of(final(account).commitment_right@, p_mid.commitment_right@),
                amount,
            ),
{
    if amount > MAX_TRANSFER_AMOUNT {
        return Err(ZerosolError::TransferAmountOutOfRange);
    }
    let tag = nonce_tag(&nonce, current_epoch);
    if nonce_state.used && nonce_state.epoch == current_epoch && bytes32_eq(&nonce_state.nonce, &tag) {
        return Err(ZerosolError::NonceAlreadySeen);
    }
    if !account.is_registered {
        return Err(ZerosolError::AccountNotRegistered);
    }
    let mut a = copy_account(account);
    let mut p = copy_pending(pending);
    rollover_account(&mut a, &mut p, current_epoch)?;
    let ghost p_mid = p;
    let pk = decode_point(&a.public_key)?;
    let cl = decode_point(&a.commitment_left)?;
    let cr = decode_point(&a.commitment_right)?;
    let pl = decode_point(&p.commitment_left)?;
    let pr = decode_point(&p.commitment_right)?;
    let bal_l = cl.add(&pl);
    let bal_r = cr.add(&pr);
    let d = match convert_burn_proof_to_range_proof(proof) {
        Ok(d) => d,
        Err(_) => {
            return Err(ZerosolError::BurnProofVerificationFailed);
        },
    };
    if verify_burn_proof(verifier, &d, &pk, &bal_l, &bal_r, amount, current_epoch, &nonce).is_err() {
        return Err(ZerosolError::BurnProofVerificationFailed);
    }
    let neg = scalar_neg(&Scalar::from_u64(amount));
    let delta = G1Point::generator().mul(&neg);
    p.set_commitment_left(&pl.add(&delta));
    *account = a;
    *pending = p;
    *nonce_state = NonceState { nonce: tag, epoch: current_epoch, used: true };
    Ok(())
}

// ----- transfer -----

/// Some slot's key is repeated in the anonymity set.
pub open spec fn has_duplicate_key(pks: Seq<[u8; 32]>) -> bool {
    exists|i: int, j: int| 0 <= i < j < pks.len() && (#[trigger] pks[i])@ == (#[trigger] pks[j])@
}

/// The anonymity set and the per-slot inputs have the shape a transfer needs:
/// a nonempty power-of-two set of distinct keys, one ciphertext and one account
/// per slot, each account holding its slot's key.
pub open spec fn transfer_shape_ok(
    pks: Seq<[u8; 32]>,
    cs: Seq<[u8; 32]>,
    accounts: Seq<ZerosolAccount>,
    pendings: Seq<PendingAccount>,
) -> bool {
    &&& pks.len() > 0
    &&& exists|k: nat| k < 64 && vstd::arithmetic::power2::pow2(k) == pks.len()
    &&& cs.len() == pks.len()
    &&& accounts.len() == pks.len()
    &&& pendings.len() == pks.len()
    &&& !has_duplicate_key(pks)
    &&& forall|j: int| 0 <= j < pks.len() ==> (#[trigger] accounts[j]).public_key@ == pks[j]@
}

fn find_duplicate(pks: &Vec<[u8; 32]>) -> (r: bool)
    ensures
        r == has_duplicate_key(pks@),
{
    let n = pks.len();
    let mut i: usize = 0;
    while i < n
        invariant
            n == pks@.len(),
            i <= n,
            forall|a: int, b: int| 0 <= a < i && a < b < n ==> (#[trigger] pks@[a])@ != (#[trigger] pks@[b])@,
        decreases n - i,
    {
        let mut j: usize = i + 1;
        while j < n
            invariant
                n == pks@.len(),
                i < n,
                i + 1 <= j <= n,
                forall|a: int, b: int| 0 <= a < i && a < b < n ==> (#[trigger] pks@[a])@ != (#[trigger] pks@[b])@,
                forall|b: int| i < b < j ==> pks@[i as int]@ != (#[trigger] pks@[b])@,
            decreases n - j,
        {
            if bytes32_eq(&pks[i], &pks[j]) {
                return true;
            }
            j = j + 1;
        }
        i = i + 1;
    }
    false
}

fn power_of_two_len(m: usize) -> (r: bool)
    ensures
        r == (exists|k: nat| k < 64 && vstd::arithmetic::power2::pow2(k) == m),
{
    let mut k: usize = 0;
    while k < 64
        invariant
            k <= 64,
            forall|t: nat| t < k ==> vstd::arithmetic::power2::pow2(t) != m,
        decreases 64 - k,
    {
        if is_two_power(k, m) {
            return true;
        }
        k = k + 1;
    }
    false
}

/// Every slot account, and the beneficiary, is registered.
pub open spec fn all_registered(accounts: Seq<ZerosolAccount>) -> bool {
    forall|j: int| 0 <= j < accounts.len() ==> (#[trigger] accounts[j]).is_registered
}

/// Slot `j` after the transfer: rolled over, then `C_pending += (C_j, D)`, and
/// `fee·G` more on the left when the slot is also the beneficiary.
pub open spec fn slot_updated(
    a0: ZerosolAccount,
    p0: PendingAccount,
    epoch: u64,
    c: Seq<u8>,
    d: Seq<u8>,
    credit: bool,
    fee: u64,
    a1: ZerosolAccount,
    p1: PendingAccount,
) -> bool {
    exists|p_mid: PendingAccount|
        is_rollover_of(a0, p0, epoch, a1, p_mid) && p1.commitment_left@ == (if credit {
            point_add_of(
                point_add_of(p_mid.commitment_left@, c),
                point_mul_of(basepoint_encoding(), fee as nat),
            )
        } else {
            point_add_of(p_mid.commitment_left@, c)
        }) && p1.commitment_right@ == point_add_of(p_mid.commitment_right@, d)
}

/// The points that a slot's rollover and ciphertext addition read all decode.
pub open spec fn slot_decodes(a0: ZerosolAccount, p0: PendingAccount, epoch: u64, c: Seq<u8>) -> bool {
    &&& rollover_decodes(a0, p0, epoch)
    &&& ristretto_decodes(c)
    &&& forall|a1: ZerosolAccount, p_mid: PendingAccount|
        #[trigger] is_rollover_of(a0, p0, epoch, a1, p_mid) ==> ristretto_decodes(
            a1.commitment_left@,
        ) && ristretto_decodes(a1.commitment_right@) && ristretto_decodes(p_mid.commitment_left@)
            && ristretto_decodes(p_mid.commitment_right@)
}

/// `cls[j], crs[j]` hold slot `j`'s current balance (settled plus pending) once
/// it is rolled over.
pub open spec fn slot_balance_at(
    accounts: Seq<ZerosolAccount>,
    pendings: Seq<PendingAccount>,
    epoch: u64,
    cls: Seq<[u8; 32]>,
    crs: Seq<[u8; 32]>,
    j: int,
) -> bool {
    exists|a1: ZerosolAccount, p_mid: PendingAccount|
        #[trigger] is_rollover_of(accounts[j], pendings[j], epoch, a1, p_mid) && cls[j]@
            == point_add_of(a1.commitment_left@, p_mid.commitment_left@) && crs[j]@
            == point_add_of(a1.commitment_right@, p_mid.commitment_right@)
}

/// Every slot's balance is in `cls`, `crs`.
pub open spec fn slot_balances(
    accounts: Seq<ZerosolAccount>,
    pendings: Seq<PendingAccount>,
    epoch: u64,
    cls: Seq<[u8; 32]>,
    crs: Seq<[u8; 32]>,
) -> bool {
    &&& cls.len() == accounts.len()
    &&& crs.len() == accounts.len()
    &&& forall|j: int|
        0 <= j < accounts.len() ==> #[trigger] slot_balance_at(accounts, pendings, epoch, cls, crs, j)
}

/// Rolls a slot over and adds its ciphertext (and the fee when `credit`); returns
/// the updated pair and the current balance `(C_L, C_R)` (settled plus pending)
/// before the addition.
fn update_slot(
    a: &ZerosolAccount,
    p: &PendingAccount,
    c: &[u8; 32],
    d: &G1Point,
    credit: bool,
    fee: u64,
    epoch: u64,
) -> (r: Result<(ZerosolAccount, PendingAccount, [u8; 32], [u8; 32]), ZerosolError>)
    ensures
        r matches Ok(out) ==> slot_updated(*a, *p, epoch, c@, d@, credit, fee, out.0, out.1)
            && exists|p_mid: PendingAccount|
            is_rollover_of(*a, *p, epoch, out.0, p_mid) && out.2@ == point_add_of(
                out.0.commitment_left@,
                p_mid.commitment_left@,
            ) && out.3@ == point_add_of(out.0.commitment_right@, p_mid.commitment_right@),
        r.is_err() ==> r == Err::<(ZerosolAccount, PendingAccount, [u8; 32], [u8; 32]), ZerosolError>(
            ZerosolError::InvalidEncoding,
        ),
        slot_decodes(*a, *p, epoch, c@) ==> r.is_ok(),
{
    let mut a1 = copy_account(a);
    let mut p1 = copy_pending(p);
    rollover_account(&mut a1, &mut p1, epoch)?;
    let ghost p_mid = p1;
    let cl = decode_point(&a1.commitment_left)?;
    let cr = decode_point(&a1.commitment_right)?;
    let pl = decode_point(&p1.commitment_left)?;
    let pr = decode_point(&p1.commitment_right)?;
    let cp = decode_point(c)?;
    let bal_l = cl.add(&pl).to_bytes();
    let bal_r = cr.add(&pr).to_bytes();
    let left = pl.add(&cp);
    if credit {
        let fee_point = G1Point::generator().mul(&Scalar::from_u64(fee));
        p1.set_commitment_left(&left.add(&fee_point));
    } else {
        p1.set_commitment_left(&left);
    }
    p1.set_commitment_right(&pr.add(d));
    Ok((a1, p1, bal_l, bal_r))
}

/// The beneficiary's key is the key of some slot.
pub open spec fn beneficiary_in_set(pks: Seq<[u8; 32]>, key: [u8; 32]) -> bool {
    exists|j: int| 0 <= j < pks.len() && (#[trigger] pks[j])@ == key@
}

fn find_key(pks: &Vec<[u8; 32]>, key: &[u8; 32]) -> (r: Option<usize>)
    ensures
        r is None <==> !beneficiary_in_set(pks@, *key),
        r matches Some(j) ==> j < pks@.len() && pks@[j as int]@ == key@,
{
    let mut j: usize = 0;
    while j < pks.len()
        invariant
            j <= pks@.len(),
            forall|i: int| 0 <= i < j ==> (#[trigger] pks@[i])@ != key@,
        decreases pks@.len() - j,
    {
        if bytes32_eq(&pks[j], key) {
            return Some(j);
        }
        j = j + 1;
    }
    None
}

/// An anonymous transfer among the slots of `public_keys`. After the shape, nonce,
/// registration and proof checks, every slot is rolled over and receives
/// `(C_j, D)` in its pending balance, the beneficiary receives `fee·G` (inside its
/// slot when it is one of them), and the nonce tag is recorded as used.
pub fn process_transfer(
    verifier: &BulletproofVerifier,
    beneficiary: &mut ZerosolAccount,
    beneficiary_pending: &mut PendingAccount,
    nonce_state: &mut NonceState,
    participants: &mut Vec<ZerosolAccount>,
    participant_pendings: &mut Vec<PendingAccount>,
    commitments_c: &Vec<[u8; 32]>,
    commitment_d: [u8; 32],
    public_keys: &Vec<[u8; 32]>,
    nonce: [u8; 32],
    proof: &ZerosolProof,
    fee: u64,
    current_epoch: u64,
) -> (r: Result<(), ZerosolError>)
    requires
        verifier.wf(),
    ensures
        !transfer_shape_ok(public_keys@, commitments_c@, old(participants)@, old(participant_pendings)@)
            ==> r == Err::<(), ZerosolError>(ZerosolError::InvalidProofStructure),
        transfer_shape_ok(public_keys@, commitments_c@, old(participants)@, old(participant_pendings)@)
            && nonce_seen(*old(nonce_state), nonce, current_epoch) ==> r == Err::<(), ZerosolError>(
            ZerosolError::NonceAlreadySeen,
        ),
        transfer_shape_ok(public_keys@, commitments_c@, old(participants)@, old(participant_pendings)@)
            && !nonce_seen(*old(nonce_state), nonce, current_epoch) && !(all_registered(
            old(participants)@,
        ) && old(beneficiary).is_registered) ==> r == Err::<(), ZerosolError>(
            ZerosolError::AccountNotRegistered,
        ),
        r.is_err() ==> r == Err::<(), ZerosolError>(ZerosolError::InvalidProofStructure) || r
            == Err::<(), ZerosolError>(ZerosolError::NonceAlreadySeen) || r == Err::<(), ZerosolError>(
            ZerosolError::AccountNotRegistered,
        ) || r == Err::<(), ZerosolError>(ZerosolError::InvalidEncoding) || r == Err::<
            (),
            ZerosolError,
        >(ZerosolError::TransferProofVerificationFailed),
        r.is_err() ==> *final(beneficiary) == *old(beneficiary) && *final(beneficiary_pending)
            == *old(beneficiary_pending) && *final(nonce_state) == *old(nonce_state)
            && final(participants)@ == old(participants)@ && final(participant_pendings)@ == old(
            participant_pendings,
        )@,
        r.is_ok() ==> transfer_shape_ok(
            public_keys@,
            commitments_c@,
            old(participants)@,
            old(participant_pendings)@,
        ) && !nonce_seen(*old(nonce_state), nonce, current_epoch) && all_registered(
            old(participants)@,
        ) && old(beneficiary).is_registered,
        r.is_ok() ==> exists|d, cls: Seq<[u8; 32]>, crs: Seq<[u8; 32]>|
            transfer_decoding(*proof, d) && slot_balances(
                old(participants)@,
                old(participant_pendings)@,
                current_epoch,
                cls,
                crs,
            ) && transfer_accepts(
                *verifier,
                d,
                current_epoch,
                nonce@,
                public_keys@,
                cls,
                crs,
                commitments_c@,
                commitment_d@,
            ),
        r.is_ok() ==> final(nonce_state).nonce@ == nonce_tag_spec(nonce@, current_epoch)
            && final(nonce_state).epoch == current_epoch && final(nonce_state).used,
        r.is_ok() ==> final(participants)@.len() == old(participants)@.len()
            && final(participant_pendings)@.len() == old(participants)@.len(),
        r.is_ok() ==> forall|j: int|
            0 <= j < old(participants)@.len() ==> slot_updated(
                #[trigger] old(participants)@[j],
                old(participant_pendings)@[j],
                current_epoch,
                commitments_c@[j]@,
                commitment_d@,
                public_keys@[j]@ == old(beneficiary).public_key@,
                fee,
                final(participants)@[j],
                final(participant_pendings)@[j],
            ),
        r.is_ok() && beneficiary_in_set(public_keys@, old(beneficiary).public_key) ==> exists|j: int|
            0 <= j < public_keys@.len() && (#[trigger] public_keys@[j])@ == old(
                beneficiary,
            ).public_key@ && *final(beneficiary) == final(participants)@[j]
                && *final(beneficiary_pending) == final(participant_pendings)@[j],
        r.is_ok() && !beneficiary_in_set(public_keys@, old(beneficiary).public_key) ==> exists|
            p_mid: PendingAccount,
        |
            is_rollover_of(
                *old(beneficiary),
                *old(beneficiary_pending),
                current_epoch,
                *final(beneficiary),
                p_mid,
            ) && final(beneficiary_pending).commitment_left@ == point_add_of(
                p_mid.commitment_left@,
                point_mul_of(basepoint_encoding(), fee as nat),
            ) && final(beneficiary_pending).commitment_right == p_mid.commitment_right,
        transfer_shape_ok(public_keys@, commitments_c@, old(participants)@, old(participant_pendings)@)
            && !nonce_seen(*old(nonce_state), nonce, current_epoch) && all_registered(
            old(participants)@,
        ) && old(beneficiary).is_registered && ristretto_decodes(commitment_d@) && (forall|j: int|
            0 <= j < old(participants)@.len() ==> slot_decodes(
                #[trigger] old(participants)@[j],
                old(participant_pendings)@[j],
                current_epoch,
                commitments_c@[j]@,
            )) && transfer_proof_decodes(*proof) && (forall|d, cls: Seq<[u8; 32]>, crs: Seq<[u8; 32]>|
            #[trigger] transfer_decoding(*proof, d) && #[trigger] slot_balances(
                old(participants)@,
                old(participant_pendings)@,
                current_epoch,
                cls,
                crs,
            ) ==> transfer_accepts(
                *verifier,
                d,
                current_epoch,
                nonce@,
                public_keys@,
                cls,
                crs,
                commitments_c@,
                commitment_d@,
            )) && (beneficiary_in_set(public_keys@, old(beneficiary).public_key) || (rollover_decodes(
            *old(beneficiary),
            *old(beneficiary_pending),
            current_epoch,
        ) && (old(beneficiary).last_rollover < current_epoch || ristretto_decodes(
            old(beneficiary_pending).commitment_left@,
        )))) ==> r.is_ok(),
{
    let m = public_keys.len();
    if m == 0 || !power_of_two_len(m) || commitments_c.len() != m || participants.len() != m
        || participant_pendings.len() != m || find_duplicate(public_keys) {
        return Err(ZerosolError::InvalidProofStructure);
    }
    let mut j: usize = 0;
    while j < m
        invariant
            j <= m,
            m == public_keys@.len(),
            participants@.len() == m,
            forall|i: int| 0 <= i < j ==> (#[trigger] participants@[i]).public_key@ == public_keys@[i]@,
            m > 0,
            exists|k: nat| k < 64 && vstd::arithmetic::power2::pow2(k) == m,
            commitments_c@.len() == m,
            participant_pendings@.len() == m,
            !has_duplicate_key(public_keys@),
            participants@ == old(participants)@,
            participant_pendings@ == old(participant_pendings)@,
        decreases m - j,
    {
        if !bytes32_eq(&participants[j].public_key, &public_keys[j]) {
            return Err(ZerosolError::InvalidProofStructure);
        }
        j = j + 1;
    }
    let tag = nonce_tag(&nonce, current_epoch);
    if nonce_state.used && nonce_state.epoch == current_epoch && bytes32_eq(&nonce_state.nonce, &tag) {
        return Err(ZerosolError::NonceAlreadySeen);
    }
    let mut j: usize = 0;
    while j < m
        invariant
            j <= m,
            participants@.len() == m,
            forall|i: int| 0 <= i < j ==> (#[trigger] participants@[i]).is_registered,
            transfer_shape_ok(public_keys@, commitments_c@, old(participants)@, old(participant_pendings)@),
            !nonce_seen(*old(nonce_state), nonce, current_epoch),
            participants@ == old(participants)@,
            participant_pendings@ == old(participant_pendings)@,
        decreases m - j,
    {
        if !participants[j].is_registered {
            return Err(ZerosolError::AccountNotRegistered);
        }
        j = j + 1;
    }
    if !beneficiary.is_registered {
        return Err(ZerosolError::AccountNotRegistered);
    }
    let dp = decode_point(&commitment_d)?;
    let ben_slot = find_key(public_keys, &beneficiary.public_key);
    // roll every slot over and apply its ciphertext, on copies
    let mut new_accounts: Vec<ZerosolAccount> = Vec::new();
    let mut new_pendings: Vec<PendingAccount> = Vec::new();
    let mut cls: Vec<[u8; 32]> = Vec::new();
    let mut crs: Vec<[u8; 32]> = Vec::new();
    let mut j: usize = 0;
    while j < m
        invariant
            j <= m,
            participants@.len() == m,
            participant_pendings@.len() == m,
            commitments_c@.len() == m,
            dp@ == commitment_d@,
            tag@ == nonce_tag_spec(nonce@, current_epoch),
            ben_slot is None <==> !beneficiary_in_set(public_keys@, beneficiary.public_key),
            ben_slot matches Some(jb) ==> jb < m && public_keys@[jb as int]@ == beneficiary.public_key@,
            *beneficiary == *old(beneficiary),
            transfer_shape_ok(public_keys@, commitments_c@, old(participants)@, old(participant_pendings)@),
            !nonce_seen(*old(nonce_state), nonce, current_epoch),
            all_registered(old(participants)@),
            old(beneficiary).is_registered,
            participants@ == old(participants)@,
            participant_pendings@ == old(participant_pendings)@,
            new_accounts@.len() == j,
            new_pendings@.len() == j,
            cls@.len() == j,
            crs@.len() == j,
            forall|i: int|
                0 <= i < j ==> #[trigger] slot_balance_at(
                    participants@,
                    participant_pendings@,
                    current_epoch,
                    cls@,
                    crs@,
                    i,
                ),
            forall|i: int|
                0 <= i < j ==> slot_updated(
                    #[trigger] participants@[i],
                    participant_pendings@[i],
                    current_epoch,
                    commitments_c@[i]@,
                    commitment_d@,
                    public_keys@[i]@ == old(beneficiary).public_key@,
                    fee,
                    new_accounts@[i],
                    new_pendings@[i],
                ),
        decreases m - j,
    {
        let credit = bytes32_eq(&public_keys[j], &beneficiary.public_key);
        let (a1, p1, bl, br) = update_slot(
            &participants[j],
            &participant_pendings[j],
            &commitments_c[j],
            &dp,
            credit,
            fee,
            current_epoch,
        )?;
        assert(exists|p_mid: PendingAccount|
            is_rollover_of(participants@[j as int], participant_pendings@[j as int], current_epoch, a1, p_mid)
                && bl@ == point_add_of(a1.commitment_left@, p_mid.commitment_left@)
                && br@ == point_add_of(a1.commitment_right@, p_mid.commitment_right@));
        let ghost pm = choose|p_mid: PendingAccount|
            is_rollover_of(participants@[j as int], participant_pendings@[j as int], current_epoch, a1, p_mid)
                && bl@ == point_add_of(a1.commitment_left@, p_mid.commitment_left@)
                && br@ == point_add_of(a1.commitment_right@, p_mid.commitment_right@);
        let ghost old_cls = cls@;
        let ghost old_crs = crs@;
        let ghost ga1 = a1;
        new_accounts.push(a1);
        new_pendings.push(p1);
        cls.push(bl);
        crs.push(br);
        proof {
            assert forall|i: int| 0 <= i < j + 1 implies #[trigger] slot_balance_at(
                participants@,
                participant_pendings@,
                current_epoch,
                cls@,
                crs@,
                i,
            ) by {
                if i < j {
                    assert(cls@[i] == old_cls[i]);
                    assert(crs@[i] == old_crs[i]);
                    assert(slot_balance_at(participants@, participant_pendings@, current_epoch, old_cls, old_crs, i));
                    let (x, y) = choose|x: ZerosolAccount, y: PendingAccount|
                        #[trigger] is_rollover_of(participants@[i], participant_pendings@[i], current_epoch, x, y)
                            && old_cls[i]@ == point_add_of(x.commitment_left@, y.commitment_left@)
                            && old_crs[i]@ == point_add_of(x.commitment_right@, y.commitment_right@);
                    assert(is_rollover_of(participants@[i], participant_pendings@[i], current_epoch, x, y));
                } else {
                    assert(i == j);
                    assert(cls@[i] == bl);
                    assert(crs@[i] == br);
                    assert(is_rollover_of(participants@[i], participant_pendings@[i], current_epoch, ga1, pm));
                    assert(cls@[i]@ == point_add_of(ga1.commitment_left@, pm.commitment_left@));
                    assert(crs@[i]@ == point_add_of(ga1.commitment_right@, pm.commitment_right@));
                }
            }
        }
        j = j + 1;
    }
    assert(slot_balances(old(participants)@, old(participant_pendings)@, current_epoch, cls@, crs@));
    let d = match convert_zerosol_proof_to_range_proof(proof) {
        Ok(d) => d,
        Err(_) => {
            return Err(ZerosolError::TransferProofVerificationFailed);
        },
    };
    if verify_transfer_proof(
        verifier,
        &d,
        public_keys,
        &cls,
        &crs,
        commitments_c,
        &dp,
        current_epoch,
        &nonce,
    ).is_err() {
        return Err(ZerosolError::TransferProofVerificationFailed);
    }
    match ben_slot {
        Some(jb) => {
            *beneficiary = copy_account(&new_accounts[jb]);
            *beneficiary_pending = copy_pending(&new_pendings[jb]);
        },
        None => {
            let mut b = copy_account(beneficiary);
            let mut bp = copy_pending(beneficiary_pending);
            rollover_account(&mut b, &mut bp, current_epoch)?;
            let left = if b.last_rollover == beneficiary.last_rollover {
                decode_point(&bp.commitment_left)?
            } else {
                G1Point::identity()
            };
            let fee_point = G1Point::generator().mul(&Scalar::from_u64(fee));
            bp.set_commitment_left(&left.add(&fee_point));
            *beneficiary = b;
            *beneficiary_pending = bp;
        },
    }
    *participants = new_accounts;
    *participant_pendings = new_pendings;
    *nonce_state = NonceState { nonce: tag, epoch: current_epoch, used: true };
    Ok(())
}

/// Every key of the anonymity set is a valid point other than the identity.
pub fn verify_epoch_constraints(epoch: u64, public_keys: &Vec<[u8; 32]>) -> (r: bool)
    ensures
        r == forall|i: int|
            0 <= i < public_keys@.len() ==> ristretto_decodes(#[trigger] public_keys@[i]@)
                && public_keys@[i]@ != identity_encoding(),
{
    let o = G1Point::identity();
    let mut i: usize = 0;
    while i < public_keys.len()
        invariant
            i <= public_keys@.len(),
            o@ == identity_encoding(),
            forall|j: int|
                0 <= j < i ==> ristretto_decodes(#[trigger] public_keys@[j]@) && public_keys@[j]@
                    != identity_encoding(),
        decreases public_keys@.len() - i,
    {
        match G1Point::from_bytes(&public_keys[i]) {
            Some(p) => {
                if p.eq(&o) {
                    return false;
                }
            },
            None => {
                return false;
            },
        }
        i = i + 1;
    }
    true
}

} // verus!
