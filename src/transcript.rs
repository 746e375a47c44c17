use crate::point::G1Point;
use crate::scalar::{group_order, le_value, scalar_encoding, scalar_from_bytes, Scalar};
use crate::utils::{append_bytes, sha256, sha256_of};
use vstd::bytes::{spec_u64_to_le_bytes, u64_to_le_bytes};
use vstd::prelude::*;

verus! {

/// One absorbed record: label length, label, payload length, payload
/// (lengths as 8-byte little-endian integers).
pub open spec fn frame(label: Seq<u8>, payload: Seq<u8>) -> Seq<u8> {
    spec_u64_to_le_bytes(label.len() as u64) + label + spec_u64_to_le_bytes(payload.len() as u64)
        + payload
}

/// The separator label under which challenges are squeezed: `challenge`.
pub open spec fn challenge_separator() -> Seq<u8> {
    seq![99u8, 104, 97, 108, 108, 101, 110, 103, 101]
}

/// The challenge squeezed under `label` from a transcript that has absorbed `log`.
pub open spec fn challenge_of(log: Seq<u8>, label: Seq<u8>) -> nat {
    le_value(sha256_of(log + frame(challenge_separator(), label))) % group_order()
}

/// The state after squeezing the challenge `label`: the challenge is absorbed back.
pub open spec fn after_challenge(log: Seq<u8>, label: Seq<u8>) -> Seq<u8> {
    log + frame(label, scalar_encoding(challenge_of(log, label)))
}

/// A Fiat–Shamir transcript. Its state is the byte log of everything absorbed.
pub struct Transcript {
    log: Vec<u8>,
}

impl View for Transcript {
    type V = Seq<u8>;

    closed spec fn view(&self) -> Seq<u8> {
        self.log@
    }
}

impl Transcript {
    pub fn new() -> (r: Transcript)
        ensures
            r@ == Seq::<u8>::empty(),
    {
        Transcript { log: Vec::new() }
    }

    /// Absorbs `payload` under `label`.
    pub fn append_message(&mut self, label: &[u8], payload: &[u8])
        ensures
            final(self)@ == old(self)@ + frame(label@, payload@),
    {
        let ll = u64_to_le_bytes(label.len() as u64);
        let pl = u64_to_le_bytes(payload.len() as u64);
        append_bytes(&mut self.log, ll.as_slice());
        append_bytes(&mut self.log, label);
        append_bytes(&mut self.log, pl.as_slice());
        append_bytes(&mut self.log, payload);
        assert(self.log@ =~= old(self)@ + frame(label@, payload@));
    }

    pub fn append_point(&mut self, label: &[u8], point: &G1Point)
        ensures
            final(self)@ == old(self)@ + frame(label@, point@),
    {
        let b = point.to_bytes();
        self.append_message(label, &b);
    }

    pub fn append_scalar(&mut self, label: &[u8], scalar: &Scalar)
        ensures
            final(self)@ == old(self)@ + frame(label@, scalar_encoding(scalar@)),
    {
        let b = scalar.to_bytes();
        self.append_message(label, &b);
    }

    /// Absorbs an integer as 8 little-endian bytes.
    pub fn append_u64(&mut self, label: &[u8], v: u64)
        ensures
            final(self)@ == old(self)@ + frame(label@, spec_u64_to_le_bytes(v)),
    {
        let b = u64_to_le_bytes(v);
        self.append_message(label, b.as_slice());
    }

    /// Squeezes a challenge scalar: SHA-256 of the log followed by a `challenge`
    /// record for `label`, reduced; the challenge is then absorbed under `label`.
    pub fn challenge_scalar(&mut self, label: &[u8]) -> (r: Scalar)
        ensures
            r@ == challenge_of(old(self)@, label@),
            final(self)@ == after_challenge(old(self)@, label@),
    {
        let mut data: Vec<u8> = Vec::new();
        append_bytes(&mut data, self.log.as_slice());
        let sep: [u8; 9] = [99u8, 104, 97, 108, 108, 101, 110, 103, 101];
        assert(sep@ =~= challenge_separator());
        let sl = u64_to_le_bytes(9);
        let ll = u64_to_le_bytes(label.len() as u64);
        append_bytes(&mut data, sl.as_slice());
        append_bytes(&mut data, &sep);
        append_bytes(&mut data, ll.as_slice());
        append_bytes(&mut data, label);
        assert(data@ =~= old(self)@ + frame(challenge_separator(), label@));
        let h = sha256(data.as_slice());
        let c = scalar_from_bytes(&h);
        self.append_scalar(label, &c);
        c
    }
}

/// Absorbing the same records into the same state yields the same state, and
/// squeezing the same label from equal states yields bit-equal challenges.
pub proof fn lemma_transcript_determinism(
    log1: Seq<u8>,
    log2: Seq<u8>,
    records: Seq<(Seq<u8>, Seq<u8>)>,
    label: Seq<u8>,
)
    requires
        log1 == log2,
    ensures
        absorb_all(log1, records) == absorb_all(log2, records),
        challenge_of(absorb_all(log1, records), label) == challenge_of(
            absorb_all(log2, records),
            label,
        ),
        scalar_encoding(challenge_of(absorb_all(log1, records), label)) == scalar_encoding(
            challenge_of(absorb_all(log2, records), label),
        ),
{
}

/// The state after absorbing `records` (label, payload) in order.
pub open spec fn absorb_all(log: Seq<u8>, records: Seq<(Seq<u8>, Seq<u8>)>) -> Seq<u8>
    decreases records.len(),
{
    if records.len() == 0 {
        log
    } else {
        let n = (records.len() - 1) as int;
        absorb_all(log, records.subrange(0, n)) + frame(records[n].0, records[n].1)
    }
}

/// The records laid out front to back.
pub open spec fn frames(records: Seq<(Seq<u8>, Seq<u8>)>) -> Seq<u8>
    decreases records.len(),
{
    if records.len() == 0 {
        Seq::empty()
    } else {
        frame(records[0].0, records[0].1) + frames(records.drop_first())
    }
}

/// Every label and payload length fits the 8-byte length prefix.
pub open spec fn records_fit(records: Seq<(Seq<u8>, Seq<u8>)>) -> bool {
    forall|i: int|
        0 <= i < records.len() ==> (#[trigger] records[i]).0.len() <= u64::MAX && records[i].1.len()
            <= u64::MAX
}

proof fn lemma_absorb_all_is_frames(log: Seq<u8>, records: Seq<(Seq<u8>, Seq<u8>)>)
    ensures
        absorb_all(log, records) == log + frames(records),
    decreases records.len(),
{
    if records.len() > 0 {
        let n = (records.len() - 1) as int;
        lemma_absorb_all_is_frames(log, records.subrange(0, n));
        lemma_frames_snoc(records);
    }
}

proof fn lemma_frames_snoc(records: Seq<(Seq<u8>, Seq<u8>)>)
    requires
        records.len() > 0,
    ensures
        frames(records) == frames(records.subrange(0, records.len() - 1)) + frame(
            records.last().0,
            records.last().1,
        ),
    decreases records.len(),
{
    let n = records.len() - 1;
    if n == 0 {
        assert(records.drop_first() =~= Seq::<(Seq<u8>, Seq<u8>)>::empty());
        assert(records.subrange(0, 0) =~= Seq::<(Seq<u8>, Seq<u8>)>::empty());
        assert(frames(records.drop_first()) == Seq::<u8>::empty());
        assert(frames(records.subrange(0, 0)) == Seq::<u8>::empty());
        assert(records.last() == records[0]);
        assert(frames(records) =~= frame(records.last().0, records.last().1));
        assert(frames(records) =~= frames(records.subrange(0, 0)) + frame(
            records.last().0,
            records.last().1,
        ));
    } else {
        let tail = records.drop_first();
        lemma_frames_snoc(tail);
        assert(tail.subrange(0, tail.len() - 1) =~= records.subrange(0, n).drop_first());
        assert(tail.last() == records.last());
        assert(records.subrange(0, n)[0] == records[0]);
        assert(frames(records) =~= frames(records.subrange(0, n)) + frame(
            records.last().0,
            records.last().1,
        ));
    }
}

proof fn lemma_frame_prefix(l1: Seq<u8>, p1: Seq<u8>, r1: Seq<u8>, l2: Seq<u8>, p2: Seq<u8>, r2: Seq<u8>)
    requires
        l1.len() <= u64::MAX,
        p1.len() <= u64::MAX,
        l2.len() <= u64::MAX,
        p2.len() <= u64::MAX,
        frame(l1, p1) + r1 == frame(l2, p2) + r2,
    ensures
        l1 == l2,
        p1 == p2,
        r1 == r2,
{
    vstd::bytes::lemma_auto_spec_u64_to_from_le_bytes();
    let s = frame(l1, p1) + r1;
    let a1 = spec_u64_to_le_bytes(l1.len() as u64);
    let a2 = spec_u64_to_le_bytes(l2.len() as u64);
    assert(s.subrange(0, 8) =~= a1);
    assert((frame(l2, p2) + r2).subrange(0, 8) =~= a2);
    assert(l1.len() == l2.len());
    let ll = l1.len() as int;
    assert(s.subrange(8, 8 + ll) =~= l1);
    assert((frame(l2, p2) + r2).subrange(8, 8 + ll) =~= l2);
    let b1 = spec_u64_to_le_bytes(p1.len() as u64);
    let b2 = spec_u64_to_le_bytes(p2.len() as u64);
    assert(s.subrange(8 + ll, 16 + ll) =~= b1);
    assert((frame(l2, p2) + r2).subrange(8 + ll, 16 + ll) =~= b2);
    assert(p1.len() == p2.len());
    let pl = p1.len() as int;
    assert(s.subrange(16 + ll, 16 + ll + pl) =~= p1);
    assert((frame(l2, p2) + r2).subrange(16 + ll, 16 + ll + pl) =~= p2);
    assert(s.subrange(16 + ll + pl, s.len() as int) =~= r1);
    assert((frame(l2, p2) + r2).subrange(16 + ll + pl, s.len() as int) =~= r2);
}

proof fn lemma_frames_injective(r1: Seq<(Seq<u8>, Seq<u8>)>, r2: Seq<(Seq<u8>, Seq<u8>)>)
    requires
        records_fit(r1),
        records_fit(r2),
        frames(r1) == frames(r2),
    ensures
        r1 == r2,
    decreases r1.len(),
{
    if r1.len() == 0 {
        if r2.len() > 0 {
            vstd::bytes::lemma_auto_spec_u64_to_from_le_bytes();
            assert(frames(r2).len() >= 16);
        }
        assert(r1 =~= r2);
    } else {
        if r2.len() == 0 {
            vstd::bytes::lemma_auto_spec_u64_to_from_le_bytes();
            assert(frames(r1).len() >= 16);
        }
        assert(records_fit(r1.drop_first())) by {
            assert forall|i: int| 0 <= i < r1.drop_first().len() implies (#[trigger] r1.drop_first()[i]).0.len()
                <= u64::MAX && r1.drop_first()[i].1.len() <= u64::MAX by {
                assert(r1.drop_first()[i] == r1[i + 1]);
            }
        }
        assert(records_fit(r2.drop_first())) by {
            assert forall|i: int| 0 <= i < r2.drop_first().len() implies (#[trigger] r2.drop_first()[i]).0.len()
                <= u64::MAX && r2.drop_first()[i].1.len() <= u64::MAX by {
                assert(r2.drop_first()[i] == r2[i + 1]);
            }
        }
        lemma_frame_prefix(r1[0].0, r1[0].1, frames(r1.drop_first()), r2[0].0, r2[0].1, frames(r2.drop_first()));
        lemma_frames_injective(r1.drop_first(), r2.drop_first());
        assert(r1 =~= seq![r1[0]] + r1.drop_first());
        assert(r2 =~= seq![r2[0]] + r2.drop_first());
    }
}

/// The length-prefixed framing is unambiguous: two record sequences that leave
/// a transcript in the same state are the same sequence, so a challenge can only
/// coincide for different inputs through a SHA-256 collision.
pub proof fn lemma_transcript_unambiguous(
    log: Seq<u8>,
    records1: Seq<(Seq<u8>, Seq<u8>)>,
    records2: Seq<(Seq<u8>, Seq<u8>)>,
)
    requires
        records_fit(records1),
        records_fit(records2),
        absorb_all(log, records1) == absorb_all(log, records2),
    ensures
        records1 == records2,
{
    lemma_absorb_all_is_frames(log, records1);
    lemma_absorb_all_is_frames(log, records2);
    assert(frames(records1) =~= (log + frames(records1)).subrange(log.len() as int, (log + frames(records1)).len() as int));
    assert(frames(records2) =~= (log + frames(records2)).subrange(log.len() as int, (log + frames(records2)).len() as int));
    lemma_frames_injective(records1, records2);
}

} // verus!
