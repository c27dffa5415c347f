//! The values exchanged between parties and kept by each of them.
//!
//! Points and scalars are held as their 32-byte encodings, integers of
//! arbitrary size (commitments, blinding factors) as minimal big-endian byte
//! strings.

use vstd::prelude::*;
use crate::curve::{canonical_scalar, valid_point, valid_scalar};

verus! {

/// Why a protocol step refused its inputs.
#[derive(Debug, Clone, Copy, PartialEq, Eq, Structural)]
pub enum ThresholdError {
    /// Lists of mismatched lengths, a threshold not below the share count, or
    /// party indices that are zero, repeated or out of range.
    InvalidParameters,
    /// A point or scalar encoding of the wrong length, or bytes that are not a point.
    InvalidEncoding,
    /// The revealed value of the party with this index does not open its commitment.
    CommitmentMismatch(u16),
    /// The share from the party at this position (from 1) does not match its commitments.
    ShareVerificationFailed(u16),
    /// No more signers than the threshold.
    InsufficientParticipants,
    /// The partial signatures do not carry one common challenge.
    ChallengeMismatch,
    /// The partial signatures are not consistent with the commitments.
    AggregateCheckFailed,
}

/// A curve point, as its compressed encoding.
#[derive(Debug, Clone)]
pub struct SerializablePoint {
    pub bytes: Vec<u8>,
}

impl SerializablePoint {
    /// A copy of the point.
    pub fn clone_point(&self) -> (r: SerializablePoint)
        ensures
            r.bytes@ == self.bytes@,
    {
        SerializablePoint { bytes: self.bytes.clone() }
    }
}

/// A scalar, as its 32-byte little-endian encoding.
#[derive(Debug, Clone)]
pub struct SerializableScalar {
    pub bytes: Vec<u8>,
}

impl SerializableScalar {
    /// A copy of the scalar.
    pub fn clone_scalar(&self) -> (r: SerializableScalar)
        ensures
            r.bytes@ == self.bytes@,
    {
        SerializableScalar { bytes: self.bytes.clone() }
    }
}

/// An integer of arbitrary size, as a big-endian byte string.
#[derive(Debug, Clone)]
pub struct SerializableBigInt {
    pub bytes: Vec<u8>,
}

/// A party's share of the long-term key: the joint public key `y`, the
/// party's secret share `x_i`, and the secret `prefix` that seeds its nonces.
#[derive(Debug, Clone)]
pub struct SerializableSharedKeys {
    pub y: SerializablePoint,
    pub x_i: SerializableScalar,
    pub prefix: SerializableScalar,
}

/// A party's share of a per-message nonce: the joint nonce point `R` and the
/// party's secret share `r_i`.
#[allow(non_snake_case)]
#[derive(Debug, Clone)]
pub struct SerializableEphemeralSharedKeys {
    pub R: SerializablePoint,
    pub r_i: SerializableScalar,
}

/// An EdDSA signature `(R, s)`.
#[allow(non_snake_case)]
#[derive(Debug, Clone)]
pub struct SerializableSignature {
    pub R: SerializablePoint,
    pub s: SerializableScalar,
}

/// The commitment a party broadcasts in the first round.
#[derive(Debug, Clone)]
pub struct SerializableKeyGenBroadcastMessage1 {
    pub com: SerializableBigInt,
}

/// The public half of a Feldman sharing: the threshold, the number of
/// shares, the indices of the parties the shares went to, and the
/// commitments to the polynomial's coefficients, constant term first.
#[derive(Debug, Clone)]
pub struct SerializableVerifiableSS {
    pub threshold: u16,
    pub share_count: u16,
    pub parties: Vec<u16>,
    pub commitments: Vec<SerializablePoint>,
}

/// A copy of a list of indices.
pub fn copy_indices(v: &Vec<u16>) -> (r: Vec<u16>)
    ensures
        r@ == v@,
{
    let mut r: Vec<u16> = Vec::new();
    let mut i: usize = 0;
    while i < v.len()
        invariant
            i <= v@.len(),
            r@ == v@.subrange(0, i as int),
        decreases v.len() - i,
    {
        r.push(v[i]);
        assert(v@.subrange(0, i + 1) =~= v@.subrange(0, i as int).push(v@[i as int]));
        i = i + 1;
    }
    assert(v@.subrange(0, v@.len() as int) =~= v@);
    r
}

/// The values of a sharing polynomial at the parties' indices.
#[derive(Debug, Clone)]
pub struct SerializableSecretShares {
    pub shares: Vec<SerializableScalar>,
}

/// One party's partial signature: the response share `gamma_i` and the
/// challenge `k`.
#[derive(Debug, Clone)]
pub struct SerializableLocalSig {
    pub gamma_i: SerializableScalar,
    pub k: SerializableScalar,
}

/// A commitment together with the blinding factor that opens it.
#[derive(Debug, Clone)]
pub struct BroadcastCommitment {
    pub commitment: SerializableBigInt,
    pub blind_factor: SerializableBigInt,
}

/// What the distribute step hands out: the public commitments, broadcast to
/// all, and one share for each party, each sent to that party alone.
#[derive(Debug, Clone)]
pub struct DistributeOutput {
    pub vss: SerializableVerifiableSS,
    pub secret_shares: SerializableSecretShares,
}

/// The byte strings of a list of points.
pub open spec fn point_seq(v: Seq<SerializablePoint>) -> Seq<Seq<u8>> {
    v.map_values(|p: SerializablePoint| p.bytes@)
}

/// The byte strings of a list of scalars.
pub open spec fn scalar_seq(v: Seq<SerializableScalar>) -> Seq<Seq<u8>> {
    v.map_values(|s: SerializableScalar| s.bytes@)
}

/// Every entry is a point encoding.
pub open spec fn all_points(v: Seq<SerializablePoint>) -> bool {
    forall|i: int| 0 <= i < v.len() ==> valid_point(#[trigger] v[i].bytes@)
}

/// Every entry is a scalar encoding.
pub open spec fn all_scalars(v: Seq<SerializableScalar>) -> bool {
    forall|i: int| 0 <= i < v.len() ==> valid_scalar(#[trigger] v[i].bytes@)
}

/// Every entry is a canonical scalar encoding.
pub open spec fn all_canonical(v: Seq<SerializableScalar>) -> bool {
    forall|i: int| 0 <= i < v.len() ==> canonical_scalar(#[trigger] v[i].bytes@)
}

/// The number of distinct values in the list.
pub open spec fn distinct_count(s: Seq<u16>) -> nat
    decreases s.len(),
{
    if s.len() == 0 {
        0
    } else if s.drop_last().contains(s.last()) {
        distinct_count(s.drop_last())
    } else {
        distinct_count(s.drop_last()) + 1
    }
}

/// A list has at most as many distinct values as entries, and exactly as
/// many when none is repeated.
pub proof fn lemma_distinct_count_bounds(s: Seq<u16>)
    ensures
        distinct_count(s) <= s.len(),
        s.no_duplicates() ==> distinct_count(s) == s.len(),
    decreases s.len(),
{
    if s.len() > 0 {
        let init = s.drop_last();
        lemma_distinct_count_bounds(init);
        if s.no_duplicates() {
            assert(init.no_duplicates());
            if init.contains(s.last()) {
                let k = choose|k: int| 0 <= k < init.len() && init[k] == s.last();
                assert(s[k] == s[s.len() - 1]);
            }
        }
    }
}

/// Party indices: none zero, none repeated.
pub open spec fn party_indices(v: Seq<u16>) -> bool {
    &&& v.no_duplicates()
    &&& forall|i: int| 0 <= i < v.len() ==> #[trigger] v[i] != 0
}

} // verus!
