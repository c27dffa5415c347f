//! One party's side of key generation and of nonce generation.
//!
//! Each step takes the party's own state explicitly; keeping that state, and
//! keeping concurrent signing sessions apart, is the caller's business.

use vstd::prelude::*;
use crate::curve::{
    base_times, commitment_of, hash_commitment, mul_base, random_blind, random_scalar, reduce_wide,
    poly_values, sha512, sha512_of, valid_point, valid_scalar, wide_scalar,
};
use crate::codec::{append, copy_range};
use crate::keygen::{
    coefficient_commitments, construct_outcome, derived_coefficients, distribute_outcome,
    verify_and_construct, verify_and_distribute, verify_and_distribute_derived,
};
use crate::types::{
    point_seq, scalar_seq, BroadcastCommitment, DistributeOutput, SerializableBigInt,
    SerializableEphemeralSharedKeys,
    SerializablePoint, SerializableScalar, SerializableSharedKeys, SerializableVerifiableSS,
    ThresholdError,
};

verus! {

/// The EdDSA clamping of a 32-byte secret scalar: the three low bits
/// cleared, the top bit cleared and the next one set.
pub open spec fn clamp(b: Seq<u8>) -> Seq<u8> {
    b.update(0, b[0] & 248u8).update(31, (b[31] & 127u8) | 64u8)
}

/// The secret scalar that EdDSA expands from a 32-byte private key.
pub open spec fn expanded_scalar(secret: Seq<u8>) -> Seq<u8> {
    clamp(sha512_of(secret).subrange(0, 32))
}

/// The nonce-seeding prefix that EdDSA expands from a 32-byte private key.
pub open spec fn expanded_prefix(secret: Seq<u8>) -> Seq<u8> {
    sha512_of(secret).subrange(32, 64)
}

/// A party index as two big-endian bytes.
pub open spec fn index_bytes(index: u16) -> Seq<u8> {
    seq![(index / 256) as u8, (index % 256) as u8]
}

/// The nonce secret bound to a key's prefix, a message and a party index.
pub open spec fn nonce_secret(prefix: Seq<u8>, message: Seq<u8>, index: u16) -> Seq<u8> {
    wide_scalar(sha512_of(prefix + message + index_bytes(index)))
}

/// One party's long-term key material before key generation: its index,
/// its secret scalar `u_i`, its public point `y_i`, and its secret prefix.
#[derive(Debug, Clone)]
pub struct PartyKeys {
    pub party_index: u16,
    pub u_i: SerializableScalar,
    pub y_i: SerializablePoint,
    pub prefix: SerializableScalar,
}

impl PartyKeys {
    /// The public point belongs to the secret scalar.
    pub open spec fn wf(&self) -> bool {
        &&& valid_scalar(self.u_i.bytes@)
        &&& valid_scalar(self.prefix.bytes@)
        &&& self.y_i.bytes@ == base_times(self.u_i.bytes@)
        &&& valid_point(self.y_i.bytes@)
    }
}

/// One party's secret for a single message's nonce: its index, its secret
/// scalar `r_i` and its public point `R_i`.
#[allow(non_snake_case)]
#[derive(Debug, Clone)]
pub struct EphemeralKey {
    pub party_index: u16,
    pub r_i: SerializableScalar,
    pub R_i: SerializablePoint,
}

impl EphemeralKey {
    /// The public point belongs to the secret scalar.
    pub open spec fn wf(&self) -> bool {
        &&& valid_scalar(self.r_i.bytes@)
        &&& self.R_i.bytes@ == base_times(self.r_i.bytes@)
        &&& valid_point(self.R_i.bytes@)
    }
}

/// Creates a party's keys from a 32-byte private key, expanded as EdDSA
/// does; any other length is an encoding error.
pub fn phase1_create_from_private_key(party_index: u16, secret: &Vec<u8>) -> (r: Result<
    PartyKeys,
    ThresholdError,
>)
    ensures
        secret@.len() != 32 ==> r == Err::<PartyKeys, ThresholdError>(ThresholdError::InvalidEncoding),
        secret@.len() == 32 ==> r is Ok,
        r matches Ok(k) ==> {
            &&& k.wf()
            &&& k.party_index == party_index
            &&& k.u_i.bytes@ == expanded_scalar(secret@)
            &&& k.prefix.bytes@ == expanded_prefix(secret@)
        },
{
    if secret.len() != 32 {
        return Err(ThresholdError::InvalidEncoding);
    }
    Ok(expand_key(party_index, secret))
}

/// Expands a 32-byte private key as EdDSA does.
fn expand_key(party_index: u16, secret: &Vec<u8>) -> (k: PartyKeys)
    requires
        secret@.len() == 32,
    ensures
        k.wf(),
        k.party_index == party_index,
        k.u_i.bytes@ == expanded_scalar(secret@),
        k.prefix.bytes@ == expanded_prefix(secret@),
{
    let h = sha512(secret);
    let mut low = copy_range(&h, 0, 32);
    let first = low[0] & 248u8;
    low.set(0, first);
    let last = (low[31] & 127u8) | 64u8;
    low.set(31, last);
    assert(low@ =~= expanded_scalar(secret@));
    let prefix = copy_range(&h, 32, 64);
    let y = mul_base(&low);
    PartyKeys {
        party_index,
        u_i: SerializableScalar { bytes: low },
        y_i: SerializablePoint { bytes: y },
        prefix: SerializableScalar { bytes: prefix },
    }
}

/// Creates a party's keys from a fresh random private key.
pub fn phase1_create(party_index: u16) -> (r: PartyKeys)
    ensures
        r.wf(),
        r.party_index == party_index,
{
    let secret = random_scalar();
    expand_key(party_index, &secret)
}

/// The party's public point.
pub fn get_public_key(keys: &PartyKeys) -> (r: SerializablePoint)
    ensures
        r.bytes@ == keys.y_i.bytes@,
{
    keys.y_i.clone_point()
}

/// Commits to the party's public point under a fresh blinding factor. The
/// commitment goes to every party; the blinding factor is revealed later.
pub fn phase1_broadcast(keys: &PartyKeys) -> (r: BroadcastCommitment)
    ensures
        r.commitment.bytes@ == commitment_of(keys.y_i.bytes@, r.blind_factor.bytes@),
        r.blind_factor.bytes@.len() <= 32,
{
    commit_to(&keys.y_i)
}

fn commit_to(value: &SerializablePoint) -> (r: BroadcastCommitment)
    ensures
        r.commitment.bytes@ == commitment_of(value.bytes@, r.blind_factor.bytes@),
        r.blind_factor.bytes@.len() <= 32,
{
    let blind = random_blind();
    let com = hash_commitment(&value.bytes, &blind);
    BroadcastCommitment {
        commitment: SerializableBigInt { bytes: com },
        blind_factor: SerializableBigInt { bytes: blind },
    }
}

/// Checks every party's revealed public point against its commitment and,
/// only if all open, shares this party's secret among `parties`.
pub fn phase1_verify_com_phase2_distribute(
    keys: &PartyKeys,
    threshold: u16,
    share_count: u16,
    blind_factors: &Vec<SerializableBigInt>,
    public_keys: &Vec<SerializablePoint>,
    commitments: &Vec<SerializableBigInt>,
    parties: &Vec<u16>,
) -> (r: Result<DistributeOutput, ThresholdError>)
    requires
        keys.wf(),
    ensures
        distribute_outcome(
            keys.u_i.bytes@,
            threshold,
            share_count,
            blind_factors@,
            public_keys@,
            commitments@,
            parties@,
            r,
        ),
{
    verify_and_distribute(
        &keys.u_i,
        threshold,
        share_count,
        blind_factors,
        public_keys,
        commitments,
        parties,
    )
}

/// The joint public key and the secret share, or the error.
pub open spec fn shared_keys_view(r: Result<SerializableSharedKeys, ThresholdError>) -> Result<
    (Seq<u8>, Seq<u8>),
    ThresholdError,
> {
    match r {
        Ok(k) => Ok((k.y.bytes@, k.x_i.bytes@)),
        Err(e) => Err(e),
    }
}

/// Checks the share received from every party and, if all are accepted,
/// returns the joint public key `y` (the sum of the public points) and this
/// party's secret share `x_i` (the sum of the received shares).
pub fn phase2_verify_vss_construct_keypair(
    keys: &PartyKeys,
    threshold: u16,
    share_count: u16,
    public_keys: &Vec<SerializablePoint>,
    secret_shares: &Vec<SerializableScalar>,
    vss_schemes: &Vec<SerializableVerifiableSS>,
    index: u16,
) -> (r: Result<SerializableSharedKeys, ThresholdError>)
    requires
        keys.wf(),
    ensures
        construct_outcome(
            threshold,
            share_count,
            public_keys@,
            secret_shares@,
            vss_schemes@,
            index,
            shared_keys_view(r),
        ),
        r matches Ok(k) ==> k.prefix.bytes@ == keys.prefix.bytes@,
{
    match verify_and_construct(threshold, share_count, public_keys, secret_shares, vss_schemes, index) {
        Ok((y, x)) => Ok(
            SerializableSharedKeys {
                y: SerializablePoint { bytes: y },
                x_i: SerializableScalar { bytes: x },
                prefix: keys.prefix.clone_scalar(),
            },
        ),
        Err(e) => Err(e),
    }
}

/// Derives the party's nonce secret for a message from its key's prefix, the
/// message and its index: the same three always give the same nonce. A nonce
/// key serves one message only; the caller keys each signing session by key,
/// message and index so that concurrent sessions never share one.
pub fn ephemeral_key_create(keys: &PartyKeys, message: &Vec<u8>, index: u16) -> (r: EphemeralKey)
    requires
        keys.wf(),
    ensures
        r.wf(),
        r.party_index == index,
        r.r_i.bytes@ == nonce_secret(keys.prefix.bytes@, message@, index),
{
    let mut data: Vec<u8> = Vec::new();
    append(&mut data, &keys.prefix.bytes);
    append(&mut data, message);
    let idx: Vec<u8> = vec![(index / 256) as u8, (index % 256) as u8];
    append(&mut data, &idx);
    assert(idx@ =~= index_bytes(index));
    assert(data@ =~= keys.prefix.bytes@ + message@ + index_bytes(index));
    let h = sha512(&data);
    let r_i = reduce_wide(&h);
    let big_r = mul_base(&r_i);
    EphemeralKey {
        party_index: index,
        r_i: SerializableScalar { bytes: r_i },
        R_i: SerializablePoint { bytes: big_r },
    }
}

/// The party's public nonce point.
#[allow(non_snake_case)]
pub fn get_ephemeral_R(eph: &EphemeralKey) -> (r: SerializablePoint)
    ensures
        r.bytes@ == eph.R_i.bytes@,
{
    eph.R_i.clone_point()
}

/// Commits to the party's nonce point under a fresh blinding factor.
pub fn ephemeral_phase1_broadcast(eph: &EphemeralKey) -> (r: BroadcastCommitment)
    ensures
        r.commitment.bytes@ == commitment_of(eph.R_i.bytes@, r.blind_factor.bytes@),
        r.blind_factor.bytes@.len() <= 32,
{
    commit_to(&eph.R_i)
}

/// Checks every party's revealed nonce point against its commitment and,
/// only if all open, shares this party's nonce secret among `parties` with a
/// polynomial derived from that secret: the same inputs give the same sharing.
#[allow(non_snake_case)]
pub fn ephemeral_phase1_verify_com_phase2_distribute(
    eph: &EphemeralKey,
    threshold: u16,
    share_count: u16,
    blind_factors: &Vec<SerializableBigInt>,
    R_points: &Vec<SerializablePoint>,
    commitments: &Vec<SerializableBigInt>,
    parties: &Vec<u16>,
) -> (r: Result<DistributeOutput, ThresholdError>)
    requires
        eph.wf(),
    ensures
        distribute_outcome(
            eph.r_i.bytes@,
            threshold,
            share_count,
            blind_factors@,
            R_points@,
            commitments@,
            parties@,
            r,
        ),
        r matches Ok(out) ==> {
            &&& point_seq(out.vss.commitments@) == coefficient_commitments(
                derived_coefficients(eph.r_i.bytes@, threshold),
            )
            &&& scalar_seq(out.secret_shares.shares@) == poly_values(
                derived_coefficients(eph.r_i.bytes@, threshold),
                parties@,
            )
        },
{
    verify_and_distribute_derived(
        &eph.r_i,
        threshold,
        share_count,
        blind_factors,
        R_points,
        commitments,
        parties,
    )
}

/// The joint nonce point and the nonce share, or the error.
pub open spec fn ephemeral_keys_view(
    r: Result<SerializableEphemeralSharedKeys, ThresholdError>,
) -> Result<(Seq<u8>, Seq<u8>), ThresholdError> {
    match r {
        Ok(k) => Ok((k.R.bytes@, k.r_i.bytes@)),
        Err(e) => Err(e),
    }
}

/// Checks the nonce share received from every party and, if all are
/// accepted, returns the joint nonce point `R` and this party's share `r_i`.
#[allow(non_snake_case)]
pub fn ephemeral_phase2_verify_vss_construct_keypair(
    eph: &EphemeralKey,
    threshold: u16,
    share_count: u16,
    R_points: &Vec<SerializablePoint>,
    secret_shares: &Vec<SerializableScalar>,
    vss_schemes: &Vec<SerializableVerifiableSS>,
    index: u16,
) -> (r: Result<SerializableEphemeralSharedKeys, ThresholdError>)
    requires
        eph.wf(),
    ensures
        construct_outcome(
            threshold,
            share_count,
            R_points@,
            secret_shares@,
            vss_schemes@,
            index,
            ephemeral_keys_view(r),
        ),
{
    match verify_and_construct(threshold, share_count, R_points, secret_shares, vss_schemes, index) {
        Ok((big_r, r_i)) => Ok(
            SerializableEphemeralSharedKeys {
                R: SerializablePoint { bytes: big_r },
                r_i: SerializableScalar { bytes: r_i },
            },
        ),
        Err(e) => Err(e),
    }
}

} // verus!
