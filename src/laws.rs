//! Properties that hold across the protocol's steps, proved from their
//! contracts.

use vstd::prelude::*;
use crate::curve::{base_times, poly_values, valid_point, valid_scalar};
use crate::keygen::{
    all_open, coefficient_commitments, construct_encodings, construct_outcome, construct_params,
    derived_coefficients, distribute_outcome, distribute_params, first_rejected, first_unopened,
    opens, share_accepted, sharing_of,
};
use crate::vss::{sum_points, sum_scalars};
use crate::party::{nonce_secret, EphemeralKey, PartyKeys};
use crate::signing::{aggregate_outcome, aggregate_params, challenge, challenges_agree, sharings_encoded, sigs_encoded};
use crate::types::{
    all_canonical, all_points, distinct_count, party_indices, point_seq, scalar_seq, DistributeOutput, SerializableBigInt,
    SerializableLocalSig, SerializablePoint, SerializableScalar, SerializableVerifiableSS,
    ThresholdError,
};

verus! {

/// With no more distinct signers than the threshold of the key sharings, the
/// aggregate check fails for want of participants, whatever the partial
/// signatures hold: it never yields an aggregate to sign with.
pub proof fn lemma_too_few_signers_refused(
    sigs: Seq<SerializableLocalSig>,
    parties: Seq<u16>,
    kg: Seq<SerializableVerifiableSS>,
    eph: Seq<SerializableVerifiableSS>,
    r: Result<SerializableVerifiableSS, ThresholdError>,
)
    requires
        aggregate_outcome(sigs, parties, kg, eph, r),
        kg.len() > 0,
        distinct_count(parties) <= kg[0].threshold,
    ensures
        r == Err::<SerializableVerifiableSS, ThresholdError>(ThresholdError::InsufficientParticipants),
{
}

/// Partial signatures whose challenges were computed for two different
/// messages never pass the aggregate check; with enough signers and
/// well-formed inputs the check names the disagreement.
pub proof fn lemma_mixed_messages_refused(
    sigs: Seq<SerializableLocalSig>,
    parties: Seq<u16>,
    kg: Seq<SerializableVerifiableSS>,
    eph: Seq<SerializableVerifiableSS>,
    r: Result<SerializableVerifiableSS, ThresholdError>,
    a: int,
    b: int,
    big_r: Seq<u8>,
    y: Seq<u8>,
    m1: Seq<u8>,
    m2: Seq<u8>,
)
    requires
        aggregate_outcome(sigs, parties, kg, eph, r),
        0 <= a < sigs.len(),
        0 <= b < sigs.len(),
        sigs[a].k.bytes@ == challenge(big_r, y, m1),
        sigs[b].k.bytes@ == challenge(big_r, y, m2),
        challenge(big_r, y, m1) != challenge(big_r, y, m2),
    ensures
        r is Err,
        kg.len() > 0 && distinct_count(parties) > kg[0].threshold && aggregate_params(
            sigs,
            parties,
            kg,
            eph,
            kg[0].threshold,
        ) && sigs_encoded(sigs) && sharings_encoded(kg) && sharings_encoded(eph) ==> r == Err::<
            SerializableVerifiableSS,
            ThresholdError,
        >(ThresholdError::ChallengeMismatch),
{
    assert(!challenges_agree(sigs)) by {
        if challenges_agree(sigs) {
            assert(sigs[a].k.bytes@ == sigs[0].k.bytes@);
            assert(sigs[b].k.bytes@ == sigs[0].k.bytes@);
        }
    }
}

/// When every commitment opened, altering the commitment at position `i`
/// alone makes `i` the first position that does not open, and the only one
/// the distribute step can name.
pub proof fn lemma_tampered_commitment_located(
    values: Seq<SerializablePoint>,
    blinds: Seq<SerializableBigInt>,
    coms: Seq<SerializableBigInt>,
    tampered: Seq<SerializableBigInt>,
    i: int,
)
    requires
        blinds.len() == values.len(),
        coms.len() == values.len(),
        tampered.len() == values.len(),
        all_open(values, blinds, coms),
        0 <= i < values.len(),
        tampered[i].bytes@ != coms[i].bytes@,
        forall|j: int| 0 <= j < values.len() && j != i ==> (#[trigger] tampered[j]).bytes@ == coms[j].bytes@,
    ensures
        first_unopened(values, blinds, tampered, i),
        forall|j: int| #[trigger] first_unopened(values, blinds, tampered, j) ==> j == i,
{
    assert(opens(values, blinds, coms, i));
    assert forall|j: int| 0 <= j < i implies opens(values, blinds, tampered, j) by {
        assert(opens(values, blinds, coms, j));
    }
    assert forall|j: int| #[trigger] first_unopened(values, blinds, tampered, j) implies j == i by {
        if j != i {
            assert(opens(values, blinds, coms, j));
        }
    }
}

/// With consistent inputs in which every commitment opened, altering the
/// commitment of one party makes the distribute step fail, naming that
/// party's index.
pub proof fn lemma_tampered_commitment_named(
    secret: Seq<u8>,
    threshold: u16,
    share_count: u16,
    values: Seq<SerializablePoint>,
    blinds: Seq<SerializableBigInt>,
    coms: Seq<SerializableBigInt>,
    tampered: Seq<SerializableBigInt>,
    parties: Seq<u16>,
    i: int,
    r: Result<DistributeOutput, ThresholdError>,
)
    requires
        distribute_params(threshold, share_count, blinds, values, coms, parties),
        all_points(values),
        all_open(values, blinds, coms),
        tampered.len() == coms.len(),
        0 <= i < values.len(),
        tampered[i].bytes@ != coms[i].bytes@,
        forall|j: int| 0 <= j < values.len() && j != i ==> (#[trigger] tampered[j]).bytes@ == coms[j].bytes@,
        distribute_outcome(secret, threshold, share_count, blinds, values, tampered, parties, r),
    ensures
        r == Err::<DistributeOutput, ThresholdError>(ThresholdError::CommitmentMismatch(parties[i])),
{
    lemma_tampered_commitment_located(values, blinds, coms, tampered, i);
    assert(distribute_params(threshold, share_count, blinds, values, tampered, parties));
    assert(!all_open(values, blinds, tampered));
}

/// Nonce keys derived from keys with the same prefix, for the same message
/// and the same index, are the same.
pub proof fn lemma_nonce_deterministic(
    k1: PartyKeys,
    k2: PartyKeys,
    e1: EphemeralKey,
    e2: EphemeralKey,
    message: Seq<u8>,
    index: u16,
)
    requires
        k1.prefix.bytes@ == k2.prefix.bytes@,
        e1.wf(),
        e2.wf(),
        e1.r_i.bytes@ == nonce_secret(k1.prefix.bytes@, message, index),
        e2.r_i.bytes@ == nonce_secret(k2.prefix.bytes@, message, index),
    ensures
        e1.r_i.bytes@ == e2.r_i.bytes@,
        e1.R_i.bytes@ == e2.R_i.bytes@,
{
}

/// When every party shared its secret among all parties and revealed the
/// public point of that secret, the construct step of the party at position
/// `pos` accepts every share it received (each a canonical scalar
/// encoding), and returns the sum of the public
/// points and the sum of those shares.
pub proof fn lemma_honest_sharings_accepted(
    threshold: u16,
    share_count: u16,
    parties: Seq<u16>,
    pos: int,
    secrets: Seq<Seq<u8>>,
    values: Seq<SerializablePoint>,
    outs: Seq<DistributeOutput>,
    shares: Seq<SerializableScalar>,
    schemes: Seq<SerializableVerifiableSS>,
    r: Result<(Seq<u8>, Seq<u8>), ThresholdError>,
)
    requires
        threshold < share_count,
        parties.len() == share_count,
        party_indices(parties),
        0 <= pos < share_count,
        secrets.len() == share_count,
        values.len() == share_count,
        outs.len() == share_count,
        shares.len() == share_count,
        schemes.len() == share_count,
        forall|j: int|
            0 <= j < share_count ==> valid_point((#[trigger] values[j]).bytes@) && values[j].bytes@
                == base_times(secrets[j]),
        forall|j: int|
            0 <= j < share_count ==> sharing_of(
                #[trigger] outs[j],
                secrets[j],
                threshold,
                share_count,
                parties,
            ),
        forall|j: int|
            0 <= j < share_count ==> (#[trigger] schemes[j]) == outs[j].vss && shares[j]
                == outs[j].secret_shares.shares@[pos],
        all_canonical(shares),
        construct_outcome(threshold, share_count, values, shares, schemes, parties[pos], r),
    ensures
        r == Ok::<(Seq<u8>, Seq<u8>), ThresholdError>(
            (sum_points(point_seq(values)), sum_scalars(scalar_seq(shares))),
        ),
{
    assert forall|j: int| 0 <= j < share_count implies {
        &&& (#[trigger] schemes[j]).threshold == threshold
        &&& schemes[j].share_count == share_count
        &&& schemes[j].commitments@.len() == threshold as int + 1
        &&& all_points(schemes[j].commitments@)
        &&& valid_scalar(shares[j].bytes@)
        &&& share_accepted(values, shares, schemes, parties[pos], j)
    } by {
        assert(sharing_of(outs[j], secrets[j], threshold, share_count, parties));
        assert(valid_point(values[j].bytes@));
        assert(valid_scalar(outs[j].secret_shares.shares@[pos].bytes@));
    }
    assert(all_points(values));
    assert forall|j: int| !first_rejected(values, shares, schemes, parties[pos], j) by {
        if 0 <= j < share_count {
            assert(share_accepted(values, shares, schemes, parties[pos], j));
        }
    }
}

/// The construct step's result is determined by its inputs: two runs on the
/// same values, shares and sharings give the same joint point and share, or
/// the same error.
pub proof fn lemma_construct_deterministic(
    threshold: u16,
    share_count: u16,
    values: Seq<SerializablePoint>,
    shares: Seq<SerializableScalar>,
    schemes: Seq<SerializableVerifiableSS>,
    index: u16,
    r1: Result<(Seq<u8>, Seq<u8>), ThresholdError>,
    r2: Result<(Seq<u8>, Seq<u8>), ThresholdError>,
)
    requires
        construct_outcome(threshold, share_count, values, shares, schemes, index, r1),
        construct_outcome(threshold, share_count, values, shares, schemes, index, r2),
    ensures
        r1 == r2,
{
    if exists|j: int| first_rejected(values, shares, schemes, index, j) {
        let j1 = choose|j: int|
            first_rejected(values, shares, schemes, index, j) && r1 == Err::<
                (Seq<u8>, Seq<u8>),
                ThresholdError,
            >(ThresholdError::ShareVerificationFailed((j + 1) as u16));
        let j2 = choose|j: int|
            first_rejected(values, shares, schemes, index, j) && r2 == Err::<
                (Seq<u8>, Seq<u8>),
                ThresholdError,
            >(ThresholdError::ShareVerificationFailed((j + 1) as u16));
        if construct_params(threshold, share_count, values, shares, schemes, index)
            && construct_encodings(values, shares, schemes) {
            assert(j1 == j2) by {
                if j1 < j2 {
                    assert(share_accepted(values, shares, schemes, index, j1));
                } else if j2 < j1 {
                    assert(share_accepted(values, shares, schemes, index, j2));
                }
            }
        }
    }
}

/// A sharing derived from a secret is determined by the secret, the
/// threshold and the parties: two such sharings are the same.
pub proof fn lemma_derived_sharing_deterministic(
    secret: Seq<u8>,
    threshold: u16,
    parties: Seq<u16>,
    out1: DistributeOutput,
    out2: DistributeOutput,
)
    requires
        point_seq(out1.vss.commitments@) == coefficient_commitments(
            derived_coefficients(secret, threshold),
        ),
        scalar_seq(out1.secret_shares.shares@) == poly_values(
            derived_coefficients(secret, threshold),
            parties,
        ),
        point_seq(out2.vss.commitments@) == coefficient_commitments(
            derived_coefficients(secret, threshold),
        ),
        scalar_seq(out2.secret_shares.shares@) == poly_values(
            derived_coefficients(secret, threshold),
            parties,
        ),
    ensures
        point_seq(out1.vss.commitments@) == point_seq(out2.vss.commitments@),
        scalar_seq(out1.secret_shares.shares@) == scalar_seq(out2.secret_shares.shares@),
{
}

} // verus!
