//! Distributed key generation: commit, reveal, share, verify, combine.
//!
//! The same steps produce the long-term key (from a party's secret key) and
//! each per-message nonce (from a secret derived from the key and the
//! message); the steps shared by both stand here once.

use vstd::prelude::*;
use crate::codec::{append, be16};
use crate::curve::{
    base_times, canonical_scalar, commitment_of, evaluate_polynomial, mul_base, poly_values,
    reduce_wide, sha512, sha512_of, share_secret, valid_point, valid_scalar, wide_scalar,
};
use crate::types::{
    all_canonical, all_points, all_scalars, copy_indices, party_indices, point_seq, scalar_seq, DistributeOutput,
    SerializableBigInt, SerializablePoint, SerializableScalar, SerializableSecretShares,
    SerializableVerifiableSS, ThresholdError,
};
use crate::vss::{
    add_point_list, add_scalar_list, bytes_eq, check_party_indices, check_canonical_scalars, check_points,
    open_commitment,
    share_matches, sum_points, sum_scalars, verify_share,
};

verus! {

/// The value at position `i` opens the commitment at position `i`.
pub open spec fn opens(
    values: Seq<SerializablePoint>,
    blinds: Seq<SerializableBigInt>,
    coms: Seq<SerializableBigInt>,
    i: int,
) -> bool {
    coms[i].bytes@ == commitment_of(values[i].bytes@, blinds[i].bytes@)
}

/// Every revealed value opens its commitment.
pub open spec fn all_open(
    values: Seq<SerializablePoint>,
    blinds: Seq<SerializableBigInt>,
    coms: Seq<SerializableBigInt>,
) -> bool {
    forall|i: int| 0 <= i < values.len() ==> opens(values, blinds, coms, i)
}

/// Position `j` is the first whose value does not open its commitment.
pub open spec fn first_unopened(
    values: Seq<SerializablePoint>,
    blinds: Seq<SerializableBigInt>,
    coms: Seq<SerializableBigInt>,
    j: int,
) -> bool {
    &&& 0 <= j < values.len()
    &&& !opens(values, blinds, coms, j)
    &&& forall|i: int| 0 <= i < j ==> opens(values, blinds, coms, i)
}

/// The inputs of the distribute step fit together: a threshold below the
/// share count, one entry per party in every list, and proper party indices.
pub open spec fn distribute_params(
    threshold: u16,
    share_count: u16,
    blinds: Seq<SerializableBigInt>,
    values: Seq<SerializablePoint>,
    coms: Seq<SerializableBigInt>,
    parties: Seq<u16>,
) -> bool {
    &&& threshold < share_count
    &&& blinds.len() == share_count
    &&& values.len() == share_count
    &&& coms.len() == share_count
    &&& parties.len() == share_count
    &&& party_indices(parties)
}

/// `out` is a sharing of `secret` among `parties` with the given threshold:
/// `threshold + 1` commitments, the first to `secret`, and one share per
/// party, each consistent with the commitments at that party's index.
pub open spec fn sharing_of(
    out: DistributeOutput,
    secret: Seq<u8>,
    threshold: u16,
    share_count: u16,
    parties: Seq<u16>,
) -> bool {
    &&& out.vss.threshold == threshold
    &&& out.vss.share_count == share_count
    &&& out.vss.parties@ == parties
    &&& out.vss.commitments@.len() == threshold as int + 1
    &&& out.vss.commitments@[0].bytes@ == base_times(secret)
    &&& all_points(out.vss.commitments@)
    &&& out.secret_shares.shares@.len() == parties.len()
    &&& all_scalars(out.secret_shares.shares@)
    &&& forall|i: int|
        0 <= i < parties.len() ==> share_matches(
            parties[i],
            #[trigger] out.secret_shares.shares@[i].bytes@,
            point_seq(out.vss.commitments@),
        )
}

/// What the distribute step returns: an error for inconsistent inputs, for a
/// bad encoding, or naming the party of the first commitment that does not
/// open; otherwise a
/// fresh sharing of `secret` among the parties.
pub open spec fn distribute_outcome(
    secret: Seq<u8>,
    threshold: u16,
    share_count: u16,
    blinds: Seq<SerializableBigInt>,
    values: Seq<SerializablePoint>,
    coms: Seq<SerializableBigInt>,
    parties: Seq<u16>,
    r: Result<DistributeOutput, ThresholdError>,
) -> bool {
    if !distribute_params(threshold, share_count, blinds, values, coms, parties) {
        r == Err::<DistributeOutput, ThresholdError>(ThresholdError::InvalidParameters)
    } else if !all_points(values) {
        r == Err::<DistributeOutput, ThresholdError>(ThresholdError::InvalidEncoding)
    } else if !all_open(values, blinds, coms) {
        exists|j: int|
            first_unopened(values, blinds, coms, j) && r == Err::<DistributeOutput, ThresholdError>(
                ThresholdError::CommitmentMismatch(parties[j]),
            )
    } else {
        match r {
            Ok(out) => sharing_of(out, secret, threshold, share_count, parties),
            Err(_) => false,
        }
    }
}

/// Checks every revealed value against its commitment, in order, and names
/// the index of the first party whose value does not open it.
pub fn verify_commitments(
    blinds: &Vec<SerializableBigInt>,
    values: &Vec<SerializablePoint>,
    coms: &Vec<SerializableBigInt>,
    parties: &Vec<u16>,
) -> (r: Result<(), ThresholdError>)
    requires
        blinds@.len() == values@.len(),
        coms@.len() == values@.len(),
        parties@.len() == values@.len(),
    ensures
        r is Ok <==> all_open(values@, blinds@, coms@),
        r is Err ==> exists|j: int|
            first_unopened(values@, blinds@, coms@, j) && r == Err::<(), ThresholdError>(
                ThresholdError::CommitmentMismatch(parties@[j]),
            ),
{
    let mut i: usize = 0;
    while i < values.len()
        invariant
            blinds@.len() == values@.len(),
            coms@.len() == values@.len(),
            parties@.len() == values@.len(),
            i <= values@.len(),
            forall|k: int| 0 <= k < i ==> opens(values@, blinds@, coms@, k),
        decreases values.len() - i,
    {
        if !open_commitment(&coms[i], &blinds[i], &values[i].bytes) {
            let ghost j = i as int;
            assert(first_unopened(values@, blinds@, coms@, j));
            return Err(ThresholdError::CommitmentMismatch(parties[i]));
        }
        i = i + 1;
    }
    Ok(())
}

/// The checks of the distribute step that come before any sharing.
fn check_distribute_inputs(
    secret: Ghost<Seq<u8>>,
    threshold: u16,
    share_count: u16,
    blinds: &Vec<SerializableBigInt>,
    values: &Vec<SerializablePoint>,
    coms: &Vec<SerializableBigInt>,
    parties: &Vec<u16>,
) -> (r: Result<(), ThresholdError>)
    ensures
        r is Ok <==> (distribute_params(threshold, share_count, blinds@, values@, coms@, parties@)
            && all_points(values@) && all_open(values@, blinds@, coms@)),
        r matches Err(e) ==> distribute_outcome(
            secret@,
            threshold,
            share_count,
            blinds@,
            values@,
            coms@,
            parties@,
            Err::<DistributeOutput, ThresholdError>(e),
        ),
{
    if !(threshold < share_count && blinds.len() == share_count as usize && values.len()
        == share_count as usize && coms.len() == share_count as usize && parties.len()
        == share_count as usize && check_party_indices(parties)) {
        return Err(ThresholdError::InvalidParameters);
    }
    if !check_points(values) {
        return Err(ThresholdError::InvalidEncoding);
    }
    verify_commitments(blinds, values, coms, parties)
}

/// The combined step: checks every commitment of the first round and only
/// then shares `secret` among `parties` with a fresh random polynomial.
pub fn verify_and_distribute(
    secret: &SerializableScalar,
    threshold: u16,
    share_count: u16,
    blinds: &Vec<SerializableBigInt>,
    values: &Vec<SerializablePoint>,
    coms: &Vec<SerializableBigInt>,
    parties: &Vec<u16>,
) -> (r: Result<DistributeOutput, ThresholdError>)
    requires
        valid_scalar(secret.bytes@),
    ensures
        distribute_outcome(
            secret.bytes@,
            threshold,
            share_count,
            blinds@,
            values@,
            coms@,
            parties@,
            r,
        ),
{
    match check_distribute_inputs(Ghost(secret.bytes@), threshold, share_count, blinds, values, coms, parties) {
        Ok(()) => {},
        Err(e) => {
            return Err(e);
        },
    }
    let (cs, ss) = share_secret(threshold, &secret.bytes, parties);
    let commitments = to_points(cs);
    let shares = to_scalars(ss);
    assert(all_points(commitments@)) by {
        assert forall|i: int| 0 <= i < commitments@.len() implies valid_point(
            #[trigger] commitments@[i].bytes@,
        ) by {
            assert(valid_point(cs@[i]@));
        }
    }
    assert(all_scalars(shares@)) by {
        assert forall|i: int| 0 <= i < shares@.len() implies valid_scalar(
            #[trigger] shares@[i].bytes@,
        ) by {
            assert(valid_scalar(ss@[i]@));
        }
    }
    assert(point_seq(commitments@) =~= cs@.map_values(|c: Vec<u8>| c@));
    assert forall|i: int| 0 <= i < parties@.len() implies share_matches(
        parties@[i],
        #[trigger] shares@[i].bytes@,
        point_seq(commitments@),
    ) by {
        assert(shares@[i].bytes@ == ss@[i]@);
    }
    Ok(
        DistributeOutput {
            vss: SerializableVerifiableSS {
                threshold,
                share_count,
                parties: copy_indices(parties),
                commitments,
            },
            secret_shares: SerializableSecretShares { shares },
        },
    )
}

/// The coefficients of the sharing polynomial derived from a secret: the
/// secret itself as the constant term, then `H(secret || j)` reduced to a
/// scalar for each higher degree `j`.
pub open spec fn derived_coefficients(secret: Seq<u8>, threshold: u16) -> Seq<Seq<u8>> {
    Seq::new(
        threshold as nat + 1,
        |j: int|
            if j == 0 {
                secret
            } else {
                wide_scalar(sha512_of(secret + be16(j as u16)))
            },
    )
}

/// The commitments `B * a_j` to a list of coefficients.
pub open spec fn coefficient_commitments(coefs: Seq<Seq<u8>>) -> Seq<Seq<u8>> {
    coefs.map_values(|c: Seq<u8>| base_times(c))
}

/// The combined step with a polynomial derived from `secret` alone, so that
/// running it again on the same inputs gives the same sharing.
pub fn verify_and_distribute_derived(
    secret: &SerializableScalar,
    threshold: u16,
    share_count: u16,
    blinds: &Vec<SerializableBigInt>,
    values: &Vec<SerializablePoint>,
    coms: &Vec<SerializableBigInt>,
    parties: &Vec<u16>,
) -> (r: Result<DistributeOutput, ThresholdError>)
    requires
        valid_scalar(secret.bytes@),
    ensures
        distribute_outcome(
            secret.bytes@,
            threshold,
            share_count,
            blinds@,
            values@,
            coms@,
            parties@,
            r,
        ),
        r matches Ok(out) ==> {
            &&& point_seq(out.vss.commitments@) == coefficient_commitments(
                derived_coefficients(secret.bytes@, threshold),
            )
            &&& scalar_seq(out.secret_shares.shares@) == poly_values(
                derived_coefficients(secret.bytes@, threshold),
                parties@,
            )
        },
{
    match check_distribute_inputs(Ghost(secret.bytes@), threshold, share_count, blinds, values, coms, parties) {
        Ok(()) => {},
        Err(e) => {
            return Err(e);
        },
    }
    let ghost dc = derived_coefficients(secret.bytes@, threshold);
    let mut coefs: Vec<Vec<u8>> = Vec::new();
    let mut commitments: Vec<SerializablePoint> = Vec::new();
    let mut j: usize = 0;
    while j <= threshold as usize
        invariant
            valid_scalar(secret.bytes@),
            dc == derived_coefficients(secret.bytes@, threshold),
            j <= threshold as int + 1,
            coefs@.len() == j,
            commitments@.len() == j,
            forall|q: int| 0 <= q < j ==> (#[trigger] coefs@[q])@ == dc[q],
            forall|q: int| 0 <= q < j ==> valid_scalar(#[trigger] coefs@[q]@),
            forall|q: int| 0 <= q < j ==> (#[trigger] commitments@[q]).bytes@ == base_times(dc[q]),
            all_points(commitments@),
        decreases threshold as int + 1 - j,
    {
        let c = if j == 0 {
            secret.bytes.clone()
        } else {
            let mut data: Vec<u8> = Vec::new();
            append(&mut data, &secret.bytes);
            let idx: Vec<u8> = vec![(j / 256) as u8, (j % 256) as u8];
            append(&mut data, &idx);
            assert(idx@ =~= be16(j as u16));
            let h = sha512(&data);
            reduce_wide(&h)
        };
        let p = mul_base(&c);
        coefs.push(c);
        commitments.push(SerializablePoint { bytes: p });
        j = j + 1;
    }
    assert(coefs@.map_values(|c: Vec<u8>| c@) =~= dc);
    assert(coefs@.map_values(|c: Vec<u8>| base_times(c@)) =~= coefficient_commitments(dc));
    assert(point_seq(commitments@) =~= coefficient_commitments(dc));
    let ss = evaluate_polynomial(&coefs, parties);
    let shares = to_scalars(ss);
    assert(scalar_seq(shares@) =~= poly_values(dc, parties@));
    assert(all_scalars(shares@)) by {
        assert forall|i: int| 0 <= i < shares@.len() implies valid_scalar(
            #[trigger] shares@[i].bytes@,
        ) by {
            assert(valid_scalar(ss@[i]@));
        }
    }
    assert forall|i: int| 0 <= i < parties@.len() implies share_matches(
        parties@[i],
        #[trigger] shares@[i].bytes@,
        point_seq(commitments@),
    ) by {
        assert(shares@[i].bytes@ == ss@[i]@);
    }
    Ok(
        DistributeOutput {
            vss: SerializableVerifiableSS {
                threshold,
                share_count,
                parties: copy_indices(parties),
                commitments,
            },
            secret_shares: SerializableSecretShares { shares },
        },
    )
}

/// The inputs of the construct step fit together: one value, one share and
/// one sharing from each party, sharings of the agreed threshold and count,
/// and a nonzero index for the receiver.
pub open spec fn construct_params(
    threshold: u16,
    share_count: u16,
    values: Seq<SerializablePoint>,
    shares: Seq<SerializableScalar>,
    schemes: Seq<SerializableVerifiableSS>,
    index: u16,
) -> bool {
    &&& threshold < share_count
    &&& values.len() == share_count
    &&& shares.len() == share_count
    &&& schemes.len() == share_count
    &&& index != 0
    &&& forall|i: int|
        0 <= i < schemes.len() ==> {
            &&& (#[trigger] schemes[i]).threshold == threshold
            &&& schemes[i].share_count == share_count
            &&& schemes[i].commitments@.len() == threshold as int + 1
        }
}

/// Every point and scalar of the construct step's inputs is well encoded.
pub open spec fn construct_encodings(
    values: Seq<SerializablePoint>,
    shares: Seq<SerializableScalar>,
    schemes: Seq<SerializableVerifiableSS>,
) -> bool {
    &&& all_points(values)
    &&& all_canonical(shares)
    &&& forall|i: int| 0 <= i < schemes.len() ==> all_points((#[trigger] schemes[i]).commitments@)
}

/// The share from party position `i` is accepted: its sharing commits to the
/// value that party revealed, and the share matches that sharing.
pub open spec fn share_accepted(
    values: Seq<SerializablePoint>,
    shares: Seq<SerializableScalar>,
    schemes: Seq<SerializableVerifiableSS>,
    index: u16,
    i: int,
) -> bool {
    &&& schemes[i].commitments@[0].bytes@ == values[i].bytes@
    &&& share_matches(index, shares[i].bytes@, point_seq(schemes[i].commitments@))
}

/// Position `j` holds the first share that is not accepted.
pub open spec fn first_rejected(
    values: Seq<SerializablePoint>,
    shares: Seq<SerializableScalar>,
    schemes: Seq<SerializableVerifiableSS>,
    index: u16,
    j: int,
) -> bool {
    &&& 0 <= j < values.len()
    &&& !share_accepted(values, shares, schemes, index, j)
    &&& forall|i: int| 0 <= i < j ==> share_accepted(values, shares, schemes, index, i)
}

/// What the construct step returns: an error for inconsistent inputs, for a
/// bad encoding, or for the first share not accepted; otherwise the sum of
/// the revealed values (the joint public point) and the sum of the received
/// shares (this party's secret share).
pub open spec fn construct_outcome(
    threshold: u16,
    share_count: u16,
    values: Seq<SerializablePoint>,
    shares: Seq<SerializableScalar>,
    schemes: Seq<SerializableVerifiableSS>,
    index: u16,
    r: Result<(Seq<u8>, Seq<u8>), ThresholdError>,
) -> bool {
    if !construct_params(threshold, share_count, values, shares, schemes, index) {
        r == Err::<(Seq<u8>, Seq<u8>), ThresholdError>(ThresholdError::InvalidParameters)
    } else if !construct_encodings(values, shares, schemes) {
        r == Err::<(Seq<u8>, Seq<u8>), ThresholdError>(ThresholdError::InvalidEncoding)
    } else if exists|j: int| first_rejected(values, shares, schemes, index, j) {
        exists|j: int|
            first_rejected(values, shares, schemes, index, j) && r == Err::<
                (Seq<u8>, Seq<u8>),
                ThresholdError,
            >(ThresholdError::ShareVerificationFailed((j + 1) as u16))
    } else {
        match r {
            Ok((p, x)) => {
                &&& p == sum_points(point_seq(values))
                &&& x == sum_scalars(scalar_seq(shares))
                &&& valid_point(p)
                &&& valid_scalar(x)
            },
            Err(_) => false,
        }
    }
}

/// Checks the share received from every party against that party's sharing,
/// then adds up the revealed values and the shares.
pub fn verify_and_construct(
    threshold: u16,
    share_count: u16,
    values: &Vec<SerializablePoint>,
    shares: &Vec<SerializableScalar>,
    schemes: &Vec<SerializableVerifiableSS>,
    index: u16,
) -> (r: Result<(Vec<u8>, Vec<u8>), ThresholdError>)
    ensures
        construct_outcome(threshold, share_count, values@, shares@, schemes@, index, pair_view(r)),
{
    if !(threshold < share_count && values.len() == share_count as usize && shares.len()
        == share_count as usize && schemes.len() == share_count as usize && index != 0) {
        return Err(ThresholdError::InvalidParameters);
    }
    let mut i: usize = 0;
    while i < schemes.len()
        invariant
            i <= schemes@.len(),
            forall|k: int|
                0 <= k < i ==> {
                    &&& (#[trigger] schemes@[k]).threshold == threshold
                    &&& schemes@[k].share_count == share_count
                    &&& schemes@[k].commitments@.len() == threshold as int + 1
                },
        decreases schemes.len() - i,
    {
        if !(schemes[i].threshold == threshold && schemes[i].share_count == share_count
            && schemes[i].commitments.len() == threshold as usize + 1) {
            return Err(ThresholdError::InvalidParameters);
        }
        i = i + 1;
    }
    if !check_points(values) || !check_canonical_scalars(shares) {
        return Err(ThresholdError::InvalidEncoding);
    }
    i = 0;
    while i < schemes.len()
        invariant
            construct_params(threshold, share_count, values@, shares@, schemes@, index),
            all_points(values@),
            all_canonical(shares@),
            i <= schemes@.len(),
            forall|k: int| 0 <= k < i ==> all_points((#[trigger] schemes@[k]).commitments@),
        decreases schemes.len() - i,
    {
        if !check_points(&schemes[i].commitments) {
            return Err(ThresholdError::InvalidEncoding);
        }
        i = i + 1;
    }
    i = 0;
    while i < schemes.len()
        invariant
            construct_params(threshold, share_count, values@, shares@, schemes@, index),
            construct_encodings(values@, shares@, schemes@),
            i <= schemes@.len(),
            forall|k: int|
                0 <= k < i ==> share_accepted(values@, shares@, schemes@, index, k),
        decreases schemes.len() - i,
    {
        let cs = &schemes[i].commitments;
        assert(all_points(schemes@[i as int].commitments@));
        assert(canonical_scalar(shares@[i as int].bytes@));
        let accepted = bytes_eq(&cs[0].bytes, &values[i].bytes) && verify_share(
            index,
            &shares[i].bytes,
            cs,
        );
        if !accepted {
            assert(first_rejected(values@, shares@, schemes@, index, i as int));
            return Err(ThresholdError::ShareVerificationFailed((i + 1) as u16));
        }
        i = i + 1;
    }
    assert forall|j: int| !first_rejected(values@, shares@, schemes@, index, j) by {}
    assert(all_scalars(shares@)) by {
        assert forall|q: int| 0 <= q < shares@.len() implies valid_scalar(#[trigger] shares@[q].bytes@) by {
            assert(canonical_scalar(shares@[q].bytes@));
        }
    }
    let p = add_point_list(values);
    let x = add_scalar_list(shares);
    Ok((p, x))
}

/// The byte strings of a pair of encodings, or the error.
pub open spec fn pair_view(r: Result<(Vec<u8>, Vec<u8>), ThresholdError>) -> Result<
    (Seq<u8>, Seq<u8>),
    ThresholdError,
> {
    match r {
        Ok((a, b)) => Ok((a@, b@)),
        Err(e) => Err(e),
    }
}

/// Wraps each encoding as a point.
fn to_points(v: Vec<Vec<u8>>) -> (r: Vec<SerializablePoint>)
    ensures
        point_seq(r@) == v@.map_values(|b: Vec<u8>| b@),
        r@.len() == v@.len(),
        forall|k: int| 0 <= k < v@.len() ==> (#[trigger] r@[k]).bytes@ == v@[k]@,
{
    let mut r: Vec<SerializablePoint> = Vec::new();
    let mut i: usize = 0;
    while i < v.len()
        invariant
            i <= v@.len(),
            r@.len() == i,
            forall|k: int| 0 <= k < i ==> (#[trigger] r@[k]).bytes@ == v@[k]@,
        decreases v.len() - i,
    {
        r.push(SerializablePoint { bytes: v[i].clone() });
        i = i + 1;
    }
    assert(point_seq(r@) =~= v@.map_values(|b: Vec<u8>| b@));
    r
}

/// Wraps each encoding as a scalar.
fn to_scalars(v: Vec<Vec<u8>>) -> (r: Vec<SerializableScalar>)
    ensures
        scalar_seq(r@) == v@.map_values(|b: Vec<u8>| b@),
        r@.len() == v@.len(),
        forall|k: int| 0 <= k < v@.len() ==> (#[trigger] r@[k]).bytes@ == v@[k]@,
{
    let mut r: Vec<SerializableScalar> = Vec::new();
    let mut i: usize = 0;
    while i < v.len()
        invariant
            i <= v@.len(),
            r@.len() == i,
            forall|k: int| 0 <= k < i ==> (#[trigger] r@[k]).bytes@ == v@[k]@,
        decreases v.len() - i,
    {
        r.push(SerializableScalar { bytes: v[i].clone() });
        i = i + 1;
    }
    assert(scalar_seq(r@) =~= v@.map_values(|b: Vec<u8>| b@));
    r
}

} // verus!
