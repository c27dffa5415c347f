//! Partial signatures, their aggregate check, their combination into an
//! EdDSA signature, and the verification of that signature.

use vstd::prelude::*;
use crate::curve::{
    add_points, add_scalars, base_times, canonical_scalar, mul_base, mul_point, mul_scalars,
    point_sum, point_times, reduce_wide, scalar_product, scalar_sum, sha512, sha512_of,
    valid_point, valid_scalar, wide_scalar,
};
use crate::types::{
    all_points, all_scalars, copy_indices, distinct_count, lemma_distinct_count_bounds, party_indices,
    point_seq, scalar_seq, SerializableEphemeralSharedKeys, SerializableLocalSig,
    SerializablePoint, SerializableScalar, SerializableSharedKeys, SerializableSignature,
    SerializableVerifiableSS, ThresholdError,
};
use crate::vss::{
    add_point_list, bytes_eq, check_canonical, check_party_indices, check_point_bytes,
    check_points, count_distinct, interpolate_scalars, interpolated, share_matches, sum_points,
    verify_share,
};

verus! {

/// The Fiat-Shamir challenge `H(R || y || message)`, reduced to a scalar.
pub open spec fn challenge(big_r: Seq<u8>, y: Seq<u8>, message: Seq<u8>) -> Seq<u8> {
    wide_scalar(sha512_of(big_r + y + message))
}

/// The response share `r_i + k * x_i`.
pub open spec fn response(r_i: Seq<u8>, k: Seq<u8>, x_i: Seq<u8>) -> Seq<u8> {
    scalar_sum(r_i, scalar_product(k, x_i))
}

/// Concatenates three byte strings.
fn concat3(a: &Vec<u8>, b: &Vec<u8>, c: &Vec<u8>) -> (r: Vec<u8>)
    ensures
        r@ == a@ + b@ + c@,
{
    let mut r: Vec<u8> = Vec::new();
    let mut i: usize = 0;
    while i < a.len()
        invariant
            i <= a@.len(),
            r@ == a@.subrange(0, i as int),
        decreases a.len() - i,
    {
        r.push(a[i]);
        assert(a@.subrange(0, i + 1) =~= a@.subrange(0, i as int).push(a@[i as int]));
        i = i + 1;
    }
    assert(a@.subrange(0, a@.len() as int) =~= a@);
    i = 0;
    while i < b.len()
        invariant
            i <= b@.len(),
            r@ == a@ + b@.subrange(0, i as int),
        decreases b.len() - i,
    {
        r.push(b[i]);
        assert(b@.subrange(0, i + 1) =~= b@.subrange(0, i as int).push(b@[i as int]));
        i = i + 1;
    }
    assert(b@.subrange(0, b@.len() as int) =~= b@);
    i = 0;
    while i < c.len()
        invariant
            i <= c@.len(),
            r@ == a@ + b@ + c@.subrange(0, i as int),
        decreases c.len() - i,
    {
        r.push(c[i]);
        assert(c@.subrange(0, i + 1) =~= c@.subrange(0, i as int).push(c@[i as int]));
        i = i + 1;
    }
    assert(c@.subrange(0, c@.len() as int) =~= c@);
    r
}

/// Computes the challenge for a nonce point, a public key and a message.
fn compute_challenge(big_r: &Vec<u8>, y: &Vec<u8>, message: &Vec<u8>) -> (r: Vec<u8>)
    ensures
        r@ == challenge(big_r@, y@, message@),
        valid_scalar(r@),
{
    let data = concat3(big_r, y, message);
    let h = sha512(&data);
    reduce_wide(&h)
}

/// The inputs of a partial signature are well encoded: the two points, the
/// two secret shares as canonical scalars, and the 32-byte prefix.
pub open spec fn local_sig_inputs_encoded(
    eph: &SerializableEphemeralSharedKeys,
    keys: &SerializableSharedKeys,
) -> bool {
    &&& valid_point(eph.R.bytes@)
    &&& canonical_scalar(eph.r_i.bytes@)
    &&& valid_point(keys.y.bytes@)
    &&& canonical_scalar(keys.x_i.bytes@)
    &&& keys.prefix.bytes@.len() == 32
}

/// Computes this party's partial signature on a message: the challenge `k`
/// and the response share `gamma_i = r_i + k * x_i`.
pub fn compute_local_sig(
    message: &Vec<u8>,
    ephemeral_shared_keys: &SerializableEphemeralSharedKeys,
    shared_keys: &SerializableSharedKeys,
) -> (r: Result<SerializableLocalSig, ThresholdError>)
    ensures
        !local_sig_inputs_encoded(ephemeral_shared_keys, shared_keys) ==> r == Err::<
            SerializableLocalSig,
            ThresholdError,
        >(ThresholdError::InvalidEncoding),
        local_sig_inputs_encoded(ephemeral_shared_keys, shared_keys) ==> r is Ok,
        r matches Ok(sig) ==> {
            &&& sig.k.bytes@ == challenge(
                ephemeral_shared_keys.R.bytes@,
                shared_keys.y.bytes@,
                message@,
            )
            &&& sig.gamma_i.bytes@ == response(
                ephemeral_shared_keys.r_i.bytes@,
                sig.k.bytes@,
                shared_keys.x_i.bytes@,
            )
        },
{
    if !(check_point_bytes(&ephemeral_shared_keys.R.bytes) && check_canonical(
        &ephemeral_shared_keys.r_i.bytes,
    ) && check_point_bytes(&shared_keys.y.bytes) && check_canonical(&shared_keys.x_i.bytes)
        && shared_keys.prefix.bytes.len() == 32) {
        return Err(ThresholdError::InvalidEncoding);
    }
    let k = compute_challenge(&ephemeral_shared_keys.R.bytes, &shared_keys.y.bytes, message);
    let kx = mul_scalars(&k, &shared_keys.x_i.bytes);
    let gamma = add_scalars(&ephemeral_shared_keys.r_i.bytes, &kx);
    Ok(
        SerializableLocalSig {
            gamma_i: SerializableScalar { bytes: gamma },
            k: SerializableScalar { bytes: k },
        },
    )
}

/// The `j`-th commitment of every sharing in the list.
pub open spec fn column(vs: Seq<SerializableVerifiableSS>, j: int) -> Seq<Seq<u8>> {
    Seq::new(vs.len(), |m: int| vs[m].commitments@[j].bytes@)
}

/// The commitments of the aggregate sharing: for each coefficient, the sum
/// of the nonce commitments plus `k` times the sum of the key commitments.
pub open spec fn combined_commitments(
    kg: Seq<SerializableVerifiableSS>,
    eph: Seq<SerializableVerifiableSS>,
    k: Seq<u8>,
    count: int,
) -> Seq<Seq<u8>> {
    Seq::new(
        count as nat,
        |j: int| point_sum(sum_points(column(eph, j)), point_times(sum_points(column(kg, j)), k)),
    )
}

/// Every sharing has `count` commitments, all of them point encodings.
pub open spec fn sharings_shaped(vs: Seq<SerializableVerifiableSS>, count: int) -> bool {
    forall|m: int| 0 <= m < vs.len() ==> (#[trigger] vs[m]).commitments@.len() == count
}

/// Every commitment of every sharing is a point encoding.
pub open spec fn sharings_encoded(vs: Seq<SerializableVerifiableSS>) -> bool {
    forall|m: int| 0 <= m < vs.len() ==> all_points((#[trigger] vs[m]).commitments@)
}

/// Every partial signature is made of canonical scalar encodings.
pub open spec fn sigs_encoded(sigs: Seq<SerializableLocalSig>) -> bool {
    forall|i: int|
        0 <= i < sigs.len() ==> canonical_scalar((#[trigger] sigs[i]).gamma_i.bytes@)
            && canonical_scalar(sigs[i].k.bytes@)
}

/// All partial signatures carry the challenge of the first.
pub open spec fn challenges_agree(sigs: Seq<SerializableLocalSig>) -> bool {
    forall|i: int| 0 <= i < sigs.len() ==> (#[trigger] sigs[i]).k.bytes@ == sigs[0].k.bytes@
}

/// The shape that the aggregate check needs, given key sharings of
/// threshold `t`: one signature per signer, proper signer indices, and
/// `t + 1` commitments in every sharing.
pub open spec fn aggregate_params(
    sigs: Seq<SerializableLocalSig>,
    parties: Seq<u16>,
    kg: Seq<SerializableVerifiableSS>,
    eph: Seq<SerializableVerifiableSS>,
    t: u16,
) -> bool {
    &&& eph.len() > 0
    &&& sigs.len() == parties.len()
    &&& parties.len() <= u16::MAX
    &&& party_indices(parties)
    &&& sharings_shaped(kg, t as int + 1)
    &&& sharings_shaped(eph, t as int + 1)
}

/// What the aggregate check returns. With no key sharing there is no
/// threshold and the inputs are refused; with no more distinct signers than
/// the threshold it fails for want of participants, before anything else is
/// looked at. Then come the shape, the encodings, the agreement of the
/// challenges, and the check of every response share against the aggregate
/// sharing, which is returned when all pass.
pub open spec fn aggregate_outcome(
    sigs: Seq<SerializableLocalSig>,
    parties: Seq<u16>,
    kg: Seq<SerializableVerifiableSS>,
    eph: Seq<SerializableVerifiableSS>,
    r: Result<SerializableVerifiableSS, ThresholdError>,
) -> bool {
    if kg.len() == 0 {
        r == Err::<SerializableVerifiableSS, ThresholdError>(ThresholdError::InvalidParameters)
    } else if distinct_count(parties) <= kg[0].threshold {
        r == Err::<SerializableVerifiableSS, ThresholdError>(ThresholdError::InsufficientParticipants)
    } else if !aggregate_params(sigs, parties, kg, eph, kg[0].threshold) {
        r == Err::<SerializableVerifiableSS, ThresholdError>(ThresholdError::InvalidParameters)
    } else if !(sigs_encoded(sigs) && sharings_encoded(kg) && sharings_encoded(eph)) {
        r == Err::<SerializableVerifiableSS, ThresholdError>(ThresholdError::InvalidEncoding)
    } else if !challenges_agree(sigs) {
        r == Err::<SerializableVerifiableSS, ThresholdError>(ThresholdError::ChallengeMismatch)
    } else {
        let cs = combined_commitments(kg, eph, sigs[0].k.bytes@, kg[0].threshold as int + 1);
        if forall|i: int|
            0 <= i < sigs.len() ==> share_matches(parties[i], #[trigger] sigs[i].gamma_i.bytes@, cs) {
            match r {
                Ok(v) => {
                    &&& v.threshold == kg[0].threshold
                    &&& v.share_count == eph[0].share_count
                    &&& v.parties@ == parties
                    &&& point_seq(v.commitments@) == cs
                    &&& all_points(v.commitments@)
                },
                Err(_) => false,
            }
        } else {
            r == Err::<SerializableVerifiableSS, ThresholdError>(ThresholdError::AggregateCheckFailed)
        }
    }
}

/// Whether every sharing has `count` commitments.
fn check_shaped(vs: &Vec<SerializableVerifiableSS>, count: usize) -> (r: bool)
    ensures
        r == sharings_shaped(vs@, count as int),
{
    let mut m: usize = 0;
    while m < vs.len()
        invariant
            m <= vs@.len(),
            forall|q: int| 0 <= q < m ==> (#[trigger] vs@[q]).commitments@.len() == count,
        decreases vs.len() - m,
    {
        if vs[m].commitments.len() != count {
            return false;
        }
        m = m + 1;
    }
    true
}

/// Whether every commitment of every sharing is a point encoding.
fn check_sharings_encoded(vs: &Vec<SerializableVerifiableSS>) -> (r: bool)
    ensures
        r == sharings_encoded(vs@),
{
    let mut m: usize = 0;
    while m < vs.len()
        invariant
            m <= vs@.len(),
            forall|q: int| 0 <= q < m ==> all_points((#[trigger] vs@[q]).commitments@),
        decreases vs.len() - m,
    {
        if !check_points(&vs[m].commitments) {
            return false;
        }
        m = m + 1;
    }
    true
}

/// Whether every partial signature is made of scalar encodings.
pub fn check_sigs_encoded(sigs: &Vec<SerializableLocalSig>) -> (r: bool)
    ensures
        r == sigs_encoded(sigs@),
{
    let mut i: usize = 0;
    while i < sigs.len()
        invariant
            i <= sigs@.len(),
            forall|q: int|
                0 <= q < i ==> canonical_scalar((#[trigger] sigs@[q]).gamma_i.bytes@)
                    && canonical_scalar(sigs@[q].k.bytes@),
        decreases sigs.len() - i,
    {
        if !check_canonical(&sigs[i].gamma_i.bytes) || !check_canonical(&sigs[i].k.bytes) {
            return false;
        }
        i = i + 1;
    }
    true
}

/// Adds up the `j`-th commitment of every sharing.
fn sum_column(vs: &Vec<SerializableVerifiableSS>, j: usize, count: Ghost<int>) -> (r: Vec<u8>)
    requires
        vs@.len() > 0,
        j < count@,
        sharings_shaped(vs@, count@),
        sharings_encoded(vs@),
    ensures
        r@ == sum_points(column(vs@, j as int)),
        valid_point(r@),
{
    let mut col: Vec<SerializablePoint> = Vec::new();
    let mut m: usize = 0;
    while m < vs.len()
        invariant
            m <= vs@.len(),
            j < count@,
            sharings_shaped(vs@, count@),
            sharings_encoded(vs@),
            col@.len() == m,
            forall|q: int| 0 <= q < m ==> (#[trigger] col@[q]).bytes@ == vs@[q].commitments@[j as int].bytes@,
        decreases vs.len() - m,
    {
        assert(all_points(vs@[m as int].commitments@));
        col.push(vs[m].commitments[j].clone_point());
        m = m + 1;
    }
    assert(point_seq(col@) =~= column(vs@, j as int));
    assert(all_points(col@)) by {
        assert forall|q: int| 0 <= q < col@.len() implies valid_point(#[trigger] col@[q].bytes@) by {
            assert(all_points(vs@[q].commitments@));
        }
    }
    add_point_list(&col)
}

/// Checks the partial signatures of the signers against the key sharings
/// and the nonce sharings at once, without any secret: the response share of
/// each signer must match, at that signer's index, the sharing whose
/// commitments are the nonce commitments plus `k` times the key commitments.
/// On success that aggregate sharing is returned. A failure does not tell
/// which signer was at fault.
pub fn verify_local_sigs(
    local_sigs: &Vec<SerializableLocalSig>,
    parties_index: &Vec<u16>,
    vss_private_keys: &Vec<SerializableVerifiableSS>,
    vss_ephemeral_keys: &Vec<SerializableVerifiableSS>,
) -> (r: Result<SerializableVerifiableSS, ThresholdError>)
    ensures
        aggregate_outcome(local_sigs@, parties_index@, vss_private_keys@, vss_ephemeral_keys@, r),
{
    if vss_private_keys.len() == 0 {
        return Err(ThresholdError::InvalidParameters);
    }
    let t = vss_private_keys[0].threshold;
    if count_distinct(parties_index) <= t as usize {
        return Err(ThresholdError::InsufficientParticipants);
    }
    let count = t as usize + 1;
    if !(vss_ephemeral_keys.len() > 0 && local_sigs.len() == parties_index.len()
        && parties_index.len() <= 65535 && check_party_indices(parties_index) && check_shaped(
        vss_private_keys,
        count,
    ) && check_shaped(vss_ephemeral_keys, count)) {
        return Err(ThresholdError::InvalidParameters);
    }
    proof {
        lemma_distinct_count_bounds(parties_index@);
    }
    if !(check_sigs_encoded(local_sigs) && check_sharings_encoded(vss_private_keys)
        && check_sharings_encoded(vss_ephemeral_keys)) {
        return Err(ThresholdError::InvalidEncoding);
    }
    let mut i: usize = 0;
    while i < local_sigs.len()
        invariant
            vss_private_keys@.len() > 0,
            t == vss_private_keys@[0].threshold,
            parties_index@.len() > t,
            distinct_count(parties_index@) > t,
            aggregate_params(local_sigs@, parties_index@, vss_private_keys@, vss_ephemeral_keys@, t),
            sigs_encoded(local_sigs@),
            sharings_encoded(vss_private_keys@),
            sharings_encoded(vss_ephemeral_keys@),
            local_sigs@.len() > 0,
            i <= local_sigs@.len(),
            forall|q: int| 0 <= q < i ==> (#[trigger] local_sigs@[q]).k.bytes@ == local_sigs@[0].k.bytes@,
        decreases local_sigs.len() - i,
    {
        if !bytes_eq(&local_sigs[i].k.bytes, &local_sigs[0].k.bytes) {
            return Err(ThresholdError::ChallengeMismatch);
        }
        i = i + 1;
    }
    let k = &local_sigs[0].k.bytes;
    let ghost kk = k@;
    let ghost cs = combined_commitments(vss_private_keys@, vss_ephemeral_keys@, kk, count as int);
    let mut commitments: Vec<SerializablePoint> = Vec::new();
    let mut j: usize = 0;
    while j < count
        invariant
            count == t as int + 1,
            vss_private_keys@.len() > 0,
            vss_ephemeral_keys@.len() > 0,
            sharings_shaped(vss_private_keys@, count as int),
            sharings_shaped(vss_ephemeral_keys@, count as int),
            sharings_encoded(vss_private_keys@),
            sharings_encoded(vss_ephemeral_keys@),
            valid_scalar(k@),
            k@ == kk,
            cs == combined_commitments(vss_private_keys@, vss_ephemeral_keys@, kk, count as int),
            j <= count,
            commitments@.len() == j,
            forall|q: int| 0 <= q < j ==> (#[trigger] commitments@[q]).bytes@ == cs[q],
            all_points(commitments@),
        decreases count - j,
    {
        let e = sum_column(vss_ephemeral_keys, j, Ghost(count as int));
        let g = sum_column(vss_private_keys, j, Ghost(count as int));
        let gk = mul_point(&g, k);
        let c = add_points(&e, &gk);
        commitments.push(SerializablePoint { bytes: c });
        j = j + 1;
    }
    assert(point_seq(commitments@) =~= cs);
    i = 0;
    while i < local_sigs.len()
        invariant
            vss_private_keys@.len() > 0,
            t == vss_private_keys@[0].threshold,
            parties_index@.len() > t,
            distinct_count(parties_index@) > t,
            aggregate_params(local_sigs@, parties_index@, vss_private_keys@, vss_ephemeral_keys@, t),
            sigs_encoded(local_sigs@),
            sharings_encoded(vss_private_keys@),
            sharings_encoded(vss_ephemeral_keys@),
            challenges_agree(local_sigs@),
            kk == local_sigs@[0].k.bytes@,
            cs == combined_commitments(vss_private_keys@, vss_ephemeral_keys@, kk, count as int),
            count == t as int + 1,
            local_sigs@.len() == parties_index@.len(),
            commitments@.len() == count,
            count >= 1,
            all_points(commitments@),
            point_seq(commitments@) == cs,
            i <= local_sigs@.len(),
            forall|q: int|
                0 <= q < i ==> share_matches(parties_index@[q], #[trigger] local_sigs@[q].gamma_i.bytes@, cs),
        decreases local_sigs.len() - i,
    {
        assert(canonical_scalar(local_sigs@[i as int].gamma_i.bytes@));
        if !verify_share(parties_index[i], &local_sigs[i].gamma_i.bytes, &commitments) {
            assert(!share_matches(parties_index@[i as int], local_sigs@[i as int].gamma_i.bytes@, cs));
            return Err(ThresholdError::AggregateCheckFailed);
        }
        i = i + 1;
    }
    Ok(
        SerializableVerifiableSS {
            threshold: t,
            share_count: vss_ephemeral_keys[0].share_count,
            parties: copy_indices(parties_index),
            commitments,
        },
    )
}

/// The response shares of a list of partial signatures.
pub open spec fn gammas(sigs: Seq<SerializableLocalSig>) -> Seq<Seq<u8>> {
    sigs.map_values(|s: SerializableLocalSig| s.gamma_i.bytes@)
}

/// Combines the response shares of the signers into the signature scalar
/// `s` by Lagrange interpolation at zero over exactly `parties_index`, and
/// pairs it with the joint nonce point `R`. No more distinct signers than the
/// threshold of the aggregate sharing is refused before anything else.
#[allow(non_snake_case)]
pub fn generate_signature(
    vss_sum_local_sigs: &SerializableVerifiableSS,
    local_sigs: &Vec<SerializableLocalSig>,
    parties_index: &Vec<u16>,
    R: &SerializablePoint,
) -> (r: Result<SerializableSignature, ThresholdError>)
    ensures
        distinct_count(parties_index@) <= vss_sum_local_sigs.threshold ==> r == Err::<
            SerializableSignature,
            ThresholdError,
        >(ThresholdError::InsufficientParticipants),
        distinct_count(parties_index@) > vss_sum_local_sigs.threshold ==> {
            if !(local_sigs@.len() == parties_index@.len() && parties_index@.len() < u16::MAX
                && party_indices(parties_index@)) {
                r == Err::<SerializableSignature, ThresholdError>(ThresholdError::InvalidParameters)
            } else if !(sigs_encoded(local_sigs@) && valid_point(R.bytes@) && all_points(
                vss_sum_local_sigs.commitments@,
            )) {
                r == Err::<SerializableSignature, ThresholdError>(ThresholdError::InvalidEncoding)
            } else {
                r matches Ok(sig) && sig.R.bytes@ == R.bytes@ && sig.s.bytes@ == interpolated(
                    parties_index@,
                    gammas(local_sigs@),
                    parties_index@.len() as int,
                )
            }
        },
{
    if count_distinct(parties_index) <= vss_sum_local_sigs.threshold as usize {
        return Err(ThresholdError::InsufficientParticipants);
    }
    if !(local_sigs.len() == parties_index.len() && parties_index.len() < 65535
        && check_party_indices(parties_index)) {
        return Err(ThresholdError::InvalidParameters);
    }
    if !(check_sigs_encoded(local_sigs) && check_point_bytes(&R.bytes) && check_points(
        &vss_sum_local_sigs.commitments,
    )) {
        return Err(ThresholdError::InvalidEncoding);
    }
    proof {
        lemma_distinct_count_bounds(parties_index@);
    }
    let mut gs: Vec<SerializableScalar> = Vec::new();
    let mut i: usize = 0;
    while i < local_sigs.len()
        invariant
            i <= local_sigs@.len(),
            gs@.len() == i,
            forall|q: int| 0 <= q < i ==> (#[trigger] gs@[q]).bytes@ == local_sigs@[q].gamma_i.bytes@,
        decreases local_sigs.len() - i,
    {
        gs.push(local_sigs[i].gamma_i.clone_scalar());
        i = i + 1;
    }
    assert(scalar_seq(gs@) =~= gammas(local_sigs@));
    assert(all_scalars(gs@)) by {
        assert forall|q: int| 0 <= q < gs@.len() implies valid_scalar(#[trigger] gs@[q].bytes@) by {
            assert(canonical_scalar(local_sigs@[q].gamma_i.bytes@));
        }
    }
    let s = interpolate_scalars(parties_index, &gs);
    Ok(SerializableSignature { R: R.clone_point(), s: SerializableScalar { bytes: s } })
}

/// The EdDSA verification equation `s * B == R + k * y`, with `k` the
/// challenge of `R`, `y` and the message.
pub open spec fn signature_holds(big_r: Seq<u8>, s: Seq<u8>, y: Seq<u8>, message: Seq<u8>) -> bool {
    base_times(s) == point_sum(big_r, point_times(y, challenge(big_r, y, message)))
}

/// Verifies a signature on a message under a public key. A malformed
/// encoding, including an `s` not below the group order, is an error; a well-formed signature that does not verify is
/// `Ok(false)`.
pub fn verify_signature(
    signature: &SerializableSignature,
    message: &Vec<u8>,
    public_key: &SerializablePoint,
) -> (r: Result<bool, ThresholdError>)
    ensures
        !(valid_point(signature.R.bytes@) && canonical_scalar(signature.s.bytes@) && valid_point(
            public_key.bytes@,
        )) ==> r == Err::<bool, ThresholdError>(ThresholdError::InvalidEncoding),
        valid_point(signature.R.bytes@) && canonical_scalar(signature.s.bytes@) && valid_point(
            public_key.bytes@,
        ) ==> r is Ok,
        r matches Ok(b) ==> b == signature_holds(
            signature.R.bytes@,
            signature.s.bytes@,
            public_key.bytes@,
            message@,
        ),
{
    if !(check_point_bytes(&signature.R.bytes) && check_canonical(&signature.s.bytes)
        && check_point_bytes(&public_key.bytes)) {
        return Err(ThresholdError::InvalidEncoding);
    }
    let k = compute_challenge(&signature.R.bytes, &public_key.bytes, message);
    let lhs = mul_base(&signature.s.bytes);
    let ky = mul_point(&public_key.bytes, &k);
    let rhs = add_points(&signature.R.bytes, &ky);
    Ok(bytes_eq(&lhs, &rhs))
}

} // verus!
