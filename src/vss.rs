//! Feldman verifiable secret sharing over encoded points and scalars:
//! evaluation of a committed polynomial in the exponent, share checks, and
//! the sums that combine several sharings.

use vstd::prelude::*;
use crate::curve::{
    canonical_scalar, group_order_bytes, le_value, add_points, add_scalars, base_times, check_point, commitment_of, hash_commitment,
    index_scalar, lagrange_at_zero, lagrange_coefficient, mul_base, mul_point, mul_scalars,
    point_sum, point_times, scalar_of_index, scalar_product, scalar_sum, valid_point,
    valid_scalar,
};
use crate::types::{
    all_canonical, all_points, all_scalars, distinct_count, lemma_distinct_count_bounds, party_indices, point_seq, scalar_seq, SerializableBigInt,
    SerializablePoint, SerializableScalar, ThresholdError,
};

verus! {

/// The committed polynomial evaluated in the exponent at `x`, by Horner's
/// rule: `c0 + x * (c1 + x * (c2 + ...))`.
pub open spec fn poly_eval(cs: Seq<Seq<u8>>, x: Seq<u8>) -> Seq<u8>
    decreases cs.len(),
{
    if cs.len() <= 1 {
        cs[0]
    } else {
        point_sum(cs[0], point_times(poly_eval(cs.drop_first(), x), x))
    }
}

/// The sum of a nonempty list of points, from the left.
pub open spec fn sum_points(s: Seq<Seq<u8>>) -> Seq<u8>
    decreases s.len(),
{
    if s.len() <= 1 {
        s[0]
    } else {
        point_sum(sum_points(s.drop_last()), s.last())
    }
}

/// The sum of a nonempty list of scalars, from the left.
pub open spec fn sum_scalars(s: Seq<Seq<u8>>) -> Seq<u8>
    decreases s.len(),
{
    if s.len() <= 1 {
        s[0]
    } else {
        scalar_sum(sum_scalars(s.drop_last()), s.last())
    }
}

/// A share is consistent with the commitments when the base point times the
/// share equals the committed polynomial at the holder's index.
pub open spec fn share_matches(index: u16, share: Seq<u8>, cs: Seq<Seq<u8>>) -> bool {
    base_times(share) == poly_eval(cs, scalar_of_index(index))
}

/// Whether every entry of the list is a point encoding.
pub fn check_points(v: &Vec<SerializablePoint>) -> (r: bool)
    ensures
        r == all_points(v@),
{
    let mut i: usize = 0;
    while i < v.len()
        invariant
            i <= v@.len(),
            forall|j: int| 0 <= j < i ==> valid_point(#[trigger] v@[j].bytes@),
        decreases v.len() - i,
    {
        if v[i].bytes.len() != 32 || !check_point(&v[i].bytes) {
            return false;
        }
        i = i + 1;
    }
    true
}

/// Whether every entry of the list is a scalar encoding.
pub fn check_scalars(v: &Vec<SerializableScalar>) -> (r: bool)
    ensures
        r == all_scalars(v@),
{
    let mut i: usize = 0;
    while i < v.len()
        invariant
            i <= v@.len(),
            forall|j: int| 0 <= j < i ==> valid_scalar(#[trigger] v@[j].bytes@),
        decreases v.len() - i,
    {
        if v[i].bytes.len() != 32 {
            return false;
        }
        i = i + 1;
    }
    true
}

/// Whether the bytes are a point encoding.
pub fn check_point_bytes(b: &Vec<u8>) -> (r: bool)
    ensures
        r == valid_point(b@),
{
    b.len() == 32 && check_point(b)
}

/// Evaluates the committed polynomial in the exponent at a party's index.
pub fn eval_commitments(cs: &Vec<SerializablePoint>, index: u16) -> (r: Vec<u8>)
    requires
        cs@.len() >= 1,
        all_points(cs@),
    ensures
        r@ == poly_eval(point_seq(cs@), scalar_of_index(index)),
        valid_point(r@),
{
    let x = index_scalar(index);
    let ghost s = point_seq(cs@);
    let n = cs.len();
    let mut acc = cs[n - 1].bytes.clone();
    let mut j: usize = n - 1;
    assert(s.subrange(j as int, n as int).len() == 1);
    while j > 0
        invariant
            n == cs@.len(),
            s == point_seq(cs@),
            all_points(cs@),
            x@ == scalar_of_index(index),
            valid_scalar(x@),
            j < n,
            acc@ == poly_eval(s.subrange(j as int, n as int), x@),
            valid_point(acc@),
        decreases j,
    {
        let t = mul_point(&acc, &x);
        acc = add_points(&cs[j - 1].bytes, &t);
        proof {
            let tail = s.subrange(j - 1, n as int);
            assert(tail.drop_first() =~= s.subrange(j as int, n as int));
        }
        j = j - 1;
    }
    assert(s.subrange(0, n as int) =~= s);
    acc
}

/// Checks a received share against the sharer's commitments, using public
/// values only.
pub fn verify_share(index: u16, share: &Vec<u8>, cs: &Vec<SerializablePoint>) -> (r: bool)
    requires
        valid_scalar(share@),
        cs@.len() >= 1,
        all_points(cs@),
    ensures
        r == share_matches(index, share@, point_seq(cs@)),
{
    let lhs = mul_base(share);
    let rhs = eval_commitments(cs, index);
    bytes_eq(&lhs, &rhs)
}

/// Whether two byte strings are equal.
pub fn bytes_eq(a: &Vec<u8>, b: &Vec<u8>) -> (r: bool)
    ensures
        r == (a@ == b@),
{
    if a.len() != b.len() {
        return false;
    }
    let mut i: usize = 0;
    while i < a.len()
        invariant
            a@.len() == b@.len(),
            i <= a@.len(),
            forall|j: int| 0 <= j < i ==> a@[j] == b@[j],
        decreases a.len() - i,
    {
        if a[i] != b[i] {
            return false;
        }
        i = i + 1;
    }
    assert(a@ =~= b@);
    true
}

/// Adds up a nonempty list of points.
pub fn add_point_list(v: &Vec<SerializablePoint>) -> (r: Vec<u8>)
    requires
        v@.len() >= 1,
        all_points(v@),
    ensures
        r@ == sum_points(point_seq(v@)),
        valid_point(r@),
{
    let ghost s = point_seq(v@);
    let mut acc = v[0].bytes.clone();
    let mut i: usize = 1;
    assert(s.subrange(0, 1).len() == 1);
    while i < v.len()
        invariant
            s == point_seq(v@),
            all_points(v@),
            1 <= i <= v@.len(),
            acc@ == sum_points(s.subrange(0, i as int)),
            valid_point(acc@),
        decreases v.len() - i,
    {
        acc = add_points(&acc, &v[i].bytes);
        assert(s.subrange(0, i + 1).drop_last() =~= s.subrange(0, i as int));
        i = i + 1;
    }
    assert(s.subrange(0, v@.len() as int) =~= s);
    acc
}

/// Adds up a nonempty list of scalars.
pub fn add_scalar_list(v: &Vec<SerializableScalar>) -> (r: Vec<u8>)
    requires
        v@.len() >= 1,
        all_scalars(v@),
    ensures
        r@ == sum_scalars(scalar_seq(v@)),
        valid_scalar(r@),
{
    let ghost s = scalar_seq(v@);
    let mut acc = v[0].bytes.clone();
    let mut i: usize = 1;
    assert(s.subrange(0, 1).len() == 1);
    while i < v.len()
        invariant
            s == scalar_seq(v@),
            all_scalars(v@),
            1 <= i <= v@.len(),
            acc@ == sum_scalars(s.subrange(0, i as int)),
            valid_scalar(acc@),
        decreases v.len() - i,
    {
        acc = add_scalars(&acc, &v[i].bytes);
        assert(s.subrange(0, i + 1).drop_last() =~= s.subrange(0, i as int));
        i = i + 1;
    }
    assert(s.subrange(0, v@.len() as int) =~= s);
    acc
}

/// Whether `blind` opens `commitment` to `value`.
pub fn open_commitment(
    commitment: &SerializableBigInt,
    blind: &SerializableBigInt,
    value: &Vec<u8>,
) -> (r: bool)
    ensures
        r == (commitment.bytes@ == commitment_of(value@, blind.bytes@)),
{
    let c = hash_commitment(value, &blind.bytes);
    bytes_eq(&c, &commitment.bytes)
}

/// `sum of lambda_i * v_i` over the first `n` values, where `lambda_i` is
/// the Lagrange coefficient at zero of the `i`-th of all the indices `xs`.
pub open spec fn interpolated(xs: Seq<u16>, vals: Seq<Seq<u8>>, n: int) -> Seq<u8>
    decreases n,
{
    if n <= 1 {
        scalar_product(lagrange_at_zero(0, xs), vals[0])
    } else {
        scalar_sum(
            interpolated(xs, vals, n - 1),
            scalar_product(lagrange_at_zero(n - 1, xs), vals[n - 1]),
        )
    }
}

/// `sum of lambda_i * P_i` over the first `n` points, the same
/// interpolation in the exponent.
pub open spec fn interpolated_points(xs: Seq<u16>, pts: Seq<Seq<u8>>, n: int) -> Seq<u8>
    decreases n,
{
    if n <= 1 {
        point_times(pts[0], lagrange_at_zero(0, xs))
    } else {
        point_sum(
            interpolated_points(xs, pts, n - 1),
            point_times(pts[n - 1], lagrange_at_zero(n - 1, xs)),
        )
    }
}

/// Interpolates scalar values at zero over all of their indices.
pub fn interpolate_scalars(xs: &Vec<u16>, vals: &Vec<SerializableScalar>) -> (r: Vec<u8>)
    requires
        xs@.len() == vals@.len(),
        xs@.len() >= 1,
        xs@.len() < u16::MAX,
        xs@.no_duplicates(),
        all_scalars(vals@),
    ensures
        r@ == interpolated(xs@, scalar_seq(vals@), xs@.len() as int),
        valid_scalar(r@),
{
    let ghost vs = scalar_seq(vals@);
    let l0 = lagrange_coefficient(0, xs);
    let mut acc = mul_scalars(&l0, &vals[0].bytes);
    let mut i: usize = 1;
    while i < vals.len()
        invariant
            xs@.len() == vals@.len(),
            xs@.len() < u16::MAX,
            xs@.no_duplicates(),
            all_scalars(vals@),
            vs == scalar_seq(vals@),
            1 <= i <= vals@.len(),
            acc@ == interpolated(xs@, vs, i as int),
            valid_scalar(acc@),
        decreases vals.len() - i,
    {
        let l = lagrange_coefficient(i as u16, xs);
        let term = mul_scalars(&l, &vals[i].bytes);
        acc = add_scalars(&acc, &term);
        i = i + 1;
    }
    acc
}

/// Interpolates points at zero over all of their indices.
fn interpolate_points(xs: &Vec<u16>, pts: &Vec<SerializablePoint>) -> (r: Vec<u8>)
    requires
        xs@.len() == pts@.len(),
        xs@.len() >= 1,
        xs@.len() < u16::MAX,
        xs@.no_duplicates(),
        all_points(pts@),
    ensures
        r@ == interpolated_points(xs@, point_seq(pts@), xs@.len() as int),
        valid_point(r@),
{
    let ghost ps = point_seq(pts@);
    let l0 = lagrange_coefficient(0, xs);
    let mut acc = mul_point(&pts[0].bytes, &l0);
    let mut i: usize = 1;
    while i < pts.len()
        invariant
            xs@.len() == pts@.len(),
            xs@.len() < u16::MAX,
            xs@.no_duplicates(),
            all_points(pts@),
            ps == point_seq(pts@),
            1 <= i <= pts@.len(),
            acc@ == interpolated_points(xs@, ps, i as int),
            valid_point(acc@),
        decreases pts.len() - i,
    {
        let l = lagrange_coefficient(i as u16, xs);
        let term = mul_point(&pts[i].bytes, &l);
        acc = add_points(&acc, &term);
        i = i + 1;
    }
    acc
}

/// Whether the list holds proper party indices: none zero, none repeated.
pub fn check_party_indices(parties: &Vec<u16>) -> (r: bool)
    ensures
        r == party_indices(parties@),
{
    let mut i: usize = 0;
    while i < parties.len()
        invariant
            i <= parties@.len(),
            forall|a: int| 0 <= a < i ==> #[trigger] parties@[a] != 0,
            forall|a: int, b: int| 0 <= a < b < i ==> parties@[a] != parties@[b],
        decreases parties.len() - i,
    {
        if parties[i] == 0 {
            return false;
        }
        let mut k: usize = 0;
        while k < i
            invariant
                i < parties@.len(),
                k <= i,
                forall|a: int| 0 <= a < k ==> parties@[a] != parties@[i as int],
            decreases i - k,
        {
            if parties[k] == parties[i] {
                assert(!parties@.no_duplicates());
                return false;
            }
            k = k + 1;
        }
        i = i + 1;
    }
    true
}

/// Recovers the shared secret from shares at distinct indices. No more
/// distinct indices than the threshold cannot determine it and is refused.
pub fn reconstruct(
    threshold: u16,
    indices: &Vec<u16>,
    shares: &Vec<SerializableScalar>,
) -> (r: Result<SerializableScalar, ThresholdError>)
    ensures
        distinct_count(indices@) <= threshold ==> r == Err::<SerializableScalar, ThresholdError>(
            ThresholdError::InsufficientParticipants,
        ),
        distinct_count(indices@) > threshold ==> {
            if !(shares@.len() == indices@.len() && indices@.len() < u16::MAX && party_indices(
                indices@,
            )) {
                r == Err::<SerializableScalar, ThresholdError>(ThresholdError::InvalidParameters)
            } else if !all_canonical(shares@) {
                r == Err::<SerializableScalar, ThresholdError>(ThresholdError::InvalidEncoding)
            } else {
                r matches Ok(s) && s.bytes@ == interpolated(
                    indices@,
                    scalar_seq(shares@),
                    indices@.len() as int,
                )
            }
        },
{
    if count_distinct(indices) <= threshold as usize {
        return Err(ThresholdError::InsufficientParticipants);
    }
    if !(shares.len() == indices.len() && indices.len() < 65535 && check_party_indices(indices)) {
        return Err(ThresholdError::InvalidParameters);
    }
    if !check_canonical_scalars(shares) {
        return Err(ThresholdError::InvalidEncoding);
    }
    assert(all_scalars(shares@)) by {
        assert forall|q: int| 0 <= q < shares@.len() implies valid_scalar(#[trigger] shares@[q].bytes@) by {
            assert(canonical_scalar(shares@[q].bytes@));
        }
    }
    Ok(SerializableScalar { bytes: interpolate_scalars(indices, shares) })
}

/// Recovers the commitment to the shared secret from the committed shares
/// `share * B` at distinct indices. No more distinct indices than the
/// threshold is refused.
pub fn reconstruct_commitment(
    threshold: u16,
    indices: &Vec<u16>,
    points: &Vec<SerializablePoint>,
) -> (r: Result<SerializablePoint, ThresholdError>)
    ensures
        distinct_count(indices@) <= threshold ==> r == Err::<SerializablePoint, ThresholdError>(
            ThresholdError::InsufficientParticipants,
        ),
        distinct_count(indices@) > threshold ==> {
            if !(points@.len() == indices@.len() && indices@.len() < u16::MAX && party_indices(
                indices@,
            )) {
                r == Err::<SerializablePoint, ThresholdError>(ThresholdError::InvalidParameters)
            } else if !all_points(points@) {
                r == Err::<SerializablePoint, ThresholdError>(ThresholdError::InvalidEncoding)
            } else {
                r matches Ok(p) && p.bytes@ == interpolated_points(
                    indices@,
                    point_seq(points@),
                    indices@.len() as int,
                )
            }
        },
{
    if count_distinct(indices) <= threshold as usize {
        return Err(ThresholdError::InsufficientParticipants);
    }
    if !(points.len() == indices.len() && indices.len() < 65535 && check_party_indices(indices)) {
        return Err(ThresholdError::InvalidParameters);
    }
    if !check_points(points) {
        return Err(ThresholdError::InvalidEncoding);
    }
    Ok(SerializablePoint { bytes: interpolate_points(indices, points) })
}

/// Whether the bytes are a canonical scalar encoding: 32 bytes whose
/// little-endian value is below the group order.
pub fn check_canonical(b: &Vec<u8>) -> (r: bool)
    ensures
        r == canonical_scalar(b@),
{
    if b.len() != 32 {
        return false;
    }
    let order: Vec<u8> = vec![
        0xedu8, 0xd3u8, 0xf5u8, 0x5cu8, 0x1au8, 0x63u8, 0x12u8, 0x58u8,
        0xd6u8, 0x9cu8, 0xf7u8, 0xa2u8, 0xdeu8, 0xf9u8, 0xdeu8, 0x14u8,
        0u8, 0u8, 0u8, 0u8, 0u8, 0u8, 0u8, 0u8,
        0u8, 0u8, 0u8, 0u8, 0u8, 0u8, 0u8, 0x10u8,
    ];
    assert(order@ =~= group_order_bytes());
    let ghost a = b@;
    let ghost c = order@;
    let mut less = false;
    let mut equal = true;
    let mut k: usize = 32;
    assert(a.subrange(32, 32) =~= Seq::<u8>::empty());
    assert(c.subrange(32, 32) =~= Seq::<u8>::empty());
    while k > 0
        invariant
            a == b@,
            c == order@,
            a.len() == 32,
            c.len() == 32,
            k <= 32,
            less == (le_value(a.subrange(k as int, 32)) < le_value(c.subrange(k as int, 32))),
            equal == (le_value(a.subrange(k as int, 32)) == le_value(c.subrange(k as int, 32))),
        decreases k,
    {
        let x = b[k - 1];
        let y = order[k - 1];
        let ghost sa = a.subrange(k as int, 32);
        let ghost sc = c.subrange(k as int, 32);
        let ghost na = a.subrange(k - 1, 32);
        let ghost nc = c.subrange(k - 1, 32);
        assert(na.drop_first() =~= sa);
        assert(nc.drop_first() =~= sc);
        assert(le_value(na) == x as nat + 256 * le_value(sa));
        assert(le_value(nc) == y as nat + 256 * le_value(sc));
        if !equal {
        } else if x < y {
            less = true;
            equal = false;
        } else if x > y {
            less = false;
            equal = false;
        }
        k = k - 1;
    }
    assert(a.subrange(0, 32) =~= a);
    assert(c.subrange(0, 32) =~= c);
    less
}

/// Whether every entry of the list is a canonical scalar encoding.
pub fn check_canonical_scalars(v: &Vec<SerializableScalar>) -> (r: bool)
    ensures
        r == all_canonical(v@),
{
    let mut i: usize = 0;
    while i < v.len()
        invariant
            i <= v@.len(),
            forall|j: int| 0 <= j < i ==> canonical_scalar(#[trigger] v@[j].bytes@),
        decreases v.len() - i,
    {
        if !check_canonical(&v[i].bytes) {
            return false;
        }
        i = i + 1;
    }
    true
}

/// Counts the distinct values of the list.
pub fn count_distinct(v: &Vec<u16>) -> (r: usize)
    ensures
        r == distinct_count(v@),
{
    let mut count: usize = 0;
    let mut i: usize = 0;
    while i < v.len()
        invariant
            i <= v@.len(),
            count == distinct_count(v@.subrange(0, i as int)),
            count <= i,
        decreases v.len() - i,
    {
        let ghost init = v@.subrange(0, i as int);
        let ghost next = v@.subrange(0, i + 1);
        assert(next.drop_last() =~= init);
        proof {
            lemma_distinct_count_bounds(init);
        }
        let mut seen = false;
        let mut k: usize = 0;
        while k < i
            invariant
                i < v@.len(),
                k <= i,
                init == v@.subrange(0, i as int),
                seen == exists|q: int| 0 <= q < k && v@[q] == v@[i as int],
            decreases i - k,
        {
            if v[k] == v[i] {
                seen = true;
            }
            k = k + 1;
        }
        if seen {
            let ghost q = choose|q: int| 0 <= q < i && v@[q] == v@[i as int];
            assert(init[q] == next.last());
        } else {
            assert(!init.contains(next.last()));
            count = count + 1;
        }
        i = i + 1;
    }
    assert(v@.subrange(0, v@.len() as int) =~= v@);
    count
}

} // verus!
