//! The byte layout of points, scalars and sharings on the wire.
//!
//! A point or a scalar is its 32-byte encoding. A sharing is the threshold,
//! the share count and the number of parties, each as two big-endian bytes,
//! then the parties' indices, two big-endian bytes each, then the
//! commitments, 32 bytes each.

use vstd::prelude::*;
use crate::curve::{canonical_scalar, valid_point};
use crate::types::{
    all_points, point_seq, SerializablePoint, SerializableScalar, SerializableVerifiableSS,
    ThresholdError,
};
use crate::vss::{check_canonical, check_point_bytes};

verus! {

/// A 16-bit integer as two big-endian bytes.
pub open spec fn be16(v: u16) -> Seq<u8> {
    seq![(v / 256) as u8, (v % 256) as u8]
}

/// The 16-bit integer of two big-endian bytes.
pub open spec fn from_be16(hi: u8, lo: u8) -> u16 {
    (hi as int * 256 + lo as int) as u16
}

/// The byte strings laid end to end.
pub open spec fn flatten(cs: Seq<Seq<u8>>) -> Seq<u8>
    decreases cs.len(),
{
    if cs.len() == 0 {
        Seq::empty()
    } else {
        flatten(cs.drop_last()) + cs.last()
    }
}

/// The indices as two big-endian bytes each.
pub open spec fn index_blocks(ps: Seq<u16>) -> Seq<Seq<u8>> {
    ps.map_values(|p: u16| be16(p))
}

/// The bytes of a sharing.
pub open spec fn vss_encoding(v: SerializableVerifiableSS) -> Seq<u8> {
    be16(v.threshold) + be16(v.share_count) + be16(v.parties@.len() as u16) + flatten(
        index_blocks(v.parties@),
    ) + flatten(point_seq(v.commitments@))
}

/// The `m` indices that follow a six-byte header.
pub open spec fn index_list(b: Seq<u8>, m: int) -> Seq<u16> {
    Seq::new(m as nat, |i: int| from_be16(b[6 + 2 * i], b[7 + 2 * i]))
}

/// The blocks of 32 bytes that follow the first `start` bytes.
pub open spec fn blocks(b: Seq<u8>, start: int) -> Seq<Seq<u8>> {
    Seq::new(
        ((b.len() - start) / 32) as nat,
        |i: int| b.subrange(start + 32 * i, start + 32 * i + 32),
    )
}

/// What a byte string decodes to as a sharing: its threshold, share count,
/// party indices and commitments, or nothing when the lengths do not fit
/// together or a block is not a point.
pub open spec fn vss_decoding(b: Seq<u8>) -> Option<(u16, u16, Seq<u16>, Seq<Seq<u8>>)> {
    if b.len() >= 6 {
        let m = from_be16(b[4], b[5]) as int;
        let start = 6 + 2 * m;
        if b.len() >= start && (b.len() - start) % 32 == 0 {
            let cs = blocks(b, start);
            if forall|i: int| 0 <= i < cs.len() ==> valid_point(#[trigger] cs[i]) {
                Some((from_be16(b[0], b[1]), from_be16(b[2], b[3]), index_list(b, m), cs))
            } else {
                None
            }
        } else {
            None
        }
    } else {
        None
    }
}

/// What a byte string decodes to as a point.
pub open spec fn point_decoding(b: Seq<u8>) -> Option<Seq<u8>> {
    if valid_point(b) {
        Some(b)
    } else {
        None
    }
}

/// What a byte string decodes to as a scalar.
pub open spec fn scalar_decoding(b: Seq<u8>) -> Option<Seq<u8>> {
    if canonical_scalar(b) {
        Some(b)
    } else {
        None
    }
}

/// Copies `b[start..end]`.
pub fn copy_range(b: &Vec<u8>, start: usize, end: usize) -> (r: Vec<u8>)
    requires
        start <= end <= b@.len(),
    ensures
        r@ == b@.subrange(start as int, end as int),
{
    let mut r: Vec<u8> = Vec::new();
    let mut i: usize = start;
    while i < end
        invariant
            start <= i <= end <= b@.len(),
            r@ == b@.subrange(start as int, i as int),
        decreases end - i,
    {
        r.push(b[i]);
        assert(b@.subrange(start as int, i + 1) =~= b@.subrange(start as int, i as int).push(
            b@[i as int],
        ));
        i = i + 1;
    }
    r
}

/// Appends `b` to `out`.
pub fn append(out: &mut Vec<u8>, b: &Vec<u8>)
    ensures
        final(out)@ == old(out)@ + b@,
{
    let mut i: usize = 0;
    while i < b.len()
        invariant
            i <= b@.len(),
            out@ == old(out)@ + b@.subrange(0, i as int),
        decreases b.len() - i,
    {
        out.push(b[i]);
        assert(b@.subrange(0, i + 1) =~= b@.subrange(0, i as int).push(b@[i as int]));
        i = i + 1;
    }
    assert(b@.subrange(0, b@.len() as int) =~= b@);
}

/// The bytes of a point.
pub fn encode_point(p: &SerializablePoint) -> (r: Vec<u8>)
    ensures
        r@ == p.bytes@,
{
    p.bytes.clone()
}

/// Reads a point, refusing bytes that are not a point encoding.
pub fn decode_point(b: &Vec<u8>) -> (r: Result<SerializablePoint, ThresholdError>)
    ensures
        match r {
            Ok(p) => point_decoding(b@) == Some(p.bytes@),
            Err(e) => point_decoding(b@) is None && e == ThresholdError::InvalidEncoding,
        },
{
    if check_point_bytes(b) {
        Ok(SerializablePoint { bytes: b.clone() })
    } else {
        Err(ThresholdError::InvalidEncoding)
    }
}

/// The bytes of a scalar.
pub fn encode_scalar(s: &SerializableScalar) -> (r: Vec<u8>)
    ensures
        r@ == s.bytes@,
{
    s.bytes.clone()
}

/// Reads a scalar, refusing bytes of another length than 32 and values not
/// below the group order.
pub fn decode_scalar(b: &Vec<u8>) -> (r: Result<SerializableScalar, ThresholdError>)
    ensures
        match r {
            Ok(s) => scalar_decoding(b@) == Some(s.bytes@),
            Err(e) => scalar_decoding(b@) is None && e == ThresholdError::InvalidEncoding,
        },
{
    if check_canonical(b) {
        Ok(SerializableScalar { bytes: b.clone() })
    } else {
        Err(ThresholdError::InvalidEncoding)
    }
}

/// The bytes of a sharing whose party list fits the two-byte count.
pub fn encode_vss(v: &SerializableVerifiableSS) -> (r: Vec<u8>)
    requires
        v.parties@.len() <= u16::MAX,
    ensures
        r@ == vss_encoding(*v),
{
    let m = v.parties.len();
    let mut r: Vec<u8> = vec![(v.threshold / 256) as u8, (v.threshold % 256) as u8,
        (v.share_count / 256) as u8, (v.share_count % 256) as u8, (m / 256) as u8, (m % 256) as u8];
    assert(r@ =~= be16(v.threshold) + be16(v.share_count) + be16(m as u16));
    let ghost head = r@;
    let ghost ps = index_blocks(v.parties@);
    let mut i: usize = 0;
    while i < m
        invariant
            m == v.parties@.len(),
            ps == index_blocks(v.parties@),
            i <= m,
            r@ == head + flatten(ps.subrange(0, i as int)),
        decreases m - i,
    {
        let p = v.parties[i];
        let pb: Vec<u8> = vec![(p / 256) as u8, (p % 256) as u8];
        assert(pb@ =~= ps[i as int]);
        append(&mut r, &pb);
        assert(ps.subrange(0, i + 1).drop_last() =~= ps.subrange(0, i as int));
        i = i + 1;
    }
    assert(ps.subrange(0, m as int) =~= ps);
    let ghost head2 = r@;
    let ghost cs = point_seq(v.commitments@);
    i = 0;
    while i < v.commitments.len()
        invariant
            cs == point_seq(v.commitments@),
            i <= v.commitments@.len(),
            r@ == head2 + flatten(cs.subrange(0, i as int)),
        decreases v.commitments.len() - i,
    {
        append(&mut r, &v.commitments[i].bytes);
        assert(cs.subrange(0, i + 1).drop_last() =~= cs.subrange(0, i as int));
        i = i + 1;
    }
    assert(cs.subrange(0, v.commitments@.len() as int) =~= cs);
    r
}

/// Reads a sharing, refusing lengths that do not fit the header and blocks
/// that are not points.
pub fn decode_vss(b: &Vec<u8>) -> (r: Result<SerializableVerifiableSS, ThresholdError>)
    ensures
        match r {
            Ok(v) => vss_decoding(b@) == Some(
                (v.threshold, v.share_count, v.parties@, point_seq(v.commitments@)),
            ),
            Err(e) => vss_decoding(b@) is None && e == ThresholdError::InvalidEncoding,
        },
{
    let n = b.len();
    if n < 6 {
        return Err(ThresholdError::InvalidEncoding);
    }
    let m: usize = (b[4] as usize) * 256 + (b[5] as usize);
    assert(m == from_be16(b@[4], b@[5]) as int);
    let start: usize = 6 + 2 * m;
    if n < start || (n - start) % 32 != 0 {
        return Err(ThresholdError::InvalidEncoding);
    }
    let mut parties: Vec<u16> = Vec::new();
    let mut i: usize = 0;
    while i < m
        invariant
            n == b@.len(),
            start == 6 + 2 * m,
            n >= start,
            i <= m,
            parties@ == index_list(b@, m as int).subrange(0, i as int),
        decreases m - i,
    {
        let p: u16 = (b[6 + 2 * i] as u16) * 256 + (b[7 + 2 * i] as u16);
        parties.push(p);
        assert(index_list(b@, m as int).subrange(0, i + 1) =~= index_list(b@, m as int).subrange(
            0,
            i as int,
        ).push(p));
        i = i + 1;
    }
    assert(index_list(b@, m as int).subrange(0, m as int) =~= index_list(b@, m as int));
    let k = (n - start) / 32;
    assert(n == start + 32 * k) by (nonlinear_arith)
        requires k == (n - start) / 32, (n - start) % 32 == 0, n >= start;
    let ghost bs = blocks(b@, start as int);
    let mut commitments: Vec<SerializablePoint> = Vec::new();
    i = 0;
    while i < k
        invariant
            n == b@.len(),
            n >= 6,
            m == from_be16(b@[4], b@[5]) as int,
            start == 6 + 2 * m,
            (n - start) % 32 == 0,
            n == start + 32 * k,
            k == (n - start) / 32,
            bs == blocks(b@, start as int),
            i <= k,
            commitments@.len() == i,
            forall|q: int| 0 <= q < i ==> (#[trigger] commitments@[q]).bytes@ == bs[q],
            forall|q: int| 0 <= q < i ==> valid_point(#[trigger] bs[q]),
        decreases k - i,
    {
        assert(start + 32 * i + 32 <= n) by (nonlinear_arith)
            requires i < k, n == start + 32 * k;
        let at: usize = start + 32 * i;
        let block = copy_range(b, at, at + 32);
        if !check_point_bytes(&block) {
            assert(!valid_point(bs[i as int]));
            return Err(ThresholdError::InvalidEncoding);
        }
        commitments.push(SerializablePoint { bytes: block });
        i = i + 1;
    }
    assert(point_seq(commitments@) =~= bs);
    let threshold: u16 = (b[0] as u16) * 256 + (b[1] as u16);
    let share_count: u16 = (b[2] as u16) * 256 + (b[3] as u16);
    Ok(SerializableVerifiableSS { threshold, share_count, parties, commitments })
}

/// Laid end to end, strings of `w` bytes take `w` bytes each, and the
/// `i`-th can be read back at offset `w * i`.
proof fn lemma_flatten_blocks(cs: Seq<Seq<u8>>, w: int)
    requires
        w > 0,
        forall|i: int| 0 <= i < cs.len() ==> (#[trigger] cs[i]).len() == w,
    ensures
        flatten(cs).len() == w * cs.len(),
        forall|i: int|
            0 <= i < cs.len() ==> flatten(cs).subrange(w * i, w * i + w) == #[trigger] cs[i],
    decreases cs.len(),
{
    if cs.len() > 0 {
        let init = cs.drop_last();
        let n = cs.len() as int;
        lemma_flatten_blocks(init, w);
        assert(w * (n - 1) + w == w * n) by (nonlinear_arith);
        assert forall|i: int| 0 <= i < cs.len() implies flatten(cs).subrange(w * i, w * i + w)
            == #[trigger] cs[i] by {
            if i < n - 1 {
                assert(init[i] == cs[i]);
                assert(w * i + w <= w * (n - 1)) by (nonlinear_arith)
                    requires i < n - 1, w > 0, i >= 0;
                assert(flatten(cs).subrange(w * i, w * i + w) =~= flatten(init).subrange(
                    w * i,
                    w * i + w,
                ));
            } else {
                assert(flatten(cs).subrange(w * i, w * i + w) =~= cs.last());
            }
        }
    }
}

/// Encoding a sharing whose party list fits the two-byte count and whose
/// commitments are all points, then decoding the bytes, gives back its
/// threshold, share count, party indices and commitments.
pub proof fn lemma_vss_round_trip(v: SerializableVerifiableSS)
    requires
        v.parties@.len() <= u16::MAX,
        all_points(v.commitments@),
    ensures
        vss_decoding(vss_encoding(v)) == Some(
            (v.threshold, v.share_count, v.parties@, point_seq(v.commitments@)),
        ),
{
    let ps = index_blocks(v.parties@);
    let cs = point_seq(v.commitments@);
    let m = v.parties@.len() as int;
    let k = cs.len() as int;
    let b = vss_encoding(v);
    assert forall|i: int| 0 <= i < ps.len() implies (#[trigger] ps[i]).len() == 2 by {}
    assert forall|i: int| 0 <= i < cs.len() implies (#[trigger] cs[i]).len() == 32 by {
        assert(valid_point(v.commitments@[i].bytes@));
    }
    lemma_flatten_blocks(ps, 2);
    lemma_flatten_blocks(cs, 32);
    let fp = flatten(ps);
    let fc = flatten(cs);
    assert(b =~= be16(v.threshold) + be16(v.share_count) + be16(m as u16) + fp + fc);
    assert(b.len() == 6 + 2 * m + 32 * k);
    assert(from_be16(b[4], b[5]) as int == m);
    let start = 6 + 2 * m;
    assert((b.len() - start) / 32 == k) by (nonlinear_arith)
        requires b.len() == start + 32 * k, k >= 0;
    assert((b.len() - start) % 32 == 0) by (nonlinear_arith)
        requires b.len() == start + 32 * k, k >= 0;
    let il = index_list(b, m);
    assert forall|i: int| 0 <= i < m implies #[trigger] il[i] == v.parties@[i] by {
        assert(fp.subrange(2 * i, 2 * i + 2) == ps[i]);
        assert(b[6 + 2 * i] == fp[2 * i]);
        assert(b[7 + 2 * i] == fp[2 * i + 1]);
    }
    assert(il =~= v.parties@);
    let bs = blocks(b, start);
    assert forall|i: int| 0 <= i < k implies #[trigger] bs[i] == cs[i] by {
        assert(fc.subrange(32 * i, 32 * i + 32) == cs[i]);
        assert(bs[i] =~= fc.subrange(32 * i, 32 * i + 32));
    }
    assert(bs =~= cs);
    assert forall|i: int| 0 <= i < bs.len() implies valid_point(#[trigger] bs[i]) by {
        assert(valid_point(v.commitments@[i].bytes@));
    }
    assert(from_be16(b[0], b[1]) == v.threshold);
    assert(from_be16(b[2], b[3]) == v.share_count);
}

/// Decoding the bytes of a point gives back the point.
pub proof fn lemma_point_round_trip(p: SerializablePoint)
    requires
        valid_point(p.bytes@),
    ensures
        point_decoding(p.bytes@) == Some(p.bytes@),
{
}

/// Decoding the bytes of a scalar gives back the scalar.
pub proof fn lemma_scalar_round_trip(s: SerializableScalar)
    requires
        canonical_scalar(s.bytes@),
    ensures
        scalar_decoding(s.bytes@) == Some(s.bytes@),
{
}

} // verus!
