//! Curve arithmetic on Ed25519, delegated to `curv`.
//!
//! Values cross this boundary as byte encodings: a point as its 32-byte
//! compressed form, a scalar as its 32-byte little-endian form. Each operation
//! is a function of its arguments alone, so its result is given a name here;
//! the protocol's contracts speak of those names.

use vstd::prelude::*;
use curv::arithmetic::{Converter, Samplable};
use curv::cryptographic_primitives::commitments::hash_commitment::HashCommitment;
use curv::cryptographic_primitives::commitments::traits::Commitment;
use curv::cryptographic_primitives::secret_sharing::feldman_vss::VerifiableSS;
use curv::cryptographic_primitives::secret_sharing::Polynomial;
use curv::elliptic::curves::{Ed25519, Point, Scalar};
use curv::BigInt;
use sha2::{Digest, Sha256, Sha512};
use crate::vss::poly_eval;
use std::num::NonZeroU16;

verus! {

/// Whether 32 bytes decode to a point of the prime-order subgroup.
pub uninterp spec fn is_point(b: Seq<u8>) -> bool;

/// The encoding of the sum of two points.
pub uninterp spec fn point_sum(a: Seq<u8>, b: Seq<u8>) -> Seq<u8>;

/// The encoding of a point multiplied by a scalar.
pub uninterp spec fn point_times(p: Seq<u8>, s: Seq<u8>) -> Seq<u8>;

/// The encoding of the base point multiplied by a scalar.
pub uninterp spec fn base_times(s: Seq<u8>) -> Seq<u8>;

/// The encoding of the sum of two scalars.
pub uninterp spec fn scalar_sum(a: Seq<u8>, b: Seq<u8>) -> Seq<u8>;

/// The encoding of the product of two scalars.
pub uninterp spec fn scalar_product(a: Seq<u8>, b: Seq<u8>) -> Seq<u8>;

/// The 32-byte little-endian encoding of a party index as a scalar.
pub open spec fn scalar_of_index(i: u16) -> Seq<u8> {
    seq![(i % 256) as u8, (i / 256) as u8] + Seq::new(30, |k: int| 0u8)
}

/// The Lagrange basis coefficient at zero of the `j`-th of the points `xs`.
pub uninterp spec fn lagrange_at_zero(j: int, xs: Seq<u16>) -> Seq<u8>;

/// The SHA-512 digest of a byte string.
pub uninterp spec fn sha512_of(data: Seq<u8>) -> Seq<u8>;

/// The scalar congruent to a 64-byte little-endian integer.
pub uninterp spec fn wide_scalar(b: Seq<u8>) -> Seq<u8>;

/// The hash commitment to `value` under the blinding factor `blind`.
pub uninterp spec fn commitment_of(value: Seq<u8>, blind: Seq<u8>) -> Seq<u8>;

/// The order of the group generated by the base point, little-endian:
/// `2^252 + 27742317777372353535851937790883648493`.
pub open spec fn group_order_bytes() -> Seq<u8> {
    seq![
        0xedu8, 0xd3u8, 0xf5u8, 0x5cu8, 0x1au8, 0x63u8, 0x12u8, 0x58u8,
        0xd6u8, 0x9cu8, 0xf7u8, 0xa2u8, 0xdeu8, 0xf9u8, 0xdeu8, 0x14u8,
        0u8, 0u8, 0u8, 0u8, 0u8, 0u8, 0u8, 0u8,
        0u8, 0u8, 0u8, 0u8, 0u8, 0u8, 0u8, 0x10u8,
    ]
}

/// The little-endian integer of the bytes.
pub open spec fn le_value(b: Seq<u8>) -> nat
    decreases b.len(),
{
    if b.len() == 0 {
        0
    } else {
        b[0] as nat + 256 * le_value(b.drop_first())
    }
}

/// A canonical scalar encoding: 32 bytes whose little-endian value is below
/// the group order.
pub open spec fn canonical_scalar(b: Seq<u8>) -> bool {
    b.len() == 32 && le_value(b) < le_value(group_order_bytes())
}

/// The values at `indices` of the polynomial with coefficients `coefs`.
pub uninterp spec fn poly_values(coefs: Seq<Seq<u8>>, indices: Seq<u16>) -> Seq<Seq<u8>>;

/// A point encoding: 32 bytes that decode to a point.
pub open spec fn valid_point(b: Seq<u8>) -> bool {
    b.len() == 32 && is_point(b)
}

/// A scalar that `curv` can read: any 32 bytes.
pub open spec fn valid_scalar(b: Seq<u8>) -> bool {
    b.len() == 32
}

/// Relies on `Point::<Ed25519>::from_bytes`: whether the bytes decode.
#[verifier::external_body]
pub fn check_point(b: &Vec<u8>) -> (r: bool)
    requires
        b@.len() == 32,
    ensures
        r == is_point(b@),
{
    Point::<Ed25519>::from_bytes(b).is_ok()
}

/// Relies on point addition in `curv` (`&Point + &Point`), whose result
/// encodes to 32 bytes that decode again.
#[verifier::external_body]
pub fn add_points(a: &Vec<u8>, b: &Vec<u8>) -> (r: Vec<u8>)
    requires
        valid_point(a@),
        valid_point(b@),
    ensures
        r@ == point_sum(a@, b@),
        valid_point(r@),
{
    let pa = Point::<Ed25519>::from_bytes(a).unwrap();
    let pb = Point::<Ed25519>::from_bytes(b).unwrap();
    (pa + pb).to_bytes(true).to_vec()
}

/// Relies on scalar multiplication of a point in `curv` (`&Point * &Scalar`),
/// whose result encodes to 32 bytes that decode again.
#[verifier::external_body]
pub fn mul_point(p: &Vec<u8>, s: &Vec<u8>) -> (r: Vec<u8>)
    requires
        valid_point(p@),
        valid_scalar(s@),
    ensures
        r@ == point_times(p@, s@),
        valid_point(r@),
{
    let pp = Point::<Ed25519>::from_bytes(p).unwrap();
    let ss = Scalar::<Ed25519>::from_bytes(s).unwrap();
    (pp * ss).to_bytes(true).to_vec()
}

/// Relies on `Point::<Ed25519>::generator()` times a scalar in `curv`, whose
/// result encodes to 32 bytes that decode again.
#[verifier::external_body]
pub fn mul_base(s: &Vec<u8>) -> (r: Vec<u8>)
    requires
        valid_scalar(s@),
    ensures
        r@ == base_times(s@),
        valid_point(r@),
{
    let ss = Scalar::<Ed25519>::from_bytes(s).unwrap();
    (Point::<Ed25519>::generator() * ss).to_bytes(true).to_vec()
}

/// Relies on scalar addition in `curv` (`&Scalar + &Scalar`, modulo the
/// group order).
#[verifier::external_body]
pub fn add_scalars(a: &Vec<u8>, b: &Vec<u8>) -> (r: Vec<u8>)
    requires
        valid_scalar(a@),
        valid_scalar(b@),
    ensures
        r@ == scalar_sum(a@, b@),
        valid_scalar(r@),
{
    let sa = Scalar::<Ed25519>::from_bytes(a).unwrap();
    let sb = Scalar::<Ed25519>::from_bytes(b).unwrap();
    (sa + sb).to_bytes().to_vec()
}

/// Relies on scalar multiplication in `curv` (`&Scalar * &Scalar`, modulo
/// the group order).
#[verifier::external_body]
pub fn mul_scalars(a: &Vec<u8>, b: &Vec<u8>) -> (r: Vec<u8>)
    requires
        valid_scalar(a@),
        valid_scalar(b@),
    ensures
        r@ == scalar_product(a@, b@),
        valid_scalar(r@),
{
    let sa = Scalar::<Ed25519>::from_bytes(a).unwrap();
    let sb = Scalar::<Ed25519>::from_bytes(b).unwrap();
    (sa * sb).to_bytes().to_vec()
}

/// Encodes a party index as a scalar.
pub fn index_scalar(i: u16) -> (r: Vec<u8>)
    ensures
        r@ == scalar_of_index(i),
        valid_scalar(r@),
{
    let mut r: Vec<u8> = vec![(i % 256) as u8, (i / 256) as u8];
    let mut k: usize = 0;
    while k < 30
        invariant
            k <= 30,
            r@ == seq![(i % 256) as u8, (i / 256) as u8] + Seq::new(k as nat, |q: int| 0u8),
        decreases 30 - k,
    {
        r.push(0u8);
        k = k + 1;
        assert(r@ =~= seq![(i % 256) as u8, (i / 256) as u8] + Seq::new(k as nat, |q: int| 0u8));
    }
    r
}

/// Relies on `Polynomial::lagrange_basis` evaluated at zero, which panics
/// unless the points are pairwise distinct and `j` is one of their positions,
/// and whose `u16` position counter overflows after 65535 points.
#[verifier::external_body]
pub fn lagrange_coefficient(j: u16, xs: &Vec<u16>) -> (r: Vec<u8>)
    requires
        (j as int) < xs@.len(),
        xs@.len() < u16::MAX,
        xs@.no_duplicates(),
    ensures
        r@ == lagrange_at_zero(j as int, xs@),
        valid_scalar(r@),
{
    let points: Vec<Scalar<Ed25519>> = xs.iter().map(|x| Scalar::from(*x)).collect();
    Polynomial::<Ed25519>::lagrange_basis(&Scalar::zero(), j, &points).to_bytes().to_vec()
}

/// Relies on `sha2::Sha512::digest`: 64 bytes, a function of the input.
#[verifier::external_body]
pub fn sha512(data: &Vec<u8>) -> (r: Vec<u8>)
    ensures
        r@ == sha512_of(data@),
        r@.len() == 64,
{
    Sha512::digest(data).to_vec()
}

/// Relies on `Scalar::<Ed25519>::from_bigint`, which reduces its argument
/// modulo the group order; the 64 bytes are read little-endian.
#[verifier::external_body]
pub fn reduce_wide(b: &Vec<u8>) -> (r: Vec<u8>)
    requires
        b@.len() == 64,
    ensures
        r@ == wide_scalar(b@),
        valid_scalar(r@),
{
    let mut big_endian = b.clone();
    big_endian.reverse();
    Scalar::<Ed25519>::from_bigint(&BigInt::from_bytes(&big_endian)).to_bytes().to_vec()
}

/// Relies on `HashCommitment::<Sha256>::create_commitment_with_user_defined_randomness`,
/// both arguments read as big-endian integers, the digest returned as a
/// minimal big-endian byte string.
#[verifier::external_body]
pub fn hash_commitment(value: &Vec<u8>, blind: &Vec<u8>) -> (r: Vec<u8>)
    ensures
        r@ == commitment_of(value@, blind@),
{
    HashCommitment::<Sha256>::create_commitment_with_user_defined_randomness(
        &BigInt::from_bytes(value),
        &BigInt::from_bytes(blind),
    ).to_bytes()
}

/// Relies on `Scalar::<Ed25519>::random`: a fresh nonzero scalar.
#[verifier::external_body]
pub fn random_scalar() -> (r: Vec<u8>)
    ensures
        valid_scalar(r@),
{
    Scalar::<Ed25519>::random().to_bytes().to_vec()
}

/// Relies on `BigInt::sample(256)`: a fresh blinding factor of at most 256
/// bits, as a minimal big-endian byte string.
#[verifier::external_body]
pub fn random_blind() -> (r: Vec<u8>)
    ensures
        r@.len() <= 32,
{
    BigInt::sample(256).to_bytes()
}

/// Relies on `VerifiableSS::<Ed25519, Sha256>::share_at_indices`: a random
/// polynomial of degree `t` whose constant term is `secret`, its coefficient
/// commitments `B * a_j` (the first is the base point times `secret`), and
/// its values at `indices`, in their order; so the base point times each
/// value is the committed polynomial evaluated in the exponent at that index.
/// It panics on a zero index or when the count of indices does not fit a `u16`.
#[verifier::external_body]
pub fn share_secret(t: u16, secret: &Vec<u8>, indices: &Vec<u16>) -> (r: (Vec<Vec<u8>>, Vec<Vec<u8>>))
    requires
        valid_scalar(secret@),
        indices@.len() <= u16::MAX,
        forall|i: int| 0 <= i < indices@.len() ==> indices@[i] != 0,
    ensures
        r.0@.len() == t as int + 1,
        r.0@[0]@ == base_times(secret@),
        forall|i: int| 0 <= i < r.0@.len() ==> valid_point(#[trigger] r.0@[i]@),
        r.1@.len() == indices@.len(),
        forall|i: int| 0 <= i < r.1@.len() ==> valid_scalar(#[trigger] r.1@[i]@),
        forall|i: int|
            0 <= i < r.1@.len() ==> base_times(#[trigger] r.1@[i]@) == poly_eval(
                r.0@.map_values(|c: Vec<u8>| c@),
                scalar_of_index(indices@[i]),
            ),
{
    let s = Scalar::<Ed25519>::from_bytes(secret).unwrap();
    let nonzero: Vec<NonZeroU16> = indices.iter().map(|i| NonZeroU16::new(*i).unwrap()).collect();
    let (vss, shares) = VerifiableSS::<Ed25519, Sha256>::share_at_indices(t, indices.len() as u16, &s, nonzero);
    let commitments = vss.commitments.iter().map(|c| c.to_bytes(true).to_vec()).collect();
    (commitments, shares.iter().map(|x| x.to_bytes().to_vec()).collect())
}

/// Relies on `Polynomial::<Ed25519>::from_coefficients` and
/// `evaluate_many_bigint`: the values of the polynomial with coefficients
/// `coefs` (constant term first) at `indices`, in order, each a function of
/// the coefficients and the index; so the base point times each value is the
/// polynomial of the coefficient commitments `B * a_j` evaluated in the
/// exponent at that index. Evaluation panics without a coefficient.
#[verifier::external_body]
pub fn evaluate_polynomial(coefs: &Vec<Vec<u8>>, indices: &Vec<u16>) -> (r: Vec<Vec<u8>>)
    requires
        coefs@.len() >= 1,
        forall|j: int| 0 <= j < coefs@.len() ==> valid_scalar(#[trigger] coefs@[j]@),
    ensures
        r@.map_values(|v: Vec<u8>| v@) == poly_values(coefs@.map_values(|c: Vec<u8>| c@), indices@),
        r@.len() == indices@.len(),
        forall|i: int| 0 <= i < r@.len() ==> valid_scalar(#[trigger] r@[i]@),
        forall|i: int|
            0 <= i < r@.len() ==> base_times(#[trigger] r@[i]@) == poly_eval(
                coefs@.map_values(|c: Vec<u8>| base_times(c@)),
                scalar_of_index(indices@[i]),
            ),
{
    let coefficients: Vec<Scalar<Ed25519>> = coefs.iter().map(|c| Scalar::from_bytes(c).unwrap()).collect();
    let polynomial = Polynomial::<Ed25519>::from_coefficients(coefficients);
    polynomial.evaluate_many_bigint(indices.iter().copied()).map(|v| v.to_bytes().to_vec()).collect()
}

} // verus!
