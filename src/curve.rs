//! Points of the two BLS12-381 groups, held in their standard compressed
//! encoding, and the group operations that the `bls12_381` crate performs.
use vstd::prelude::*;
use crate::field::Scalar;
use bls12_381::hash_to_curve::HashToCurve;

verus! {

/// Whether 48 bytes are the compressed encoding of a point of the first group.
pub uninterp spec fn g1_valid(b: Seq<u8>) -> bool;

/// Whether 96 bytes are the compressed encoding of a point of the second group.
pub uninterp spec fn g2_valid(b: Seq<u8>) -> bool;

/// The point that a message hashes to, encoded.
pub uninterp spec fn hash_to_g1(m: Seq<u8>) -> Seq<u8>;

/// The encoded point `p` scaled by the field element `k`.
pub uninterp spec fn g1_mul(p: Seq<u8>, k: nat) -> Seq<u8>;

/// The sum of two encoded points.
pub uninterp spec fn g1_add(p: Seq<u8>, q: Seq<u8>) -> Seq<u8>;

/// The generator of the second group scaled by the field element `k`, encoded.
pub uninterp spec fn g2_generator_mul(k: nat) -> Seq<u8>;

/// The pairing of an encoded point of each group.
pub uninterp spec fn pairing_value(p: Seq<u8>, q: Seq<u8>) -> int;

/// A point of the first group.
#[derive(Clone, Copy, Debug, PartialEq, Eq)]
pub struct G1Point {
    pub bytes: [u8; 48],
}

/// A point of the second group.
#[derive(Clone, Copy, Debug, PartialEq, Eq)]
pub struct G2Point {
    pub bytes: [u8; 96],
}

impl G1Point {
    pub open spec fn wf(&self) -> bool {
        g1_valid(self.bytes@)
    }
}

impl G2Point {
    pub open spec fn wf(&self) -> bool {
        g2_valid(self.bytes@)
    }
}

/// Relies on `bls12_381::G1Affine::from_compressed`, which accepts exactly the
/// encodings of points of the prime-order subgroup.
#[verifier::external_body]
pub fn g1_is_valid(b: &[u8; 48]) -> (r: bool)
    ensures
        r == g1_valid(b@),
{
    bool::from(bls12_381::G1Affine::from_compressed(b).is_some())
}

/// Relies on `bls12_381::G2Affine::from_compressed`, which accepts exactly the
/// encodings of points of the prime-order subgroup.
#[verifier::external_body]
pub fn g2_is_valid(b: &[u8; 96]) -> (r: bool)
    ensures
        r == g2_valid(b@),
{
    bool::from(bls12_381::G2Affine::from_compressed(b).is_some())
}

/// Relies on `HashToCurve::hash_to_curve` for `bls12_381::G1Projective`
/// (expand_message_xmd with SHA-256, under this library's domain separation
/// tag): the same bytes give the same point.
#[verifier::external_body]
pub fn hash_to_point(m: &[u8]) -> (r: G1Point)
    ensures
        r.wf(),
        r.bytes@ == hash_to_g1(m@),
{
    let p = <bls12_381::G1Projective as HashToCurve<
        bls12_381::hash_to_curve::ExpandMsgXmd<sha2::Sha256>,
    >>::hash_to_curve(m, b"FEDIMINT-TBS-BLS12381G1_XMD:SHA-256_SSWU_RO_");
    G1Point { bytes: bls12_381::G1Affine::from(p).to_compressed() }
}

/// Relies on the scalar multiplication of `bls12_381::G1Affine`.
#[verifier::external_body]
pub fn g1_scale(p: &G1Point, k: &Scalar) -> (r: G1Point)
    requires
        p.wf(),
        k.wf(),
    ensures
        r.wf(),
        r.bytes@ == g1_mul(p.bytes@, k.value()),
{
    let a = bls12_381::G1Affine::from_compressed(&p.bytes).unwrap();
    let s = bls12_381::Scalar::from_bytes(&k.bytes).unwrap();
    G1Point { bytes: bls12_381::G1Affine::from(a * s).to_compressed() }
}

/// Relies on the addition of `bls12_381::G1Projective`.
#[verifier::external_body]
pub fn g1_sum(p: &G1Point, q: &G1Point) -> (r: G1Point)
    requires
        p.wf(),
        q.wf(),
    ensures
        r.wf(),
        r.bytes@ == g1_add(p.bytes@, q.bytes@),
{
    let a = bls12_381::G1Projective::from(bls12_381::G1Affine::from_compressed(&p.bytes).unwrap());
    let b = bls12_381::G1Affine::from_compressed(&q.bytes).unwrap();
    G1Point { bytes: bls12_381::G1Affine::from(a + b).to_compressed() }
}

/// Relies on `bls12_381::G2Projective::generator` and its scalar multiplication.
#[verifier::external_body]
pub fn g2_generator_scale(k: &Scalar) -> (r: G2Point)
    requires
        k.wf(),
    ensures
        r.wf(),
        r.bytes@ == g2_generator_mul(k.value()),
{
    let s = bls12_381::Scalar::from_bytes(&k.bytes).unwrap();
    G2Point { bytes: bls12_381::G2Affine::from(bls12_381::G2Projective::generator() * s).to_compressed() }
}

/// Relies on `bls12_381::pairing` and equality of its results.
#[verifier::external_body]
pub fn pairings_agree(a: &G1Point, b: &G2Point, c: &G1Point, d: &G2Point) -> (r: bool)
    requires
        a.wf(),
        b.wf(),
        c.wf(),
        d.wf(),
    ensures
        r == (pairing_value(a.bytes@, b.bytes@) == pairing_value(c.bytes@, d.bytes@)),
{
    let a = bls12_381::G1Affine::from_compressed(&a.bytes).unwrap();
    let b = bls12_381::G2Affine::from_compressed(&b.bytes).unwrap();
    let c = bls12_381::G1Affine::from_compressed(&c.bytes).unwrap();
    let d = bls12_381::G2Affine::from_compressed(&d.bytes).unwrap();
    bls12_381::pairing(&a, &b) == bls12_381::pairing(&c, &d)
}

} // verus!
