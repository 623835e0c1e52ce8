//! The scalar field of BLS12-381, held as canonical little-endian bytes.
//! The arithmetic itself is done by the `bls12_381` crate.
use vstd::prelude::*;

verus! {

/// The order of the BLS12-381 scalar field.
pub open spec fn modulus() -> nat {
    let hi: nat = 0x73eda753_299d7d48_3339d808_09a1d805;
    let lo: nat = 0x53bda402_fffe5bfe_ffffffff_00000001;
    hi * 0x1_0000_0000_0000_0000 * 0x1_0000_0000_0000_0000 + lo
}

/// The number that little-endian bytes `s` denote.
pub open spec fn le_value(s: Seq<u8>) -> nat
    decreases s.len(),
{
    if s.len() == 0 {
        0
    } else {
        s[0] as nat + 256 * le_value(s.drop_first())
    }
}

pub open spec fn fadd(a: nat, b: nat) -> nat {
    (a + b) % modulus()
}

pub open spec fn fmul(a: nat, b: nat) -> nat {
    (a * b) % modulus()
}

pub open spec fn fsub(a: nat, b: nat) -> nat {
    ((a - b) % (modulus() as int)) as nat
}

/// The multiplicative inverse that the field library computes.
pub uninterp spec fn inverse_of(a: nat) -> nat;

/// An element of the scalar field.
#[derive(Clone, Copy, Debug, PartialEq, Eq)]
pub struct Scalar {
    pub bytes: [u8; 32],
}

impl Scalar {
    pub open spec fn value(&self) -> nat {
        le_value(self.bytes@)
    }

    /// The encoding is canonical: it denotes a number below the modulus.
    pub open spec fn wf(&self) -> bool {
        self.value() < modulus()
    }
}

/// Relies on `bls12_381::Scalar::from_bytes`: it accepts exactly the
/// canonical encodings, and `to_bytes` gives the same bytes back.
#[verifier::external_body]
pub fn from_canonical_bytes(b: &[u8; 32]) -> (r: Option<Scalar>)
    ensures
        r is Some <==> le_value(b@) < modulus(),
        r matches Some(s) ==> s.bytes@ == b@,
{
    Option::<bls12_381::Scalar>::from(bls12_381::Scalar::from_bytes(b)).map(|s| Scalar { bytes: s.to_bytes() })
}

/// Relies on `From<u64> for bls12_381::Scalar`: the field element `n`.
#[verifier::external_body]
pub fn from_u64(n: u64) -> (r: Scalar)
    ensures
        r.wf(),
        r.value() == n,
{
    Scalar { bytes: bls12_381::Scalar::from(n).to_bytes() }
}

/// Relies on `bls12_381::Scalar` addition, modulo the field order.
#[verifier::external_body]
pub fn add(a: &Scalar, b: &Scalar) -> (r: Scalar)
    requires
        a.wf(),
        b.wf(),
    ensures
        r.wf(),
        r.value() == fadd(a.value(), b.value()),
{
    let x = bls12_381::Scalar::from_bytes(&a.bytes).unwrap();
    let y = bls12_381::Scalar::from_bytes(&b.bytes).unwrap();
    Scalar { bytes: (x + y).to_bytes() }
}

/// Relies on `bls12_381::Scalar` subtraction, modulo the field order.
#[verifier::external_body]
pub fn sub(a: &Scalar, b: &Scalar) -> (r: Scalar)
    requires
        a.wf(),
        b.wf(),
    ensures
        r.wf(),
        r.value() == fsub(a.value(), b.value()),
{
    let x = bls12_381::Scalar::from_bytes(&a.bytes).unwrap();
    let y = bls12_381::Scalar::from_bytes(&b.bytes).unwrap();
    Scalar { bytes: (x - y).to_bytes() }
}

/// Relies on `bls12_381::Scalar` multiplication, modulo the field order.
#[verifier::external_body]
pub fn mul(a: &Scalar, b: &Scalar) -> (r: Scalar)
    requires
        a.wf(),
        b.wf(),
    ensures
        r.wf(),
        r.value() == fmul(a.value(), b.value()),
{
    let x = bls12_381::Scalar::from_bytes(&a.bytes).unwrap();
    let y = bls12_381::Scalar::from_bytes(&b.bytes).unwrap();
    Scalar { bytes: (x * y).to_bytes() }
}

/// Relies on `bls12_381::Scalar::invert`: no inverse for zero, otherwise the
/// element whose product with `a` is one.
#[verifier::external_body]
pub fn invert(a: &Scalar) -> (r: Option<Scalar>)
    requires
        a.wf(),
    ensures
        r is Some <==> a.value() != 0,
        r matches Some(i) ==> i.wf() && i.value() == inverse_of(a.value()) && fmul(i.value(), a.value()) == 1,
{
    let x = bls12_381::Scalar::from_bytes(&a.bytes).unwrap();
    Option::<bls12_381::Scalar>::from(x.invert()).map(|i| Scalar { bytes: i.to_bytes() })
}

/// Relies on `ff::Field::random` for `bls12_381::Scalar`, drawn from the
/// operating system's CSPRNG: some element of the field.
#[verifier::external_body]
pub fn random() -> (r: Scalar)
    ensures
        r.wf(),
{
    Scalar { bytes: <bls12_381::Scalar as ff::Field>::random(rand::rngs::OsRng).to_bytes() }
}

/// Whether all the bytes are zero, that is whether the element is zero.
pub fn is_zero(a: &Scalar) -> (r: bool)
    ensures
        r == (a.value() == 0),
{
    let mut i: usize = 32;
    while i > 0
        invariant
            i <= 32,
            forall|k: int| i <= k < 32 ==> a.bytes@[k] == 0,
        decreases i,
    {
        if a.bytes[i - 1] != 0 {
            proof {
                lemma_le_value_zero(a.bytes@);
            }
            return false;
        }
        i = i - 1;
    }
    proof {
        lemma_le_value_zero(a.bytes@);
    }
    true
}

/// Bytes denote zero exactly when every byte is zero.
proof fn lemma_le_value_zero(s: Seq<u8>)
    ensures
        (le_value(s) == 0) == (forall|k: int| 0 <= k < s.len() ==> s[k] == 0),
    decreases s.len(),
{
    if s.len() > 0 {
        lemma_le_value_zero(s.drop_first());
        if forall|k: int| 0 <= k < s.len() ==> s[k] == 0 {
            assert forall|k: int| 0 <= k < s.drop_first().len() implies s.drop_first()[k] == 0 by {
                assert(s[k + 1] == 0);
            }
        }
        if le_value(s) == 0 {
            assert forall|k: int| 0 <= k < s.len() implies s[k] == 0 by {
                if k > 0 {
                    assert(s.drop_first()[k - 1] == s[k]);
                }
            }
        }
    }
}

} // verus!
