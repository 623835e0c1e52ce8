//! Fixed-length wire encodings: 32 bytes for a field element, 48 for a point
//! of the first group, 96 for a point of the second, each the curve's
//! standard (compressed, canonical) form.
use vstd::prelude::*;
use crate::curve::{g1_is_valid, g1_valid, g2_is_valid, g2_valid, G1Point, G2Point};
use crate::field::{from_canonical_bytes, le_value, modulus, Scalar};
use crate::tbs::{AggregatePublicKey, PublicKeyShare, SecretKeyShare, Signature, TbsError};

verus! {

/// What decoding bytes as a field element yields.
pub open spec fn scalar_decoding(b: Seq<u8>) -> Option<Seq<u8>> {
    if b.len() == 32 && le_value(b) < modulus() {
        Some(b)
    } else {
        None
    }
}

/// What decoding bytes as a point of the first group yields.
pub open spec fn g1_decoding(b: Seq<u8>) -> Option<Seq<u8>> {
    if b.len() == 48 && g1_valid(b) {
        Some(b)
    } else {
        None
    }
}

/// What decoding bytes as a point of the second group yields.
pub open spec fn g2_decoding(b: Seq<u8>) -> Option<Seq<u8>> {
    if b.len() == 96 && g2_valid(b) {
        Some(b)
    } else {
        None
    }
}

fn to_vec(b: &[u8]) -> (r: Vec<u8>)
    ensures
        r@ == b@,
{
    let mut r: Vec<u8> = Vec::new();
    let mut i: usize = 0;
    while i < b.len()
        invariant
            i <= b@.len(),
            r@ == b@.subrange(0, i as int),
        decreases b@.len() - i,
    {
        r.push(b[i]);
        i = i + 1;
        proof {
            assert(r@ =~= b@.subrange(0, i as int));
        }
    }
    proof {
        assert(r@ =~= b@);
    }
    r
}

pub fn decode_scalar(b: &[u8]) -> (r: Result<Scalar, TbsError>)
    ensures
        match r {
            Ok(s) => s.wf() && scalar_decoding(b@) == Some(s.bytes@),
            Err(e) => scalar_decoding(b@) is None && e == TbsError::MalformedEncoding,
        },
{
    if b.len() != 32 {
        return Err(TbsError::MalformedEncoding);
    }
    let mut a = [0u8; 32];
    let mut i: usize = 0;
    while i < 32
        invariant
            b@.len() == 32,
            i <= 32,
            forall|k: int| 0 <= k < i ==> a@[k] == b@[k],
        decreases 32 - i,
    {
        a[i] = b[i];
        i = i + 1;
    }
    proof {
        assert(a@ =~= b@);
    }
    match from_canonical_bytes(&a) {
        Some(s) => Ok(s),
        None => Err(TbsError::MalformedEncoding),
    }
}

pub fn decode_g1(b: &[u8]) -> (r: Result<G1Point, TbsError>)
    ensures
        match r {
            Ok(p) => p.wf() && g1_decoding(b@) == Some(p.bytes@),
            Err(e) => g1_decoding(b@) is None && e == TbsError::MalformedEncoding,
        },
{
    if b.len() != 48 {
        return Err(TbsError::MalformedEncoding);
    }
    let mut a = [0u8; 48];
    let mut i: usize = 0;
    while i < 48
        invariant
            b@.len() == 48,
            i <= 48,
            forall|k: int| 0 <= k < i ==> a@[k] == b@[k],
        decreases 48 - i,
    {
        a[i] = b[i];
        i = i + 1;
    }
    proof {
        assert(a@ =~= b@);
    }
    if g1_is_valid(&a) {
        Ok(G1Point { bytes: a })
    } else {
        Err(TbsError::MalformedEncoding)
    }
}

pub fn decode_g2(b: &[u8]) -> (r: Result<G2Point, TbsError>)
    ensures
        match r {
            Ok(p) => p.wf() && g2_decoding(b@) == Some(p.bytes@),
            Err(e) => g2_decoding(b@) is None && e == TbsError::MalformedEncoding,
        },
{
    if b.len() != 96 {
        return Err(TbsError::MalformedEncoding);
    }
    let mut a = [0u8; 96];
    let mut i: usize = 0;
    while i < 96
        invariant
            b@.len() == 96,
            i <= 96,
            forall|k: int| 0 <= k < i ==> a@[k] == b@[k],
        decreases 96 - i,
    {
        a[i] = b[i];
        i = i + 1;
    }
    proof {
        assert(a@ =~= b@);
    }
    if g2_is_valid(&a) {
        Ok(G2Point { bytes: a })
    } else {
        Err(TbsError::MalformedEncoding)
    }
}

impl SecretKeyShare {
    pub fn to_bytes(&self) -> (r: Vec<u8>)
        ensures
            r@ == self.0.bytes@,
    {
        to_vec(&self.0.bytes)
    }

    pub fn from_bytes(b: &[u8]) -> (r: Result<SecretKeyShare, TbsError>)
        ensures
            match r {
                Ok(s) => s.0.wf() && scalar_decoding(b@) == Some(s.0.bytes@),
                Err(e) => scalar_decoding(b@) is None && e == TbsError::MalformedEncoding,
            },
    {
        match decode_scalar(b) {
            Ok(s) => Ok(SecretKeyShare(s)),
            Err(e) => Err(e),
        }
    }
}

impl PublicKeyShare {
    pub fn to_bytes(&self) -> (r: Vec<u8>)
        ensures
            r@ == self.0.bytes@,
    {
        to_vec(&self.0.bytes)
    }

    pub fn from_bytes(b: &[u8]) -> (r: Result<PublicKeyShare, TbsError>)
        ensures
            match r {
                Ok(p) => p.0.wf() && g2_decoding(b@) == Some(p.0.bytes@),
                Err(e) => g2_decoding(b@) is None && e == TbsError::MalformedEncoding,
            },
    {
        match decode_g2(b) {
            Ok(p) => Ok(PublicKeyShare(p)),
            Err(e) => Err(e),
        }
    }
}

impl AggregatePublicKey {
    pub fn to_bytes(&self) -> (r: Vec<u8>)
        ensures
            r@ == self.0.bytes@,
    {
        to_vec(&self.0.bytes)
    }

    pub fn from_bytes(b: &[u8]) -> (r: Result<AggregatePublicKey, TbsError>)
        ensures
            match r {
                Ok(p) => p.0.wf() && g2_decoding(b@) == Some(p.0.bytes@),
                Err(e) => g2_decoding(b@) is None && e == TbsError::MalformedEncoding,
            },
    {
        match decode_g2(b) {
            Ok(p) => Ok(AggregatePublicKey(p)),
            Err(e) => Err(e),
        }
    }
}

impl Signature {
    pub fn to_bytes(&self) -> (r: Vec<u8>)
        ensures
            r@ == self.0.bytes@,
    {
        to_vec(&self.0.bytes)
    }

    pub fn from_bytes(b: &[u8]) -> (r: Result<Signature, TbsError>)
        ensures
            match r {
                Ok(s) => s.0.wf() && g1_decoding(b@) == Some(s.0.bytes@),
                Err(e) => g1_decoding(b@) is None && e == TbsError::MalformedEncoding,
            },
    {
        match decode_g1(b) {
            Ok(p) => Ok(Signature(p)),
            Err(e) => Err(e),
        }
    }
}

/// Decoding the encoding of a valid field element gives it back, and no
/// proper prefix of the encoding decodes.
pub proof fn lemma_scalar_round_trip(s: Scalar)
    requires
        s.wf(),
    ensures
        scalar_decoding(s.bytes@) == Some(s.bytes@),
        forall|n: int| 0 <= n < 32 ==> #[trigger] scalar_decoding(s.bytes@.subrange(0, n)) is None,
{
}

/// Decoding the encoding of a valid point of the first group gives it back,
/// and no proper prefix of the encoding decodes.
pub proof fn lemma_g1_round_trip(p: G1Point)
    requires
        p.wf(),
    ensures
        g1_decoding(p.bytes@) == Some(p.bytes@),
        forall|n: int| 0 <= n < 48 ==> #[trigger] g1_decoding(p.bytes@.subrange(0, n)) is None,
{
}

/// Decoding the encoding of a valid point of the second group gives it back,
/// and no proper prefix of the encoding decodes.
pub proof fn lemma_g2_round_trip(p: G2Point)
    requires
        p.wf(),
    ensures
        g2_decoding(p.bytes@) == Some(p.bytes@),
        forall|n: int| 0 <= n < 96 ==> #[trigger] g2_decoding(p.bytes@.subrange(0, n)) is None,
{
}

} // verus!
