//! Threshold blind signatures: dealer key generation by Shamir sharing,
//! blinding, partial signing, Lagrange aggregation, unblinding and pairing
//! verification.
use vstd::prelude::*;
use crate::curve::{
    g1_add, g1_mul, g1_scale, g1_sum, g2_generator_mul, g2_generator_scale, hash_to_g1,
    hash_to_point, pairing_value, pairings_agree, G1Point, G2Point,
};
use crate::field::{fadd, fmul, fsub, inverse_of, modulus, Scalar};
use crate::field;

verus! {

/// What the operations of this module can fail with.
#[derive(Clone, Copy, Debug, PartialEq, Eq, Structural)]
pub enum TbsError {
    /// A threshold of zero, or fewer shares than the threshold.
    InvalidParameters,
    /// Two shares handed to aggregation carry the same index.
    DuplicateShareIndex,
    /// A share handed to aggregation carries index zero.
    ReservedShareIndex,
    /// A blinding key of zero, which has no inverse.
    NonInvertibleKey,
    /// Bytes of the wrong length, or not an element of the right group or field.
    MalformedEncoding,
}

/// One guardian's share `f(i)` of the secret.
#[derive(Clone, Copy, Debug, PartialEq, Eq)]
pub struct SecretKeyShare(pub Scalar);

/// The public counterpart `g^f(i)` of a secret key share.
#[derive(Clone, Copy, Debug, PartialEq, Eq)]
pub struct PublicKeyShare(pub G2Point);

/// The public counterpart `g^f(0)` of the secret that no one holds.
#[derive(Clone, Copy, Debug, PartialEq, Eq)]
pub struct AggregatePublicKey(pub G2Point);

/// A message, hashed to a point of the first group.
#[derive(Clone, Copy, Debug, PartialEq, Eq)]
pub struct Message(pub G1Point);

/// The secret factor by which a message is blinded.
#[derive(Clone, Copy, Debug, PartialEq, Eq)]
pub struct BlindingKey(pub Scalar);

/// A message raised to a blinding key.
#[derive(Clone, Copy, Debug, PartialEq, Eq)]
pub struct BlindedMessage(pub G1Point);

/// A blinded message raised to one guardian's secret key share.
#[derive(Clone, Copy, Debug, PartialEq, Eq)]
pub struct BlindedSignatureShare(pub G1Point);

/// The Lagrange combination of signature shares, still blinded.
#[derive(Clone, Copy, Debug, PartialEq, Eq)]
pub struct BlindedSignature(pub G1Point);

/// A signature on a message under the aggregate public key.
#[derive(Clone, Copy, Debug, PartialEq, Eq)]
pub struct Signature(pub G1Point);

/// The values of a sequence of field elements.
pub open spec fn scalar_values(s: Seq<Scalar>) -> Seq<nat> {
    s.map_values(|c: Scalar| c.value())
}

/// Every element of `s` is canonical.
pub open spec fn all_wf(s: Seq<Scalar>) -> bool {
    forall|k: int| 0 <= k < s.len() ==> #[trigger] s[k].wf()
}

/// The polynomial with coefficients `cs` (constant term first), evaluated at
/// `x` in the field.
pub open spec fn poly_eval(cs: Seq<nat>, x: nat) -> nat
    decreases cs.len(),
{
    if cs.len() == 0 {
        0
    } else {
        fadd(fmul(poly_eval(cs.drop_first(), x), x), cs[0])
    }
}

/// Evaluates a polynomial by Horner's method.
pub fn eval_polynomial(coefficients: &Vec<Scalar>, x: &Scalar) -> (r: Scalar)
    requires
        all_wf(coefficients@),
        x.wf(),
    ensures
        r.wf(),
        r.value() == poly_eval(scalar_values(coefficients@), x.value()),
{
    let ghost cs = scalar_values(coefficients@);
    let mut acc = field::from_u64(0);
    let mut j: usize = coefficients.len();
    proof {
        assert(cs.subrange(j as int, cs.len() as int).len() == 0);
    }
    while j > 0
        invariant
            j <= coefficients.len(),
            cs == scalar_values(coefficients@),
            all_wf(coefficients@),
            x.wf(),
            acc.wf(),
            acc.value() == poly_eval(cs.subrange(j as int, cs.len() as int), x.value()),
        decreases j,
    {
        let t = field::mul(&acc, x);
        acc = field::add(&t, &coefficients[j - 1]);
        proof {
            let s = cs.subrange(j - 1, cs.len() as int);
            assert(s.drop_first() =~= cs.subrange(j as int, cs.len() as int));
            assert(s[0] == coefficients@[j - 1].value());
        }
        j = j - 1;
    }
    proof {
        assert(cs.subrange(0, cs.len() as int) =~= cs);
    }
    acc
}

/// What dealing from the polynomial `poly` to `keys` guardians yields: the
/// secret share of guardian `i + 1` at position `i`, each public share and
/// the aggregate key the generator raised to the matching value.
pub open spec fn dealt_from(
    poly: Seq<Scalar>,
    keys: nat,
    apk: AggregatePublicKey,
    pks: Seq<PublicKeyShare>,
    sks: Seq<SecretKeyShare>,
) -> bool {
    &&& apk.0.wf()
    &&& apk.0.bytes@ == g2_generator_mul(poly_eval(scalar_values(poly), 0))
    &&& sks.len() == keys
    &&& pks.len() == keys
    &&& forall|i: int|
        0 <= i < keys ==> {
            &&& #[trigger] sks[i].0.wf()
            &&& sks[i].0.value() == poly_eval(scalar_values(poly), (i + 1) as nat)
            &&& pks[i].0.wf()
            &&& pks[i].0.bytes@ == g2_generator_mul(sks[i].0.value())
        }
}

/// Deals key shares to `keys` guardians from the sharing polynomial `poly`.
pub fn dealer_keygen_from_polynomial(poly: &Vec<Scalar>, keys: usize) -> (r: (
    AggregatePublicKey,
    Vec<PublicKeyShare>,
    Vec<SecretKeyShare>,
))
    requires
        all_wf(poly@),
    ensures
        dealt_from(poly@, keys as nat, r.0, r.1@, r.2@),
{
    let zero = field::from_u64(0);
    let apk = AggregatePublicKey(g2_generator_scale(&eval_polynomial(poly, &zero)));
    let mut sks: Vec<SecretKeyShare> = Vec::new();
    let mut pks: Vec<PublicKeyShare> = Vec::new();
    let mut idx: usize = 0;
    while idx < keys
        invariant
            idx <= keys,
            all_wf(poly@),
            sks@.len() == idx,
            pks@.len() == idx,
            forall|i: int|
                0 <= i < idx ==> {
                    &&& #[trigger] sks@[i].0.wf()
                    &&& sks@[i].0.value() == poly_eval(scalar_values(poly@), (i + 1) as nat)
                    &&& pks@[i].0.wf()
                    &&& pks@[i].0.bytes@ == g2_generator_mul(sks@[i].0.value())
                },
        decreases keys - idx,
    {
        let x = field::from_u64(idx as u64 + 1);
        let sk = SecretKeyShare(eval_polynomial(poly, &x));
        let pk = PublicKeyShare(g2_generator_scale(&sk.0));
        sks.push(sk);
        pks.push(pk);
        idx = idx + 1;
    }
    (apk, pks, sks)
}

/// Draws a random polynomial of degree `threshold - 1` and deals key shares
/// from it to `keys` guardians.
pub fn dealer_keygen(threshold: usize, keys: usize) -> (r: Result<
    (AggregatePublicKey, Vec<PublicKeyShare>, Vec<SecretKeyShare>),
    TbsError,
>)
    ensures
        r is Err <==> threshold == 0 || keys < threshold,
        r matches Err(e) ==> e == TbsError::InvalidParameters,
        r matches Ok(d) ==> exists|poly: Seq<Scalar>|
            poly.len() == threshold && all_wf(poly) && dealt_from(poly, keys as nat, d.0, d.1@, d.2@),
{
    if threshold == 0 || keys < threshold {
        return Err(TbsError::InvalidParameters);
    }
    let mut poly: Vec<Scalar> = Vec::new();
    while poly.len() < threshold
        invariant
            poly@.len() <= threshold,
            all_wf(poly@),
        decreases threshold - poly@.len(),
    {
        poly.push(field::random());
    }
    let d = dealer_keygen_from_polynomial(&poly, keys);
    Ok(d)
}

impl Message {
    /// Hashes bytes to a point of the first group.
    pub fn from_bytes(msg: &[u8]) -> (r: Message)
        ensures
            r.0.wf(),
            r.0.bytes@ == hash_to_g1(msg@),
    {
        Message(hash_to_point(msg))
    }
}

impl BlindingKey {
    /// A fresh random key, never zero.
    pub fn random() -> (r: BlindingKey)
        ensures
            r.0.wf(),
            r.0.value() != 0,
    {
        let mut k = field::random();
        let mut tries: u32 = 0;
        while field::is_zero(&k) && tries < 64
            invariant
                k.wf(),
            decreases 64 - tries,
        {
            k = field::random();
            tries = tries + 1;
        }
        if field::is_zero(&k) {
            // Only after 64 draws of zero in a row, which a working random
            // source does not produce.
            k = field::from_u64(1);
        }
        BlindingKey(k)
    }
}

/// Blinds a message: the message point raised to the blinding key.
pub fn blind_message(msg: Message, blinding_key: BlindingKey) -> (r: BlindedMessage)
    requires
        msg.0.wf(),
        blinding_key.0.wf(),
    ensures
        r.0.wf(),
        r.0.bytes@ == g1_mul(msg.0.bytes@, blinding_key.0.value()),
{
    BlindedMessage(g1_scale(&msg.0, &blinding_key.0))
}

/// One guardian's share of the signature: the blinded message raised to its
/// secret key share.
pub fn sign_message(msg: BlindedMessage, sks: SecretKeyShare) -> (r: BlindedSignatureShare)
    requires
        msg.0.wf(),
        sks.0.wf(),
    ensures
        r.0.wf(),
        r.0.bytes@ == g1_mul(msg.0.bytes@, sks.0.value()),
{
    BlindedSignatureShare(g1_scale(&msg.0, &sks.0))
}

/// The factor that index `idx[j]` contributes to the Lagrange coefficient of
/// `idx[i]` at zero: `x_j / (x_j - x_i)`, and one for `j == i`.
pub open spec fn lagrange_factor(idx: Seq<u64>, i: int, j: int) -> nat {
    if j == i {
        1
    } else {
        fmul(idx[j] as nat, inverse_of(fsub(idx[j] as nat, idx[i] as nat)))
    }
}

/// The product of the first `m` factors of the coefficient of `idx[i]`.
pub open spec fn lagrange_prefix(idx: Seq<u64>, i: int, m: int) -> nat
    decreases m,
{
    if m <= 0 {
        1
    } else {
        fmul(lagrange_prefix(idx, i, m - 1), lagrange_factor(idx, i, m - 1))
    }
}

/// The Lagrange basis coefficient of `idx[i]` evaluated at zero.
pub open spec fn lagrange_at_zero(idx: Seq<u64>, i: int) -> nat {
    lagrange_prefix(idx, i, idx.len() as int)
}

/// No index occurs twice.
pub open spec fn distinct(idx: Seq<u64>) -> bool {
    forall|a: int, b: int| 0 <= a < idx.len() && 0 <= b < idx.len() && a != b ==> idx[a] != idx[b]
}

/// Distinct numbers below 2^64 differ in the field.
proof fn lemma_fsub_nonzero(a: u64, b: u64)
    requires
        a != b,
    ensures
        fsub(a as nat, b as nat) != 0,
{
    let q = modulus() as int;
    assert(q > 0x1_0000_0000_0000_0000);
    let d = a as int - b as int;
    if d > 0 {
        vstd::arithmetic::div_mod::lemma_small_mod(d as nat, q as nat);
    } else {
        vstd::arithmetic::div_mod::lemma_mod_add_multiples_vanish(d, q);
        vstd::arithmetic::div_mod::lemma_small_mod((d + q) as nat, q as nat);
    }
}

/// Computes the Lagrange coefficient at zero of the `i`-th of `idx`.
pub fn lagrange_coefficient(idx: &Vec<u64>, i: usize) -> (r: Scalar)
    requires
        i < idx@.len(),
        distinct(idx@),
    ensures
        r.wf(),
        r.value() == lagrange_at_zero(idx@, i as int),
{
    let xi = field::from_u64(idx[i]);
    let mut acc = field::from_u64(1);
    let mut m: usize = 0;
    while m < idx.len()
        invariant
            i < idx@.len(),
            m <= idx@.len(),
            distinct(idx@),
            xi.wf(),
            xi.value() == idx@[i as int],
            acc.wf(),
            acc.value() == lagrange_prefix(idx@, i as int, m as int),
        decreases idx@.len() - m,
    {
        if m != i {
            let xj = field::from_u64(idx[m]);
            let d = field::sub(&xj, &xi);
            proof {
                lemma_fsub_nonzero(idx@[m as int], idx@[i as int]);
            }
            match field::invert(&d) {
                Some(inv) => {
                    let f = field::mul(&xj, &inv);
                    let ghost prev = acc.value();
                    acc = field::mul(&acc, &f);
                    proof {
                        assert(f.value() == lagrange_factor(idx@, i as int, m as int));
                        assert(acc.value() == fmul(prev, lagrange_factor(idx@, i as int, m as int)));
                        assert(lagrange_prefix(idx@, i as int, m + 1) == fmul(
                            lagrange_prefix(idx@, i as int, m as int),
                            lagrange_factor(idx@, i as int, m as int),
                        ));
                    }
                },
                None => {
                    assert(false);
                },
            }
        } else {
            proof {
                vstd::arithmetic::div_mod::lemma_small_mod(acc.value(), modulus());
                assert(acc.value() * 1 == acc.value());
                assert(lagrange_prefix(idx@, i as int, m + 1) == fmul(acc.value(), 1));
            }
        }
        m = m + 1;
    }
    acc
}

/// The indices of a set of shares, in order.
pub open spec fn share_indices(shares: Seq<(u64, BlindedSignatureShare)>) -> Seq<u64> {
    shares.map_values(|e: (u64, BlindedSignatureShare)| e.0)
}

/// Some share carries index zero.
pub open spec fn has_zero_index(shares: Seq<(u64, BlindedSignatureShare)>) -> bool {
    exists|k: int| 0 <= k < shares.len() && shares[k].0 == 0
}

/// The `k`-th share weighted by its Lagrange coefficient.
pub open spec fn weighted_share(shares: Seq<(u64, BlindedSignatureShare)>, k: int) -> Seq<u8> {
    g1_mul(shares[k].1.0.bytes@, lagrange_at_zero(share_indices(shares), k))
}

/// The sum of the first `m` weighted shares (at least one).
pub open spec fn combined_prefix(shares: Seq<(u64, BlindedSignatureShare)>, m: int) -> Seq<u8>
    decreases m,
{
    if m <= 1 {
        weighted_share(shares, 0)
    } else {
        g1_add(combined_prefix(shares, m - 1), weighted_share(shares, m - 1))
    }
}

/// `Σ λ_i · share_i` over all the shares.
pub open spec fn combined(shares: Seq<(u64, BlindedSignatureShare)>) -> Seq<u8> {
    combined_prefix(shares, shares.len() as int)
}

/// Combines signature shares, each tagged with its guardian's index, into the
/// blinded signature by Lagrange interpolation at zero. Whether enough shares
/// are given is the caller's concern: fewer than the threshold give a value
/// that does not verify.
pub fn aggregate_signature_shares(shares: &Vec<(u64, BlindedSignatureShare)>) -> (r: Result<
    BlindedSignature,
    TbsError,
>)
    requires
        shares@.len() > 0,
        forall|k: int| 0 <= k < shares@.len() ==> #[trigger] shares@[k].1.0.wf(),
    ensures
        has_zero_index(shares@) ==> r == Err::<BlindedSignature, TbsError>(
            TbsError::ReservedShareIndex,
        ),
        !has_zero_index(shares@) && !distinct(share_indices(shares@)) ==> r == Err::<
            BlindedSignature,
            TbsError,
        >(TbsError::DuplicateShareIndex),
        !has_zero_index(shares@) && distinct(share_indices(shares@)) ==> (r matches Ok(s) && s.0.wf()
            && s.0.bytes@ == combined(shares@)),
{
    let mut idx: Vec<u64> = Vec::new();
    let mut k: usize = 0;
    while k < shares.len()
        invariant
            k <= shares@.len(),
            idx@ == share_indices(shares@).subrange(0, k as int),
            forall|a: int| 0 <= a < k ==> shares@[a].0 != 0,
        decreases shares@.len() - k,
    {
        if shares[k].0 == 0 {
            return Err(TbsError::ReservedShareIndex);
        }
        idx.push(shares[k].0);
        k = k + 1;
        proof {
            assert(idx@ =~= share_indices(shares@).subrange(0, k as int));
        }
    }
    proof {
        assert(idx@ =~= share_indices(shares@));
        assert(!has_zero_index(shares@));
    }
    let mut a: usize = 0;
    while a < idx.len()
        invariant
            !has_zero_index(shares@),
            idx@ == share_indices(shares@),
            a <= idx@.len(),
            forall|x: int, y: int| 0 <= x < a && 0 <= y < idx@.len() && x != y ==> idx@[x] != idx@[y],
        decreases idx@.len() - a,
    {
        let mut b: usize = 0;
        while b < idx.len()
            invariant
                !has_zero_index(shares@),
                idx@ == share_indices(shares@),
                a < idx@.len(),
                b <= idx@.len(),
                forall|x: int, y: int| 0 <= x < a && 0 <= y < idx@.len() && x != y ==> idx@[x] != idx@[y],
                forall|y: int| 0 <= y < b && a != y ==> idx@[a as int] != idx@[y],
            decreases idx@.len() - b,
        {
            if a != b && idx[a] == idx[b] {
                return Err(TbsError::DuplicateShareIndex);
            }
            b = b + 1;
        }
        a = a + 1;
    }
    let lambda = lagrange_coefficient(&idx, 0);
    let mut acc = g1_scale(&shares[0].1.0, &lambda);
    let mut m: usize = 1;
    while m < shares.len()
        invariant
            idx@ == share_indices(shares@),
            distinct(idx@),
            1 <= m <= shares@.len(),
            forall|k: int| 0 <= k < shares@.len() ==> #[trigger] shares@[k].1.0.wf(),
            acc.wf(),
            acc.bytes@ == combined_prefix(shares@, m as int),
        decreases shares@.len() - m,
    {
        let lambda = lagrange_coefficient(&idx, m);
        let term = g1_scale(&shares[m].1.0, &lambda);
        acc = g1_sum(&acc, &term);
        m = m + 1;
    }
    Ok(BlindedSignature(acc))
}

/// Removes the blinding: the blinded signature raised to the inverse of the
/// blinding key.
pub fn unblind_signature(blinding_key: BlindingKey, blinded_sig: BlindedSignature) -> (r: Result<
    Signature,
    TbsError,
>)
    requires
        blinding_key.0.wf(),
        blinded_sig.0.wf(),
    ensures
        r is Err <==> blinding_key.0.value() == 0,
        r matches Err(e) ==> e == TbsError::NonInvertibleKey,
        r matches Ok(s) ==> s.0.wf() && s.0.bytes@ == g1_mul(
            blinded_sig.0.bytes@,
            inverse_of(blinding_key.0.value()),
        ),
{
    match field::invert(&blinding_key.0) {
        Some(inv) => Ok(Signature(g1_scale(&blinded_sig.0, &inv))),
        None => Err(TbsError::NonInvertibleKey),
    }
}

/// Whether `e(sig, g) == e(H(msg), apk)`, with `g` the generator of the
/// second group.
pub fn verify(msg: Message, sig: Signature, pk: AggregatePublicKey) -> (r: bool)
    requires
        msg.0.wf(),
        sig.0.wf(),
        pk.0.wf(),
    ensures
        r == (pairing_value(sig.0.bytes@, g2_generator_mul(1)) == pairing_value(
            msg.0.bytes@,
            pk.0.bytes@,
        )),
{
    let one = field::from_u64(1);
    let g = g2_generator_scale(&one);
    pairings_agree(&sig.0, &g, &msg.0, &pk.0)
}

} // verus!
