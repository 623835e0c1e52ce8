use fedimint_tbs::field::{self, Scalar};
use fedimint_tbs::tbs::{
    aggregate_signature_shares, blind_message, dealer_keygen, dealer_keygen_from_polynomial,
    eval_polynomial, lagrange_coefficient, sign_message, unblind_signature, verify,
    AggregatePublicKey, BlindedSignature, BlindedSignatureShare, BlindingKey, Message,
    PublicKeyShare, SecretKeyShare, Signature, TbsError,
};

fn scalar(n: u64) -> Scalar {
    field::from_u64(n)
}

fn signed(
    msg: &[u8],
    indices: &[u64],
    threshold: usize,
    keys: usize,
) -> (Message, BlindingKey, AggregatePublicKey, Vec<SecretKeyShare>, BlindedSignature) {
    let m = Message::from_bytes(msg);
    let bkey = BlindingKey::random();
    let bmsg = blind_message(m, bkey);
    let (apk, _pks, sks) = dealer_keygen(threshold, keys).unwrap();
    let shares: Vec<(u64, BlindedSignatureShare)> = indices
        .iter()
        .map(|&i| (i, sign_message(bmsg, sks[(i - 1) as usize])))
        .collect();
    let bsig = aggregate_signature_shares(&shares).unwrap();
    (m, bkey, apk, sks, bsig)
}

#[test]
fn scenario_threshold_shares_verify() {
    let (m, bkey, apk, _sks, bsig) = signed(b"Hello World!", &[1, 2, 3, 4], 4, 5);
    let sig = unblind_signature(bkey, bsig).unwrap();
    assert!(verify(m, sig, apk));
}

#[test]
fn scenario_below_threshold_does_not_verify() {
    let (m, bkey, apk, _sks, bsig) = signed(b"Hello World!", &[1, 2, 3], 4, 5);
    let sig = unblind_signature(bkey, bsig).unwrap();
    assert!(!verify(m, sig, apk));
}

#[test]
fn scenario_decoded_signature_verifies() {
    let (m, bkey, apk, _sks, bsig) = signed(b"Hello World!", &[1, 2, 3, 4], 4, 5);
    let sig = unblind_signature(bkey, bsig).unwrap();
    let bytes = sig.to_bytes();
    assert_eq!(bytes.len(), 48);
    let decoded = Signature::from_bytes(&bytes).unwrap();
    assert_eq!(decoded, sig);
    assert_eq!(verify(m, decoded, apk), verify(m, sig, apk));
    assert!(verify(m, decoded, apk));
}

#[test]
fn any_threshold_subset_gives_the_same_signature() {
    let m = Message::from_bytes(b"subset");
    let (apk, _pks, sks) = dealer_keygen(3, 5).unwrap();
    let mut sigs = Vec::new();
    for subset in [[1u64, 2, 3], [2, 4, 5], [1, 3, 5]] {
        let bkey = BlindingKey::random();
        let bmsg = blind_message(m, bkey);
        let shares: Vec<(u64, BlindedSignatureShare)> = subset
            .iter()
            .map(|&i| (i, sign_message(bmsg, sks[(i - 1) as usize])))
            .collect();
        let sig = unblind_signature(bkey, aggregate_signature_shares(&shares).unwrap()).unwrap();
        assert!(verify(m, sig, apk));
        sigs.push(sig);
    }
    assert_eq!(sigs[0], sigs[1]);
    assert_eq!(sigs[1], sigs[2]);
}

#[test]
fn more_than_threshold_shares_verify() {
    let (m, bkey, apk, _sks, bsig) = signed(b"all five", &[1, 2, 3, 4, 5], 4, 5);
    let sig = unblind_signature(bkey, bsig).unwrap();
    assert!(verify(m, sig, apk));
}

#[test]
fn threshold_one_single_share_verifies() {
    let (m, bkey, apk, _sks, bsig) = signed(b"one", &[1], 1, 1);
    assert!(verify(m, unblind_signature(bkey, bsig).unwrap(), apk));
}

#[test]
fn altered_message_does_not_verify() {
    let (_m, bkey, apk, _sks, bsig) = signed(b"Hello World!", &[1, 2, 3, 4], 4, 5);
    let sig = unblind_signature(bkey, bsig).unwrap();
    assert!(!verify(Message::from_bytes(b"Hello World?"), sig, apk));
}

#[test]
fn unrelated_public_key_does_not_verify() {
    let (m, bkey, _apk, _sks, bsig) = signed(b"Hello World!", &[1, 2, 3, 4], 4, 5);
    let sig = unblind_signature(bkey, bsig).unwrap();
    let (other, _pks, _sks) = dealer_keygen(4, 5).unwrap();
    assert!(!verify(m, sig, other));
}

#[test]
fn still_blinded_signature_does_not_verify() {
    let (m, _bkey, apk, _sks, bsig) = signed(b"Hello World!", &[1, 2, 3, 4], 4, 5);
    assert!(!verify(m, Signature(bsig.0), apk));
}

#[test]
fn message_hashing_is_deterministic() {
    assert_eq!(Message::from_bytes(b"abc"), Message::from_bytes(b"abc"));
    assert_ne!(Message::from_bytes(b"abc"), Message::from_bytes(b"abd"));
}

#[test]
fn keygen_rejects_zero_threshold() {
    assert_eq!(dealer_keygen(0, 3).err(), Some(TbsError::InvalidParameters));
}

#[test]
fn keygen_rejects_fewer_keys_than_threshold() {
    assert_eq!(dealer_keygen(4, 3).err(), Some(TbsError::InvalidParameters));
}

#[test]
fn keygen_shares_evaluate_the_polynomial() {
    // f(x) = 3 + 2x + x^2
    let poly = vec![scalar(3), scalar(2), scalar(1)];
    let (apk, pks, sks) = dealer_keygen_from_polynomial(&poly, 3);
    assert_eq!(sks.len(), 3);
    assert_eq!(pks.len(), 3);
    assert_eq!(sks[0].0, scalar(6));
    assert_eq!(sks[1].0, scalar(11));
    assert_eq!(sks[2].0, scalar(18));
    let (apk2, pks2, _) = dealer_keygen_from_polynomial(&vec![scalar(6), scalar(0), scalar(0)], 1);
    assert_eq!(pks[0], pks2[0]);
    assert_ne!(apk, apk2);
    let (apk3, _, _) = dealer_keygen_from_polynomial(&vec![scalar(3)], 1);
    assert_eq!(apk, apk3);
}

#[test]
fn public_shares_match_secret_shares() {
    let (_apk, pks, sks) = dealer_keygen(2, 3).unwrap();
    for (pk, sk) in pks.iter().zip(sks.iter()) {
        let (_, single, _) = dealer_keygen_from_polynomial(&vec![sk.0], 1);
        assert_eq!(single[0], *pk);
    }
}

#[test]
fn eval_polynomial_by_horner() {
    let poly = vec![scalar(1), scalar(2), scalar(3)];
    assert_eq!(eval_polynomial(&poly, &scalar(0)), scalar(1));
    assert_eq!(eval_polynomial(&poly, &scalar(2)), scalar(17));
    assert_eq!(eval_polynomial(&vec![], &scalar(7)), scalar(0));
}

#[test]
fn lagrange_coefficients_at_zero() {
    let idx = vec![1u64, 2];
    assert_eq!(lagrange_coefficient(&idx, 0), scalar(2));
    let minus_one = field::sub(&scalar(0), &scalar(1));
    assert_eq!(lagrange_coefficient(&idx, 1), minus_one);
    let idx = vec![1u64, 2, 3];
    assert_eq!(lagrange_coefficient(&idx, 0), scalar(3));
    assert_eq!(lagrange_coefficient(&idx, 1), field::sub(&scalar(0), &scalar(3)));
    assert_eq!(lagrange_coefficient(&idx, 2), scalar(1));
}

#[test]
fn aggregate_rejects_index_zero() {
    let bmsg = blind_message(Message::from_bytes(b"m"), BlindingKey::random());
    let (_apk, _pks, sks) = dealer_keygen(2, 2).unwrap();
    let shares = vec![(0u64, sign_message(bmsg, sks[0])), (1, sign_message(bmsg, sks[1]))];
    assert_eq!(aggregate_signature_shares(&shares).err(), Some(TbsError::ReservedShareIndex));
}

#[test]
fn aggregate_rejects_duplicate_index() {
    let bmsg = blind_message(Message::from_bytes(b"m"), BlindingKey::random());
    let (_apk, _pks, sks) = dealer_keygen(2, 2).unwrap();
    let shares = vec![(2u64, sign_message(bmsg, sks[0])), (2, sign_message(bmsg, sks[1]))];
    assert_eq!(aggregate_signature_shares(&shares).err(), Some(TbsError::DuplicateShareIndex));
}

#[test]
fn unblind_rejects_zero_key() {
    let (_m, _bkey, _apk, _sks, bsig) = signed(b"m", &[1, 2], 2, 2);
    assert_eq!(
        unblind_signature(BlindingKey(scalar(0)), bsig).err(),
        Some(TbsError::NonInvertibleKey)
    );
}

#[test]
fn blinding_key_is_never_zero() {
    for _ in 0..16 {
        assert!(!field::is_zero(&BlindingKey::random().0));
    }
}

#[test]
fn key_encodings_round_trip() {
    let (apk, pks, sks) = dealer_keygen(2, 3).unwrap();
    let b = apk.to_bytes();
    assert_eq!(b.len(), 96);
    assert_eq!(AggregatePublicKey::from_bytes(&b).unwrap(), apk);
    for pk in &pks {
        assert_eq!(PublicKeyShare::from_bytes(&pk.to_bytes()).unwrap(), *pk);
    }
    for sk in &sks {
        let b = sk.to_bytes();
        assert_eq!(b.len(), 32);
        assert_eq!(SecretKeyShare::from_bytes(&b).unwrap(), *sk);
    }
}

#[test]
fn truncated_encodings_are_rejected() {
    let (m, bkey, apk, sks, bsig) = signed(b"m", &[1, 2], 2, 2);
    let sig = unblind_signature(bkey, bsig).unwrap();
    assert!(verify(m, sig, apk));
    let b = sig.to_bytes();
    assert_eq!(Signature::from_bytes(&b[..47]).err(), Some(TbsError::MalformedEncoding));
    let b = apk.to_bytes();
    assert_eq!(AggregatePublicKey::from_bytes(&b[..95]).err(), Some(TbsError::MalformedEncoding));
    let b = sks[0].to_bytes();
    assert_eq!(SecretKeyShare::from_bytes(&b[..31]).err(), Some(TbsError::MalformedEncoding));
    assert_eq!(Signature::from_bytes(&[]).err(), Some(TbsError::MalformedEncoding));
}

#[test]
fn corrupted_encodings_are_rejected() {
    // A scalar at or above the field order is not canonical.
    assert_eq!(SecretKeyShare::from_bytes(&[0xff; 32]).err(), Some(TbsError::MalformedEncoding));
    // Bytes without the compression flag are no compressed point.
    assert_eq!(Signature::from_bytes(&[0u8; 48]).err(), Some(TbsError::MalformedEncoding));
    assert_eq!(AggregatePublicKey::from_bytes(&[0u8; 96]).err(), Some(TbsError::MalformedEncoding));
    // A flipped bit in an x-coordinate leaves the curve or the subgroup.
    let (m, bkey, apk, _sks, bsig) = signed(b"m", &[1, 2], 2, 2);
    let sig = unblind_signature(bkey, bsig).unwrap();
    let mut b = sig.to_bytes();
    b[47] ^= 1;
    match Signature::from_bytes(&b) {
        Err(e) => assert_eq!(e, TbsError::MalformedEncoding),
        Ok(other) => assert!(!verify(m, other, apk)),
    }
}

#[test]
fn field_operations() {
    assert_eq!(field::add(&scalar(2), &scalar(3)), scalar(5));
    assert_eq!(field::mul(&scalar(2), &scalar(3)), scalar(6));
    assert_eq!(field::sub(&scalar(7), &scalar(3)), scalar(4));
    let inv = field::invert(&scalar(4)).unwrap();
    assert_eq!(field::mul(&inv, &scalar(4)), scalar(1));
    assert!(field::invert(&scalar(0)).is_none());
    assert_eq!(scalar(258).bytes[0], 2);
    assert_eq!(scalar(258).bytes[1], 1);
    assert!(field::is_zero(&scalar(0)));
    assert!(!field::is_zero(&scalar(1)));
}

#[test]
fn any_threshold_shares_reconstruct_the_aggregate_key() {
    let (apk, _pks, sks) = dealer_keygen(3, 5).unwrap();
    for subset in [[1u64, 2, 3], [3, 4, 5], [1, 2, 5]] {
        let idx = subset.to_vec();
        let mut secret = scalar(0);
        for (k, &i) in idx.iter().enumerate() {
            let term = field::mul(&lagrange_coefficient(&idx, k), &sks[(i - 1) as usize].0);
            secret = field::add(&secret, &term);
        }
        let (reconstructed, _, _) = dealer_keygen_from_polynomial(&vec![secret], 0);
        assert_eq!(reconstructed, apk);
    }
}
