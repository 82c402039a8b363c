use attestors::error::AttestorError;
use bls12_381::hash_to_curve::{ExpandMsgXmd, HashToCurve};
use attestors::threshold::{
    KeyShare, PartialSignature, ThresholdPublicKey, ThresholdScheme, ThresholdSignature,
};

fn scalar(value: u64) -> Vec<u8> {
    let mut bytes = vec![0u8; 32];
    bytes[..8].copy_from_slice(&value.to_le_bytes());
    bytes
}

fn scheme(threshold: usize, total: usize, id: &str) -> ThresholdScheme {
    ThresholdScheme::with_scheme_id(threshold, total, id.to_string()).unwrap()
}

fn sign_all(s: &ThresholdScheme, message: &[u8], shares: &[KeyShare]) -> Vec<PartialSignature> {
    shares.iter().map(|share| s.partial_sign(message, share).unwrap()).collect()
}

fn pick(partials: &[PartialSignature], which: &[usize]) -> Vec<PartialSignature> {
    which.iter().map(|&i| partials[i].clone()).collect()
}

#[test]
fn new_scheme_rejects_zero_threshold() {
    assert!(matches!(ThresholdScheme::new(0, 3), Err(AttestorError::InvalidConfig)));
}

#[test]
fn new_scheme_rejects_threshold_above_parties() {
    assert!(matches!(ThresholdScheme::new(4, 3), Err(AttestorError::InvalidConfig)));
    assert!(matches!(
        ThresholdScheme::with_scheme_id(2, 1, "x".to_string()),
        Err(AttestorError::InvalidConfig)
    ));
}

#[test]
fn new_scheme_keeps_parameters_and_draws_fresh_ids() {
    let a = ThresholdScheme::new(2, 3).unwrap();
    let b = ThresholdScheme::new(2, 3).unwrap();
    assert_eq!(a.threshold, 2);
    assert_eq!(a.total_parties, 3);
    assert_eq!(a.scheme_id.len(), 36);
    assert_ne!(a.scheme_id, b.scheme_id);
    let c = ThresholdScheme::new(3, 3).unwrap();
    assert_eq!(c.threshold, 3);
}

#[test]
fn generate_key_shares_gives_one_share_per_party() {
    let s = ThresholdScheme::new(3, 5).unwrap();
    let (shares, key) = s.generate_key_shares().unwrap();
    assert_eq!(shares.len(), 5);
    for (i, share) in shares.iter().enumerate() {
        assert_eq!(share.party_id, i + 1);
        assert_eq!(share.private_share.len(), 32);
        assert_eq!(share.public_share.len(), 48);
        assert_eq!(share.scheme_id, s.scheme_id);
    }
    assert_eq!(key.public_key.len(), 48);
    assert_eq!(key.scheme_id, s.scheme_id);
    assert_eq!(key.threshold, 3);
    assert_eq!(key.total_parties, 5);
}

#[test]
fn generate_key_shares_refuses_an_unsound_scheme() {
    let s = ThresholdScheme { threshold: 0, total_parties: 3, scheme_id: "s".to_string() };
    assert!(matches!(s.generate_key_shares(), Err(AttestorError::InvalidConfig)));
    let s = ThresholdScheme { threshold: 4, total_parties: 3, scheme_id: "s".to_string() };
    assert!(matches!(s.generate_key_shares(), Err(AttestorError::InvalidConfig)));
}

#[test]
fn generated_shares_differ_between_runs() {
    let s = ThresholdScheme::new(2, 2).unwrap();
    let (first, _) = s.generate_key_shares().unwrap();
    let (second, _) = s.generate_key_shares().unwrap();
    assert_ne!(first[0].private_share, second[0].private_share);
}

#[test]
fn shares_are_the_polynomial_at_the_party_numbers() {
    // f(x) = 5 + 3x: f(1) = 8, f(2) = 11, f(3) = 14
    let s = scheme(2, 3, "poly");
    let (shares, _) = s.shares_from_coefficients(&vec![scalar(5), scalar(3)]).unwrap();
    assert_eq!(shares[0].private_share, scalar(8));
    assert_eq!(shares[1].private_share, scalar(11));
    assert_eq!(shares[2].private_share, scalar(14));
}

#[test]
fn shares_of_a_quadratic_polynomial() {
    // f(x) = 7 + 2x + 4x^2: f(1) = 13, f(2) = 27, f(3) = 49, f(4) = 79
    let s = scheme(3, 4, "quadratic");
    let (shares, _) = s.shares_from_coefficients(&vec![scalar(7), scalar(2), scalar(4)]).unwrap();
    assert_eq!(shares[0].private_share, scalar(13));
    assert_eq!(shares[1].private_share, scalar(27));
    assert_eq!(shares[2].private_share, scalar(49));
    assert_eq!(shares[3].private_share, scalar(79));
}

#[test]
fn shares_wrap_around_the_field_order() {
    // q - 1 as the constant term and 2 as the slope: f(1) = q + 1 = 1 (mod q)
    let minus_one = bls12_381::Scalar::zero() - bls12_381::Scalar::one();
    let s = scheme(2, 2, "wrap");
    let (shares, _) = s
        .shares_from_coefficients(&vec![minus_one.to_bytes().to_vec(), scalar(2)])
        .unwrap();
    assert_eq!(shares[0].private_share, scalar(1));
    assert_eq!(shares[1].private_share, scalar(3));
}

#[test]
fn public_shares_are_the_generator_times_the_private_ones() {
    let s = scheme(1, 2, "public");
    let (shares, key) = s.shares_from_coefficients(&vec![scalar(1)]).unwrap();
    let generator = bls12_381::G1Affine::generator().to_compressed().to_vec();
    assert_eq!(key.public_key, generator);
    assert_eq!(shares[0].public_share, generator);
    assert_eq!(shares[1].public_share, generator);
    let (_, key) = s.shares_from_coefficients(&vec![scalar(2)]).unwrap();
    let doubled = bls12_381::G1Affine::from(
        bls12_381::G1Projective::generator() * bls12_381::Scalar::from(2u64),
    );
    assert_eq!(key.public_key, doubled.to_compressed().to_vec());
}

#[test]
fn shares_from_coefficients_checks_its_input() {
    let s = scheme(2, 3, "check");
    assert!(matches!(
        s.shares_from_coefficients(&vec![scalar(5)]),
        Err(AttestorError::InvalidConfig)
    ));
    assert!(matches!(
        s.shares_from_coefficients(&vec![scalar(5), vec![0xff; 32]]),
        Err(AttestorError::CryptoError)
    ));
    assert!(matches!(
        s.shares_from_coefficients(&vec![scalar(5), vec![1u8; 31]]),
        Err(AttestorError::CryptoError)
    ));
}

#[test]
fn partial_sign_is_the_hashed_message_times_the_share() {
    let s = scheme(1, 1, "abc");
    let share = KeyShare {
        party_id: 1,
        private_share: scalar(3),
        public_share: vec![],
        scheme_id: "abc".to_string(),
    };
    let partial = s.partial_sign(b"hello", &share).unwrap();
    let mut tag = b"BLS_SIG_BLS12381G2_XMD:SHA-256_SSWU_RO_NUL_".to_vec();
    tag.extend_from_slice(b"abc");
    let point = <bls12_381::G2Projective as HashToCurve<ExpandMsgXmd<sha2::Sha256>>>::hash_to_curve(
        b"hello",
        &tag,
    );
    let expected = bls12_381::G2Affine::from(point * bls12_381::Scalar::from(3u64));
    assert_eq!(partial.signature, expected.to_compressed().to_vec());
    assert_eq!(partial.party_id, 1);
    assert_eq!(partial.scheme_id, "abc");
}

#[test]
fn partial_sign_depends_on_the_scheme() {
    let a = scheme(1, 1, "scheme-a");
    let b = scheme(1, 1, "scheme-b");
    let share_a =
        KeyShare { party_id: 1, private_share: scalar(9), public_share: vec![], scheme_id: "scheme-a".to_string() };
    let share_b =
        KeyShare { party_id: 1, private_share: scalar(9), public_share: vec![], scheme_id: "scheme-b".to_string() };
    let first = a.partial_sign(b"message", &share_a).unwrap();
    let again = a.partial_sign(b"message", &share_a).unwrap();
    let other = b.partial_sign(b"message", &share_b).unwrap();
    assert_eq!(first.signature, again.signature);
    assert_ne!(first.signature, other.signature);
    assert_ne!(first.signature, a.partial_sign(b"another", &share_a).unwrap().signature);
}

#[test]
fn partial_sign_rejects_a_share_of_another_scheme() {
    let a = ThresholdScheme::new(2, 3).unwrap();
    let b = ThresholdScheme::new(2, 3).unwrap();
    let (shares_b, _) = b.generate_key_shares().unwrap();
    assert!(matches!(a.partial_sign(b"m", &shares_b[0]), Err(AttestorError::SchemeMismatch)));
}

#[test]
fn partial_sign_rejects_a_malformed_share() {
    let s = scheme(1, 1, "s");
    let short =
        KeyShare { party_id: 1, private_share: vec![1, 2, 3], public_share: vec![], scheme_id: "s".to_string() };
    assert!(matches!(s.partial_sign(b"m", &short), Err(AttestorError::CryptoError)));
    let large =
        KeyShare { party_id: 1, private_share: vec![0xff; 32], public_share: vec![], scheme_id: "s".to_string() };
    assert!(matches!(s.partial_sign(b"m", &large), Err(AttestorError::CryptoError)));
}

#[test]
fn any_two_of_three_shares_sign_and_verify() {
    let s = ThresholdScheme::new(2, 3).unwrap();
    let (shares, key) = s.generate_key_shares().unwrap();
    let message = b"credential bytes";
    let partials = sign_all(&s, message, &shares);
    let mut signatures: Vec<ThresholdSignature> = Vec::new();
    for subset in [[0usize, 1], [0, 2], [1, 2], [1, 0], [2, 0], [2, 1]] {
        let combined = s.combine_signatures(&pick(&partials, &subset)).unwrap();
        assert_eq!(combined.signers, vec![subset[0] + 1, subset[1] + 1]);
        assert_eq!(combined.scheme_id, s.scheme_id);
        assert!(s.verify_signature(message, &combined, &key).unwrap());
        signatures.push(combined);
    }
    for signature in &signatures {
        assert_eq!(signature.signature, signatures[0].signature);
    }
}

#[test]
fn any_three_of_five_shares_sign_and_verify() {
    let s = ThresholdScheme::new(3, 5).unwrap();
    let (shares, key) = s.generate_key_shares().unwrap();
    let message = b"another credential";
    let partials = sign_all(&s, message, &shares);
    let first = s.combine_signatures(&pick(&partials, &[0, 1, 2])).unwrap();
    for subset in [[0usize, 1, 3], [0, 2, 4], [1, 3, 4], [4, 3, 2], [2, 0, 4]] {
        let combined = s.combine_signatures(&pick(&partials, &subset)).unwrap();
        assert!(s.verify_signature(message, &combined, &key).unwrap());
        assert_eq!(combined.signature, first.signature);
    }
    assert!(s.verify_signature(message, &first, &key).unwrap());
}

#[test]
fn every_threshold_and_party_count_up_to_four_works() {
    for total in 1..=4usize {
        for threshold in 1..=total {
            let s = ThresholdScheme::new(threshold, total).unwrap();
            let (shares, key) = s.generate_key_shares().unwrap();
            assert_eq!(shares.len(), total);
            let partials = sign_all(&s, b"m", &shares);
            let last: Vec<usize> = (total - threshold..total).collect();
            let combined = s.combine_signatures(&pick(&partials, &last)).unwrap();
            assert!(s.verify_signature(b"m", &combined, &key).unwrap());
        }
    }
}

#[test]
fn combination_recovers_the_signature_of_the_whole_key() {
    let s = scheme(2, 3, "recover");
    let (shares, key) = s.shares_from_coefficients(&vec![scalar(12345), scalar(678)]).unwrap();
    let partials = sign_all(&s, b"payload", &shares);
    let combined = s.combine_signatures(&pick(&partials, &[0, 2])).unwrap();
    let whole = KeyShare {
        party_id: 1,
        private_share: scalar(12345),
        public_share: vec![],
        scheme_id: "recover".to_string(),
    };
    let direct = s.partial_sign(b"payload", &whole).unwrap();
    assert_eq!(combined.signature, direct.signature);
    assert!(s.verify_signature(b"payload", &combined, &key).unwrap());
}

#[test]
fn more_partials_than_the_threshold_use_the_first_parties() {
    let s = ThresholdScheme::new(2, 4).unwrap();
    let (shares, key) = s.generate_key_shares().unwrap();
    let partials = sign_all(&s, b"m", &shares);
    let combined = s.combine_signatures(&pick(&partials, &[3, 1, 0, 2])).unwrap();
    assert_eq!(combined.signers, vec![4, 2]);
    assert!(s.verify_signature(b"m", &combined, &key).unwrap());
}

#[test]
fn combine_with_too_few_signatures_fails() {
    let s = ThresholdScheme::new(2, 3).unwrap();
    let (shares, _) = s.generate_key_shares().unwrap();
    let partials = sign_all(&s, b"m", &shares);
    assert!(matches!(
        s.combine_signatures(&pick(&partials, &[0])),
        Err(AttestorError::ThresholdNotMet)
    ));
    assert!(matches!(s.combine_signatures(&[]), Err(AttestorError::ThresholdNotMet)));
}

#[test]
fn combine_counts_each_party_once() {
    let s = ThresholdScheme::new(2, 3).unwrap();
    let (shares, key) = s.generate_key_shares().unwrap();
    let partials = sign_all(&s, b"m", &shares);
    assert!(matches!(
        s.combine_signatures(&pick(&partials, &[0, 0])),
        Err(AttestorError::ThresholdNotMet)
    ));
    let combined = s.combine_signatures(&pick(&partials, &[0, 0, 1])).unwrap();
    assert_eq!(combined.signers, vec![1, 2]);
    assert!(s.verify_signature(b"m", &combined, &key).unwrap());
}

#[test]
fn combine_rejects_a_signature_of_another_scheme() {
    let a = ThresholdScheme::new(2, 3).unwrap();
    let b = ThresholdScheme::new(2, 3).unwrap();
    let (shares_a, _) = a.generate_key_shares().unwrap();
    let (shares_b, _) = b.generate_key_shares().unwrap();
    let mut mixed = vec![a.partial_sign(b"m", &shares_a[0]).unwrap()];
    mixed.push(b.partial_sign(b"m", &shares_b[1]).unwrap());
    assert!(matches!(a.combine_signatures(&mixed), Err(AttestorError::SchemeMismatch)));
    assert!(matches!(b.combine_signatures(&mixed), Err(AttestorError::SchemeMismatch)));
}

#[test]
fn combine_reports_too_few_before_a_mismatch() {
    let a = ThresholdScheme::new(2, 3).unwrap();
    let b = ThresholdScheme::new(2, 3).unwrap();
    let (shares_b, _) = b.generate_key_shares().unwrap();
    let foreign = vec![b.partial_sign(b"m", &shares_b[0]).unwrap()];
    assert!(matches!(a.combine_signatures(&foreign), Err(AttestorError::ThresholdNotMet)));
}

#[test]
fn combine_rejects_malformed_partials() {
    let s = ThresholdScheme::new(2, 3).unwrap();
    let (shares, _) = s.generate_key_shares().unwrap();
    let partials = sign_all(&s, b"m", &shares);
    let mut broken = pick(&partials, &[0, 1]);
    broken[1].signature = vec![0u8; 96];
    assert!(matches!(s.combine_signatures(&broken), Err(AttestorError::CryptoError)));
    let mut short = pick(&partials, &[0, 1]);
    short[0].signature.pop();
    assert!(matches!(s.combine_signatures(&short), Err(AttestorError::CryptoError)));
    let mut nobody = pick(&partials, &[0, 1]);
    nobody[0].party_id = 0;
    assert!(matches!(s.combine_signatures(&nobody), Err(AttestorError::CryptoError)));
    let mut stranger = pick(&partials, &[0, 1]);
    stranger[1].party_id = 4;
    assert!(matches!(s.combine_signatures(&stranger), Err(AttestorError::CryptoError)));
}

#[test]
fn combine_refuses_an_unsound_scheme() {
    let s = ThresholdScheme { threshold: 0, total_parties: 3, scheme_id: "s".to_string() };
    assert!(matches!(s.combine_signatures(&[]), Err(AttestorError::InvalidConfig)));
}

#[test]
fn verify_rejects_other_messages_and_other_keys() {
    let s = ThresholdScheme::new(2, 3).unwrap();
    let (shares, key) = s.generate_key_shares().unwrap();
    let (_, other_key) = s.generate_key_shares().unwrap();
    let partials = sign_all(&s, b"signed", &shares);
    let combined = s.combine_signatures(&pick(&partials, &[0, 1])).unwrap();
    assert!(s.verify_signature(b"signed", &combined, &key).unwrap());
    assert!(!s.verify_signature(b"not signed", &combined, &key).unwrap());
    assert!(!s.verify_signature(b"signed", &combined, &other_key).unwrap());
}

#[test]
fn verify_rejects_a_partial_signature_passed_off_as_combined() {
    let s = ThresholdScheme::new(2, 3).unwrap();
    let (shares, key) = s.generate_key_shares().unwrap();
    let partials = sign_all(&s, b"m", &shares);
    let forged = ThresholdSignature {
        signature: partials[0].signature.clone(),
        scheme_id: s.scheme_id.clone(),
        signers: vec![1, 2],
    };
    assert!(!s.verify_signature(b"m", &forged, &key).unwrap());
}

#[test]
fn verify_rejects_too_few_signers_and_malformed_input() {
    let s = ThresholdScheme::new(2, 3).unwrap();
    let (shares, key) = s.generate_key_shares().unwrap();
    let partials = sign_all(&s, b"m", &shares);
    let combined = s.combine_signatures(&pick(&partials, &[0, 1])).unwrap();
    let mut few = combined.clone();
    few.signers = vec![1];
    assert!(!s.verify_signature(b"m", &few, &key).unwrap());
    let mut empty = combined.clone();
    empty.signature = vec![];
    assert!(!s.verify_signature(b"m", &empty, &key).unwrap());
    let bad_key = ThresholdPublicKey {
        public_key: vec![],
        scheme_id: s.scheme_id.clone(),
        threshold: 2,
        total_parties: 3,
    };
    assert!(!s.verify_signature(b"m", &combined, &bad_key).unwrap());
}

#[test]
fn verify_rejects_signatures_and_keys_of_another_scheme() {
    let a = ThresholdScheme::new(2, 3).unwrap();
    let b = ThresholdScheme::new(2, 3).unwrap();
    let (shares_a, key_a) = a.generate_key_shares().unwrap();
    let (_, key_b) = b.generate_key_shares().unwrap();
    let partials = sign_all(&a, b"m", &shares_a);
    let combined = a.combine_signatures(&pick(&partials, &[0, 1])).unwrap();
    assert!(matches!(
        b.verify_signature(b"m", &combined, &key_b),
        Err(AttestorError::SchemeMismatch)
    ));
    assert!(matches!(
        a.verify_signature(b"m", &combined, &key_b),
        Err(AttestorError::SchemeMismatch)
    ));
    assert!(a.verify_signature(b"m", &combined, &key_a).unwrap());
}
