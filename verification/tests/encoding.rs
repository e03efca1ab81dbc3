use portex_pkg::{into_fr_plus_1, PkgPublicKey, PkgPublicKeyShare, Scalar, SecretKey,
    SecretKeySet, SecretKeyShare, PK_SIZE};

#[test]
fn public_key_bytes_round_trip() {
    let sk = SecretKey::random();
    let pk = sk.public_key();
    let bytes = pk.to_bytes();
    assert_eq!(bytes.len(), PK_SIZE);
    let pk2 = PkgPublicKey::from_bytes(&bytes).expect("invalid pk representation");
    assert!(pk.same_as(&pk2));
}

#[test]
fn public_key_share_bytes_round_trip() {
    let sk_set = SecretKeySet::random(2);
    let pk_set = sk_set.public_keys();
    let share = pk_set.public_key_share(3);
    let bytes = share.to_bytes();
    let share2 = PkgPublicKeyShare::from_bytes(&bytes).expect("invalid share representation");
    assert!(share.same_as(&share2));
}

#[test]
fn invalid_key_bytes_are_rejected() {
    let zeros = [0u8; PK_SIZE];
    assert!(PkgPublicKey::from_bytes(&zeros).is_err());
    let ones = [0xFFu8; PK_SIZE];
    assert!(PkgPublicKey::from_bytes(&ones).is_err());
}

#[test]
fn distinct_keys_have_distinct_bytes() {
    let sk_set = SecretKeySet::random(1);
    let pk_set = sk_set.public_keys();
    let a = pk_set.public_key_share(1).to_bytes();
    let b = pk_set.public_key_share(2).to_bytes();
    assert_ne!(a, b);
}

#[test]
fn evaluation_point_survives_the_largest_index() {
    // The evaluation point for the largest index is one past the limb
    // boundary, not a wrapped-around zero.
    let top = into_fr_plus_1(u64::MAX);
    let expected = Scalar { limbs: [0, 1, 0, 0] };
    assert!(top.eq_value(&expected));
    assert!(!top.is_zero());
    // Ordinary indices land one above themselves.
    assert!(into_fr_plus_1(6).eq_value(&Scalar::from_u64(7)));
}

#[test]
fn share_containers_default_to_zero() {
    let a = SecretKeyShare::default();
    let mut five = Scalar::from_u64(5);
    let b = SecretKeyShare::from_mut(&mut five);
    assert!(a != b);
    assert!(a == SecretKeyShare::default());
    assert!(b.clone() == b);
}

#[test]
fn reveal_strings_are_labelled() {
    let sk = SecretKey::random();
    let text = sk.reveal_secret();
    assert!(text.starts_with("SecretKey("));
    assert!(text.ends_with(")"));

    let sk_set = SecretKeySet::random(1);
    let share = sk_set.secret_key_share(1);
    let text = share.reveal_secret();
    assert!(text.starts_with("SecretKeyShare("));
}
