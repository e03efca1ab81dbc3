use portex_pkg::{
    interpolate, into_fr_plus_1, Error, Poly, Scalar, SecretKeySet,
};
use pairing::bls12_381::G2;

#[test]
fn interpolation_matches_commitment_at_zero() {
    // For every degree up to five, any degree-plus-one distinct sample
    // points of a random polynomial's commitment interpolate back to the
    // commitment's value at zero.
    for deg in 0usize..=5 {
        let comm = Poly::random(deg).commitment();
        let mut values: Vec<(u64, G2)> = Vec::new();
        let mut x = 0u64;
        for k in 0..=deg {
            x += 1 + (x % 3) + (k as u64 % 2);
            values.push((x - 1, comm.evaluate(&into_fr_plus_1(x - 1))));
        }
        let actual = interpolate(deg, &values).expect("wrong number of values");
        assert_eq!(comm.evaluate(&Scalar::zero()), actual);
    }
}

#[test]
fn interpolation_needs_enough_samples() {
    let comm = Poly::random(2).commitment();
    let mut values: Vec<(u64, G2)> = Vec::new();
    for i in 0u64..2 {
        values.push((i, comm.evaluate(&into_fr_plus_1(i))));
    }
    assert_eq!(interpolate(2, &values).err(), Some(Error::NotEnoughShares));
}

#[test]
fn interpolation_rejects_duplicate_points() {
    let comm = Poly::random(2).commitment();
    let mut values: Vec<(u64, G2)> = Vec::new();
    values.push((4, comm.evaluate(&into_fr_plus_1(4))));
    values.push((7, comm.evaluate(&into_fr_plus_1(7))));
    values.push((4, comm.evaluate(&into_fr_plus_1(4))));
    assert_eq!(interpolate(2, &values).err(), Some(Error::DuplicateEntry));
}

#[test]
fn threshold_encrypt_decrypt_round_trip() {
    // Threshold three: any four shares decrypt, and different subsets of
    // authorities recover the same plaintext.
    let sk_set = SecretKeySet::random(3);
    let pk_set = sk_set.public_keys();
    let msg = b"Totally real news";
    let id = "alice";
    let ciphertext = pk_set.public_key().encrypt_new(msg, id);

    let mut shares = Vec::new();
    for i in [5u64, 8, 7, 10] {
        let share = sk_set
            .secret_key_share(i)
            .obtain_partial_private_key(id)
            .unwrap();
        // Each share verifies against its own public key share.
        assert!(pk_set.public_key_share(i).verify_partial_private_key(
            id,
            &share,
            &portex_pkg::GParameter::new()
        ));
        shares.push((i, share));
    }
    let decrypted = pk_set.decrypt(&shares, &ciphertext).expect("shares match");
    assert_eq!(&decrypted[..], &msg[..]);

    let mut shares2 = Vec::new();
    for i in [42u64, 43, 44, 45] {
        let share = sk_set
            .secret_key_share(i)
            .obtain_partial_private_key(id)
            .unwrap();
        shares2.push((i, share));
    }
    let decrypted2 = pk_set.decrypt(&shares2, &ciphertext).expect("shares match");
    assert_eq!(decrypted2, decrypted);

    // The result does not depend on the order the samples are supplied in.
    shares2.reverse();
    let decrypted3 = pk_set.decrypt(&shares2, &ciphertext).expect("shares match");
    assert_eq!(decrypted3, decrypted);
}

#[test]
fn threshold_decrypt_fails_without_quorum() {
    let sk_set = SecretKeySet::random(3);
    let pk_set = sk_set.public_keys();
    let id = "alice";
    let ciphertext = pk_set.public_key().encrypt_new(b"quorum", id);

    let mut shares = Vec::new();
    for i in [5u64, 8, 7] {
        let share = sk_set
            .secret_key_share(i)
            .obtain_partial_private_key(id)
            .unwrap();
        shares.push((i, share));
    }
    assert_eq!(
        pk_set.decrypt(&shares, &ciphertext).err(),
        Some(Error::NotEnoughShares)
    );
}

#[test]
fn tampered_ciphertext_is_refused() {
    let sk_set = SecretKeySet::random(1);
    let pk_set = sk_set.public_keys();
    let id = "bob";
    let msg = b"this is a test";
    let ciphertext = pk_set.public_key().encrypt_new(msg, id);
    assert!(ciphertext.verify());

    // Replace the payload with zeros of the same length.
    let portex_pkg::Ciphertext(u, v, w) = ciphertext;
    let fake = portex_pkg::Ciphertext(u, vec![0u8; v.len()], w);
    assert!(!fake.verify());

    // Both decryption paths refuse to produce output.
    let sk = sk_set.secret_key();
    assert_eq!(sk.decrypt(&fake), None);

    let mut shares = Vec::new();
    for i in [1u64, 2] {
        let share = sk_set
            .secret_key_share(i)
            .obtain_partial_private_key(id)
            .unwrap();
        shares.push((i, share));
    }
    assert_eq!(
        pk_set.decrypt(&shares, &fake).err(),
        Some(Error::InvalidCiphertext)
    );
    // The intact ciphertext still decrypts.
    assert_eq!(pk_set.decrypt(&shares, &portex_pkg::Ciphertext(u, v, w)).unwrap(), msg.to_vec());
}

#[test]
fn share_from_wrong_authority_is_rejected() {
    let sk_set = SecretKeySet::random(1);
    let pk_set = sk_set.public_keys();
    let id = "carol";
    let gp = portex_pkg::GParameter::new();

    let share_1 = sk_set
        .secret_key_share(1)
        .obtain_partial_private_key(id)
        .unwrap();
    let share_2 = sk_set
        .secret_key_share(2)
        .obtain_partial_private_key(id)
        .unwrap();

    let pk_share_1 = pk_set.public_key_share(1);
    assert!(pk_share_1.verify_partial_private_key(id, &share_1, &gp));
    assert!(!pk_share_1.verify_partial_private_key(id, &share_2, &gp));
}

#[test]
fn secret_container_zeroizes() {
    // Two containers with different values; wiping one makes its storage
    // match a freshly zeroed container's.
    let mut seven = Scalar::from_u64(7);
    let mut sk = portex_pkg::SecretKey::from_mut(&mut seven);
    // The source scalar was scrubbed when the container took ownership.
    assert!(seven.is_zero());

    let mut zero = Scalar::zero();
    let zero_sk = portex_pkg::SecretKey::from_mut(&mut zero);
    assert!(!sk.eq_value(&zero_sk));

    sk.zeroize();
    assert!(sk.eq_value(&zero_sk));
}

#[test]
fn secret_key_equality_clone_and_default() {
    let zero_sk = portex_pkg::SecretKey::default();
    let mut sk = portex_pkg::SecretKey::from_mut(&mut Scalar::from_u64(41));
    assert!(zero_sk != sk);

    // An explicit clone is an independent container with the same value.
    let copy = sk.clone();
    assert!(copy == sk);
    sk.zeroize();
    assert!(zero_sk == sk);
    assert!(copy != sk);

    // Key sets wrap their polynomial and commitment.
    let poly = portex_pkg::Poly::random(1);
    let comm = poly.commitment();
    let sk_set = portex_pkg::SecretKeySet::from(poly);
    let pk_set = portex_pkg::PkgPublicKeySet::from(comm);
    assert!(pk_set
        .public_key()
        .same_as(&sk_set.public_keys().public_key()));
}

#[test]
fn concrete_scenario_threshold_one() {
    // Threshold one, three authorities with indices 1, 2 and 3.
    let sk_set = SecretKeySet::random(1);
    let pk_set = sk_set.public_keys();
    let id = "bob";
    let msg = b"this is a test";
    let ciphertext = pk_set.public_key().encrypt_new(msg, id);

    let share_1 = sk_set
        .secret_key_share(1)
        .obtain_partial_private_key(id)
        .unwrap();
    let share_2 = sk_set
        .secret_key_share(2)
        .obtain_partial_private_key(id)
        .unwrap();

    let mut both = Vec::new();
    both.push((1u64, share_1.dup()));
    both.push((2u64, share_2.dup()));
    assert_eq!(pk_set.decrypt(&both, &ciphertext).unwrap(), msg.to_vec());

    let mut only_one = Vec::new();
    only_one.push((1u64, share_1));
    assert_eq!(
        pk_set.decrypt(&only_one, &ciphertext).err(),
        Some(Error::NotEnoughShares)
    );
}

#[test]
fn hashing_is_deterministic_and_input_sensitive() {
    let msg: Vec<u8> = (0u8..=255).cycle().take(1000).collect();
    let mut msg_end0 = msg.clone();
    msg_end0.extend_from_slice(b"end0");
    let mut msg_end1 = msg.clone();
    msg_end1.extend_from_slice(b"end1");

    assert_eq!(portex_pkg::hash_g2(&msg), portex_pkg::hash_g2(&msg));
    assert_ne!(portex_pkg::hash_g2(&msg), portex_pkg::hash_g2(&msg_end0));
    assert_ne!(portex_pkg::hash_g2(&msg_end0), portex_pkg::hash_g2(&msg_end1));

    assert_eq!(portex_pkg::hash_g1(&msg), portex_pkg::hash_g1(&msg));
    assert_ne!(portex_pkg::hash_g1(&msg), portex_pkg::hash_g1(&msg_end0));

    assert!(portex_pkg::hash_fr(&msg).eq_value(&portex_pkg::hash_fr(&msg)));

    let g = portex_pkg::hash_g1(b"anchor");
    assert_eq!(
        portex_pkg::hash_g1_g2(&g, &msg),
        portex_pkg::hash_g1_g2(&g, &msg)
    );
    assert_ne!(
        portex_pkg::hash_g1_g2(&g, &msg),
        portex_pkg::hash_g1_g2(&g, &msg_end0)
    );
    let h = portex_pkg::hash_g1(b"other anchor");
    assert_ne!(
        portex_pkg::hash_g1_g2(&g, &msg),
        portex_pkg::hash_g1_g2(&h, &msg)
    );
}

#[test]
fn masking_really_masks() {
    // The ciphertext payload differs from the plaintext and has its
    // length; direct decryption with the secret exists but is a separate
    // mode.
    let sk_set = SecretKeySet::random(1);
    let pk_set = sk_set.public_keys();
    let msg = b"a payload that must not survive in the clear";
    let ciphertext = pk_set.public_key().encrypt_new(msg, "dave");
    let portex_pkg::Ciphertext(_, v, _) = &ciphertext;
    assert_eq!(v.len(), msg.len());
    assert_ne!(&v[..], &msg[..]);

    let sk = sk_set.secret_key();
    let direct = sk.decrypt(&ciphertext);
    assert!(direct.is_some());
    assert_eq!(direct.unwrap().len(), msg.len());
}
