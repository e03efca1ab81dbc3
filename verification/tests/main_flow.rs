use portex_pkg::{
    GParameter, PkgPublicKeySet, Receiver, SecretKeySet, Sender, SubPKG, SubPKGManager,
    SystemSetting,
};

#[test]
fn main_test() {
    // PKG setup: prepare the group parameters and the committee.
    let g_parameter = GParameter::new();
    let setting = SystemSetting::new(GParameter::new());
    let secret_key_set: SecretKeySet = setting.setup_secret_key_set();
    let public_key_set: PkgPublicKeySet = setting.setup_public_key_set(&secret_key_set);

    let sub_pkg1 = SubPKG::new(1, &secret_key_set, &public_key_set);
    let sub_pkg2 = SubPKG::new(2, &secret_key_set, &public_key_set);
    let sub_pkg3 = SubPKG::new(3, &secret_key_set, &public_key_set);

    let mut sub_pkg_vec = Vec::new();
    sub_pkg_vec.push(sub_pkg1);
    sub_pkg_vec.push(sub_pkg2);
    sub_pkg_vec.push(sub_pkg3);
    let sub_pkg_manager = SubPKGManager::new(
        sub_pkg_vec,
        PkgPublicKeySet::from_commitment(public_key_set.commit.dup()),
    );
    let pkg_mpk = sub_pkg_manager.publish_public_key();

    // Key extraction: each authority issues its partial private key.
    let id = "bob";
    let mut receiver = Receiver::new(PkgPublicKeySet::from_commitment(public_key_set.commit.dup()));
    let partial_private_key_1 =
        receiver.obtain_user_partial_private_key(&sub_pkg_manager.sub_pkg[0], id);
    let partial_private_key_2 =
        receiver.obtain_user_partial_private_key(&sub_pkg_manager.sub_pkg[1], id);
    let partial_private_key_3 =
        receiver.obtain_user_partial_private_key(&sub_pkg_manager.sub_pkg[2], id);

    // Encryption under the master public key.
    let msg = b"this is a test";
    let sender = Sender::new(pkg_mpk);
    let ciphertext = sender.encrypt_new(msg, id);

    // Checks: the ciphertext and every partial private key verify.
    let check_res_0 = sub_pkg_manager.sub_pkg[0]
        .pkg_pk_share
        .verify_ciphertext(&ciphertext, &g_parameter);
    assert!(check_res_0);

    let mut partial_private_key_map = Vec::new();

    let check_res_1 = sub_pkg_manager.sub_pkg[0].pkg_pk_share.verify_partial_private_key(
        id,
        &partial_private_key_1,
        &g_parameter,
    );
    assert!(check_res_1);
    partial_private_key_map.push((1u64, partial_private_key_1.dup()));

    let check_res_2 = sub_pkg_manager.sub_pkg[1].pkg_pk_share.verify_partial_private_key(
        id,
        &partial_private_key_2,
        &g_parameter,
    );
    assert!(check_res_2);
    partial_private_key_map.push((2u64, partial_private_key_2.dup()));

    let check_res_3 = sub_pkg_manager.sub_pkg[2].pkg_pk_share.verify_partial_private_key(
        id,
        &partial_private_key_3,
        &g_parameter,
    );
    assert!(check_res_3);
    partial_private_key_map.push((3u64, partial_private_key_3.dup()));

    // Decryption: the shares combine back to the plaintext.
    let res = receiver
        .decrypt_ciphertext(&public_key_set, &partial_private_key_map, &ciphertext)
        .unwrap();
    let decryption_message = std::str::from_utf8(&res).unwrap();
    assert_eq!(decryption_message, "this is a test");
}

#[test]
fn committee_of_many_authorities() {
    let secret_key_set = SecretKeySet::random(1);
    let public_key_set = secret_key_set.public_keys();
    for count in [16u64, 32u64] {
        let mut sub_pkg_vec = Vec::new();
        let mut x = 0u64;
        loop {
            sub_pkg_vec.push(SubPKG::new(
                x,
                &secret_key_set,
                &PkgPublicKeySet::from_commitment(public_key_set.commit.dup()),
            ));
            x += 1;
            if x == count {
                break;
            }
        }
        let manager = SubPKGManager::new(
            sub_pkg_vec,
            PkgPublicKeySet::from_commitment(public_key_set.commit.dup()),
        );
        let mpk = manager.publish_public_key();
        assert!(mpk.same_as(&public_key_set.public_key()));
    }
}
