use portex_pkg::{
    GParameter, PkgPublicKeySet, SecretKeySet, Sender, SubPKG, SubPKGManager,
};

#[test]
fn meeting_binds_first_ciphertext_and_rejects_mismatch() {
    let g_parameter = GParameter::new();
    let sk_set = SecretKeySet::random(1);
    let pk_set = sk_set.public_keys();
    let id = "bob";

    let mut members = Vec::new();
    for i in 0u64..3 {
        members.push(SubPKG::new(
            i,
            &sk_set,
            &PkgPublicKeySet::from_commitment(pk_set.commit.dup()),
        ));
    }
    let mut manager = SubPKGManager::new(
        members,
        PkgPublicKeySet::from_commitment(pk_set.commit.dup()),
    );

    let sender = Sender::new(pk_set.public_key());
    let msg = b"meeting minutes";
    let ciphertext = sender.encrypt_new(msg, id);
    let other_ciphertext = sender.encrypt_new(b"something else", id);

    let mut meeting = manager.start_decryption_meeting();

    // The first contributor binds the meeting to its ciphertext.
    manager.get_sub_pkg(0).msg_inbox = Some(ciphertext.dup());
    assert!(meeting.obtain_partial_private_key_with_verification(
        manager.get_sub_pkg(0),
        &g_parameter,
        id
    ));

    // A contributor carrying a different ciphertext is rejected.
    manager.get_sub_pkg(1).msg_inbox = Some(other_ciphertext);
    assert!(!meeting.obtain_partial_private_key_with_verification(
        manager.get_sub_pkg(1),
        &g_parameter,
        id
    ));

    // A second matching contributor is accepted, and the quorum decrypts.
    manager.get_sub_pkg(1).msg_inbox = Some(ciphertext.dup());
    assert!(meeting.obtain_partial_private_key_with_verification(
        manager.get_sub_pkg(1),
        &g_parameter,
        id
    ));

    // Resubmission by the same authority overwrites its earlier share.
    manager.get_sub_pkg(1).msg_inbox = Some(ciphertext.dup());
    assert!(meeting.obtain_partial_private_key_with_verification(
        manager.get_sub_pkg(1),
        &g_parameter,
        id
    ));
    assert_eq!(meeting.partial_private_key.len(), 2);

    let decrypted = meeting.decrypt_message().expect("quorum reached");
    assert_eq!(decrypted, msg.to_vec());
}

#[test]
fn meeting_without_quorum_fails() {
    let g_parameter = GParameter::new();
    let sk_set = SecretKeySet::random(1);
    let pk_set = sk_set.public_keys();
    let id = "bob";

    let mut members = Vec::new();
    for i in 0u64..2 {
        members.push(SubPKG::new(
            i,
            &sk_set,
            &PkgPublicKeySet::from_commitment(pk_set.commit.dup()),
        ));
    }
    let mut manager = SubPKGManager::new(
        members,
        PkgPublicKeySet::from_commitment(pk_set.commit.dup()),
    );
    let sender = Sender::new(pk_set.public_key());
    let ciphertext = sender.encrypt_new(b"undecryptable", id);

    let mut meeting = manager.start_decryption_meeting();
    manager.get_sub_pkg(0).msg_inbox = Some(ciphertext);
    assert!(meeting.obtain_partial_private_key_with_verification(
        manager.get_sub_pkg(0),
        &g_parameter,
        id
    ));
    assert!(meeting.decrypt_message().is_err());
}
