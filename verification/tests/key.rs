use bcachefs_mount::filesystem::FileSystem;
use bcachefs_mount::key::{
    ask_for_key, bch_key_magic, check_for_key, key_name, prepare_key, wait_for_key, KeyError,
    KeyRequest, PasswordInput, UnlockAction, UnlockEvent, UnlockState, BCH_KEY_MAGIC, ENOKEY,
    POLL_SECONDS,
};
use bcachefs_mount::superblock::{
    bch_encrypted_key, bch_key, bch_sb, bch_sb_field_crypt, bch_sb_handle, bch_scrypt_flags,
    nonce,
};

const U: u128 = 0x936d_a01f_9abd_4d9d_80c7_02af_85c8_22a8;

fn crypt(flags: u64) -> bch_sb_field_crypt {
    bch_sb_field_crypt {
        flags,
        kdf_flags: 15 | (8 << 16) | (1 << 32),
        key: bch_encrypted_key { magic: 0xdead, key: bch_key { key: [11, 12, 13, 14] } },
    }
}

fn filesystem(encrypted: bool) -> FileSystem {
    let crypt = if encrypted { Some(crypt(0)) } else { None };
    FileSystem::new(bch_sb_handle {
        sb: bch_sb { user_uuid: U.to_be_bytes(), key_nonce: nonce { d: [1, 2, 3, 4] }, crypt },
    })
}

fn request(flags: u64) -> KeyRequest {
    KeyRequest { uuid: U, crypt: crypt(flags), nonce: nonce { d: [1, 2, 3, 4] } }
}

fn name() -> String {
    String::from("bcachefs:936da01f-9abd-4d9d-80c7-02af85c822a8")
}

fn done(result: Result<(), KeyError>) -> Option<(UnlockState, UnlockAction)> {
    Some((UnlockState::Finished { result }, UnlockAction::Done { result }))
}

#[test]
fn key_name_is_the_prefix_and_the_canonical_uuid() {
    assert_eq!(key_name(U), "bcachefs:936da01f-9abd-4d9d-80c7-02af85c822a8");
    assert_eq!(key_name(0), "bcachefs:00000000-0000-0000-0000-000000000000");
    assert_eq!(key_name(u128::MAX), "bcachefs:ffffffff-ffff-ffff-ffff-ffffffffffff");
    assert_eq!(
        key_name(0x0123_4567_89ab_cdef_fedc_ba98_7654_3210),
        "bcachefs:01234567-89ab-cdef-fedc-ba9876543210"
    );
    assert_eq!(key_name(1), "bcachefs:00000000-0000-0000-0000-000000000001");
}

#[test]
fn key_name_agrees_with_the_uuid_crate() {
    let text = uuid::Uuid::from_bytes(U.to_be_bytes()).to_hyphenated().to_string();
    assert_eq!(key_name(U), format!("bcachefs:{}", text));
    assert_eq!(key_name(U).len(), 45);
}

#[test]
fn magic_is_the_text_read_as_a_number() {
    assert_eq!(bch_key_magic(), 0x7965_6b2a_2a68_6362);
    assert_eq!(bch_key_magic(), u64::from_le_bytes(*b"bch**key"));
    assert_eq!(BCH_KEY_MAGIC, bch_key_magic());
}

#[test]
fn lookups_are_told_apart() {
    assert_eq!(ENOKEY, libc::ENOKEY);
    assert_eq!(check_for_key(5, 0), Ok(true));
    assert_eq!(check_for_key(1, 126), Ok(true));
    assert_eq!(check_for_key(i64::MAX, 13), Ok(true));
    assert_eq!(check_for_key(-1, 126), Ok(false));
    assert_eq!(check_for_key(0, 126), Ok(false));
    assert_eq!(check_for_key(-1, 13), Err(KeyError::KeyringOperationFailed(13)));
    assert_eq!(check_for_key(-1, 0), Err(KeyError::KeyringOperationFailed(0)));
    assert_eq!(check_for_key(0, 1), Err(KeyError::KeyringOperationFailed(1)));
}

#[test]
fn fail_policy_is_over_at_once() {
    let begin = prepare_key(&filesystem(true), PasswordInput::Fail);
    assert_eq!(Some(begin), done(Err(KeyError::NoKeyAvailable)));
    let begin = prepare_key(&filesystem(false), PasswordInput::Fail);
    assert_eq!(Some(begin), done(Err(KeyError::NoKeyAvailable)));
}

#[test]
fn fail_policy_never_asks_for_the_keyring() {
    let (state, _) = prepare_key(&filesystem(true), PasswordInput::Fail);
    let told = vec![
        UnlockEvent::KeySearched { key_id: 7, errno: 0 },
        UnlockEvent::Slept,
        UnlockEvent::PassphraseRead { passphrase: String::from("x") },
        UnlockEvent::KeyDerived { key: bch_key { key: [0; 4] } },
        UnlockEvent::KeyAdded { ret: 1, errno: 0 },
    ];
    let mut state = state;
    for event in told {
        let (next, action) = state.step(event).unwrap();
        assert_eq!(action, UnlockAction::Done { result: Err(KeyError::NoKeyAvailable) });
        state = next;
    }
    assert_eq!(state, UnlockState::Finished { result: Err(KeyError::NoKeyAvailable) });
}

#[test]
fn wait_policy_begins_with_a_lookup() {
    let begin = prepare_key(&filesystem(false), PasswordInput::Wait);
    assert_eq!(begin, (UnlockState::WaitLookup { uuid: U }, UnlockAction::SearchKey { name: name() }));
    assert_eq!(wait_for_key(U), begin);
}

#[test]
fn wait_policy_sleeps_and_looks_again_until_the_key_is_there() {
    assert_eq!(POLL_SECONDS, 1);
    let (mut state, mut action) = wait_for_key(U);
    for _ in 0..3 {
        assert_eq!(action, UnlockAction::SearchKey { name: name() });
        let (next, asked) = state.step(UnlockEvent::KeySearched { key_id: -1, errno: 126 }).unwrap();
        assert_eq!(next, UnlockState::WaitSleep { uuid: U });
        assert_eq!(asked, UnlockAction::Sleep { seconds: 1 });
        let (next, asked) = next.step(UnlockEvent::Slept).unwrap();
        assert_eq!(next, UnlockState::WaitLookup { uuid: U });
        state = next;
        action = asked;
    }
    assert_eq!(action, UnlockAction::SearchKey { name: name() });
    assert_eq!(state.step(UnlockEvent::KeySearched { key_id: 42, errno: 0 }), done(Ok(())));
}

#[test]
fn wait_policy_gives_up_on_another_failure() {
    let (state, _) = wait_for_key(U);
    assert_eq!(
        state.step(UnlockEvent::KeySearched { key_id: -1, errno: 13 }),
        done(Err(KeyError::KeyringOperationFailed(13)))
    );
}

#[test]
fn ask_policy_begins_with_a_lookup() {
    let begin = prepare_key(&filesystem(true), PasswordInput::Ask);
    assert_eq!(
        begin,
        (UnlockState::AskLookup { request: request(0) }, UnlockAction::SearchKey { name: name() })
    );
    assert_eq!(ask_for_key(&filesystem(true)), begin);
}

#[test]
fn ask_policy_is_done_when_the_key_is_there_already() {
    let (state, _) = ask_for_key(&filesystem(true));
    assert_eq!(state.step(UnlockEvent::KeySearched { key_id: 3, errno: 0 }), done(Ok(())));
    assert_eq!(
        state.step(UnlockEvent::KeySearched { key_id: -1, errno: 1 }),
        done(Err(KeyError::KeyringOperationFailed(1)))
    );
}

#[test]
fn ask_policy_with_the_right_passphrase_installs_the_key() {
    let (state, _) = ask_for_key(&filesystem(true));
    let (state, action) = state.step(UnlockEvent::KeySearched { key_id: -1, errno: 126 }).unwrap();
    assert_eq!(state, UnlockState::AskPassphrase { request: request(0) });
    assert_eq!(action, UnlockAction::ReadPassphrase { prompt: String::from("Enter passphrase: ") });

    let (state, action) = state
        .step(UnlockEvent::PassphraseRead { passphrase: String::from("correct horse \t\r\n") })
        .unwrap();
    assert_eq!(state, UnlockState::AskDerive { request: request(0) });
    assert_eq!(
        action,
        UnlockAction::DeriveKey {
            passphrase: String::from("correct horse"),
            flags: bch_scrypt_flags(15 | (8 << 16) | (1 << 32)),
        }
    );

    let derived = bch_key { key: [21, 22, 23, 24] };
    let (state, action) = state.step(UnlockEvent::KeyDerived { key: derived }).unwrap();
    assert_eq!(state, UnlockState::AskDecrypt { request: request(0) });
    assert_eq!(
        action,
        UnlockAction::Decrypt {
            key: derived,
            nonce: nonce { d: [1, 2, 3, 4] },
            encrypted: bch_encrypted_key { magic: 0xdead, key: bch_key { key: [11, 12, 13, 14] } },
        }
    );

    let unlocked = bch_key { key: [31, 32, 33, 34] };
    let decrypted = bch_encrypted_key { magic: 0x7965_6b2a_2a68_6362, key: unlocked };
    let (state, action) = state.step(UnlockEvent::Decrypted { status: 0, decrypted }).unwrap();
    assert_eq!(state, UnlockState::AskInstall);
    assert_eq!(action, UnlockAction::AddKey { name: name(), payload: unlocked });

    assert_eq!(state.step(UnlockEvent::KeyAdded { ret: 77, errno: 0 }), done(Ok(())));
    assert_eq!(state.step(UnlockEvent::KeyAdded { ret: 0, errno: 5 }), done(Ok(())));
}

#[test]
fn ask_policy_with_a_wrong_passphrase_installs_nothing() {
    let state = UnlockState::AskDecrypt { request: request(0) };
    let decrypted = bch_encrypted_key { magic: 0x7965_6b2a_2a68_6363, key: bch_key { key: [1; 4] } };
    let next = state.step(UnlockEvent::Decrypted { status: 0, decrypted });
    assert_eq!(next, done(Err(KeyError::VerificationFailed)));
    let (state, _) = next.unwrap();
    assert_eq!(
        state.step(UnlockEvent::KeyAdded { ret: 1, errno: 0 }),
        done(Err(KeyError::VerificationFailed))
    );
}

#[test]
fn ask_policy_reports_a_failing_cipher() {
    let state = UnlockState::AskDecrypt { request: request(0) };
    let decrypted = bch_encrypted_key { magic: BCH_KEY_MAGIC, key: bch_key { key: [1; 4] } };
    assert_eq!(
        state.step(UnlockEvent::Decrypted { status: -1, decrypted }),
        done(Err(KeyError::DecryptionFailed))
    );
    assert_eq!(
        state.step(UnlockEvent::Decrypted { status: 1, decrypted }),
        done(Err(KeyError::DecryptionFailed))
    );
}

#[test]
fn ask_policy_refuses_another_key_derivation_function() {
    let state = UnlockState::AskPassphrase { request: request(1) };
    assert_eq!(
        state.step(UnlockEvent::PassphraseRead { passphrase: String::from("secret") }),
        done(Err(KeyError::UnsupportedKdf))
    );
}

#[test]
fn ask_policy_reports_what_the_keyring_refused() {
    assert_eq!(
        UnlockState::AskInstall.step(UnlockEvent::KeyAdded { ret: -1, errno: 122 }),
        done(Err(KeyError::KeyringOperationFailed(122)))
    );
}

#[test]
fn passphrase_loses_the_white_space_at_its_end_only() {
    let state = UnlockState::AskPassphrase { request: request(0) };
    let trimmed = |typed: &str| match state
        .step(UnlockEvent::PassphraseRead { passphrase: String::from(typed) })
    {
        Some((_, UnlockAction::DeriveKey { passphrase, .. })) => passphrase,
        other => panic!("{:?}", other),
    };
    assert_eq!(trimmed("secret\n"), "secret");
    assert_eq!(trimmed("  two words  "), "  two words");
    assert_eq!(trimmed("tab\t"), "tab");
    assert_eq!(trimmed("wide\u{3000}\u{2003}"), "wide");
    assert_eq!(trimmed("plain"), "plain");
    assert_eq!(trimmed(" \n"), "");
    assert_eq!(trimmed(""), "");
    assert_eq!(trimmed("zero\u{200b}"), "zero\u{200b}");
}

#[test]
fn events_that_answer_nothing_are_refused() {
    let key = bch_key { key: [0; 4] };
    let decrypted = bch_encrypted_key { magic: BCH_KEY_MAGIC, key };
    assert_eq!(UnlockState::WaitLookup { uuid: U }.step(UnlockEvent::Slept), None);
    assert_eq!(
        UnlockState::WaitSleep { uuid: U }.step(UnlockEvent::KeySearched { key_id: 1, errno: 0 }),
        None
    );
    assert_eq!(
        UnlockState::AskLookup { request: request(0) }.step(UnlockEvent::KeyDerived { key }),
        None
    );
    assert_eq!(
        UnlockState::AskPassphrase { request: request(0) }
            .step(UnlockEvent::Decrypted { status: 0, decrypted }),
        None
    );
    assert_eq!(
        UnlockState::AskDerive { request: request(0) }
            .step(UnlockEvent::Decrypted { status: 0, decrypted }),
        None
    );
    assert_eq!(
        UnlockState::AskDecrypt { request: request(0) }.step(UnlockEvent::KeyDerived { key }),
        None
    );
    assert_eq!(UnlockState::AskInstall.step(UnlockEvent::Decrypted { status: 0, decrypted }), None);
}

#[test]
fn an_attempt_that_is_over_answers_with_its_result() {
    let over = UnlockState::Finished { result: Ok(()) };
    assert_eq!(over.step(UnlockEvent::Slept), done(Ok(())));
    assert_eq!(over.step(UnlockEvent::KeySearched { key_id: -1, errno: 126 }), done(Ok(())));
}
