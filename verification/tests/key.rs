use aegis_vault::key::{
    can_derive, derive_secure_key, AegisMasterKey, MasterKey, ProtectedBuffer, ARGON2_ITERS,
    ARGON2_MEM_KIB, ARGON2_PARALLEL, PBKDF2_ITERATIONS,
};

fn hex(bytes: &[u8]) -> String {
    bytes.iter().map(|b| format!("{:02x}", b)).collect()
}

fn derive(mem: u32, iters: u32, lanes: u32) -> Result<String, String> {
    MasterKey::derive(b"password", b"somesalt", mem, iters, lanes).map(|k| hex(k.as_bytes()))
}

#[test]
fn argon2id_known_answers() {
    assert_eq!(
        derive(256, 2, 1).unwrap(),
        "9dfeb910e80bad0311fee20f9c0e2b12c17987b4cac90c2ef54d5b3021c68bfe"
    );
    assert_eq!(
        derive(256, 2, 2).unwrap(),
        "6d093c501fd5999645e0ea3bf620d7b8be7fd2db59c20d9fff9539da2bf57037"
    );
}

#[test]
fn argon2id_under_the_costs_of_a_new_vault() {
    let salt: Vec<u8> = (0..16).collect();
    let key = MasterKey::derive(
        b"correct horse",
        &salt,
        ARGON2_MEM_KIB,
        ARGON2_ITERS,
        ARGON2_PARALLEL,
    )
    .unwrap();
    assert_eq!(
        hex(key.as_bytes()),
        "577f1ff37e9a3e52c97d39f8e83891c1b73b0e87ffe0429cee8ede2fb005fe44"
    );
}

#[test]
fn costs_of_new_vaults() {
    assert_eq!((ARGON2_MEM_KIB, ARGON2_ITERS, ARGON2_PARALLEL), (64 * 1024, 3, 4));
    assert_eq!(PBKDF2_ITERATIONS, 350_000);
}

#[test]
fn argon2_refuses_bad_costs() {
    assert_eq!(derive(7, 1, 1).unwrap_err(), "Argon2 params error: memory cost is too small");
    assert_eq!(derive(15, 1, 2).unwrap_err(), "Argon2 params error: memory cost is too small");
    assert_eq!(derive(8, 0, 1).unwrap_err(), "Argon2 params error: time cost is too small");
    assert_eq!(derive(8, 1, 0).unwrap_err(), "Argon2 params error: not enough threads");
    assert_eq!(
        derive(u32::MAX, 1, 0x100_0000).unwrap_err(),
        "Argon2 params error: too many threads"
    );
    assert!(derive(8, 1, 1).is_ok());
    assert!(derive(16, 1, 2).is_ok());
}

#[test]
fn argon2_refuses_a_short_salt() {
    let refused = MasterKey::derive(b"password", b"1234567", 8, 1, 1);
    assert_eq!(
        refused.map(|k| hex(k.as_bytes())).unwrap_err(),
        "Key derivation failed: salt is too short"
    );
    assert!(MasterKey::derive(b"password", b"12345678", 8, 1, 1).is_ok());
}

#[test]
fn an_empty_password_derives_a_key() {
    assert!(MasterKey::derive(b"", b"somesalt", 8, 1, 1).is_ok());
}

#[test]
fn every_argument_matters_to_the_key() {
    let base = hex(MasterKey::derive(b"password", b"somesalt", 8, 1, 1).unwrap().as_bytes());
    let others = vec![
        MasterKey::derive(b"passwore", b"somesalt", 8, 1, 1),
        MasterKey::derive(b"password", b"somesalu", 8, 1, 1),
        MasterKey::derive(b"password", b"somesalt", 16, 1, 1),
        MasterKey::derive(b"password", b"somesalt", 8, 2, 1),
        MasterKey::derive(b"password", b"somesalt", 16, 1, 2),
    ];
    for other in others {
        assert_ne!(hex(other.unwrap().as_bytes()), base);
    }
}

#[test]
fn costs_that_can_be_asked_about() {
    assert!(can_derive(ARGON2_MEM_KIB, ARGON2_ITERS, ARGON2_PARALLEL));
    assert!(can_derive(0, 0, 0));
    assert!(can_derive(7, 1, u32::MAX));
    assert!(can_derive(8, 1, 0x1FFF_FFFF));
    assert!(!can_derive(8, 1, 0x2000_0000));
    assert!(!can_derive(u32::MAX, 1, u32::MAX));
}

#[test]
fn pbkdf2_known_answers() {
    assert_eq!(
        hex(&derive_secure_key(b"password", b"salt", 1).key_bytes),
        "120fb6cffcf8b32c43e7225256c4f837a86548c92ccc35480805987cb70be17b"
    );
    assert_eq!(
        hex(&derive_secure_key(b"password", b"salt", 4096).key_bytes),
        "c5e478d59288c841aa530db6845c4c8d962893a001ce4e11a4963873aa98134a"
    );
    assert_eq!(
        hex(
            &derive_secure_key(
                b"passwordPASSWORDpassword",
                b"saltSALTsaltSALTsaltSALTsaltSALTsalt",
                4096,
            )
            .key_bytes
        ),
        "348c89dbcbd32b2f32d814b8116e84cf2b17347ebc1800181c4e2a1fb8dd53e1"
    );
}

#[test]
fn keys_and_passwords_are_wiped() {
    let mut key = MasterKey::from_bytes([7; 32]);
    assert_eq!(key.as_bytes(), &[7; 32]);
    key.zeroize();
    assert_eq!(key.as_bytes(), &[0; 32]);

    let mut classic = AegisMasterKey { key_bytes: [9; 32] };
    classic.zeroize();
    assert_eq!(classic.key_bytes, [0; 32]);

    let mut password = ProtectedBuffer::new(vec![1, 2, 3]);
    assert_eq!(password.data, vec![1, 2, 3]);
    password.zeroize();
    assert!(password.data.is_empty());
}
