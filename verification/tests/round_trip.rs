use aegis_vault::classic_round_trip::{
    classic_decrypt_in_memory, classic_encrypt_in_memory, rehearse_classic,
};
use aegis_vault::header::{ClassicHeader, Header};
use aegis_vault::key::{derive_secure_key, MasterKey};
use aegis_vault::machine::Memory;
use aegis_vault::round_trip::{decrypt_in_memory, encrypt_in_memory, rehearse};
use aegis_vault::stream::SealStream;
use aegis_vault::task::{Action, Event, BUFFER_SIZE, CLASSIC_BUFFER_SIZE};

const PASSWORD: &[u8] = b"correct horse";
const SALT: [u8; 16] = [0, 1, 2, 3, 4, 5, 6, 7, 8, 9, 10, 11, 12, 13, 14, 15];
const NONCE: [u8; 12] = [100, 101, 102, 103, 104, 105, 106, 107, 108, 109, 110, 111];

fn hex(bytes: &[u8]) -> String {
    bytes.iter().map(|b| format!("{:02x}", b)).collect()
}

fn pattern(len: usize) -> Vec<u8> {
    (0..len).map(|i| (i % 251) as u8).collect()
}

/// A vault under the cheapest costs.
fn cheap_vault(plain: &[u8]) -> Vec<u8> {
    let header = Header { salt: SALT, nonce: NONCE, mem_kib: 8, iters: 1, parallel: 1 };
    let key = MasterKey::derive(PASSWORD, &SALT, 8, 1, 1).ok().unwrap();
    let mut stream = SealStream::new(key, header.stream_nonce(), plain.len() as u64);
    let mut vault = header.encode();
    for chunk in plain.chunks(BUFFER_SIZE) {
        vault.extend(stream.seal(chunk).ok().unwrap().bytes);
    }
    vault
}

/// A classic vault with a single iteration.
fn cheap_classic_vault(plain: &[u8]) -> Vec<u8> {
    let header = ClassicHeader { salt: SALT, nonce: [6; 7], iterations: 1 };
    let key = derive_secure_key(PASSWORD, &SALT, 1);
    let mut stream =
        SealStream::new(MasterKey::from_bytes(key.key_bytes), header.nonce, plain.len() as u64);
    let mut vault = header.encode();
    for chunk in plain.chunks(CLASSIC_BUFFER_SIZE) {
        vault.extend(stream.seal(chunk).ok().unwrap().bytes);
    }
    vault
}

#[test]
fn memory_serves_actions() {
    let mut memory = Memory::new(vec![1, 2, 3, 4, 5]);
    assert_eq!(memory.serve(Action::OpenSource("p".to_string())), Event::Done);
    assert_eq!(memory.serve(Action::ReadMetadata), Event::Size(5));
    assert_eq!(memory.serve(Action::StatFile("p".to_string())), Event::Size(5));
    assert_eq!(memory.serve(Action::ReadExact(2)), Event::Data(vec![1, 2]));
    assert_eq!(memory.serve(Action::ReadExact(4)), Event::Failed("early eof".to_string()));
    assert_eq!(memory.serve(Action::ReadSome(2)), Event::Data(vec![3, 4]));
    assert_eq!(memory.serve(Action::ReadSome(2)), Event::Data(vec![5]));
    assert_eq!(memory.serve(Action::ReadSome(2)), Event::Data(vec![]));
    assert_eq!(memory.serve(Action::CreateOutput("q".to_string())), Event::Done);
    assert_eq!(memory.serve(Action::WriteOutput(vec![7])), Event::Done);
    assert_eq!(memory.serve(Action::WriteOutput(vec![8, 9])), Event::Done);
    assert_eq!(memory.created, Some("q".to_string()));
    assert_eq!(memory.output, Some(vec![7, 8, 9]));
    assert!(!memory.removed);
    assert_eq!(memory.serve(Action::RemoveFile("p".to_string())), Event::Done);
    assert!(memory.removed);
}

#[test]
fn a_vault_made_in_memory() {
    let end = encrypt_in_memory(
        PASSWORD.to_vec(),
        "notes".to_string(),
        SALT,
        NONCE,
        b"vault secret".to_vec(),
    )
    .unwrap();
    assert_eq!(end.result, Ok("Encrypted → \"notes.aegis\"".to_string()));
    assert_eq!(end.memory.created, Some("notes.aegis".to_string()));
    assert!(end.memory.removed);
    assert_eq!(
        hex(&end.memory.output.unwrap()),
        "414547495332".to_string()
            + "000102030405060708090a0b0c0d0e0f"
            + "6465666768696a6b6c6d6e6f"
            + "000100000000000300000004"
            + "703f3021dac4bcfdff4bfd60bcdc6d1e4714a905c2c70b6b63a0ea54"
    );
}

#[test]
fn a_vault_opened_in_memory() {
    let plain = pattern(BUFFER_SIZE + 9);
    let vault = cheap_vault(&plain);
    let end = decrypt_in_memory(PASSWORD.to_vec(), "notes.aegis".to_string(), vault.clone());
    assert_eq!(end.result, Ok("Decrypted → \"notes\"".to_string()));
    assert_eq!(end.memory.created, Some("notes".to_string()));
    assert_eq!(end.memory.output, Some(plain));
    assert_eq!(end.memory.source, vault);
    assert!(!end.memory.removed);
}

#[test]
fn refusals_in_memory() {
    let vault = cheap_vault(b"vault secret");
    let end = decrypt_in_memory(b"wrong".to_vec(), "notes.aegis".to_string(), vault.clone());
    assert_eq!(end.result, Err("Wrong password or corrupted vault.".to_string()));
    let end =
        decrypt_in_memory(PASSWORD.to_vec(), "notes.aegis".to_string(), vault[..20].to_vec());
    assert_eq!(end.result, Err("early eof".to_string()));
    assert_eq!(end.memory.output, None);
}

#[test]
fn a_rehearsal_gives_the_file_back() {
    let plain = pattern(BUFFER_SIZE + 1);
    let end =
        rehearse(PASSWORD.to_vec(), "a/notes.txt".to_string(), SALT, NONCE, plain.clone()).unwrap();
    assert_eq!(end.result, Ok("Decrypted → \"a/notes.txt\"".to_string()));
    assert_eq!(end.memory.created, Some("a/notes.txt".to_string()));
    assert_eq!(end.memory.output, Some(plain));
}

#[test]
fn a_classic_vault_made_in_memory() {
    let end = classic_encrypt_in_memory(
        PASSWORD.to_vec(),
        "notes".to_string(),
        SALT,
        [100, 101, 102, 103, 104, 105, 106],
        b"classic secret".to_vec(),
    )
    .unwrap();
    assert_eq!(end.result, Ok("Vault generated at: \"notes.aegis\"".to_string()));
    assert!(!end.memory.removed);
    assert_eq!(
        hex(&end.memory.output.unwrap()),
        "000102030405060708090a0b0c0d0e0f".to_string()
            + "6465666768696a"
            + "00055730"
            + "cdb207a47d8e8fd2ec102c23d2543f01c13b745f6b248c8b3a49b6564fee"
    );
}

#[test]
fn a_classic_vault_opened_in_memory() {
    let plain = pattern(CLASSIC_BUFFER_SIZE + 9);
    let vault = cheap_classic_vault(&plain);
    let end =
        classic_decrypt_in_memory(PASSWORD.to_vec(), "notes.bin".to_string(), vault.clone());
    assert_eq!(end.result, Ok("Decrypted file saved at: \"notes.decrypted\"".to_string()));
    assert_eq!(end.memory.output, Some(plain));
    let end = classic_decrypt_in_memory(b"wrong".to_vec(), "notes.bin".to_string(), vault);
    assert_eq!(end.result, Err("Decryption Processing Failed".to_string()));
}

#[test]
fn a_classic_rehearsal_gives_the_file_back() {
    let plain = pattern(CLASSIC_BUFFER_SIZE + 1);
    let end = rehearse_classic(
        PASSWORD.to_vec(),
        "notes.txt".to_string(),
        SALT,
        [100, 101, 102, 103, 104, 105, 106],
        plain.clone(),
    )
    .unwrap();
    assert_eq!(end.result, Ok("Decrypted file saved at: \"notes.txt\"".to_string()));
    assert_eq!(end.memory.created, Some("notes.txt".to_string()));
    assert_eq!(end.memory.output, Some(plain));
}
