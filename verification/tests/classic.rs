use aegis_vault::classic_decrypt::{classic_refusal_message, ClassicDecryptTask};
use aegis_vault::classic_encrypt::{classic_sealing_message, ClassicEncryptTask};
use aegis_vault::header::ClassicHeader;
use aegis_vault::key::{derive_secure_key, MasterKey};
use aegis_vault::stream::{OpenFailure, SealFailure, SealStream};
use aegis_vault::task::{Action, Event, CLASSIC_BUFFER_SIZE};

const PASSWORD: &[u8] = b"correct horse";

/// Serves the actions of a task from memory.
struct Machine {
    source: Vec<u8>,
    at: usize,
    output: Option<(String, Vec<u8>)>,
    /// The kinds of the actions, in order.
    log: Vec<&'static str>,
    /// The first action of this kind fails.
    broken: &'static str,
}

fn kind(action: &Action) -> &'static str {
    match action {
        Action::OpenSource(_) => "open",
        Action::ReadMetadata => "metadata",
        Action::CreateOutput(_) => "create",
        Action::WriteOutput(_) => "write",
        Action::ReadSome(_) => "read",
        Action::ReadExact(_) => "read exactly",
        _ => "other",
    }
}

impl Machine {
    fn new(source: &[u8]) -> Machine {
        Machine { source: source.to_vec(), at: 0, output: None, log: Vec::new(), broken: "" }
    }

    fn breaking(source: &[u8], broken: &'static str) -> Machine {
        Machine { broken, ..Machine::new(source) }
    }

    fn written(&self) -> &[u8] {
        &self.output.as_ref().unwrap().1
    }

    fn serve(&mut self, action: Action) -> Event {
        self.log.push(kind(&action));
        if kind(&action) == self.broken {
            return Event::Failed("no luck".to_string());
        }
        match action {
            Action::OpenSource(_) => Event::Done,
            Action::ReadMetadata => Event::Size(self.source.len() as u64),
            Action::ReadSome(len) => {
                let len = len.min(self.source.len() - self.at);
                self.at += len;
                Event::Data(self.source[self.at - len..self.at].to_vec())
            }
            Action::ReadExact(len) => {
                if self.source.len() - self.at < len {
                    return Event::Failed("failed to fill whole buffer".to_string());
                }
                self.at += len;
                Event::Data(self.source[self.at - len..self.at].to_vec())
            }
            Action::CreateOutput(path) => {
                self.output = Some((path, Vec::new()));
                Event::Done
            }
            Action::WriteOutput(bytes) => {
                self.output.as_mut().unwrap().1.extend(bytes);
                Event::Done
            }
            other => panic!("unexpected {:?}", other),
        }
    }
}

fn encrypt(path: &str, password: &[u8], machine: &mut Machine) -> Result<String, String> {
    let task = ClassicEncryptTask::new(password.to_vec(), path.to_string());
    let (mut task, mut action) = task.next(Event::Done);
    loop {
        if let Action::Finish(result) = action {
            assert!(!task.expects(&Event::Done));
            return result;
        }
        let event = machine.serve(action);
        assert!(task.expects(&event));
        let (next, asked) = task.next(event);
        task = next;
        action = asked;
    }
}

fn decrypt(path: &str, password: &[u8], machine: &mut Machine) -> Result<String, String> {
    let task = ClassicDecryptTask::new(password.to_vec(), path.to_string());
    let (mut task, mut action) = task.next(Event::Done);
    loop {
        if let Action::Finish(result) = action {
            assert!(!task.expects(&Event::Done));
            return result;
        }
        let event = machine.serve(action);
        assert!(task.expects(&event));
        let (next, asked) = task.next(event);
        task = next;
        action = asked;
    }
}

/// A classic vault with a single iteration.
fn cheap_vault(password: &[u8], plain: &[u8]) -> Vec<u8> {
    let header = ClassicHeader { salt: [5; 16], nonce: [6; 7], iterations: 1 };
    let key = derive_secure_key(password, &header.salt, 1);
    let mut stream =
        SealStream::new(MasterKey::from_bytes(key.key_bytes), header.nonce, plain.len() as u64);
    let mut vault = header.encode();
    for chunk in plain.chunks(CLASSIC_BUFFER_SIZE) {
        vault.extend(stream.seal(chunk).ok().unwrap().bytes);
    }
    vault
}

fn pattern(len: usize) -> Vec<u8> {
    (0..len).map(|i| (i % 251) as u8).collect()
}

fn hex(bytes: &[u8]) -> String {
    bytes.iter().map(|b| format!("{:02x}", b)).collect()
}

#[test]
fn classic_encrypting_asks_for_these_actions() {
    let mut machine = Machine::new(b"classic secret");
    let result = encrypt("/tmp/notes.txt", PASSWORD, &mut machine);
    assert_eq!(result, Ok("Vault generated at: \"/tmp/notes.txt.aegis\"".to_string()));
    assert_eq!(machine.log, vec!["open", "metadata", "create", "write", "read", "write"]);
    assert_eq!(machine.output.as_ref().unwrap().0, "/tmp/notes.txt.aegis");
    assert_eq!(machine.written().len(), 27 + 14 + 16);
}

#[test]
fn a_classic_vault_under_a_given_header() {
    let mut machine = Machine::new(b"classic secret");
    let (task, _) = ClassicEncryptTask::new(PASSWORD.to_vec(), "notes".to_string())
        .next(Event::Done);
    let (task, _) = task.next(Event::Done);
    let (task, action) = task.next(Event::Size(14));
    machine.serve(action);
    let header = ClassicHeader::new(
        [0, 1, 2, 3, 4, 5, 6, 7, 8, 9, 10, 11, 12, 13, 14, 15],
        [100, 101, 102, 103, 104, 105, 106],
    );
    let (mut task, mut action) = task.start_vault(header);
    loop {
        if let Action::Finish(result) = action {
            assert!(result.is_ok());
            break;
        }
        let event = machine.serve(action);
        let (next, asked) = task.next(event);
        task = next;
        action = asked;
    }
    assert_eq!(
        hex(machine.written()),
        "000102030405060708090a0b0c0d0e0f".to_string()
            + "6465666768696a"
            + "00055730"
            + "cdb207a47d8e8fd2ec102c23d2543f01c13b745f6b248c8b3a49b6564fee"
    );
}

#[test]
fn classic_encrypting_and_decrypting_gives_the_file_back() {
    let plain = pattern(2 * CLASSIC_BUFFER_SIZE + 100);
    let mut machine = Machine::new(&plain);
    assert!(encrypt("notes.txt", PASSWORD, &mut machine).is_ok());
    let vault = machine.written().to_vec();
    assert_eq!(vault.len(), 27 + plain.len() + 3 * 16);

    let mut machine = Machine::new(&vault);
    let result = decrypt("notes.txt.aegis", PASSWORD, &mut machine);
    assert_eq!(result, Ok("Decrypted file saved at: \"notes.txt\"".to_string()));
    assert_eq!(machine.written(), &plain[..]);
}

#[test]
fn an_empty_file_becomes_a_bare_classic_header() {
    let mut machine = Machine::new(b"");
    assert!(encrypt("empty", PASSWORD, &mut machine).is_ok());
    assert_eq!(machine.written().len(), 27);

    let mut machine = Machine::new(&cheap_vault(PASSWORD, b""));
    assert!(decrypt("empty.aegis", b"any password", &mut machine).is_ok());
    assert_eq!(machine.written(), b"");
}

#[test]
fn classic_vaults_of_many_sizes_open() {
    let chunk = CLASSIC_BUFFER_SIZE;
    for len in [1, chunk - 1, chunk, chunk + 1, 2 * chunk, 3 * chunk + 7] {
        let plain = pattern(len);
        let mut machine = Machine::new(&cheap_vault(PASSWORD, &plain));
        assert!(decrypt("notes.aegis", PASSWORD, &mut machine).is_ok());
        assert_eq!(machine.written(), &plain[..]);
    }
}

#[test]
fn classic_decrypting_asks_for_these_actions() {
    let mut machine = Machine::new(&cheap_vault(PASSWORD, b"classic secret"));
    let result = decrypt("backup.bin", PASSWORD, &mut machine);
    assert_eq!(result, Ok("Decrypted file saved at: \"backup.decrypted\"".to_string()));
    assert_eq!(
        machine.log,
        vec!["open", "metadata", "read exactly", "create", "read exactly", "write"]
    );
    assert_eq!(machine.output.as_ref().unwrap().0, "backup.decrypted");
}

#[test]
fn a_wrong_password_does_not_open_a_classic_vault() {
    let mut machine = Machine::new(&cheap_vault(PASSWORD, b"classic secret"));
    assert_eq!(
        decrypt("notes.aegis", b"incorrect horse", &mut machine),
        Err("Wrong password or corrupted file.".to_string())
    );
    let mut machine = Machine::new(&cheap_vault(PASSWORD, &pattern(CLASSIC_BUFFER_SIZE + 1)));
    assert_eq!(
        decrypt("notes.aegis", b"incorrect horse", &mut machine),
        Err("Decryption Processing Failed".to_string())
    );
    assert_eq!(machine.written(), b"");
}

#[test]
fn damaged_classic_vaults_are_refused() {
    let vault = cheap_vault(PASSWORD, b"classic secret");
    for at in 0..vault.len() {
        if (23..26).contains(&at) {
            // More iterations than a test has time for.
            continue;
        }
        let mut damaged = vault.clone();
        damaged[at] ^= 2;
        let mut machine = Machine::new(&damaged);
        assert_eq!(
            decrypt("notes.aegis", PASSWORD, &mut machine),
            Err("Wrong password or corrupted file.".to_string())
        );
    }
}

#[test]
fn cut_classic_vaults_are_refused() {
    let vault = cheap_vault(PASSWORD, b"classic secret");
    let mut machine = Machine::new(&vault[..26]);
    assert_eq!(
        decrypt("notes.aegis", PASSWORD, &mut machine),
        Err("failed to fill whole buffer".to_string())
    );
    assert_eq!(machine.output, None);
    let mut machine = Machine::new(&vault[..40]);
    assert_eq!(
        decrypt("notes.aegis", PASSWORD, &mut machine),
        Err("Wrong password or corrupted file.".to_string())
    );
}

#[test]
fn failed_classic_tasks_pass_the_reason_on() {
    for broken in ["open", "metadata", "create", "write"] {
        let mut machine = Machine::breaking(b"secret", broken);
        assert_eq!(encrypt("notes", PASSWORD, &mut machine), Err("no luck".to_string()));
        assert_eq!(machine.log.last(), Some(&broken));
    }
    let vault = cheap_vault(PASSWORD, b"classic secret");
    for broken in ["open", "metadata", "read exactly", "create", "write"] {
        let mut machine = Machine::breaking(&vault, broken);
        assert_eq!(decrypt("notes.aegis", PASSWORD, &mut machine), Err("no luck".to_string()));
        assert_eq!(machine.log.last(), Some(&broken));
    }
}

#[test]
fn a_size_below_the_header_is_not_expected() {
    let vault = cheap_vault(PASSWORD, b"classic secret");
    let (task, _) = ClassicDecryptTask::new(PASSWORD.to_vec(), "v.aegis".to_string())
        .next(Event::Done);
    let (task, _) = task.next(Event::Done);
    let (task, action) = task.next(Event::Size(26));
    assert_eq!(action, Action::ReadExact(27));
    let (task, action) = task.next(Event::Data(vault[..27].to_vec()));
    assert_eq!(action, Action::CreateOutput("v".to_string()));
    assert!(!task.expects(&Event::Done));
    assert!(task.expects(&Event::Failed(String::new())));
}

#[test]
fn messages_of_the_classic_cipher() {
    assert_eq!(classic_sealing_message(SealFailure::Segment), "Encryption Processing Failed");
    assert_eq!(classic_sealing_message(SealFailure::Last), "Encryption Finalization Failed");
    assert_eq!(classic_refusal_message(OpenFailure::Last), "Wrong password or corrupted file.");
    assert_eq!(classic_refusal_message(OpenFailure::Segment), "Decryption Processing Failed");
}
