use aegis_vault::decrypt::{refusal_message, DecryptTask};
use aegis_vault::encrypt::{sealing_message, EncryptTask};
use aegis_vault::header::Header;
use aegis_vault::key::MasterKey;
use aegis_vault::stream::{OpenFailure, SealFailure, SealStream};
use aegis_vault::task::{Action, Event, Progress, BUFFER_SIZE};

const PASSWORD: &[u8] = b"correct horse";

/// Serves the actions of a task from memory.
struct Machine {
    source: Vec<u8>,
    at: usize,
    output: Option<(String, Vec<u8>)>,
    reports: Vec<Progress>,
    /// The kinds of the actions, in order.
    log: Vec<&'static str>,
    overwritten: usize,
    removed: Option<String>,
    /// The first action of this kind fails.
    broken: &'static str,
    /// Bytes that a single read gives at most.
    per_read: usize,
}

fn kind(action: &Action) -> &'static str {
    match action {
        Action::OpenSource(_) => "open",
        Action::ReadMetadata => "metadata",
        Action::CreateOutput(_) => "create",
        Action::WriteOutput(_) => "write",
        Action::ReadSome(_) => "read",
        Action::ReadExact(_) => "read exactly",
        Action::DeriveKey => "derive",
        Action::Report(_) => "report",
        Action::FlushOutput => "flush",
        Action::StatFile(_) => "stat",
        Action::OpenForOverwrite(_) => "open again",
        Action::Overwrite(_) => "overwrite",
        Action::FlushOverwrite => "flush again",
        Action::RemoveFile(_) => "remove",
        Action::Finish(_) => "finish",
    }
}

impl Machine {
    fn new(source: &[u8]) -> Machine {
        Machine {
            source: source.to_vec(),
            at: 0,
            output: None,
            reports: Vec::new(),
            log: Vec::new(),
            overwritten: 0,
            removed: None,
            broken: "",
            per_read: usize::MAX,
        }
    }

    fn breaking(source: &[u8], broken: &'static str) -> Machine {
        Machine { broken, ..Machine::new(source) }
    }

    fn written(&self) -> &[u8] {
        &self.output.as_ref().unwrap().1
    }

    fn serve(&mut self, action: Action) -> Event {
        self.log.push(kind(&action));
        if kind(&action) == self.broken {
            return Event::Failed("no luck".to_string());
        }
        match action {
            Action::ReadMetadata | Action::StatFile(_) => {
                return Event::Size(self.source.len() as u64)
            }
            Action::ReadSome(len) => {
                let len = len.min(self.per_read).min(self.source.len() - self.at);
                self.at += len;
                return Event::Data(self.source[self.at - len..self.at].to_vec());
            }
            Action::ReadExact(len) => {
                if self.source.len() - self.at < len {
                    return Event::Failed("early eof".to_string());
                }
                self.at += len;
                return Event::Data(self.source[self.at - len..self.at].to_vec());
            }
            Action::CreateOutput(path) => self.output = Some((path, Vec::new())),
            Action::WriteOutput(bytes) => self.output.as_mut().unwrap().1.extend(bytes),
            Action::Report(progress) => self.reports.push(progress),
            Action::Overwrite(bytes) => self.overwritten += bytes.len(),
            Action::RemoveFile(path) => self.removed = Some(path),
            _ => {}
        }
        Event::Done
    }
}

fn encrypt(path: &str, password: &[u8], machine: &mut Machine) -> Result<String, String> {
    let task = EncryptTask::new(password.to_vec(), path.to_string());
    assert!(task.expects(&Event::Done));
    let (mut task, mut action) = task.next(Event::Done);
    loop {
        if let Action::Finish(result) = action {
            assert!(!task.expects(&Event::Done));
            return result;
        }
        let event = machine.serve(action);
        assert!(task.expects(&event));
        let (next, asked) = task.next(event);
        task = next;
        action = asked;
    }
}

fn decrypt(path: &str, password: &[u8], machine: &mut Machine) -> Result<String, String> {
    let task = DecryptTask::new(password.to_vec(), path.to_string());
    assert!(task.expects(&Event::Done));
    let (mut task, mut action) = task.next(Event::Done);
    loop {
        if let Action::Finish(result) = action {
            assert!(!task.expects(&Event::Done));
            return result;
        }
        let event = machine.serve(action);
        assert!(task.expects(&event));
        let (next, asked) = task.next(event);
        task = next;
        action = asked;
    }
}

/// A vault under the cheapest costs.
fn cheap_vault(password: &[u8], plain: &[u8]) -> Vec<u8> {
    let header = Header {
        salt: [5; 16],
        nonce: [1, 2, 3, 4, 5, 6, 7, 8, 9, 10, 11, 12],
        mem_kib: 8,
        iters: 1,
        parallel: 1,
    };
    let key = MasterKey::derive(password, &header.salt, 8, 1, 1).ok().unwrap();
    let mut stream = SealStream::new(key, header.stream_nonce(), plain.len() as u64);
    let mut vault = header.encode();
    for chunk in plain.chunks(BUFFER_SIZE) {
        vault.extend(stream.seal(chunk).ok().unwrap().bytes);
    }
    vault
}

fn pattern(len: usize) -> Vec<u8> {
    (0..len).map(|i| (i % 251) as u8).collect()
}

fn hex(bytes: &[u8]) -> String {
    bytes.iter().map(|b| format!("{:02x}", b)).collect()
}

#[test]
fn encrypting_asks_for_these_actions() {
    let mut machine = Machine::new(b"vault secret");
    let result = encrypt("/tmp/notes.txt", PASSWORD, &mut machine);
    assert_eq!(result, Ok("Encrypted → \"/tmp/notes.txt.aegis\"".to_string()));
    assert_eq!(
        machine.log,
        vec![
            "open", "metadata", "create", "write", "derive", "report", "read", "write", "report",
            "flush", "stat", "open again", "overwrite", "flush again", "open again", "overwrite",
            "flush again", "open again", "overwrite", "flush again", "remove",
        ]
    );
    assert_eq!(
        machine.reports,
        vec![Progress::KeyReady, Progress::Streamed { done: 12, total: 12 }]
    );
    assert_eq!(machine.overwritten, 36);
    assert_eq!(machine.removed, Some("/tmp/notes.txt".to_string()));
    assert_eq!(machine.output.as_ref().unwrap().0, "/tmp/notes.txt.aegis");
    assert_eq!(machine.written().len(), 46 + 12 + 16);
}

#[test]
fn a_vault_under_a_given_header() {
    let mut machine = Machine::new(b"vault secret");
    let task = EncryptTask::new(PASSWORD.to_vec(), "notes".to_string());
    let (task, action) = task.next(Event::Done);
    assert_eq!(action, Action::OpenSource("notes".to_string()));
    let (task, action) = task.next(Event::Done);
    assert_eq!(action, Action::ReadMetadata);
    let (task, action) = task.next(Event::Size(12));
    assert_eq!(action, Action::CreateOutput("notes.aegis".to_string()));
    machine.serve(action);
    let header = Header::new(
        [0, 1, 2, 3, 4, 5, 6, 7, 8, 9, 10, 11, 12, 13, 14, 15],
        [100, 101, 102, 103, 104, 105, 106, 107, 108, 109, 110, 111],
    );
    let (mut task, mut action) = task.start_vault(header);
    while kind(&action) != "flush" {
        let event = machine.serve(action);
        let (next, asked) = task.next(event);
        task = next;
        action = asked;
    }
    assert_eq!(
        hex(machine.written()),
        "414547495332".to_string()
            + "000102030405060708090a0b0c0d0e0f"
            + "6465666768696a6b6c6d6e6f"
            + "000100000000000300000004"
            + "703f3021dac4bcfdff4bfd60bcdc6d1e4714a905c2c70b6b63a0ea54"
    );
}

#[test]
fn encrypting_and_decrypting_gives_the_file_back() {
    let plain = pattern(BUFFER_SIZE + 100);
    let mut machine = Machine::new(&plain);
    assert!(encrypt("notes.txt", PASSWORD, &mut machine).is_ok());
    let vault = machine.written().to_vec();
    assert_eq!(vault.len(), 46 + plain.len() + 2 * 16);
    assert_eq!(
        machine.reports,
        vec![
            Progress::KeyReady,
            Progress::Streamed { done: 262144, total: 262244 },
            Progress::Streamed { done: 262244, total: 262244 },
        ]
    );

    let mut machine = Machine::new(&vault);
    let result = decrypt("notes.txt.aegis", PASSWORD, &mut machine);
    assert_eq!(result, Ok("Decrypted → \"notes.txt\"".to_string()));
    assert_eq!(machine.written(), &plain[..]);
}

#[test]
fn an_empty_file_becomes_a_bare_header() {
    let mut machine = Machine::new(b"");
    assert!(encrypt("empty", PASSWORD, &mut machine).is_ok());
    assert_eq!(machine.written().len(), 46);
    assert_eq!(machine.reports, vec![Progress::KeyReady]);
    assert_eq!(machine.removed, Some("empty".to_string()));

    let mut machine = Machine::new(&cheap_vault(PASSWORD, b""));
    assert!(decrypt("empty.aegis", b"any other password", &mut machine).is_ok());
    assert_eq!(machine.written(), b"");
}

/// Encrypts with an action that fails; gives the machine as it is left.
fn encrypt_breaking(broken: &'static str, message: &str) -> Machine {
    let mut machine = Machine::breaking(b"secret", broken);
    assert_eq!(encrypt("notes", PASSWORD, &mut machine), Err(message.to_string()));
    assert_eq!(machine.log.last(), Some(&broken));
    assert_eq!(machine.removed, None);
    machine
}

#[test]
fn failed_encryptions_keep_the_source() {
    let cases = vec![
        ("open", "Cannot open file: no luck"),
        ("metadata", "Cannot read metadata: no luck"),
        ("create", "Cannot create output: no luck"),
        ("write", "no luck"),
        ("derive", "Thread panic: no luck"),
    ];
    for (broken, message) in cases {
        assert_eq!(encrypt_breaking(broken, message).overwritten, 0);
    }
}

#[test]
fn a_failed_read_keeps_the_source() {
    assert_eq!(encrypt_breaking("read", "no luck").overwritten, 0);
}

#[test]
fn a_failed_flush_keeps_the_source() {
    assert_eq!(encrypt_breaking("flush", "no luck").overwritten, 0);
}

#[test]
fn a_failed_look_at_the_source_keeps_it() {
    assert_eq!(encrypt_breaking("stat", "secure_delete metadata: no luck").overwritten, 0);
}

#[test]
fn failed_shredding_is_reported() {
    let machine = encrypt_breaking("remove", "secure_delete remove: no luck");
    assert_eq!(machine.overwritten, 18);
}

#[test]
fn short_reads_fill_the_segments() {
    let plain = pattern(100);
    let mut machine = Machine { per_read: 40, ..Machine::new(&plain) };
    assert!(encrypt("notes", PASSWORD, &mut machine).is_ok());
    let vault = machine.written().to_vec();
    assert_eq!(vault.len(), 46 + 100 + 16);
    assert_eq!(machine.log.iter().filter(|kind| **kind == "read").count(), 3);
    assert_eq!(
        machine.reports,
        vec![Progress::KeyReady, Progress::Streamed { done: 100, total: 100 }]
    );
    let mut machine = Machine::new(&vault);
    assert!(decrypt("notes.aegis", PASSWORD, &mut machine).is_ok());
    assert_eq!(machine.written(), &plain[..]);
}

/// An encryption that waits for its first read, where the source was announced
/// with `size` bytes.
fn reading(size: u64) -> EncryptTask {
    let task = EncryptTask::new(PASSWORD.to_vec(), "notes".to_string());
    let (task, _) = task.next(Event::Done);
    let (task, _) = task.next(Event::Done);
    let (task, _) = task.next(Event::Size(size));
    let (task, _) = task.next(Event::Done);
    let (task, _) = task.next(Event::Done);
    let (task, action) = task.next(Event::Done);
    assert_eq!(action, Action::Report(Progress::KeyReady));
    let (task, action) = task.next(Event::Done);
    assert_eq!(action, Action::ReadSome(BUFFER_SIZE));
    task
}

#[test]
fn a_read_asks_for_the_room_that_is_left() {
    let task = reading(2 * BUFFER_SIZE as u64);
    let (task, action) = task.next(Event::Data(vec![1; 100]));
    assert_eq!(action, Action::ReadSome(BUFFER_SIZE - 100));
    assert!(!task.expects(&Event::Data(vec![2; BUFFER_SIZE - 99])));
    let (task, action) = task.next(Event::Data(vec![2; BUFFER_SIZE - 100]));
    assert!(matches!(action, Action::WriteOutput(sealed) if sealed.len() == BUFFER_SIZE + 16));
    let (task, _) = task.next(Event::Done);
    let (_, action) = task.next(Event::Done);
    assert_eq!(action, Action::ReadSome(BUFFER_SIZE));
}

#[test]
fn a_source_that_ends_early_is_sealed_as_far_as_it_goes() {
    let task = reading(100);
    let (task, action) = task.next(Event::Data(vec![1; 60]));
    assert_eq!(action, Action::ReadSome(BUFFER_SIZE - 60));
    let (task, action) = task.next(Event::Data(vec![]));
    assert!(matches!(action, Action::WriteOutput(sealed) if sealed.len() == 76));
    let (task, action) = task.next(Event::Done);
    assert_eq!(action, Action::Report(Progress::Streamed { done: 60, total: 100 }));
    let (_, action) = task.next(Event::Done);
    assert_eq!(action, Action::FlushOutput);
}

/// The report after a first read of `read`, where the source was announced
/// with `size` bytes.
fn first_report(size: u64, read: &[u8]) -> Action {
    let task = reading(size);
    let (task, _) = task.next(Event::Data(read.to_vec()));
    let (_, action) = task.next(Event::Done);
    action
}

#[test]
fn progress_stays_within_a_size_of_nothing() {
    let report = first_report(0, b"abc");
    assert_eq!(report, Action::Report(Progress::Streamed { done: 1, total: 1 }));
}

#[test]
fn progress_stays_within_the_announced_size() {
    let report = first_report(10, &[7; 14]);
    assert_eq!(report, Action::Report(Progress::Streamed { done: 10, total: 10 }));
}

#[test]
fn decrypting_asks_for_these_actions() {
    let vault = cheap_vault(PASSWORD, b"vault secret");
    let mut machine = Machine::new(&vault);
    let result = decrypt("/tmp/notes.txt.aegis", PASSWORD, &mut machine);
    assert_eq!(result, Ok("Decrypted → \"/tmp/notes.txt\"".to_string()));
    assert_eq!(
        machine.log,
        vec![
            "open", "metadata", "read exactly", "read exactly", "derive", "report", "create",
            "read exactly", "write", "report", "flush",
        ]
    );
    assert_eq!(
        machine.reports,
        vec![Progress::KeyReady, Progress::Streamed { done: 28, total: 28 }]
    );
    assert_eq!(machine.output, Some(("/tmp/notes.txt".to_string(), b"vault secret".to_vec())));
    assert_eq!(machine.removed, None);
}

#[test]
fn vaults_of_many_sizes_open() {
    for len in [0, 1, BUFFER_SIZE - 1, BUFFER_SIZE, BUFFER_SIZE + 1, 2 * BUFFER_SIZE] {
        let plain = pattern(len);
        let mut machine = Machine::new(&cheap_vault(PASSWORD, &plain));
        assert!(decrypt("notes.aegis", PASSWORD, &mut machine).is_ok());
        assert_eq!(machine.written(), &plain[..]);
    }
}

#[test]
fn progress_of_a_decryption_counts_sealed_bytes() {
    let mut machine = Machine::new(&cheap_vault(PASSWORD, &pattern(BUFFER_SIZE + 1)));
    assert!(decrypt("notes.aegis", PASSWORD, &mut machine).is_ok());
    assert_eq!(
        machine.reports,
        vec![
            Progress::KeyReady,
            Progress::Streamed { done: 262160, total: 262177 },
            Progress::Streamed { done: 262177, total: 262177 },
        ]
    );
}

#[test]
fn a_wrong_password_is_refused() {
    let mut machine = Machine::new(&cheap_vault(PASSWORD, b"vault secret"));
    assert_eq!(
        decrypt("notes.aegis", b"incorrect horse", &mut machine),
        Err("Wrong password or corrupted vault.".to_string())
    );
    assert_eq!(machine.written(), b"");

    let mut machine = Machine::new(&cheap_vault(PASSWORD, &pattern(BUFFER_SIZE + 1)));
    assert_eq!(
        decrypt("notes.aegis", b"incorrect horse", &mut machine),
        Err("Decryption chunk failed — file may be corrupted.".to_string())
    );
    assert_eq!(machine.written(), b"");
}

#[test]
fn damaged_vaults_are_refused() {
    let vault = cheap_vault(PASSWORD, b"vault secret");
    for at in 6..vault.len() {
        if (34..46).contains(&at) {
            continue;
        }
        let mut damaged = vault.clone();
        damaged[at] ^= 1;
        let mut machine = Machine::new(&damaged);
        let result = decrypt("notes.aegis", PASSWORD, &mut machine);
        // The tail of the nonce is not used.
        if (29..34).contains(&at) {
            assert!(result.is_ok());
        } else {
            assert_eq!(result, Err("Wrong password or corrupted vault.".to_string()));
        }
    }
}

#[test]
fn other_files_are_not_vaults() {
    let mut vault = cheap_vault(PASSWORD, b"vault secret");
    vault[5] = b'1';
    let mut machine = Machine::new(&vault);
    assert_eq!(
        decrypt("notes.aegis", PASSWORD, &mut machine),
        Err("Not an Aegis vault file (wrong magic bytes).".to_string())
    );
    assert_eq!(machine.output, None);
}

#[test]
fn cut_vaults_are_refused() {
    let vault = cheap_vault(PASSWORD, b"vault secret");
    for len in [0, 5, 6, 45] {
        let mut machine = Machine::new(&vault[..len]);
        assert_eq!(
            decrypt("notes.aegis", PASSWORD, &mut machine),
            Err("early eof".to_string())
        );
        assert_eq!(machine.output, None);
    }
    for len in [47, 61, 73] {
        let mut machine = Machine::new(&vault[..len]);
        assert_eq!(
            decrypt("notes.aegis", PASSWORD, &mut machine),
            Err("Wrong password or corrupted vault.".to_string())
        );
    }
}

#[test]
fn bad_costs_in_a_header_are_named() {
    let header = Header { salt: [0; 16], nonce: [0; 12], mem_kib: 7, iters: 1, parallel: 1 };
    let mut machine = Machine::new(&header.encode());
    assert_eq!(
        decrypt("notes.aegis", PASSWORD, &mut machine),
        Err("Argon2 params error: memory cost is too small".to_string())
    );
    assert_eq!(machine.output, None);
}

#[test]
fn costs_that_argon2_cannot_be_asked_about_are_not_expected() {
    let header =
        Header { salt: [0; 16], nonce: [0; 12], mem_kib: 8, iters: 1, parallel: u32::MAX };
    let bytes = header.encode();
    let (task, _) = DecryptTask::new(PASSWORD.to_vec(), "v".to_string()).next(Event::Done);
    let (task, _) = task.next(Event::Done);
    let (task, _) = task.next(Event::Size(46));
    let (task, _) = task.next(Event::Data(bytes[..6].to_vec()));
    let (task, action) = task.next(Event::Data(bytes[6..].to_vec()));
    assert_eq!(action, Action::DeriveKey);
    assert!(!task.expects(&Event::Done));
    let (_, action) = task.next(Event::Failed("overflow".to_string()));
    assert_eq!(action, Action::Finish(Err("Thread panic: overflow".to_string())));
}

#[test]
fn failed_decryptions_are_reported() {
    let vault = cheap_vault(PASSWORD, b"vault secret");
    let cases = vec![
        ("open", "Cannot open file: no luck"),
        ("metadata", "Cannot read metadata: no luck"),
        ("read exactly", "no luck"),
        ("derive", "Thread panic: no luck"),
        ("create", "Cannot create output: no luck"),
        ("write", "no luck"),
        ("flush", "no luck"),
    ];
    for (broken, message) in cases {
        let mut machine = Machine::breaking(&vault, broken);
        assert_eq!(decrypt("notes.aegis", PASSWORD, &mut machine), Err(message.to_string()));
        assert_eq!(machine.log.last(), Some(&broken));
    }
}

#[test]
fn a_file_that_is_not_named_as_a_vault() {
    let mut machine = Machine::new(&cheap_vault(PASSWORD, b"vault secret"));
    let result = decrypt("backup.bin", PASSWORD, &mut machine);
    assert_eq!(result, Ok("Decrypted → \"backup.decrypted\"".to_string()));
    assert_eq!(machine.output, Some(("backup.decrypted".to_string(), b"vault secret".to_vec())));
}

#[test]
fn paths_are_quoted_and_escaped() {
    let mut machine = Machine::new(&cheap_vault(PASSWORD, b""));
    let result = decrypt("say \"hi\".aegis", PASSWORD, &mut machine);
    assert_eq!(result, Ok("Decrypted → \"say \\\"hi\\\"\"".to_string()));
}

#[test]
fn messages_of_the_cipher() {
    assert_eq!(sealing_message(SealFailure::Segment), "Encryption chunk failed");
    assert_eq!(sealing_message(SealFailure::Last), "Encryption finalisation failed");
    assert_eq!(refusal_message(OpenFailure::Last), "Wrong password or corrupted vault.");
    assert_eq!(
        refusal_message(OpenFailure::Segment),
        "Decryption chunk failed — file may be corrupted."
    );
}

#[test]
fn tasks_do_not_expect_what_they_did_not_ask_for() {
    let task = EncryptTask::new(PASSWORD.to_vec(), "notes".to_string());
    assert!(!task.expects(&Event::Failed(String::new())));
    assert!(!task.expects(&Event::Size(1)));
    let (task, _) = task.next(Event::Done);
    assert!(task.expects(&Event::Failed(String::new())));
    assert!(!task.expects(&Event::Data(vec![])));
    let (task, _) = task.next(Event::Done);
    assert!(!task.expects(&Event::Done));
    assert!(task.expects(&Event::Size(u64::MAX)));

    let task = DecryptTask::new(PASSWORD.to_vec(), "notes".to_string());
    let (task, _) = task.next(Event::Done);
    let (task, _) = task.next(Event::Done);
    let (task, action) = task.next(Event::Size(100));
    assert_eq!(action, Action::ReadExact(6));
    assert!(!task.expects(&Event::Data(vec![0; 5])));
    assert!(task.expects(&Event::Data(vec![0; 6])));
}
