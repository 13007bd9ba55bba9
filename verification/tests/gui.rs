use aegis_vault::classic_gui::{ClassicMessage, ClassicVaultGui, PERCENT_HALF};
use aegis_vault::gui::{
    ActionRow, AegisVaultGui, GuiCommand, Message, Percent, ProgressUpdate, PERCENT_ALL,
    PERCENT_MINUS_INFINITY, PERCENT_MINUS_ZERO, PERCENT_NONE, PERCENT_STREAMING,
};

fn percent(p: f32) -> ProgressUpdate {
    ProgressUpdate::Percent(Percent { bits: p.to_bits(), text: format!("{:.0}", p) })
}

fn filled(password: &str, path: &str) -> AegisVaultGui {
    let mut gui = AegisVaultGui::new();
    assert_eq!(gui.update(Message::PasswordChanged(password.to_string())), GuiCommand::Idle);
    assert_eq!(gui.update(Message::FilePathChanged(path.to_string())), GuiCommand::Idle);
    gui
}

fn classic(password: &str, path: &str) -> ClassicVaultGui {
    let mut gui = ClassicVaultGui::new();
    assert_eq!(
        gui.update(ClassicMessage::PasswordChanged(password.to_string())),
        GuiCommand::Idle
    );
    assert_eq!(gui.update(ClassicMessage::FilePathChanged(path.to_string())), GuiCommand::Idle);
    gui
}

#[test]
fn bit_patterns_of_percentages() {
    assert_eq!(f32::from_bits(PERCENT_NONE), 0.0);
    assert_eq!(f32::from_bits(PERCENT_STREAMING), 6.0);
    assert_eq!(f32::from_bits(PERCENT_HALF), 50.0);
    assert_eq!(f32::from_bits(PERCENT_ALL), 100.0);
    assert_eq!(PERCENT_MINUS_ZERO, (-0.0f32).to_bits());
    assert_eq!(PERCENT_MINUS_INFINITY, f32::NEG_INFINITY.to_bits());
    let rising = [0.0f32, 0.1, 5.0, 5.9999, 6.0, 6.0001, 50.0, 99.9, 100.0, 250.0];
    for pair in rising.windows(2) {
        assert!(pair[0].to_bits() < pair[1].to_bits());
    }
}

#[test]
fn the_window_as_it_opens() {
    let gui = AegisVaultGui::new();
    assert!(gui.password.data.is_empty());
    assert_eq!(gui.file_path, "");
    assert_eq!(gui.status_message, "Ready — awaiting your command.");
    assert_eq!(gui.progress, PERCENT_NONE);
    assert!(!gui.is_processing);
    assert!(!gui.listening);
    assert_eq!(gui.title(), "🛡️ Aegis Sovereign Vault v2");
    assert_eq!(gui.subscription(), None);
    assert_eq!(gui.action_row(), ActionRow::Buttons);
}

#[test]
fn short_passwords_are_refused() {
    for message in [Message::EncryptPressed, Message::DecryptPressed] {
        let mut gui = filled("elevenchars", "/tmp/notes");
        assert_eq!(gui.update(message), GuiCommand::Idle);
        assert_eq!(gui.status_message, "🚨 Password must be at least 12 characters.");
        assert_eq!(gui.password.data, b"elevenchars");
        assert_eq!(gui.file_path, "/tmp/notes");
        assert!(!gui.is_processing);
        assert_eq!(gui.progress, PERCENT_NONE);
    }
}

#[test]
fn missing_paths_are_refused() {
    for message in [Message::EncryptPressed, Message::DecryptPressed] {
        let mut gui = filled("twelve chars", "");
        assert_eq!(gui.update(message), GuiCommand::Idle);
        assert_eq!(gui.status_message, "🚨 Please enter a file path.");
        assert!(!gui.is_processing);
    }
    let mut gui = filled("", "");
    gui.update(Message::EncryptPressed);
    assert_eq!(gui.status_message, "🚨 Password must be at least 12 characters.");
}

#[test]
fn password_length_counts_bytes() {
    let mut gui = filled("éééééé", "/tmp/notes");
    assert_eq!(
        gui.update(Message::EncryptPressed),
        GuiCommand::Encrypt {
            password: "éééééé".as_bytes().to_vec(),
            path: "/tmp/notes".to_string(),
        }
    );
    let gui = filled("é€", "");
    assert_eq!(gui.password.data, vec![0xC3, 0xA9, 0xE2, 0x82, 0xAC]);
}

#[test]
fn requests_start_tasks() {
    let mut gui = filled("twelve chars", "/tmp/notes");
    let command = gui.update(Message::EncryptPressed);
    assert_eq!(
        command,
        GuiCommand::Encrypt { password: b"twelve chars".to_vec(), path: "/tmp/notes".to_string() }
    );
    assert_eq!(gui.status_message, "🔒 Deriving key with Argon2id… please wait.");
    assert!(gui.is_processing && gui.listening);
    assert_eq!(gui.subscription(), Some(33));
    assert_eq!(
        gui.action_row(),
        ActionRow::Busy("⏳ 🔒 Deriving key with Argon2id… please wait.".to_string())
    );

    let mut gui = filled("twelve chars", "/tmp/notes.aegis");
    let command = gui.update(Message::DecryptPressed);
    assert_eq!(
        command,
        GuiCommand::Decrypt {
            password: b"twelve chars".to_vec(),
            path: "/tmp/notes.aegis".to_string(),
        }
    );
    assert_eq!(gui.status_message, "🔓 Deriving key with Argon2id… please wait.");
}

#[test]
fn updates_move_the_bar() {
    let mut gui = filled("twelve chars", "/tmp/notes");
    gui.update(Message::EncryptPressed);
    gui.update(Message::ProgressTick(vec![percent(5.0)]));
    assert_eq!(gui.status_message, "Deriving key…  5%");
    assert_eq!(gui.progress, 5.0f32.to_bits());
    gui.update(Message::ProgressTick(vec![percent(5.9)]));
    assert_eq!(gui.status_message, "Deriving key…  6%");
    gui.update(Message::ProgressTick(vec![percent(6.0), percent(52.5)]));
    assert_eq!(gui.status_message, "Streaming…  52%");
    assert_eq!(gui.progress, 52.5f32.to_bits());
    gui.update(Message::ProgressTick(vec![]));
    assert_eq!(gui.status_message, "Streaming…  52%");
    assert!(gui.is_processing);
}

#[test]
fn the_stage_is_told_as_numbers_are_compared() {
    let numbers = [
        0.0f32, -0.0, 5.9, 6.0, 6.1, 100.0, 250.0, -1.0, -6.0, -100.0, f32::MIN, f32::MAX,
        f32::INFINITY, f32::NEG_INFINITY, f32::NAN, -f32::NAN,
    ];
    for p in numbers {
        let mut gui = AegisVaultGui::new();
        assert!(gui.receive(&percent(p)));
        let stage = if p < 6.0 { "Deriving key…" } else { "Streaming…" };
        assert_eq!(gui.status_message, format!("{stage}  {:.0}%", p));
    }
}

#[test]
fn updates_can_be_cloned() {
    for update in [
        percent(52.5),
        ProgressUpdate::Done(Ok("done".to_string())),
        ProgressUpdate::Done(Err("no luck".to_string())),
    ] {
        assert_eq!(update.clone(), update);
    }
}

#[test]
fn another_password_replaces_the_first() {
    let mut gui = filled("twelve chars", "/tmp/notes");
    gui.update(Message::PasswordChanged("other".to_string()));
    assert_eq!(gui.password.data, b"other");
}

#[test]
fn the_last_update_ends_the_task() {
    let mut gui = filled("twelve chars", "/tmp/notes");
    gui.update(Message::EncryptPressed);
    gui.update(Message::ProgressTick(vec![
        percent(100.0),
        ProgressUpdate::Done(Ok("all is well".to_string())),
        percent(7.0),
    ]));
    assert_eq!(gui.status_message, "✅ all is well");
    assert_eq!(gui.progress, PERCENT_ALL);
    assert!(!gui.is_processing && !gui.listening);
    gui.update(Message::ProgressTick(vec![percent(7.0)]));
    assert_eq!(gui.progress, PERCENT_ALL);

    gui.update(Message::DecryptPressed);
    assert_eq!(gui.progress, PERCENT_NONE);
    gui.update(Message::ProgressTick(vec![
        percent(40.0),
        ProgressUpdate::Done(Err("no luck".to_string())),
    ]));
    assert_eq!(gui.status_message, "🚨 no luck");
    assert_eq!(gui.progress, PERCENT_NONE);
    assert!(!gui.is_processing);
}

#[test]
fn a_received_update_says_whether_more_come() {
    let mut gui = AegisVaultGui::new();
    assert!(gui.receive(&percent(50.0)));
    assert!(!gui.receive(&ProgressUpdate::Done(Ok(String::new()))));
}

#[test]
fn the_end_of_a_task_changes_nothing_by_itself() {
    let mut gui = filled("twelve chars", "/tmp/notes");
    gui.update(Message::EncryptPressed);
    let command = gui.update(Message::OperationFinished(Ok(String::new())));
    assert_eq!(command, GuiCommand::Idle);
    assert!(gui.is_processing && gui.listening);
    assert_eq!(gui.status_message, "🔒 Deriving key with Argon2id… please wait.");
}

#[test]
fn the_classic_window_as_it_opens() {
    let gui = ClassicVaultGui::new();
    assert_eq!(gui.status_message, "Ready. Awaiting sovereign command...");
    assert_eq!(gui.title(), "🛡️ Aegis Sovereign Vault");
    assert_eq!(gui.progress, PERCENT_NONE);
    assert_eq!(gui.action_row(), ActionRow::Buttons);
}

#[test]
fn classic_requests_are_checked() {
    for (password, path) in [("7 bytes", "/tmp/notes"), ("8 bytes!", ""), ("", "")] {
        for message in [ClassicMessage::EncryptPressed, ClassicMessage::DecryptPressed] {
            let mut gui = classic(password, path);
            assert_eq!(gui.update(message), GuiCommand::Idle);
            assert_eq!(
                gui.status_message,
                "🚨 Error: Password >= 8 chars and path cannot be empty."
            );
            assert!(!gui.is_processing);
        }
    }
}

#[test]
fn classic_requests_start_tasks() {
    let mut gui = classic("8 bytes!", "/tmp/notes");
    let command = gui.update(ClassicMessage::EncryptPressed);
    assert_eq!(
        command,
        GuiCommand::Encrypt { password: b"8 bytes!".to_vec(), path: "/tmp/notes".to_string() }
    );
    assert_eq!(gui.status_message, "🔒 Streaming core active: Encrypting...");
    assert_eq!(gui.progress, PERCENT_HALF);
    assert_eq!(
        gui.action_row(),
        ActionRow::Busy("Processing stream securely. RAM footprint constant...".to_string())
    );
    gui.update(ClassicMessage::OperationFinished(Ok("done".to_string())));
    assert_eq!(gui.status_message, "✅ done");
    assert_eq!(gui.progress, PERCENT_ALL);
    assert!(!gui.is_processing);

    let command = gui.update(ClassicMessage::DecryptPressed);
    assert_eq!(
        command,
        GuiCommand::Decrypt { password: b"8 bytes!".to_vec(), path: "/tmp/notes".to_string() }
    );
    assert_eq!(gui.status_message, "🔓 Streaming core active: Decrypting...");
    gui.update(ClassicMessage::OperationFinished(Err("no luck".to_string())));
    assert_eq!(gui.status_message, "🚨 Failure: no luck");
    assert_eq!(gui.progress, PERCENT_NONE);
}
