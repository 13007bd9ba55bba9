//! The state behind the window for classic vaults.

use crate::gui::{ActionRow, CommandModel, GuiCommand, PERCENT_ALL, PERCENT_NONE};
use crate::task::{prefixed, result_text};
use vstd::prelude::*;

verus! {

/// Fewest bytes of a password for a classic vault.
pub const CLASSIC_MIN_PASSWORD: usize = 8;

/// The bit pattern of 50 percent.
pub const PERCENT_HALF: u32 = 0x4248_0000;

/// What the window is told.
#[derive(Debug, PartialEq, Eq)]
pub enum ClassicMessage {
    PasswordChanged(String),
    FilePathChanged(String),
    EncryptPressed,
    DecryptPressed,
    /// What a task came to.
    OperationFinished(Result<String, String>),
}

// ----- the model -----

/// The view of a message.
pub enum ClassicMessageModel {
    PasswordChanged(Seq<char>),
    FilePathChanged(Seq<char>),
    EncryptPressed,
    DecryptPressed,
    OperationFinished(Result<Seq<char>, Seq<char>>),
}

impl View for ClassicMessage {
    type V = ClassicMessageModel;

    open spec fn view(&self) -> ClassicMessageModel {
        match self {
            ClassicMessage::PasswordChanged(t) => ClassicMessageModel::PasswordChanged(t@),
            ClassicMessage::FilePathChanged(t) => ClassicMessageModel::FilePathChanged(t@),
            ClassicMessage::EncryptPressed => ClassicMessageModel::EncryptPressed,
            ClassicMessage::DecryptPressed => ClassicMessageModel::DecryptPressed,
            ClassicMessage::OperationFinished(r) => ClassicMessageModel::OperationFinished(
                result_text(*r),
            ),
        }
    }
}

/// The state of the window.
#[verifier::ext_equal]
pub struct ClassicGuiModel {
    pub password: Seq<char>,
    pub file_path: Seq<char>,
    pub status_message: Seq<char>,
    /// The bit pattern of the percentage on the bar.
    pub progress: u32,
    pub is_processing: bool,
}

impl ClassicGuiModel {
    /// The window as it opens.
    pub open spec fn fresh() -> ClassicGuiModel {
        ClassicGuiModel {
            password: Seq::empty(),
            file_path: Seq::empty(),
            status_message: "Ready. Awaiting sovereign command..."@,
            progress: PERCENT_NONE,
            is_processing: false,
        }
    }

    /// A task can be started.
    pub open spec fn accepts(self) -> bool {
        &&& vstd::utf8::encode_utf8(self.password).len() >= CLASSIC_MIN_PASSWORD
        &&& self.file_path.len() > 0
    }

    /// A request has been refused.
    pub open spec fn refused(self) -> ClassicGuiModel {
        ClassicGuiModel {
            status_message: "🚨 Error: Password >= 8 chars and path cannot be empty."@,
            ..self
        }
    }

    /// A task has been started, with `status` to say which.
    pub open spec fn started(self, status: Seq<char>) -> ClassicGuiModel {
        ClassicGuiModel {
            is_processing: true,
            progress: PERCENT_HALF,
            status_message: status,
            ..self
        }
    }

    /// A task is over.
    pub open spec fn ended(self, result: Result<Seq<char>, Seq<char>>) -> ClassicGuiModel {
        match result {
            Ok(text) => ClassicGuiModel {
                is_processing: false,
                progress: PERCENT_ALL,
                status_message: "✅ "@ + text,
                ..self
            },
            Err(text) => ClassicGuiModel {
                is_processing: false,
                progress: PERCENT_NONE,
                status_message: "🚨 Failure: "@ + text,
                ..self
            },
        }
    }

    /// What a message does, and what it asks for.
    pub open spec fn update(self, message: ClassicMessageModel) -> (ClassicGuiModel, CommandModel) {
        match message {
            ClassicMessageModel::PasswordChanged(password) => (
                ClassicGuiModel { password, ..self },
                CommandModel::Idle,
            ),
            ClassicMessageModel::FilePathChanged(file_path) => (
                ClassicGuiModel { file_path, ..self },
                CommandModel::Idle,
            ),
            ClassicMessageModel::EncryptPressed => if self.accepts() {
                (
                    self.started("🔒 Streaming core active: Encrypting..."@),
                    CommandModel::Encrypt {
                        password: vstd::utf8::encode_utf8(self.password),
                        path: self.file_path,
                    },
                )
            } else {
                (self.refused(), CommandModel::Idle)
            },
            ClassicMessageModel::DecryptPressed => if self.accepts() {
                (
                    self.started("🔓 Streaming core active: Decrypting..."@),
                    CommandModel::Decrypt {
                        password: vstd::utf8::encode_utf8(self.password),
                        path: self.file_path,
                    },
                )
            } else {
                (self.refused(), CommandModel::Idle)
            },
            ClassicMessageModel::OperationFinished(result) => (
                self.ended(result),
                CommandModel::Idle,
            ),
        }
    }
}

// ----- laws -----

/// A request with a password of fewer than eight bytes, or without a path, is
/// refused: nothing starts, and nothing but the status line changes.
pub proof fn refused_classic_request_changes_only_the_status(
    m: ClassicGuiModel,
    message: ClassicMessageModel,
)
    requires
        message is EncryptPressed || message is DecryptPressed,
        vstd::utf8::encode_utf8(m.password).len() < 8 || m.file_path.len() == 0,
    ensures
        m.update(message).1 is Idle,
        m.update(message).0 == (ClassicGuiModel {
            status_message: "🚨 Error: Password >= 8 chars and path cannot be empty."@,
            ..m
        }),
{
}

/// The views of the window and its messages keep everything.
pub proof fn classic_gui_views_are_faithful(g: ClassicVaultGui, m: ClassicMessage)
    ensures
        g@.password == g.password@ && g@.file_path == g.file_path@,
        g@.status_message == g.status_message@ && g@.progress == g.progress,
        g@.is_processing == g.is_processing,
        m matches ClassicMessage::PasswordChanged(t) ==> m@
            == ClassicMessageModel::PasswordChanged(t@),
        m matches ClassicMessage::FilePathChanged(t) ==> m@
            == ClassicMessageModel::FilePathChanged(t@),
        m is EncryptPressed <==> m@ is EncryptPressed,
        m is DecryptPressed <==> m@ is DecryptPressed,
        m matches ClassicMessage::OperationFinished(Ok(t)) ==> m@
            == ClassicMessageModel::OperationFinished(Ok(t@)),
        m matches ClassicMessage::OperationFinished(Err(t)) ==> m@
            == ClassicMessageModel::OperationFinished(Err(t@)),
{
}

/// A request with a password of at least eight bytes and a path is accepted:
/// the task that was asked for starts, with exactly that password and path, and
/// the window is busy, with the bar at half.
pub proof fn accepted_classic_request_starts_the_task(m: ClassicGuiModel)
    requires
        vstd::utf8::encode_utf8(m.password).len() >= 8,
        m.file_path.len() > 0,
    ensures
        m.update(ClassicMessageModel::EncryptPressed) == (
            ClassicGuiModel {
                password: m.password,
                file_path: m.file_path,
                status_message: "🔒 Streaming core active: Encrypting..."@,
                progress: 0x4248_0000,
                is_processing: true,
            },
            CommandModel::Encrypt {
                password: vstd::utf8::encode_utf8(m.password),
                path: m.file_path,
            },
        ),
        m.update(ClassicMessageModel::DecryptPressed) == (
            ClassicGuiModel {
                password: m.password,
                file_path: m.file_path,
                status_message: "🔓 Streaming core active: Decrypting..."@,
                progress: 0x4248_0000,
                is_processing: true,
            },
            CommandModel::Decrypt {
                password: vstd::utf8::encode_utf8(m.password),
                path: m.file_path,
            },
        ),
{
}

/// What is typed is what a task gets, whatever stood there before, if the
/// password is at least eight bytes and the path is not empty; else no task
/// starts.
pub proof fn what_is_typed_is_used_classically(
    m: ClassicGuiModel,
    password: Seq<char>,
    path: Seq<char>,
)
    ensures
        ({
            let typed = m.update(ClassicMessageModel::PasswordChanged(password)).0.update(
                ClassicMessageModel::FilePathChanged(path),
            ).0;
            let bytes = vstd::utf8::encode_utf8(password);
            &&& typed == (ClassicGuiModel { password, file_path: path, ..m })
            &&& m.update(ClassicMessageModel::PasswordChanged(password)).1 is Idle
            &&& m.update(ClassicMessageModel::FilePathChanged(path)).1 is Idle
            &&& bytes.len() >= 8 && path.len() > 0 ==> {
                &&& typed.update(ClassicMessageModel::EncryptPressed).1 == CommandModel::Encrypt {
                    password: bytes,
                    path,
                }
                &&& typed.update(ClassicMessageModel::DecryptPressed).1 == CommandModel::Decrypt {
                    password: bytes,
                    path,
                }
            }
            &&& bytes.len() < 8 || path.len() == 0 ==> {
                &&& typed.update(ClassicMessageModel::EncryptPressed).1 is Idle
                &&& typed.update(ClassicMessageModel::DecryptPressed).1 is Idle
            }
        }),
{
}

/// What a task came to is shown: a full bar and the message, or an empty bar and
/// the reason; the inputs stay.
pub proof fn classic_result_is_shown(m: ClassicGuiModel, result: Result<Seq<char>, Seq<char>>)
    ensures
        m.update(ClassicMessageModel::OperationFinished(result)) == (
            ClassicGuiModel {
                password: m.password,
                file_path: m.file_path,
                status_message: match result {
                    Ok(text) => "✅ "@ + text,
                    Err(text) => "🚨 Failure: "@ + text,
                },
                progress: match result {
                    Ok(_) => 0x42C8_0000,
                    Err(_) => 0,
                },
                is_processing: false,
            },
            CommandModel::Idle,
        ),
{
}

/// Whatever a task came to, the window is free again, and the bar is full
/// exactly if it succeeded.
pub proof fn classic_window_is_freed(m: ClassicGuiModel, result: Result<Seq<char>, Seq<char>>)
    ensures
        ({
            let n = m.update(ClassicMessageModel::OperationFinished(result)).0;
            &&& !n.is_processing
            &&& n.progress == PERCENT_ALL <==> result is Ok
        }),
{
}

// ----- code -----

/// The state of the window for classic vaults.
pub struct ClassicVaultGui {
    pub password: String,
    pub file_path: String,
    pub status_message: String,
    /// The bit pattern of the percentage on the bar.
    pub progress: u32,
    pub is_processing: bool,
}

impl View for ClassicVaultGui {
    type V = ClassicGuiModel;

    open spec fn view(&self) -> ClassicGuiModel {
        ClassicGuiModel {
            password: self.password@,
            file_path: self.file_path@,
            status_message: self.status_message@,
            progress: self.progress,
            is_processing: self.is_processing,
        }
    }
}

impl ClassicVaultGui {
    /// The window as it opens.
    pub fn new() -> (r: ClassicVaultGui)
        ensures
            r@ == ClassicGuiModel::fresh(),
            r.password@.len() == 0 && r.file_path@.len() == 0,
            r.status_message@ == "Ready. Awaiting sovereign command..."@,
            r.progress == 0 && !r.is_processing,
    {
        ClassicVaultGui {
            password: String::new(),
            file_path: String::new(),
            status_message: "Ready. Awaiting sovereign command...".to_owned(),
            progress: PERCENT_NONE,
            is_processing: false,
        }
    }

    /// The title of the window.
    pub fn title(&self) -> (r: String)
        ensures
            r@ == "🛡️ Aegis Sovereign Vault"@,
    {
        "🛡️ Aegis Sovereign Vault".to_owned()
    }

    /// What stands where the buttons go: a notice while a task is running, else
    /// the buttons.
    pub fn action_row(&self) -> (r: ActionRow)
        ensures
            match r {
                ActionRow::Busy(text) => self@.is_processing && text@
                    == "Processing stream securely. RAM footprint constant..."@,
                ActionRow::Buttons => !self@.is_processing,
            },
    {
        if self.is_processing {
            ActionRow::Busy("Processing stream securely. RAM footprint constant...".to_owned())
        } else {
            ActionRow::Buttons
        }
    }

    fn accepts(&self) -> (r: bool)
        ensures
            r == self@.accepts(),
    {
        self.password.as_str().as_bytes().len() >= CLASSIC_MIN_PASSWORD
            && !self.file_path.as_str().is_empty()
    }

    fn refuse(&mut self)
        ensures
            final(self)@ == old(self)@.refused(),
    {
        self.status_message = "🚨 Error: Password >= 8 chars and path cannot be empty.".to_owned();
    }

    fn start(&mut self, status: &str)
        ensures
            final(self)@ == old(self)@.started(status@),
    {
        self.is_processing = true;
        self.progress = PERCENT_HALF;
        self.status_message = status.to_owned();
    }

    /// Takes a message and says what it asks for.
    pub fn update(&mut self, message: ClassicMessage) -> (command: GuiCommand)
        ensures
            (final(self)@, command@) == old(self)@.update(message@),
    {
        match message {
            ClassicMessage::PasswordChanged(password) => {
                self.password = password;
                GuiCommand::Idle
            },
            ClassicMessage::FilePathChanged(path) => {
                self.file_path = path;
                GuiCommand::Idle
            },
            ClassicMessage::EncryptPressed => {
                if !self.accepts() {
                    self.refuse();
                    return GuiCommand::Idle;
                }
                self.start("🔒 Streaming core active: Encrypting...");
                GuiCommand::Encrypt {
                    password: self.password.clone().into_bytes(),
                    path: self.file_path.clone(),
                }
            },
            ClassicMessage::DecryptPressed => {
                if !self.accepts() {
                    self.refuse();
                    return GuiCommand::Idle;
                }
                self.start("🔓 Streaming core active: Decrypting...");
                GuiCommand::Decrypt {
                    password: self.password.clone().into_bytes(),
                    path: self.file_path.clone(),
                }
            },
            ClassicMessage::OperationFinished(result) => {
                self.is_processing = false;
                match result {
                    Ok(text) => {
                        self.progress = PERCENT_ALL;
                        self.status_message = prefixed("✅ ", text.as_str());
                    },
                    Err(text) => {
                        self.progress = PERCENT_NONE;
                        self.status_message = prefixed("🚨 Failure: ", text.as_str());
                    },
                }
                GuiCommand::Idle
            },
        }
    }
}

} // verus!
