//! The state behind the vault window: what each message does to it and which
//! task it starts.
//!
//! A percentage is kept as the bit pattern of a single-precision number. For
//! numbers that are not negative, these patterns are ordered as the numbers
//! are; negative numbers have the patterns from 0x8000_0000 to 0xFF80_0000.

use crate::key::ProtectedBuffer;
use crate::task::{prefixed, result_text};
use vstd::prelude::*;

verus! {

/// Fewest bytes of a password.
pub const MIN_PASSWORD: usize = 12;

/// The bit pattern of 0 percent.
pub const PERCENT_NONE: u32 = 0;

/// The bit pattern of 6 percent: below it, the key is still being derived.
pub const PERCENT_STREAMING: u32 = 0x40C0_0000;

/// The bit pattern of 100 percent.
pub const PERCENT_ALL: u32 = 0x42C8_0000;

/// The lowest bit pattern with a minus sign, that of negative zero.
pub const PERCENT_MINUS_ZERO: u32 = 0x8000_0000;

/// The bit pattern of negative infinity. Those above it are no numbers.
pub const PERCENT_MINUS_INFINITY: u32 = 0xFF80_0000;

/// Milliseconds between two looks at the progress of a task.
pub const POLL_MILLIS: u64 = 33;

/// A percentage and how it reads without decimals.
#[derive(Debug, PartialEq, Eq)]
pub struct Percent {
    pub bits: u32,
    pub text: String,
}

impl Clone for Percent {
    fn clone(&self) -> (r: Percent)
        ensures
            r.bits == self.bits,
            r.text@ == self.text@,
    {
        Percent { bits: self.bits, text: self.text.clone() }
    }
}

/// What a task tells the window.
#[derive(Debug, PartialEq, Eq)]
pub enum ProgressUpdate {
    /// How far it has come.
    Percent(Percent),
    /// What it came to.
    Done(Result<String, String>),
}

impl Clone for ProgressUpdate {
    fn clone(&self) -> (r: ProgressUpdate)
        ensures
            r@ == self@,
    {
        match self {
            ProgressUpdate::Percent(percent) => ProgressUpdate::Percent(percent.clone()),
            ProgressUpdate::Done(Ok(text)) => ProgressUpdate::Done(Ok(text.clone())),
            ProgressUpdate::Done(Err(text)) => ProgressUpdate::Done(Err(text.clone())),
        }
    }
}

/// What the window is told.
#[derive(Debug, PartialEq, Eq)]
pub enum Message {
    PasswordChanged(String),
    FilePathChanged(String),
    EncryptPressed,
    DecryptPressed,
    /// Time to look at the progress; these updates have come in.
    ProgressTick(Vec<ProgressUpdate>),
    /// The task has run out; its result comes as an update.
    OperationFinished(Result<String, String>),
}

/// What the window asks for.
#[derive(Debug, PartialEq, Eq)]
pub enum GuiCommand {
    /// Nothing.
    Idle,
    /// Start an encryption and listen to its updates.
    Encrypt { password: Vec<u8>, path: String },
    /// Start a decryption and listen to its updates.
    Decrypt { password: Vec<u8>, path: String },
}

/// What stands where the buttons go.
#[derive(Debug, PartialEq, Eq)]
pub enum ActionRow {
    /// A line of text, while a task is running.
    Busy(String),
    /// The buttons.
    Buttons,
}

// ----- the model -----

/// The view of an update.
pub enum UpdateModel {
    Percent { bits: u32, text: Seq<char> },
    Done(Result<Seq<char>, Seq<char>>),
}

impl View for ProgressUpdate {
    type V = UpdateModel;

    open spec fn view(&self) -> UpdateModel {
        match self {
            ProgressUpdate::Percent(p) => UpdateModel::Percent { bits: p.bits, text: p.text@ },
            ProgressUpdate::Done(r) => UpdateModel::Done(result_text(*r)),
        }
    }
}

/// The views of a list of updates.
pub open spec fn updates_view(updates: Seq<ProgressUpdate>) -> Seq<UpdateModel> {
    Seq::new(updates.len(), |i: int| updates[i]@)
}

/// The view of a message.
pub enum MessageModel {
    PasswordChanged(Seq<char>),
    FilePathChanged(Seq<char>),
    EncryptPressed,
    DecryptPressed,
    ProgressTick(Seq<UpdateModel>),
    OperationFinished(Result<Seq<char>, Seq<char>>),
}

impl View for Message {
    type V = MessageModel;

    open spec fn view(&self) -> MessageModel {
        match self {
            Message::PasswordChanged(t) => MessageModel::PasswordChanged(t@),
            Message::FilePathChanged(t) => MessageModel::FilePathChanged(t@),
            Message::EncryptPressed => MessageModel::EncryptPressed,
            Message::DecryptPressed => MessageModel::DecryptPressed,
            Message::ProgressTick(u) => MessageModel::ProgressTick(updates_view(u@)),
            Message::OperationFinished(r) => MessageModel::OperationFinished(result_text(*r)),
        }
    }
}

/// The view of a command.
pub enum CommandModel {
    Idle,
    Encrypt { password: Seq<u8>, path: Seq<char> },
    Decrypt { password: Seq<u8>, path: Seq<char> },
}

impl View for GuiCommand {
    type V = CommandModel;

    open spec fn view(&self) -> CommandModel {
        match self {
            GuiCommand::Idle => CommandModel::Idle,
            GuiCommand::Encrypt { password, path } => CommandModel::Encrypt {
                password: password@,
                path: path@,
            },
            GuiCommand::Decrypt { password, path } => CommandModel::Decrypt {
                password: password@,
                path: path@,
            },
        }
    }
}

/// The state of the window.
#[verifier::ext_equal]
pub struct GuiModel {
    /// The UTF-8 bytes of the password.
    pub password: Seq<u8>,
    pub file_path: Seq<char>,
    pub status_message: Seq<char>,
    /// The bit pattern of the percentage on the bar.
    pub progress: u32,
    pub is_processing: bool,
    /// A task's updates are being listened to.
    pub listening: bool,
}

/// A bit pattern is that of a number below six.
pub open spec fn below_streaming(bits: u32) -> bool {
    bits < PERCENT_STREAMING || PERCENT_MINUS_ZERO <= bits <= PERCENT_MINUS_INFINITY
}

impl GuiModel {
    /// Updates are listened to exactly while a task is running.
    pub open spec fn wf(self) -> bool {
        self.is_processing == self.listening
    }

    /// The window as it opens.
    pub open spec fn fresh() -> GuiModel {
        GuiModel {
            password: Seq::empty(),
            file_path: Seq::empty(),
            status_message: "Ready — awaiting your command."@,
            progress: PERCENT_NONE,
            is_processing: false,
            listening: false,
        }
    }

    /// Why a task is not started; `None` when it is.
    pub open spec fn refusal(self) -> Option<Seq<char>> {
        if self.password.len() < MIN_PASSWORD {
            Some("🚨 Password must be at least 12 characters."@)
        } else if self.file_path.len() == 0 {
            Some("🚨 Please enter a file path."@)
        } else {
            None
        }
    }

    /// A task has been started, with `status` to say which.
    pub open spec fn started(self, status: Seq<char>) -> GuiModel {
        GuiModel {
            is_processing: true,
            progress: PERCENT_NONE,
            status_message: status,
            listening: true,
            ..self
        }
    }

    /// An update other than the last one.
    pub open spec fn advanced(self, bits: u32, text: Seq<char>) -> GuiModel {
        let stage = if below_streaming(bits) {
            "Deriving key…"@
        } else {
            "Streaming…"@
        };
        GuiModel { progress: bits, status_message: stage + "  "@ + text + "%"@, ..self }
    }

    /// The last update of a task.
    pub open spec fn ended(self, result: Result<Seq<char>, Seq<char>>) -> GuiModel {
        match result {
            Ok(text) => GuiModel {
                is_processing: false,
                listening: false,
                progress: PERCENT_ALL,
                status_message: "✅ "@ + text,
                ..self
            },
            Err(text) => GuiModel {
                is_processing: false,
                listening: false,
                progress: PERCENT_NONE,
                status_message: "🚨 "@ + text,
                ..self
            },
        }
    }

    /// Takes updates in order, up to the last one of the task.
    pub open spec fn after(self, updates: Seq<UpdateModel>) -> GuiModel
        decreases updates.len(),
    {
        if updates.len() == 0 {
            self
        } else {
            match updates[0] {
                UpdateModel::Done(result) => self.ended(result),
                UpdateModel::Percent { bits, text } => self.advanced(bits, text).after(
                    updates.drop_first(),
                ),
            }
        }
    }

    /// What a message does, and what it asks for.
    pub open spec fn update(self, message: MessageModel) -> (GuiModel, CommandModel) {
        match message {
            MessageModel::PasswordChanged(password) => (
                GuiModel { password: vstd::utf8::encode_utf8(password), ..self },
                CommandModel::Idle,
            ),
            MessageModel::FilePathChanged(file_path) => (
                GuiModel { file_path, ..self },
                CommandModel::Idle,
            ),
            MessageModel::EncryptPressed => match self.refusal() {
                Some(reason) => (GuiModel { status_message: reason, ..self }, CommandModel::Idle),
                None => (
                    self.started("🔒 Deriving key with Argon2id… please wait."@),
                    CommandModel::Encrypt {
                        password: self.password,
                        path: self.file_path,
                    },
                ),
            },
            MessageModel::DecryptPressed => match self.refusal() {
                Some(reason) => (GuiModel { status_message: reason, ..self }, CommandModel::Idle),
                None => (
                    self.started("🔓 Deriving key with Argon2id… please wait."@),
                    CommandModel::Decrypt {
                        password: self.password,
                        path: self.file_path,
                    },
                ),
            },
            MessageModel::ProgressTick(updates) => if self.listening {
                (self.after(updates), CommandModel::Idle)
            } else {
                (self, CommandModel::Idle)
            },
            MessageModel::OperationFinished(_) => (self, CommandModel::Idle),
        }
    }
}

// ----- laws -----

/// A window that listens exactly while a task is running goes on doing so,
/// whatever message comes.
pub proof fn listens_while_processing(m: GuiModel, message: MessageModel)
    requires
        m.wf(),
    ensures
        m.update(message).0.wf(),
{
    if let MessageModel::ProgressTick(updates) = message {
        lemma_after_wf(m, updates);
    }
}

proof fn lemma_after_wf(m: GuiModel, updates: Seq<UpdateModel>)
    requires
        m.wf(),
    ensures
        m.after(updates).wf(),
    decreases updates.len(),
{
    if updates.len() > 0 {
        if let UpdateModel::Percent { bits, text } = updates[0] {
            lemma_after_wf(m.advanced(bits, text), updates.drop_first());
        }
    }
}

/// A request with a password of fewer than twelve bytes, or without a path, is
/// refused: nothing starts, and nothing but the status line changes.
pub proof fn refused_request_changes_only_the_status(m: GuiModel, message: MessageModel)
    requires
        message is EncryptPressed || message is DecryptPressed,
        m.password.len() < 12 || m.file_path.len() == 0,
    ensures
        m.update(message).1 is Idle,
        m.update(message).0 == (GuiModel {
            status_message: m.update(message).0.status_message,
            ..m
        }),
        m.password.len() < 12 ==> m.update(message).0.status_message
            == "🚨 Password must be at least 12 characters."@,
        m.password.len() >= 12 ==> m.update(message).0.status_message
            == "🚨 Please enter a file path."@,
{
}

/// The views of the window, its messages, updates and commands keep everything.
pub proof fn gui_views_are_faithful(
    g: AegisVaultGui,
    m: Message,
    updates: Seq<ProgressUpdate>,
    i: int,
    c: GuiCommand,
)
    ensures
        g@.password == g.password.data@ && g@.file_path == g.file_path@,
        g@.status_message == g.status_message@ && g@.progress == g.progress,
        g@.is_processing == g.is_processing && g@.listening == g.listening,
        m matches Message::PasswordChanged(t) ==> m@ == MessageModel::PasswordChanged(t@),
        m matches Message::FilePathChanged(t) ==> m@ == MessageModel::FilePathChanged(t@),
        m is EncryptPressed <==> m@ is EncryptPressed,
        m is DecryptPressed <==> m@ is DecryptPressed,
        m matches Message::ProgressTick(u) ==> m@ == MessageModel::ProgressTick(updates_view(u@)),
        m is OperationFinished <==> m@ is OperationFinished,
        updates_view(updates).len() == updates.len(),
        0 <= i < updates.len() ==> {
            &&& updates[i] matches ProgressUpdate::Percent(p) ==> updates_view(updates)[i]
                == (UpdateModel::Percent { bits: p.bits, text: p.text@ })
            &&& updates[i] matches ProgressUpdate::Done(Ok(t)) ==> updates_view(updates)[i]
                == UpdateModel::Done(Ok(t@))
            &&& updates[i] matches ProgressUpdate::Done(Err(t)) ==> updates_view(updates)[i]
                == UpdateModel::Done(Err(t@))
        },
        c is Idle <==> c@ is Idle,
        c matches GuiCommand::Encrypt { password, path } ==> c@ == (CommandModel::Encrypt {
            password: password@,
            path: path@,
        }),
        c matches GuiCommand::Decrypt { password, path } ==> c@ == (CommandModel::Decrypt {
            password: password@,
            path: path@,
        }),
{
}

/// A request with a password of at least twelve bytes and a path is accepted:
/// the task that was asked for starts, with exactly that password and path, and
/// the window is busy and listens.
pub proof fn accepted_request_starts_the_task(m: GuiModel)
    requires
        m.password.len() >= 12,
        m.file_path.len() > 0,
    ensures
        m.update(MessageModel::EncryptPressed) == (
            GuiModel {
                password: m.password,
                file_path: m.file_path,
                status_message: "🔒 Deriving key with Argon2id… please wait."@,
                progress: 0,
                is_processing: true,
                listening: true,
            },
            CommandModel::Encrypt { password: m.password, path: m.file_path },
        ),
        m.update(MessageModel::DecryptPressed) == (
            GuiModel {
                password: m.password,
                file_path: m.file_path,
                status_message: "🔓 Deriving key with Argon2id… please wait."@,
                progress: 0,
                is_processing: true,
                listening: true,
            },
            CommandModel::Decrypt { password: m.password, path: m.file_path },
        ),
{
}

/// What is typed is what a task gets: the UTF-8 bytes of the password and the
/// path, whatever stood there before, if the bytes are at least twelve and the
/// path is not empty; else no task starts.
pub proof fn what_is_typed_is_used(m: GuiModel, password: Seq<char>, path: Seq<char>)
    ensures
        ({
            let typed = m.update(MessageModel::PasswordChanged(password)).0.update(
                MessageModel::FilePathChanged(path),
            ).0;
            let bytes = vstd::utf8::encode_utf8(password);
            &&& typed == (GuiModel { password: bytes, file_path: path, ..m })
            &&& m.update(MessageModel::PasswordChanged(password)).1 is Idle
            &&& m.update(MessageModel::FilePathChanged(path)).1 is Idle
            &&& bytes.len() >= 12 && path.len() > 0 ==> {
                &&& typed.update(MessageModel::EncryptPressed).1 == CommandModel::Encrypt {
                    password: bytes,
                    path,
                }
                &&& typed.update(MessageModel::DecryptPressed).1 == CommandModel::Decrypt {
                    password: bytes,
                    path,
                }
            }
            &&& bytes.len() < 12 || path.len() == 0 ==> {
                &&& typed.update(MessageModel::EncryptPressed).1 is Idle
                &&& typed.update(MessageModel::DecryptPressed).1 is Idle
            }
        }),
{
}

/// A percentage that comes in while the window listens is shown, and nothing
/// but the bar and the status line changes: below six, as numbers compare, the
/// key is being derived, else the file is being streamed.
pub proof fn percentages_are_shown(m: GuiModel, bits: u32, text: Seq<char>)
    requires
        m.listening,
    ensures
        ({
            let one = seq![UpdateModel::Percent { bits, text }];
            let n = m.update(MessageModel::ProgressTick(one)).0;
            let below = bits < 0x40C0_0000 || 0x8000_0000 <= bits <= 0xFF80_0000;
            &&& m.update(MessageModel::ProgressTick(one)).1 is Idle
            &&& n.progress == bits
            &&& n.password == m.password && n.file_path == m.file_path
            &&& n.is_processing == m.is_processing && n.listening
            &&& below ==> n.status_message == "Deriving key…"@ + "  "@ + text + "%"@
            &&& !below ==> n.status_message == "Streaming…"@ + "  "@ + text + "%"@
        }),
{
    let one = seq![UpdateModel::Percent { bits, text }];
    assert(one.drop_first() =~= Seq::empty());
    assert(m.after(one) == m.advanced(bits, text).after(Seq::empty()));
}

/// Of several percentages that come in at once, the last one is shown.
pub proof fn last_percentage_is_shown(
    m: GuiModel,
    before: Seq<UpdateModel>,
    bits: u32,
    text: Seq<char>,
)
    requires
        forall|i: int| 0 <= i < before.len() ==> #[trigger] before[i] is Percent,
    ensures
        ({
            let n = m.after(before.push(UpdateModel::Percent { bits, text }));
            let below = bits < 0x40C0_0000 || 0x8000_0000 <= bits <= 0xFF80_0000;
            &&& n.progress == bits
            &&& n.password == m.password && n.file_path == m.file_path
            &&& n.is_processing == m.is_processing && n.listening == m.listening
            &&& below ==> n.status_message == "Deriving key…"@ + "  "@ + text + "%"@
            &&& !below ==> n.status_message == "Streaming…"@ + "  "@ + text + "%"@
        }),
    decreases before.len(),
{
    let all = before.push(UpdateModel::Percent { bits, text });
    if before.len() > 0 {
        if let UpdateModel::Percent { bits: b, text: t } = before[0] {
            let rest = before.drop_first();
            assert(all.drop_first() =~= rest.push(UpdateModel::Percent { bits, text }));
            last_percentage_is_shown(m.advanced(b, t), rest, bits, text);
        }
    } else {
        assert(all.drop_first() =~= Seq::empty());
        assert(m.after(all) == m.advanced(bits, text).after(Seq::empty()));
    }
}

/// The result of a task ends it, whatever percentages came before it and
/// whatever comes behind: the window is free, and shows a full bar and the
/// message, or an empty bar and the reason.
pub proof fn result_is_shown(
    m: GuiModel,
    before: Seq<UpdateModel>,
    result: Result<Seq<char>, Seq<char>>,
    behind: Seq<UpdateModel>,
)
    requires
        m.listening,
        forall|i: int| 0 <= i < before.len() ==> #[trigger] before[i] is Percent,
    ensures
        m.update(
            MessageModel::ProgressTick(before.push(UpdateModel::Done(result)) + behind),
        ) == (
            GuiModel {
                password: m.password,
                file_path: m.file_path,
                status_message: match result {
                    Ok(text) => "✅ "@ + text,
                    Err(text) => "🚨 "@ + text,
                },
                progress: match result {
                    Ok(_) => 0x42C8_0000,
                    Err(_) => 0,
                },
                is_processing: false,
                listening: false,
            },
            CommandModel::Idle,
        ),
{
    updates_end_with_the_result(m, before, result, behind);
    lemma_after_keeps(m, before);
}

proof fn lemma_after_keeps(m: GuiModel, updates: Seq<UpdateModel>)
    ensures
        m.after(updates).password == m.password,
        m.after(updates).file_path == m.file_path,
    decreases updates.len(),
{
    if updates.len() > 0 {
        if let UpdateModel::Percent { bits, text } = updates[0] {
            lemma_after_keeps(m.advanced(bits, text), updates.drop_first());
        }
    }
}

/// A tick without updates, a tick that nobody listens to, and the end of a task
/// by itself change nothing.
pub proof fn quiet_messages(
    m: GuiModel,
    updates: Seq<UpdateModel>,
    result: Result<Seq<char>, Seq<char>>,
)
    ensures
        m.update(MessageModel::OperationFinished(result)) == (m, CommandModel::Idle),
        m.update(MessageModel::ProgressTick(Seq::empty())) == (m, CommandModel::Idle),
        !m.listening ==> m.update(MessageModel::ProgressTick(updates)) == (m, CommandModel::Idle),
{
}

/// Nothing after the last update of a task has an effect.
pub proof fn updates_end_with_the_result(
    m: GuiModel,
    before: Seq<UpdateModel>,
    result: Result<Seq<char>, Seq<char>>,
    behind: Seq<UpdateModel>,
)
    requires
        forall|i: int| 0 <= i < before.len() ==> #[trigger] before[i] is Percent,
    ensures
        m.after(before.push(UpdateModel::Done(result)) + behind) == m.after(before).ended(result),
    decreases before.len(),
{
    let all = before.push(UpdateModel::Done(result)) + behind;
    if before.len() > 0 {
        if let UpdateModel::Percent { bits, text } = before[0] {
            let rest = before.drop_first();
            assert(all.drop_first() =~= rest.push(UpdateModel::Done(result)) + behind);
            updates_end_with_the_result(m.advanced(bits, text), rest, result, behind);
        }
    }
}

// ----- code -----

/// The state of the window. The password is wiped when it is dropped.
pub struct AegisVaultGui {
    /// The UTF-8 bytes of the password; wiped when another one is entered.
    pub password: ProtectedBuffer,
    pub file_path: String,
    pub status_message: String,
    /// The bit pattern of the percentage on the bar.
    pub progress: u32,
    pub is_processing: bool,
    /// A task's updates are being listened to.
    pub listening: bool,
}

impl View for AegisVaultGui {
    type V = GuiModel;

    open spec fn view(&self) -> GuiModel {
        GuiModel {
            password: self.password@,
            file_path: self.file_path@,
            status_message: self.status_message@,
            progress: self.progress,
            is_processing: self.is_processing,
            listening: self.listening,
        }
    }
}

impl Drop for AegisVaultGui {
    fn drop(&mut self)
        ensures
            final(self)@ == (GuiModel { password: Seq::empty(), ..old(self)@ }),
        opens_invariants none
        no_unwind
    {
        self.password.zeroize();
    }
}

/// `std::string::String::into_bytes` gives the UTF-8 bytes of the string, in
/// the buffer that held them: no copy is left behind.
pub assume_specification[ String::into_bytes ](text: String) -> (r: Vec<u8>)
    ensures
        r@ == vstd::utf8::encode_utf8(text@),
;

impl AegisVaultGui {
    /// The window as it opens.
    pub fn new() -> (r: AegisVaultGui)
        ensures
            r@ == GuiModel::fresh(),
            r@.wf(),
            r.password@.len() == 0 && r.file_path@.len() == 0,
            r.status_message@ == "Ready — awaiting your command."@,
            r.progress == 0 && !r.is_processing && !r.listening,
    {
        AegisVaultGui {
            password: ProtectedBuffer::new(Vec::new()),
            file_path: String::new(),
            status_message: "Ready — awaiting your command.".to_owned(),
            progress: PERCENT_NONE,
            is_processing: false,
            listening: false,
        }
    }

    /// The title of the window.
    pub fn title(&self) -> (r: String)
        ensures
            r@ == "🛡️ Aegis Sovereign Vault v2"@,
    {
        "🛡️ Aegis Sovereign Vault v2".to_owned()
    }

    /// How often to look at the progress, while a task is running.
    pub fn subscription(&self) -> (r: Option<u64>)
        ensures
            r == if self@.is_processing {
                Some(POLL_MILLIS)
            } else {
                None
            },
            self.is_processing ==> r == Some(33u64),
            !self.is_processing ==> r is None,
    {
        if self.is_processing {
            Some(POLL_MILLIS)
        } else {
            None
        }
    }

    /// What stands where the buttons go: the status while a task is running,
    /// else the buttons.
    pub fn action_row(&self) -> (r: ActionRow)
        ensures
            match r {
                ActionRow::Busy(text) => self@.is_processing && text@ == "⏳ "@
                    + self@.status_message,
                ActionRow::Buttons => !self@.is_processing,
            },
    {
        if self.is_processing {
            ActionRow::Busy(prefixed("⏳ ", self.status_message.as_str()))
        } else {
            ActionRow::Buttons
        }
    }

    /// Why a task is not started; `None` when it is.
    fn refusal(&self) -> (r: Option<&'static str>)
        ensures
            match r {
                Some(reason) => self@.refusal() == Some(reason@),
                None => self@.refusal() is None,
            },
    {
        if self.password.data.len() < MIN_PASSWORD {
            Some("🚨 Password must be at least 12 characters.")
        } else if self.file_path.as_str().is_empty() {
            Some("🚨 Please enter a file path.")
        } else {
            None
        }
    }

    fn start(&mut self, status: &str)
        ensures
            final(self)@ == old(self)@.started(status@),
    {
        self.is_processing = true;
        self.progress = PERCENT_NONE;
        self.status_message = status.to_owned();
        self.listening = true;
    }

    /// Takes an update; says whether more of the task's updates are to come.
    pub fn receive(&mut self, update: &ProgressUpdate) -> (more: bool)
        ensures
            match update@ {
                UpdateModel::Percent { bits, text } => more && final(self)@ == old(
                    self,
                )@.advanced(bits, text),
                UpdateModel::Done(result) => !more && final(self)@ == old(self)@.ended(result),
            },
    {
        match update {
            ProgressUpdate::Percent(percent) => {
                let below = percent.bits < PERCENT_STREAMING || (percent.bits >= PERCENT_MINUS_ZERO
                    && percent.bits <= PERCENT_MINUS_INFINITY);
                let mut status = (if below {
                    "Deriving key…"
                } else {
                    "Streaming…"
                }).to_owned();
                status.append("  ");
                status.append(percent.text.as_str());
                status.append("%");
                self.progress = percent.bits;
                self.status_message = status;
                true
            },
            ProgressUpdate::Done(result) => {
                self.is_processing = false;
                self.listening = false;
                match result {
                    Ok(text) => {
                        self.progress = PERCENT_ALL;
                        self.status_message = prefixed("✅ ", text.as_str());
                    },
                    Err(text) => {
                        self.progress = PERCENT_NONE;
                        self.status_message = prefixed("🚨 ", text.as_str());
                    },
                }
                false
            },
        }
    }

    fn take_updates(&mut self, updates: &Vec<ProgressUpdate>)
        ensures
            final(self)@ == old(self)@.after(updates_view(updates@)),
    {
        let ghost all = updates_view(updates@);
        let ghost start = self@;
        let mut i: usize = 0;
        assert(all.skip(0) =~= all);
        while i < updates.len()
            invariant
                i <= updates.len(),
                all == updates_view(updates@),
                start == old(self)@,
                self@.after(all.skip(i as int)) == start.after(all),
            decreases updates.len() - i,
        {
            assert(all.skip(i as int)[0] == updates@[i as int]@);
            assert(all.skip(i as int).drop_first() =~= all.skip(i + 1));
            if !self.receive(&updates[i]) {
                return;
            }
            i = i + 1;
        }
    }

    /// Takes a message and says what it asks for.
    pub fn update(&mut self, message: Message) -> (command: GuiCommand)
        ensures
            (final(self)@, command@) == old(self)@.update(message@),
    {
        match message {
            Message::PasswordChanged(password) => {
                self.password = ProtectedBuffer::new(password.into_bytes());
                GuiCommand::Idle
            },
            Message::FilePathChanged(path) => {
                self.file_path = path;
                GuiCommand::Idle
            },
            Message::EncryptPressed => match self.refusal() {
                Some(reason) => {
                    self.status_message = reason.to_owned();
                    GuiCommand::Idle
                },
                None => {
                    self.start("🔒 Deriving key with Argon2id… please wait.");
                    GuiCommand::Encrypt {
                        password: vstd::slice::slice_to_vec(self.password.data.as_slice()),
                        path: self.file_path.clone(),
                    }
                },
            },
            Message::DecryptPressed => match self.refusal() {
                Some(reason) => {
                    self.status_message = reason.to_owned();
                    GuiCommand::Idle
                },
                None => {
                    self.start("🔓 Deriving key with Argon2id… please wait.");
                    GuiCommand::Decrypt {
                        password: vstd::slice::slice_to_vec(self.password.data.as_slice()),
                        path: self.file_path.clone(),
                    }
                },
            },
            Message::ProgressTick(updates) => {
                if self.listening {
                    self.take_updates(&updates);
                }
                GuiCommand::Idle
            },
            Message::OperationFinished(_) => GuiCommand::Idle,
        }
    }
}

} // verus!
