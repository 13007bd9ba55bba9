//! What a task and its driver say to each other. A task is a state machine: it
//! asks for one action at a time, the driver carries it out and hands back the
//! event that came of it.

use vstd::prelude::*;

verus! {

/// Plaintext bytes that one segment of a vault holds (256 KiB).
pub const BUFFER_SIZE: usize = 262144;

/// Plaintext bytes that one segment of a classic vault holds (64 KiB).
pub const CLASSIC_BUFFER_SIZE: usize = 65536;

/// How far a task has come.
#[derive(Clone, Copy, Debug, PartialEq, Eq)]
pub enum Progress {
    /// The key has been derived.
    KeyReady,
    /// `done` of `total` bytes have passed through the cipher; `total` is at
    /// least one, and `done` is not above it.
    Streamed { done: u64, total: u64 },
}

/// What became of an action.
#[derive(Debug, PartialEq, Eq)]
pub enum Event {
    /// It was carried out.
    Done,
    /// The size that was asked for.
    Size(u64),
    /// The bytes that were read.
    Data(Vec<u8>),
    /// It failed, with the reason as text.
    Failed(String),
}

/// What a task asks of its driver.
#[derive(Debug, PartialEq, Eq)]
pub enum Action {
    /// Open the file at this path for reading.
    OpenSource(String),
    /// Report the size of the opened file.
    ReadMetadata,
    /// Create the output file at this path.
    CreateOutput(String),
    /// Write these bytes to the output file.
    WriteOutput(Vec<u8>),
    /// Read once, up to this many bytes; none at the end of the file.
    ReadSome(usize),
    /// Read exactly this many bytes.
    ReadExact(usize),
    /// Hand the task `Done` where it may compute for long: it derives a key.
    DeriveKey,
    /// Tell whoever watches.
    Report(Progress),
    /// Flush the output file.
    FlushOutput,
    /// Report the size of the file at this path.
    StatFile(String),
    /// Open the file at this path for writing, from its start.
    OpenForOverwrite(String),
    /// Write these bytes to the file being overwritten.
    Overwrite(Vec<u8>),
    /// Flush the file being overwritten.
    FlushOverwrite,
    /// Remove the file at this path.
    RemoveFile(String),
    /// The task is over; this is what it came to.
    Finish(Result<String, String>),
}

/// The view of a result of strings.
pub open spec fn result_text(r: Result<String, String>) -> Result<Seq<char>, Seq<char>> {
    match r {
        Ok(t) => Ok(t@),
        Err(t) => Err(t@),
    }
}

/// The view of an event.
pub enum EventModel {
    Done,
    Size(u64),
    Data(Seq<u8>),
    Failed(Seq<char>),
}

impl View for Event {
    type V = EventModel;

    open spec fn view(&self) -> EventModel {
        match self {
            Event::Done => EventModel::Done,
            Event::Size(n) => EventModel::Size(*n),
            Event::Data(b) => EventModel::Data(b@),
            Event::Failed(t) => EventModel::Failed(t@),
        }
    }
}

/// The view of an action. Bytes that overwrite a file are random; the view
/// keeps their number.
pub enum ActionModel {
    OpenSource(Seq<char>),
    ReadMetadata,
    CreateOutput(Seq<char>),
    WriteOutput(Seq<u8>),
    ReadSome(usize),
    ReadExact(usize),
    DeriveKey,
    Report(Progress),
    FlushOutput,
    StatFile(Seq<char>),
    OpenForOverwrite(Seq<char>),
    Overwrite(nat),
    FlushOverwrite,
    RemoveFile(Seq<char>),
    Finish(Result<Seq<char>, Seq<char>>),
}

impl View for Action {
    type V = ActionModel;

    open spec fn view(&self) -> ActionModel {
        match self {
            Action::OpenSource(p) => ActionModel::OpenSource(p@),
            Action::ReadMetadata => ActionModel::ReadMetadata,
            Action::CreateOutput(p) => ActionModel::CreateOutput(p@),
            Action::WriteOutput(b) => ActionModel::WriteOutput(b@),
            Action::ReadSome(n) => ActionModel::ReadSome(*n),
            Action::ReadExact(n) => ActionModel::ReadExact(*n),
            Action::DeriveKey => ActionModel::DeriveKey,
            Action::Report(p) => ActionModel::Report(*p),
            Action::FlushOutput => ActionModel::FlushOutput,
            Action::StatFile(p) => ActionModel::StatFile(p@),
            Action::OpenForOverwrite(p) => ActionModel::OpenForOverwrite(p@),
            Action::Overwrite(b) => ActionModel::Overwrite(b@.len()),
            Action::FlushOverwrite => ActionModel::FlushOverwrite,
            Action::RemoveFile(p) => ActionModel::RemoveFile(p@),
            Action::Finish(r) => ActionModel::Finish(result_text(*r)),
        }
    }
}

/// An action that destroys the file it names, or the one being overwritten.
pub open spec fn is_destructive(a: ActionModel) -> bool {
    a is OpenForOverwrite || a is Overwrite || a is FlushOverwrite || a is RemoveFile
}

/// The view of a task that has failed with a message.
pub open spec fn failure(message: Seq<char>) -> ActionModel {
    ActionModel::Finish(Err(message))
}

/// A failed task ends with its message as it stands, and a result reads as its
/// text.
pub proof fn messages_are_kept(message: Seq<char>, r: Result<String, String>)
    ensures
        failure(message) == ActionModel::Finish(Err(message)),
        r matches Ok(t) ==> result_text(r) == Ok::<Seq<char>, Seq<char>>(t@),
        r matches Err(t) ==> result_text(r) == Err::<Seq<char>, Seq<char>>(t@),
{
}

/// The view of an action keeps everything but which bytes overwrite a file, and
/// that of an event everything.
pub proof fn views_are_faithful(a: Action, e: Event)
    ensures
        a matches Action::OpenSource(p) ==> a@ == ActionModel::OpenSource(p@),
        a is ReadMetadata <==> a@ is ReadMetadata,
        a matches Action::CreateOutput(p) ==> a@ == ActionModel::CreateOutput(p@),
        a matches Action::WriteOutput(b) ==> a@ == ActionModel::WriteOutput(b@),
        a matches Action::ReadSome(n) ==> a@ == ActionModel::ReadSome(n),
        a matches Action::ReadExact(n) ==> a@ == ActionModel::ReadExact(n),
        a is DeriveKey <==> a@ is DeriveKey,
        a matches Action::Report(p) ==> a@ == ActionModel::Report(p),
        a is FlushOutput <==> a@ is FlushOutput,
        a matches Action::StatFile(p) ==> a@ == ActionModel::StatFile(p@),
        a matches Action::OpenForOverwrite(p) ==> a@ == ActionModel::OpenForOverwrite(p@),
        a matches Action::Overwrite(b) ==> a@ == ActionModel::Overwrite(b@.len()),
        a is FlushOverwrite <==> a@ is FlushOverwrite,
        a matches Action::RemoveFile(p) ==> a@ == ActionModel::RemoveFile(p@),
        a matches Action::Finish(Ok(t)) ==> a@ == ActionModel::Finish(Ok(t@)),
        a matches Action::Finish(Err(t)) ==> a@ == ActionModel::Finish(Err(t@)),
        e is Done <==> e@ is Done,
        e matches Event::Size(n) ==> e@ == EventModel::Size(n),
        e matches Event::Data(b) ==> e@ == EventModel::Data(b@),
        e matches Event::Failed(t) ==> e@ == EventModel::Failed(t@),
{
}

/// `rest` behind `prefix`.
pub fn prefixed(prefix: &str, rest: &str) -> (r: String)
    ensures
        r@ == prefix@ + rest@,
{
    let mut r = prefix.to_owned();
    r.append(rest);
    r
}

} // verus!
