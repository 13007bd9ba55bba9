//! A machine that carries out what a task asks for: it holds a file to read,
//! takes what is written, and fails at nothing but an exact read beyond the end
//! of the file.

use crate::bytes::push_bytes;
use crate::task::{Action, ActionModel, Event, EventModel, Progress};
use vstd::prelude::*;

verus! {

/// One time that a file was opened to be overwritten.
#[verifier::ext_equal]
pub struct Pass {
    /// Where the file stands.
    pub path: Seq<char>,
    /// The output file had been flushed since it was last written.
    pub behind_flush: bool,
    /// How many bytes were overwritten.
    pub bytes: nat,
    /// The file has been flushed since it was last overwritten.
    pub flushed: bool,
}

/// What a task has asked for besides reading and writing.
#[verifier::ext_equal]
pub struct Trail {
    /// Where the file that is read was opened.
    pub opened: Option<Seq<char>>,
    /// What was reported.
    pub reports: Seq<Progress>,
    /// The output file has been flushed since it was last written.
    pub flushed: bool,
    /// Of which file the size was asked for by its path.
    pub sized: Option<Seq<char>>,
    /// The times that a file was opened to be overwritten.
    pub passes: Seq<Pass>,
    /// Which file was removed.
    pub removed: Option<Seq<char>>,
}

impl Trail {
    /// Nothing has been asked for.
    pub open spec fn fresh() -> Trail {
        Trail {
            opened: None,
            reports: Seq::empty(),
            flushed: false,
            sized: None,
            passes: Seq::empty(),
            removed: None,
        }
    }

    /// The trail with an action added.
    pub open spec fn with(self, a: ActionModel) -> Trail {
        match a {
            ActionModel::OpenSource(path) => Trail { opened: Some(path), ..self },
            ActionModel::CreateOutput(_) | ActionModel::WriteOutput(_) => Trail {
                flushed: false,
                ..self
            },
            ActionModel::FlushOutput => Trail { flushed: true, ..self },
            ActionModel::Report(progress) => Trail { reports: self.reports.push(progress), ..self },
            ActionModel::StatFile(path) => Trail { sized: Some(path), ..self },
            ActionModel::OpenForOverwrite(path) => Trail {
                passes: self.passes.push(
                    Pass { path, behind_flush: self.flushed, bytes: 0, flushed: false },
                ),
                ..self
            },
            ActionModel::Overwrite(len) => Trail {
                passes: self.passes.drop_last().push(
                    Pass {
                        bytes: self.passes.last().bytes + len,
                        flushed: false,
                        ..self.passes.last()
                    },
                ),
                ..self
            },
            ActionModel::FlushOverwrite => Trail {
                passes: self.passes.drop_last().push(
                    Pass { flushed: true, ..self.passes.last() },
                ),
                ..self
            },
            ActionModel::RemoveFile(path) => Trail { removed: Some(path), ..self },
            _ => self,
        }
    }
}

/// The files that a task works on.
#[verifier::ext_equal]
pub struct Machine {
    /// The file that is read.
    pub source: Seq<u8>,
    /// How far it has been read.
    pub at: nat,
    /// Bytes that a single read gives at most.
    pub stride: nat,
    /// Where the file that is written has been created.
    pub created: Option<Seq<char>>,
    /// The file that is written, once it is created.
    pub output: Option<Seq<u8>>,
    /// The file that is read has been removed.
    pub removed: bool,
    /// What a read beyond the end fails with.
    pub complaint: Seq<char>,
    /// What else was asked for.
    pub trail: Trail,
}

impl Machine {
    /// A machine that has done nothing yet.
    pub open spec fn fresh(source: Seq<u8>, stride: nat, complaint: Seq<char>) -> Machine {
        Machine {
            source,
            at: 0,
            stride,
            created: None,
            output: None,
            removed: false,
            complaint,
            trail: Trail::fresh(),
        }
    }

    /// Bytes still to be read.
    pub open spec fn left(self) -> nat {
        (self.source.len() - self.at) as nat
    }

    /// Reads `len` bytes.
    pub open spec fn give(self, len: nat) -> (Machine, EventModel) {
        (
            Machine { at: self.at + len, ..self },
            EventModel::Data(self.source.subrange(self.at as int, (self.at + len) as int)),
        )
    }

    /// What a single read of up to `len` bytes gives.
    pub open spec fn some(self, len: nat) -> nat {
        let most = if len <= self.stride {
            len
        } else {
            self.stride
        };
        if most <= self.left() {
            most
        } else {
            self.left()
        }
    }

    /// What an action does to the files, and what came of it.
    pub open spec fn work(self, a: ActionModel) -> (Machine, EventModel) {
        match a {
            ActionModel::ReadMetadata | ActionModel::StatFile(_) => (
                self,
                EventModel::Size(self.source.len() as u64),
            ),
            ActionModel::CreateOutput(path) => (
                Machine { created: Some(path), output: Some(Seq::empty()), ..self },
                EventModel::Done,
            ),
            ActionModel::WriteOutput(bytes) => (
                Machine { output: Some(self.output->Some_0 + bytes), ..self },
                EventModel::Done,
            ),
            ActionModel::ReadSome(len) => self.give(self.some(len as nat)),
            ActionModel::ReadExact(len) => if len <= self.left() {
                self.give(len as nat)
            } else {
                (self, EventModel::Failed(self.complaint))
            },
            ActionModel::RemoveFile(_) => (Machine { removed: true, ..self }, EventModel::Done),
            _ => (self, EventModel::Done),
        }
    }

    /// Carries out an action and says what came of it.
    pub open spec fn serve(self, a: ActionModel) -> (Machine, EventModel) {
        let (next, e) = self.work(a);
        (Machine { trail: self.trail.with(a), ..next }, e)
    }
}

/// Reports that start with the key and go on with every `piece` bytes of
/// `total`.
pub open spec fn counts_pieces(reports: Seq<Progress>, piece: int, total: int) -> bool {
    &&& reports.len() > 0 ==> reports[0] == Progress::KeyReady
    &&& forall|j: int|
        #![trigger reports[j]]
        1 <= j < reports.len() ==> reports[j] == (Progress::Streamed {
            done: (if j * piece <= total {
                j * piece
            } else {
                total
            }) as u64,
            total: (if total == 0 {
                1
            } else {
                total
            }) as u64,
        })
}

// ----- code -----

/// A machine whose files are in memory. A single read gives as much as it can.
pub struct Memory {
    /// The file that is read.
    pub source: Vec<u8>,
    /// How far it has been read.
    pub at: usize,
    /// Where the file that is written has been created.
    pub created: Option<String>,
    /// The file that is written, once it is created.
    pub output: Option<Vec<u8>>,
    /// The file that is read has been removed.
    pub removed: bool,
    /// What a read beyond the end fails with.
    pub complaint: String,
    /// What else was asked for.
    pub trail: Ghost<Trail>,
}

impl View for Memory {
    type V = Machine;

    open spec fn view(&self) -> Machine {
        Machine {
            source: self.source@,
            at: self.at as nat,
            stride: usize::MAX as nat,
            created: crate::paths::optional_text(self.created),
            output: match self.output {
                Some(bytes) => Some(bytes@),
                None => None,
            },
            removed: self.removed,
            complaint: self.complaint@,
            trail: self.trail@,
        }
    }
}

impl Memory {
    /// A machine that has done nothing yet.
    pub fn new(source: Vec<u8>) -> (r: Memory)
        ensures
            r@ == Machine::fresh(source@, usize::MAX as nat, "early eof"@),
    {
        Memory {
            source,
            at: 0,
            created: None,
            output: None,
            removed: false,
            complaint: "early eof".to_owned(),
            trail: Ghost(Trail::fresh()),
        }
    }

    fn give(&mut self, len: usize) -> (r: Event)
        requires
            old(self)@.at + len <= old(self)@.source.len(),
        ensures
            (final(self)@, r@) == old(self)@.give(len as nat),
    {
        assert(self.source.len() == self@.source.len());
        let end: usize = self.at + len;
        let bytes = vstd::slice::slice_to_vec(
            vstd::slice::slice_subrange(self.source.as_slice(), self.at, end),
        );
        self.at = end;
        Event::Data(bytes)
    }

    /// Carries out an action and says what came of it.
    pub fn serve(&mut self, action: Action) -> (r: Event)
        requires
            old(self)@.at <= old(self)@.source.len(),
            action is WriteOutput ==> old(self)@.output is Some,
        ensures
            (final(self)@, r@) == old(self)@.serve(action@),
    {
        let ghost trail = self.trail@.with(action@);
        self.trail = Ghost(trail);
        match action {
            Action::ReadMetadata | Action::StatFile(_) => Event::Size(self.source.len() as u64),
            Action::CreateOutput(path) => {
                self.created = Some(path);
                self.output = Some(Vec::new());
                Event::Done
            },
            Action::WriteOutput(bytes) => {
                if let Some(written) = self.output.take() {
                    let mut written = written;
                    push_bytes(&mut written, bytes.as_slice());
                    self.output = Some(written);
                }
                Event::Done
            },
            Action::ReadSome(len) => {
                let left: usize = self.source.len() - self.at;
                if len <= left {
                    self.give(len)
                } else {
                    self.give(left)
                }
            },
            Action::ReadExact(len) => {
                let left: usize = self.source.len() - self.at;
                if len <= left {
                    self.give(len)
                } else {
                    Event::Failed(self.complaint.clone())
                }
            },
            Action::RemoveFile(_) => {
                self.removed = true;
                Event::Done
            },
            _ => Event::Done,
        }
    }
}

/// What a task came to, and the machine that it left.
pub struct Outcome {
    pub result: Result<String, String>,
    pub memory: Memory,
}

} // verus!
