//! Encrypting a file into a vault beside it, then shredding the file.
//!
//! Every segment of the vault but the final one holds a full buffer of the
//! source, however much each read gives: a decryption cuts the payload by this
//! size.

use crate::bytes::push_bytes;
use crate::header::{Header, HeaderModel};
use crate::key::{MasterKey, ProtectedBuffer};
use crate::paths::{quote_path, vault_path};
use crate::shred::{ShredModel, ShredOutcome, ShredStep, Shredder};
use crate::stream::{SealFailure, SealModel, SealStream, Segment};
use crate::task::{prefixed, Action, ActionModel, Event, EventModel, Progress, BUFFER_SIZE};
use vstd::prelude::*;

verus! {

// ----- the model -----

/// What an encryption waits for.
#[derive(Clone, Copy, Debug, PartialEq, Eq)]
pub enum EncryptStage {
    /// The first event.
    Start,
    /// The source being opened.
    Opening,
    /// The source's size.
    Measuring,
    /// The vault file being created.
    Creating,
    /// The header being written.
    Heading,
    /// A place to derive the key.
    Deriving,
    /// The derived key being reported.
    Announcing,
    /// A chunk of the source.
    Reading,
    /// A segment being written.
    Storing,
    /// A segment being reported.
    Reporting,
    /// The vault file being flushed.
    Flushing,
    /// The source being shredded.
    Shredding,
    /// Nothing more.
    Finished,
}

/// What an encryption has done.
pub struct EncryptModel {
    pub path: Seq<char>,
    pub password: Seq<u8>,
    pub stage: EncryptStage,
    /// The size of the source, once it is known.
    pub size: u64,
    /// The header of the vault, once it is drawn up.
    pub header: HeaderModel,
    /// What has been read but not sealed: less than a buffer.
    pub pending: Seq<u8>,
    /// The source has no more.
    pub over: bool,
    /// The segments sealed so far.
    pub run: Seq<Segment>,
    /// What has been written to the vault file.
    pub written: Seq<u8>,
    /// The shredder, once it is at work.
    pub shred: ShredModel,
}

/// What is said of a chunk that could not be sealed.
pub open spec fn sealing_error(failure: SealFailure) -> Seq<char> {
    match failure {
        SealFailure::Last => "Encryption finalisation failed"@,
        SealFailure::Segment => "Encryption chunk failed"@,
    }
}

impl EncryptModel {
    /// The key of the vault.
    pub open spec fn key(self) -> Seq<u8> {
        crate::vault::vault_key(self.password, self.header)->Ok_0
    }

    /// The stream that seals the source.
    pub open spec fn stream(self) -> SealModel {
        SealModel {
            key: self.key(),
            nonce: self.header.stream_nonce(),
            size: self.size,
            run: self.run,
        }
    }

    /// The vault as far as `run` is concerned.
    pub open spec fn image(self, run: Seq<Segment>) -> Seq<u8> {
        self.header.encoded() + crate::stream::sealed_of(run)
    }

    /// The segments are what the stream made of chunks that fill the buffer, but
    /// for the final one, under the vault's key; another one can follow only if
    /// all of them do.
    pub open spec fn sealed_well(self) -> bool {
        &&& crate::vault::vault_key(self.password, self.header) is Ok
        &&& self.stream().wf()
        &&& crate::stream::evenly_cut(self.run, BUFFER_SIZE as nat)
        &&& self.run.len() > 0 && !self.ended() ==> self.run.last().plain.len() == BUFFER_SIZE
    }

    /// Nothing has been read yet.
    pub open spec fn unread(self) -> bool {
        self.run.len() == 0 && self.pending.len() == 0 && !self.over
    }

    /// Nothing more is read: the announced size is sealed, or the source has no
    /// more.
    pub open spec fn ended(self) -> bool {
        self.over || crate::stream::run_ended(self.run)
    }

    /// The invariant of an encryption: what has been written is the header and
    /// every segment sealed so far, but for the one that is being written.
    pub open spec fn wf(self) -> bool {
        match self.stage {
            EncryptStage::Start
            | EncryptStage::Opening
            | EncryptStage::Measuring
            | EncryptStage::Creating => self.written.len() == 0 && self.unread(),
            EncryptStage::Heading => {
                &&& self.header.wf() && self.header.has_new_costs()
                &&& self.written.len() == 0 && self.unread()
            },
            EncryptStage::Deriving => {
                &&& self.header.wf() && self.header.has_new_costs()
                &&& self.written == self.header.encoded() && self.unread()
            },
            EncryptStage::Announcing => {
                &&& self.header.wf() && self.header.has_new_costs()
                &&& self.sealed_well()
                &&& self.unread()
                &&& self.written == self.image(self.run)
            },
            EncryptStage::Reading => {
                &&& self.header.wf() && self.header.has_new_costs()
                &&& self.sealed_well()
                &&& !self.ended()
                &&& self.pending.len() < BUFFER_SIZE
                &&& self.pending.len() > 0 ==> !self.stream().completes(self.pending.len())
                &&& crate::stream::plain_of(self.run).len() + self.pending.len() <= u64::MAX
                &&& self.written == self.image(self.run)
            },
            EncryptStage::Storing => {
                &&& self.header.wf() && self.header.has_new_costs()
                &&& self.sealed_well()
                &&& self.run.len() > 0 && self.pending.len() == 0
                &&& self.written == self.image(self.run.drop_last())
            },
            EncryptStage::Reporting | EncryptStage::Flushing => {
                &&& self.header.wf() && self.header.has_new_costs()
                &&& self.sealed_well()
                &&& self.pending.len() == 0
                &&& self.stage is Reporting ==> self.run.len() > 0
                &&& self.written == self.image(self.run)
            },
            EncryptStage::Shredding => {
                &&& self.header.wf() && self.header.has_new_costs()
                &&& self.sealed_well()
                &&& self.pending.len() == 0
                &&& self.written == self.image(self.run)
                &&& self.shred.wf()
                &&& self.shred.path == self.path
            },
            EncryptStage::Finished => true,
        }
    }

    /// An encryption that has done nothing yet.
    pub open spec fn fresh(path: Seq<char>, password: Seq<u8>) -> EncryptModel {
        EncryptModel {
            path,
            password,
            stage: EncryptStage::Start,
            size: 0,
            header: HeaderModel {
                salt: Seq::empty(),
                nonce: Seq::empty(),
                mem_kib: 0,
                iters: 0,
                parallel: 0,
            },
            pending: Seq::empty(),
            over: false,
            run: Seq::empty(),
            written: Seq::empty(),
            shred: ShredModel::fresh(path),
        }
    }

    /// Events that can come of what it asked for. A read gives at most what was
    /// asked for, and no more bytes in all than can be counted.
    pub open spec fn expects(self, e: EventModel) -> bool {
        match self.stage {
            EncryptStage::Start | EncryptStage::Announcing | EncryptStage::Reporting => e is Done,
            EncryptStage::Measuring => e is Size || e is Failed,
            EncryptStage::Reading => {
                ||| e is Failed
                ||| e matches EventModel::Data(d) && self.pending.len() + d.len() <= BUFFER_SIZE
                    && crate::stream::plain_of(self.run).len() + self.pending.len() + d.len()
                    <= u64::MAX
            },
            EncryptStage::Shredding => self.shred.expects(e),
            EncryptStage::Finished => false,
            _ => e is Done || e is Failed,
        }
    }

    /// The message that a failure is reported with.
    pub open spec fn failed(self, reason: Seq<char>) -> Seq<char> {
        match self.stage {
            EncryptStage::Opening => "Cannot open file: "@ + reason,
            EncryptStage::Measuring => "Cannot read metadata: "@ + reason,
            EncryptStage::Creating => "Cannot create output: "@ + reason,
            EncryptStage::Deriving => "Thread panic: "@ + reason,
            _ => reason,
        }
    }

    /// Moves on to `stage` and asks for `action`.
    pub open spec fn to(self, stage: EncryptStage, action: ActionModel) -> (
        EncryptModel,
        ActionModel,
    ) {
        (EncryptModel { stage, ..self }, action)
    }

    /// Ends with a result.
    pub open spec fn finish(self, result: Result<Seq<char>, Seq<char>>) -> (
        EncryptModel,
        ActionModel,
    ) {
        self.to(EncryptStage::Finished, ActionModel::Finish(result))
    }

    /// What the progress is counted against.
    pub open spec fn total(self) -> u64 {
        if self.size == 0 {
            1
        } else {
            self.size
        }
    }

    /// The report after a segment. A source that gives more than its announced
    /// size is reported as complete.
    pub open spec fn progress(self) -> Progress {
        let read = crate::stream::plain_of(self.run).len();
        Progress::Streamed {
            done: if read <= self.total() {
                read as u64
            } else {
                self.total()
            },
            total: self.total(),
        }
    }

    /// Asks for what the buffer still has room for.
    pub open spec fn read_on(self) -> (EncryptModel, ActionModel) {
        self.to(
            EncryptStage::Reading,
            ActionModel::ReadSome((BUFFER_SIZE - self.pending.len()) as usize),
        )
    }

    /// Seals a chunk.
    pub open spec fn seal_chunk(self, chunk: Seq<u8>) -> (EncryptModel, ActionModel) {
        if !self.stream().completes(chunk.len()) && self.stream().exhausted() {
            self.finish(Err(sealing_error(SealFailure::Segment)))
        } else {
            let s = self.stream().next_segment(chunk);
            EncryptModel { pending: Seq::empty(), run: self.run.push(s), ..self }.to(
                EncryptStage::Storing,
                ActionModel::WriteOutput(s.sealed),
            )
        }
    }

    /// Takes what a read gave. A chunk is sealed once it fills the buffer,
    /// completes the announced size, or cannot grow because the source has no
    /// more.
    pub open spec fn take_data(self, d: Seq<u8>) -> (EncryptModel, ActionModel) {
        let chunk = self.pending + d;
        if d.len() == 0 {
            let m = EncryptModel { over: true, ..self };
            if chunk.len() == 0 {
                m.to(EncryptStage::Flushing, ActionModel::FlushOutput)
            } else {
                m.seal_chunk(chunk)
            }
        } else if chunk.len() < BUFFER_SIZE && !self.stream().completes(chunk.len()) {
            EncryptModel { pending: chunk, ..self }.read_on()
        } else {
            self.seal_chunk(chunk)
        }
    }

    /// Goes on shredding.
    pub open spec fn shred_step(self, e: EventModel) -> (EncryptModel, ActionModel) {
        let (shred, outcome) = self.shred.step(e);
        let next = EncryptModel { shred, ..self };
        match outcome {
            ShredOutcome::Do(action) => next.to(EncryptStage::Shredding, action),
            ShredOutcome::End(Err(message)) => next.finish(Err(message)),
            ShredOutcome::End(Ok(())) => next.finish(
                Ok("Encrypted → "@ + crate::paths::quoted_path(self.path + ".aegis"@)),
            ),
        }
    }

    /// What an event leads to; `header` is the one that a new vault gets.
    pub open spec fn step(self, e: EventModel, header: HeaderModel) -> (EncryptModel, ActionModel) {
        match (self.stage, e) {
            (EncryptStage::Shredding, _) => self.shred_step(e),
            (_, EventModel::Failed(reason)) => self.finish(Err(self.failed(reason))),
            (_, EventModel::Size(size)) => EncryptModel { size, ..self }.to(
                EncryptStage::Creating,
                ActionModel::CreateOutput(self.path + ".aegis"@),
            ),
            (_, EventModel::Data(d)) => self.take_data(d),
            (EncryptStage::Start, _) => self.to(
                EncryptStage::Opening,
                ActionModel::OpenSource(self.path),
            ),
            (EncryptStage::Opening, _) => self.to(
                EncryptStage::Measuring,
                ActionModel::ReadMetadata,
            ),
            (EncryptStage::Creating, _) => EncryptModel { header, ..self }.to(
                EncryptStage::Heading,
                ActionModel::WriteOutput(header.encoded()),
            ),
            (EncryptStage::Heading, _) => EncryptModel {
                written: self.header.encoded(),
                ..self
            }.to(EncryptStage::Deriving, ActionModel::DeriveKey),
            (EncryptStage::Deriving, _) => match crate::vault::vault_key(
                self.password,
                self.header,
            ) {
                Err(message) => self.finish(Err(message)),
                Ok(_) => self.to(
                    EncryptStage::Announcing,
                    ActionModel::Report(Progress::KeyReady),
                ),
            },
            (EncryptStage::Storing, _) => EncryptModel {
                written: self.written + self.run.last().sealed,
                ..self
            }.to(EncryptStage::Reporting, ActionModel::Report(self.progress())),
            (EncryptStage::Reporting, _) if self.ended() => self.to(
                EncryptStage::Flushing,
                ActionModel::FlushOutput,
            ),
            (EncryptStage::Flushing, _) => EncryptModel {
                shred: ShredModel::fresh(self.path),
                ..self
            }.shred_step(EventModel::Done),
            (_, _) => self.read_on(),
        }
    }
}

// ----- laws -----

/// The source is destroyed only behind a complete vault: when an encryption
/// asks for anything that destroys a file, that file is the source, everything
/// sealed so far has been written and flushed, and what has been written opens
/// under the same password to exactly what was read, however much each read
/// gave. This holds where the source did not end before its announced size.
pub proof fn source_destroyed_only_behind_its_vault(
    m: EncryptModel,
    e: EventModel,
    header: HeaderModel,
)
    requires
        m.wf(),
        m.expects(e),
        crate::task::is_destructive(m.step(e, header).1),
    ensures
        m.stage is Shredding,
        m.step(e, header).1 matches ActionModel::OpenForOverwrite(p) ==> p == m.path,
        m.step(e, header).1 matches ActionModel::RemoveFile(p) ==> p == m.path,
        m.run.len() == 0 || crate::stream::plain_of(m.run).len() >= m.size ==> {
            &&& crate::vault::vault_contents(m.password, m.written) == Some(
                crate::stream::plain_of(m.run),
            )
            &&& m.written == crate::vault::vault_image(
                m.password,
                m.header,
                crate::stream::plain_of(m.run),
            )
        },
{
    if m.run.len() == 0 || crate::stream::plain_of(m.run).len() >= m.size {
        crate::vault::sealed_vault_holds_its_plaintext(m.password, m.header, m.run);
    }
}

/// Shredding starts only when the flush of the vault file was carried out.
pub proof fn shredding_starts_after_flush(m: EncryptModel, e: EventModel, header: HeaderModel)
    requires
        m.wf(),
        m.expects(e),
        !(m.stage is Shredding),
        m.step(e, header).0.stage is Shredding,
    ensures
        m.stage is Flushing,
        e is Done,
{
}

/// A failed action ends an encryption with an error; nothing is asked for
/// after it.
pub proof fn failure_ends_encryption(m: EncryptModel, reason: Seq<char>, header: HeaderModel)
    requires
        m.wf(),
        m.expects(EventModel::Failed(reason)),
    ensures
        m.step(EventModel::Failed(reason), header).0.stage is Finished,
        m.step(EventModel::Failed(reason), header).1 matches ActionModel::Finish(r) && r is Err,
        ({
            let text = m.step(EventModel::Failed(reason), header).1->Finish_0->Err_0;
            &&& m.stage is Opening ==> text == "Cannot open file: "@ + reason
            &&& m.stage is Measuring ==> text == "Cannot read metadata: "@ + reason
            &&& m.stage is Creating ==> text == "Cannot create output: "@ + reason
            &&& m.stage is Deriving ==> text == "Thread panic: "@ + reason
            &&& m.stage is Heading || m.stage is Reading || m.stage is Storing || m.stage
                is Flushing ==> text == reason
            &&& m.stage is Shredding ==> {
                &&& m.shred.stage is Sizing ==> text == "secure_delete metadata: "@ + reason
                &&& m.shred.stage is Opening ==> text == "secure_delete open: "@ + reason
                &&& m.shred.stage is Writing ==> text == "secure_delete write: "@ + reason
                &&& m.shred.stage is Flushing ==> text == "secure_delete flush: "@ + reason
                &&& m.shred.stage is Removing ==> text == "secure_delete remove: "@ + reason
            }
        }),
{
}

/// An encryption succeeds only when the source has been overwritten three
/// times and removed, and it then names the vault.
pub proof fn encryption_succeeds_last(m: EncryptModel, e: EventModel, header: HeaderModel)
    requires
        m.wf(),
        m.expects(e),
        m.step(e, header).1 matches ActionModel::Finish(r) && r is Ok,
    ensures
        m.stage is Shredding,
        m.shred.stage is Removing,
        e is Done,
        m.step(e, header).1 == ActionModel::Finish(
            Ok("Encrypted → "@ + crate::paths::quoted_path(m.path + ".aegis"@)),
        ),
{
}

/// The progress of an encryption counts the bytes read against the announced
/// size, stays within it, and reaches it with the last segment.
pub proof fn encryption_progress_in_range(m: EncryptModel, e: EventModel, header: HeaderModel)
    requires
        m.wf(),
        m.expects(e),
    ensures
        m.step(e, header).1 matches ActionModel::Report(Progress::Streamed { done, total }) ==> {
            &&& 0 < done <= total
            &&& done == total <==> crate::stream::run_ended(m.run)
            &&& done < total ==> done == crate::stream::plain_of(m.run).len()
            &&& total == if m.size == 0 {
                1
            } else {
                m.size
            }
            &&& crate::stream::plain_of(m.run).len() >= total ==> done == total
        },
{
    if m.stage is Storing && e is Done {
        let s = m.run[m.run.len() - 1];
        assert(s.plain.len() > 0);
        assert(crate::stream::plain_of(m.run).len() >= s.plain.len());
    }
}

/// Deriving the key of a new vault fails only for a password that is too long
/// for Argon2.
pub proof fn new_vault_key_exists(m: EncryptModel)
    requires
        m.header.wf(),
        m.header.has_new_costs(),
    ensures
        crate::vault::vault_key(m.password, m.header) is Ok <==> m.password.len() <= 0xFFFF_FFFF,
{
}

/// Nothing that was read is lost, and nothing else is sealed: a read goes behind
/// what is waiting, and both wait on or are sealed as one piece, under the
/// number of pieces before it as counter.
pub proof fn reads_are_kept(m: EncryptModel, d: Seq<u8>, header: HeaderModel)
    requires
        m.wf(),
        m.stage is Reading,
        m.expects(EventModel::Data(d)),
    ensures
        ({
            let (n, action) = m.step(EventModel::Data(d), header);
            let before = crate::stream::plain_of(m.run).len();
            let chunk = m.pending + d;
            let due = d.len() == 0 || chunk.len() == 262144 || before + chunk.len() >= m.size;
            &&& n.password == m.password && n.header == m.header && n.size == m.size
            &&& n.written == m.written && n.path == m.path
            &&& chunk.len() == 0 ==> n.run == m.run && n.pending.len() == 0 && action
                == ActionModel::FlushOutput
            &&& chunk.len() > 0 && !due ==> n.run == m.run && n.pending == chunk && action
                == ActionModel::ReadSome((262144 - chunk.len()) as usize)
            &&& chunk.len() > 0 && due && m.run.len() >= 0xFFFF_FFFF && before + chunk.len()
                < m.size ==> action == crate::task::failure("Encryption chunk failed"@)
            &&& chunk.len() > 0 && due && (m.run.len() < 0xFFFF_FFFF || before + chunk.len()
                >= m.size) ==> {
                &&& n.pending.len() == 0
                &&& n.run.len() == m.run.len() + 1 && n.run.drop_last() == m.run
                &&& crate::stream::plain_of(n.run) == crate::stream::plain_of(m.run) + chunk
                &&& action == ActionModel::WriteOutput(
                    crate::stream::sealed_segment(
                        crate::key::argon2id_hash(m.password, m.header.salt, 65536, 3, 4),
                        m.header.nonce.subrange(0, 7),
                        m.run.len() as u32,
                        before + chunk.len() >= m.size,
                        chunk,
                    ),
                )
            }
        }),
{
    let chunk = m.pending + d;
    let s = m.stream().next_segment(chunk);
    crate::key::derived_key_is_the_hash(m.password, m.header.salt, 65536, 3, 4);
    crate::stream::lemma_push(m.run, s);
    assert(m.run.push(s).drop_last() =~= m.run);
    assert(m.header.stream_nonce() =~= m.header.nonce.subrange(0, 7));
}

/// What follows what, up to the shredding: the source is opened and measured,
/// the vault is created beside it and begun with its header, the key is derived
/// and reported, and pieces are read, written and reported in turn until the
/// announced size is sealed or the source has no more; then the vault is
/// flushed, and the source is shredded.
pub proof fn order_of_an_encryption(m: EncryptModel, e: EventModel, header: HeaderModel)
    requires
        m.wf(),
        m.expects(e),
        !(e is Failed),
    ensures
        ({
            let (n, action) = m.step(e, header);
            &&& n.path == m.path && n.password == m.password
            &&& m.stage is Start ==> action == ActionModel::OpenSource(m.path)
            &&& m.stage is Opening ==> action == ActionModel::ReadMetadata
            &&& m.stage is Measuring ==> action == ActionModel::CreateOutput(m.path + ".aegis"@)
                && e == EventModel::Size(n.size)
            &&& m.stage is Creating ==> action == ActionModel::WriteOutput(header.encoded())
                && n.header == header && n.size == m.size
            &&& m.stage is Heading ==> action == ActionModel::DeriveKey && n.header == m.header
                && n.size == m.size
            &&& m.stage is Deriving && m.password.len() <= 0xFFFF_FFFF ==> action
                == ActionModel::Report(Progress::KeyReady) && n.header == m.header && n.size
                == m.size
            &&& m.stage is Deriving && m.password.len() > 0xFFFF_FFFF ==> action
                == crate::task::failure("Key derivation failed: "@ + "password is too long"@)
            &&& m.stage is Announcing ==> action == ActionModel::ReadSome(262144)
            &&& m.stage is Storing ==> action is Report && n.run == m.run && n.written
                == m.written + m.run.last().sealed
            &&& m.stage is Reporting ==> {
                let over = m.over || crate::stream::plain_of(m.run).len() >= m.size;
                &&& n.run == m.run && n.written == m.written
                &&& over ==> action == ActionModel::FlushOutput
                &&& !over ==> action == ActionModel::ReadSome(262144)
            }
            &&& m.stage is Flushing ==> action == ActionModel::StatFile(m.path) && n.run == m.run
                && n.written == m.written
        }),
{
    crate::key::derived_key_is_the_hash(m.password, m.header.salt, 65536, 3, 4);
}

/// Whatever comes of what an encryption asked for, it takes: a success or a
/// failure of each action, every size, and every read that gives no more than
/// was asked for and can be counted. Once it has finished it takes nothing.
pub proof fn encryption_takes_every_outcome(
    m: EncryptModel,
    size: u64,
    d: Seq<u8>,
    reason: Seq<char>,
)
    ensures
        !(m.stage is Measuring) && !(m.stage is Reading) && !(m.stage is Shredding)
            && !(m.stage is Finished) ==> m.expects(EventModel::Done),
        m.expects(EventModel::Size(size)) <== m.stage is Measuring,
        m.stage is Reading && m.pending.len() + d.len() <= 262144 && crate::stream::plain_of(
            m.run,
        ).len() + m.pending.len() + d.len() <= 0xFFFF_FFFF_FFFF_FFFF ==> m.expects(
            EventModel::Data(d),
        ),
        !(m.stage is Start) && !(m.stage is Announcing) && !(m.stage is Reporting) && !(m.stage
            is Shredding) && !(m.stage is Finished) ==> m.expects(EventModel::Failed(reason)),
        m.stage is Finished ==> !m.expects(EventModel::Done) && !m.expects(
            EventModel::Failed(reason),
        ) && !m.expects(EventModel::Size(size)) && !m.expects(EventModel::Data(d)),
{
}

// ----- code -----

/// What is said of a chunk that could not be sealed.
pub fn sealing_message(failure: SealFailure) -> (r: String)
    ensures
        r@ == sealing_error(failure),
        failure is Last ==> r@ == "Encryption finalisation failed"@,
        failure is Segment ==> r@ == "Encryption chunk failed"@,
{
    match failure {
        SealFailure::Last => "Encryption finalisation failed".to_owned(),
        SealFailure::Segment => "Encryption chunk failed".to_owned(),
    }
}

enum EncryptPhase {
    Start(ProtectedBuffer),
    Opening(ProtectedBuffer),
    Measuring(ProtectedBuffer),
    Creating(ProtectedBuffer, u64),
    Heading(ProtectedBuffer, u64, Header),
    Deriving(ProtectedBuffer, u64, Header),
    Announcing(SealStream),
    Reading(SealStream, Vec<u8>),
    Storing(SealStream, bool),
    Reporting(SealStream, bool),
    Flushing(SealStream),
    Shredding(SealStream, Shredder),
    Finished,
}

/// Encrypts the file at a path into a vault beside it, then shreds the file.
pub struct EncryptTask {
    path: String,
    phase: EncryptPhase,
    model: Ghost<EncryptModel>,
}

impl View for EncryptTask {
    type V = EncryptModel;

    closed spec fn view(&self) -> EncryptModel {
        self.model@
    }
}

impl EncryptTask {
    /// The model is well formed and says what the task holds.
    pub closed spec fn inv(&self) -> bool {
        let m = self.model@;
        &&& m.wf()
        &&& self.path@ == m.path
        &&& match self.phase {
            EncryptPhase::Start(p) => m.stage is Start && p@ == m.password,
            EncryptPhase::Opening(p) => m.stage is Opening && p@ == m.password,
            EncryptPhase::Measuring(p) => m.stage is Measuring && p@ == m.password,
            EncryptPhase::Creating(p, size) => {
                m.stage is Creating && p@ == m.password && size == m.size
            },
            EncryptPhase::Heading(p, size, h) => {
                m.stage is Heading && p@ == m.password && size == m.size && h@ == m.header
            },
            EncryptPhase::Deriving(p, size, h) => {
                m.stage is Deriving && p@ == m.password && size == m.size && h@ == m.header
            },
            EncryptPhase::Announcing(s) => m.stage is Announcing && s.inv() && s@ == m.stream(),
            EncryptPhase::Reading(s, pending) => {
                m.stage is Reading && s.inv() && s@ == m.stream() && pending@ == m.pending
            },
            EncryptPhase::Storing(s, over) => {
                m.stage is Storing && s.inv() && s@ == m.stream() && over == m.over
            },
            EncryptPhase::Reporting(s, ended) => {
                m.stage is Reporting && s.inv() && s@ == m.stream() && ended == m.ended()
            },
            EncryptPhase::Flushing(s) => m.stage is Flushing && s.inv() && s@ == m.stream(),
            EncryptPhase::Shredding(s, shredder) => {
                m.stage is Shredding && s.inv() && s@ == m.stream() && shredder.inv() && shredder@
                    == m.shred
            },
            EncryptPhase::Finished => m.stage is Finished,
        }
    }

    /// A task's model is well formed.
    pub proof fn inv_gives_wf(&self)
        requires
            self.inv(),
        ensures
            self@.wf(),
    {
    }

    /// A task that encrypts the file at `path` under a password.
    pub fn new(password: Vec<u8>, path: String) -> (r: EncryptTask)
        ensures
            r.inv(),
            r@ == EncryptModel::fresh(path@, password@),
    {
        let ghost model = EncryptModel::fresh(path@, password@);
        EncryptTask {
            path,
            phase: EncryptPhase::Start(ProtectedBuffer::new(password)),
            model: Ghost(model),
        }
    }

    /// Whether `event` can come of what the task asked for.
    pub fn expects(&self, event: &Event) -> (r: bool)
        requires
            self.inv(),
        ensures
            r == self@.expects(event@),
    {
        match (&self.phase, event) {
            (EncryptPhase::Finished, _) => false,
            (EncryptPhase::Shredding(_, shredder), _) => shredder.expects(event),
            (EncryptPhase::Start(_), Event::Done) => true,
            (EncryptPhase::Start(_), _) => false,
            (EncryptPhase::Announcing(_), Event::Done) => true,
            (EncryptPhase::Announcing(_), _) => false,
            (EncryptPhase::Reporting(_, _), Event::Done) => true,
            (EncryptPhase::Reporting(_, _), _) => false,
            (_, Event::Failed(_)) => true,
            (EncryptPhase::Measuring(_), Event::Size(_)) => true,
            (EncryptPhase::Measuring(_), _) => false,
            (EncryptPhase::Reading(stream, pending), Event::Data(d)) => {
                d.len() <= BUFFER_SIZE - pending.len() && d.len() as u64 <= u64::MAX
                    - stream.done() - pending.len() as u64
            },
            (EncryptPhase::Reading(_, _), _) => false,
            (_, Event::Done) => true,
            (_, _) => false,
        }
    }

    /// Draws up the vault with the given header and asks for it to be written.
    pub fn start_vault(self, header: Header) -> (r: (EncryptTask, Action))
        requires
            self.inv(),
            self@.stage is Creating,
            header@.has_new_costs(),
        ensures
            r.0.inv(),
            (r.0@, r.1@) == self@.step(EventModel::Done, header@),
    {
        let ghost m = self@.step(EventModel::Done, header@).0;
        let bytes = header.encode();
        let EncryptTask { path, phase, model } = self;
        let phase = match phase {
            EncryptPhase::Creating(password, size) => EncryptPhase::Heading(
                password,
                size,
                header,
            ),
            other => other,
        };
        (EncryptTask { path, phase, model: Ghost(m) }, Action::WriteOutput(bytes))
    }

    /// Seals a chunk and asks for the segment to be written; `over` says that
    /// the source has no more.
    fn seal_chunk(
        path: String,
        stream: SealStream,
        chunk: Vec<u8>,
        over: bool,
        model: Ghost<EncryptModel>,
    ) -> (r: (EncryptTask, Action))
        requires
            path@ == model@.path,
            stream.inv(),
            stream@ == model@.stream(),
            model@.wf(),
            model@.stage is Reading,
            0 < chunk@.len() <= BUFFER_SIZE,
            crate::stream::plain_of(model@.run).len() + chunk@.len() <= u64::MAX,
            over || chunk@.len() == BUFFER_SIZE || model@.stream().completes(chunk@.len()),
        ensures
            r.0.inv(),
            (r.0@, r.1@) == (EncryptModel { over, ..model@ }).seal_chunk(chunk@),
    {
        let ghost old_model = EncryptModel { over, ..model@ };
        let ghost m = old_model.seal_chunk(chunk@).0;
        let mut stream = stream;
        match stream.seal(chunk.as_slice()) {
            Ok(sealed) => {
                proof {
                    stream.inv_gives_wf();
                    assert(m.run.drop_last() =~= old_model.run);
                    assert forall|i: int|
                        #![trigger m.run[i]]
                        0 <= i < m.run.len() - 1 implies m.run[i].plain.len() == BUFFER_SIZE by {
                        assert(m.run[i] == old_model.run[i]);
                    }
                }
                (
                    EncryptTask { path, phase: EncryptPhase::Storing(stream, over), model: Ghost(m) },
                    Action::WriteOutput(sealed.bytes),
                )
            },
            Err(failure) => {
                let message = sealing_message(failure);
                (
                    EncryptTask { path, phase: EncryptPhase::Finished, model: Ghost(m) },
                    Action::Finish(Err(message)),
                )
            },
        }
    }

    /// Takes what a read gave: seals the chunk that it makes up, asks for more
    /// of it, or goes on to the end when the source has no more.
    fn take_data(
        path: String,
        stream: SealStream,
        pending: Vec<u8>,
        d: Vec<u8>,
        model: Ghost<EncryptModel>,
    ) -> (r: (EncryptTask, Action))
        requires
            path@ == model@.path,
            stream.inv(),
            stream@ == model@.stream(),
            pending@ == model@.pending,
            model@.wf(),
            model@.stage is Reading,
            model@.expects(EventModel::Data(d@)),
        ensures
            r.0.inv(),
            (r.0@, r.1@) == model@.take_data(d@),
    {
        let ghost m = model@.take_data(d@).0;
        let mut chunk = pending;
        push_bytes(&mut chunk, d.as_slice());
        if d.len() == 0 {
            if chunk.len() == 0 {
                return (
                    EncryptTask { path, phase: EncryptPhase::Flushing(stream), model: Ghost(m) },
                    Action::FlushOutput,
                );
            }
            return EncryptTask::seal_chunk(path, stream, chunk, true, model);
        }
        if chunk.len() < BUFFER_SIZE && !stream.completes(chunk.len()) {
            let room: usize = BUFFER_SIZE - chunk.len();
            return (
                EncryptTask { path, phase: EncryptPhase::Reading(stream, chunk), model: Ghost(m) },
                Action::ReadSome(room),
            );
        }
        EncryptTask::seal_chunk(path, stream, chunk, false, model)
    }

    /// Hands an event to the shredder and passes on what it asks for.
    fn shred_on(
        path: String,
        stream: SealStream,
        shredder: Shredder,
        event: Event,
        model: Ghost<EncryptModel>,
    ) -> (r: (EncryptTask, Action))
        requires
            path@ == model@.path,
            stream.inv(),
            stream@ == model@.stream(),
            shredder.inv(),
            shredder@ == model@.shred,
            shredder@.expects(event@),
            (EncryptModel { stage: EncryptStage::Shredding, ..model@ }).wf(),
        ensures
            r.0.inv(),
            (r.0@, r.1@) == model@.shred_step(event@),
            r.1 matches Action::Overwrite(bytes) ==> crate::random::drawn(bytes@),
    {
        let ghost m = model@.shred_step(event@).0;
        let (shredder, step) = shredder.next(event);
        proof {
            shredder.inv_gives_wf();
        }
        match step {
            ShredStep::Do(action) => (
                EncryptTask { path, phase: EncryptPhase::Shredding(stream, shredder), model: Ghost(m) },
                action,
            ),
            ShredStep::End(Err(message)) => (
                EncryptTask { path, phase: EncryptPhase::Finished, model: Ghost(m) },
                Action::Finish(Err(message)),
            ),
            ShredStep::End(Ok(())) => {
                let output = vault_path(path.as_str());
                let message = prefixed("Encrypted → ", quote_path(output.as_str()).as_str());
                (
                    EncryptTask { path, phase: EncryptPhase::Finished, model: Ghost(m) },
                    Action::Finish(Ok(message)),
                )
            },
        }
    }

    /// Ends the task with the message of a failed action.
    fn fail(self, reason: String) -> (r: (EncryptTask, Action))
        requires
            self.inv(),
            !(self@.stage is Shredding),
        ensures
            r.0.inv(),
            (r.0@, r.1@) == self@.finish(Err(self@.failed(reason@))),
    {
        let ghost m = self@.finish(Err(self@.failed(reason@))).0;
        let EncryptTask { path, phase, model } = self;
        let message = match phase {
            EncryptPhase::Opening(_) => prefixed("Cannot open file: ", reason.as_str()),
            EncryptPhase::Measuring(_) => prefixed("Cannot read metadata: ", reason.as_str()),
            EncryptPhase::Creating(_, _) => prefixed("Cannot create output: ", reason.as_str()),
            EncryptPhase::Deriving(_, _, _) => prefixed("Thread panic: ", reason.as_str()),
            _ => reason,
        };
        (
            EncryptTask { path, phase: EncryptPhase::Finished, model: Ghost(m) },
            Action::Finish(Err(message)),
        )
    }

    /// Takes what came of the last action and says what to do next. The header
    /// of a new vault gets a random salt and nonce; all else follows from the
    /// event.
    pub fn next(self, event: Event) -> (r: (EncryptTask, Action))
        requires
            self.inv(),
            self@.expects(event@),
        ensures
            r.0.inv(),
            (r.0@, r.1@) == self@.step(event@, r.0@.header),
            r.1 matches Action::Overwrite(bytes) ==> crate::random::drawn(bytes@),
            self@.stage is Creating && event is Done ==> {
                &&& crate::random::drawn(r.0@.header.salt)
                &&& crate::random::drawn(r.0@.header.nonce)
            },
    {
        let ghost old_model = self@;
        let EncryptTask { path, phase, model } = self;
        match (phase, event) {
            (EncryptPhase::Shredding(stream, shredder), event) => EncryptTask::shred_on(
                path,
                stream,
                shredder,
                event,
                model,
            ),
            (phase, Event::Failed(reason)) => EncryptTask { path, phase, model }.fail(reason),
            (EncryptPhase::Measuring(password), Event::Size(size)) => {
                let ghost m = old_model.step(EventModel::Size(size), old_model.header).0;
                let output = vault_path(path.as_str());
                (
                    EncryptTask {
                        path,
                        phase: EncryptPhase::Creating(password, size),
                        model: Ghost(m),
                    },
                    Action::CreateOutput(output),
                )
            },
            (EncryptPhase::Reading(stream, pending), Event::Data(d)) => EncryptTask::take_data(
                path,
                stream,
                pending,
                d,
                model,
            ),
            (EncryptPhase::Start(password), _) => {
                let ghost m = old_model.step(EventModel::Done, old_model.header).0;
                let source = path.clone();
                (
                    EncryptTask { path, phase: EncryptPhase::Opening(password), model: Ghost(m) },
                    Action::OpenSource(source),
                )
            },
            (EncryptPhase::Opening(password), _) => {
                let ghost m = old_model.step(EventModel::Done, old_model.header).0;
                (
                    EncryptTask { path, phase: EncryptPhase::Measuring(password), model: Ghost(m) },
                    Action::ReadMetadata,
                )
            },
            (EncryptPhase::Creating(password, size), _) => EncryptTask {
                path,
                phase: EncryptPhase::Creating(password, size),
                model,
            }.start_vault(Header::fresh()),
            (EncryptPhase::Heading(password, size, header), _) => {
                let ghost m = old_model.step(EventModel::Done, old_model.header).0;
                (
                    EncryptTask {
                        path,
                        phase: EncryptPhase::Deriving(password, size, header),
                        model: Ghost(m),
                    },
                    Action::DeriveKey,
                )
            },
            (EncryptPhase::Deriving(password, size, header), _) => {
                let ghost m = old_model.step(EventModel::Done, old_model.header).0;
                let derived = MasterKey::derive(
                    password.data.as_slice(),
                    header.salt.as_slice(),
                    header.mem_kib,
                    header.iters,
                    header.parallel,
                );
                match derived {
                    Err(message) => (
                        EncryptTask { path, phase: EncryptPhase::Finished, model: Ghost(m) },
                        Action::Finish(Err(message)),
                    ),
                    Ok(key) => {
                        let stream = SealStream::new(key, header.stream_nonce(), size);
                        proof {
                            stream.inv_gives_wf();
                            assert(m.run =~= Seq::empty());
                            assert(m.image(m.run) =~= m.header.encoded());
                        }
                        (
                            EncryptTask {
                                path,
                                phase: EncryptPhase::Announcing(stream),
                                model: Ghost(m),
                            },
                            Action::Report(Progress::KeyReady),
                        )
                    },
                }
            },
            (EncryptPhase::Storing(stream, over), _) => {
                let ghost m = old_model.step(EventModel::Done, old_model.header).0;
                let total: u64 = if stream.size() == 0 {
                    1
                } else {
                    stream.size()
                };
                let done: u64 = if stream.done() <= total {
                    stream.done()
                } else {
                    total
                };
                let progress = Progress::Streamed { done, total };
                let ended = over || stream.ended();
                proof {
                    assert(old_model.image(old_model.run) =~= m.written);
                }
                (
                    EncryptTask {
                        path,
                        phase: EncryptPhase::Reporting(stream, ended),
                        model: Ghost(m),
                    },
                    Action::Report(progress),
                )
            },
            (EncryptPhase::Reporting(stream, true), _) => {
                let ghost m = old_model.step(EventModel::Done, old_model.header).0;
                (
                    EncryptTask { path, phase: EncryptPhase::Flushing(stream), model: Ghost(m) },
                    Action::FlushOutput,
                )
            },
            (EncryptPhase::Flushing(stream), _) => {
                let shredder = Shredder::new(path.clone());
                let ghost m = EncryptModel { shred: shredder@, ..old_model };
                proof {
                    shredder.inv_gives_wf();
                }
                EncryptTask::shred_on(path, stream, shredder, Event::Done, Ghost(m))
            },
            (EncryptPhase::Reporting(stream, false), _) | (EncryptPhase::Announcing(stream), _) => {
                let ghost m = old_model.step(EventModel::Done, old_model.header).0;
                let pending: Vec<u8> = Vec::new();
                assert(pending@ =~= m.pending);
                (
                    EncryptTask {
                        path,
                        phase: EncryptPhase::Reading(stream, pending),
                        model: Ghost(m),
                    },
                    Action::ReadSome(BUFFER_SIZE),
                )
            },
            // No other event is expected.
            (phase, _) => (EncryptTask { path, phase, model }, Action::ReadMetadata),
        }
    }
}

} // verus!
