//! Decrypting a vault into a file beside it.

use crate::header::{is_magic, Header, HeaderModel, AEGIS_MAGIC, HEADER_SIZE, MAGIC_SIZE};
use crate::key::{can_derive, MasterKey, ProtectedBuffer};
use crate::paths::{decrypted_path, quote_path};
use crate::stream::{OpenFailure, OpenModel, OpenStream, Segment};
use crate::task::{prefixed, Action, ActionModel, Event, EventModel, Progress};
use crate::vault::SEGMENT_SIZE;
use vstd::prelude::*;

verus! {

/// Bytes of the header behind the magic.
pub const FIELDS_SIZE: usize = 40;

// ----- the model -----

/// What a decryption waits for.
#[derive(Clone, Copy, Debug, PartialEq, Eq)]
pub enum DecryptStage {
    /// The first event.
    Start,
    /// The vault being opened.
    Opening,
    /// The vault's size.
    Measuring,
    /// The magic.
    Magic,
    /// The header behind the magic.
    Fields,
    /// A place to derive the key.
    Deriving,
    /// The derived key being reported.
    Announcing,
    /// The restored file being created.
    Creating,
    /// A sealed segment.
    Reading,
    /// An opened segment being written.
    Storing,
    /// A segment being reported.
    Reporting,
    /// The restored file being flushed.
    Flushing,
    /// Nothing more.
    Finished,
}

/// What a decryption has done.
pub struct DecryptModel {
    pub path: Seq<char>,
    pub password: Seq<u8>,
    pub stage: DecryptStage,
    /// The size of the vault, once it is known.
    pub size: u64,
    /// The header of the vault, once it is read.
    pub header: HeaderModel,
    /// What has been read and accepted of the vault.
    pub input: Seq<u8>,
    /// The segments opened so far.
    pub run: Seq<Segment>,
    /// What has been written to the restored file.
    pub written: Seq<u8>,
}

/// What is said of a segment that does not open.
pub open spec fn refusal(failure: OpenFailure) -> Seq<char> {
    match failure {
        OpenFailure::Last => "Wrong password or corrupted vault."@,
        OpenFailure::Segment => "Decryption chunk failed — file may be corrupted."@,
    }
}

impl DecryptModel {
    /// The key of the vault.
    pub open spec fn key(self) -> Seq<u8> {
        crate::vault::vault_key(self.password, self.header)->Ok_0
    }

    /// Bytes of the vault behind the header.
    pub open spec fn payload(self) -> nat {
        if self.size >= HEADER_SIZE {
            (self.size - HEADER_SIZE) as nat
        } else {
            0
        }
    }

    /// The stream that opens the payload.
    pub open spec fn stream(self) -> OpenModel {
        OpenModel {
            key: self.key(),
            nonce: self.header.stream_nonce(),
            cap: SEGMENT_SIZE as nat,
            remaining: (self.payload() - crate::stream::sealed_of(self.run).len()) as nat,
            run: self.run,
        }
    }

    /// The header is that of the vault and the input starts with it.
    pub open spec fn headed(self) -> bool {
        &&& self.header.wf()
        &&& self.input == self.header.encoded() + crate::stream::sealed_of(self.run)
    }

    /// The segments are what the stream made of the payload, under the vault's
    /// key.
    pub open spec fn opened_well(self) -> bool {
        &&& self.headed()
        &&& crate::vault::vault_key(self.password, self.header) is Ok
        &&& crate::stream::sealed_of(self.run).len() <= self.payload()
        &&& self.stream().wf()
    }

    /// The invariant of a decryption: what has been written is the plaintext of
    /// every segment read so far, but for the one that is being written.
    pub open spec fn wf(self) -> bool {
        match self.stage {
            DecryptStage::Start
            | DecryptStage::Opening
            | DecryptStage::Measuring
            | DecryptStage::Magic => {
                self.input.len() == 0 && self.run.len() == 0 && self.written.len() == 0
            },
            DecryptStage::Fields => {
                self.input == AEGIS_MAGIC@ && self.run.len() == 0 && self.written.len() == 0
            },
            DecryptStage::Deriving => {
                self.headed() && self.run.len() == 0 && self.written.len() == 0
            },
            DecryptStage::Announcing | DecryptStage::Creating => {
                self.opened_well() && self.run.len() == 0 && self.written.len() == 0
            },
            DecryptStage::Reading => {
                &&& self.opened_well()
                &&& self.stream().remaining > 0
                &&& self.written == crate::stream::plain_of(self.run)
            },
            DecryptStage::Storing => {
                &&& self.opened_well()
                &&& self.run.len() > 0
                &&& self.written == crate::stream::plain_of(self.run.drop_last())
            },
            DecryptStage::Reporting => {
                &&& self.opened_well()
                &&& self.written == crate::stream::plain_of(self.run)
            },
            DecryptStage::Flushing => {
                &&& self.opened_well()
                &&& self.stream().remaining == 0
                &&& self.written == crate::stream::plain_of(self.run)
            },
            DecryptStage::Finished => true,
        }
    }

    /// A decryption that has done nothing yet.
    pub open spec fn fresh(path: Seq<char>, password: Seq<u8>) -> DecryptModel {
        DecryptModel {
            path,
            password,
            stage: DecryptStage::Start,
            size: 0,
            header: HeaderModel {
                salt: Seq::empty(),
                nonce: Seq::empty(),
                mem_kib: 0,
                iters: 0,
                parallel: 0,
            },
            input: Seq::empty(),
            run: Seq::empty(),
            written: Seq::empty(),
        }
    }

    /// How many bytes it asked for.
    pub open spec fn wanted(self) -> nat {
        match self.stage {
            DecryptStage::Magic => MAGIC_SIZE as nat,
            DecryptStage::Fields => FIELDS_SIZE as nat,
            _ => self.stream().next_len(),
        }
    }

    /// Events that can come of what it asked for. An exact read gives what was
    /// asked for, and the key can only be derived under costs that Argon2 can
    /// be asked about.
    pub open spec fn expects(self, e: EventModel) -> bool {
        match self.stage {
            DecryptStage::Start | DecryptStage::Announcing | DecryptStage::Reporting => e is Done,
            DecryptStage::Measuring => e is Size || e is Failed,
            DecryptStage::Magic | DecryptStage::Fields | DecryptStage::Reading => {
                ||| e is Failed
                ||| e matches EventModel::Data(d) && d.len() == self.wanted()
            },
            DecryptStage::Deriving => {
                ||| e is Failed
                ||| e is Done && crate::key::derivable(
                    self.header.mem_kib,
                    self.header.iters,
                    self.header.parallel,
                )
            },
            DecryptStage::Finished => false,
            _ => e is Done || e is Failed,
        }
    }

    /// The message that a failure is reported with.
    pub open spec fn failed(self, reason: Seq<char>) -> Seq<char> {
        match self.stage {
            DecryptStage::Opening => "Cannot open file: "@ + reason,
            DecryptStage::Measuring => "Cannot read metadata: "@ + reason,
            DecryptStage::Deriving => "Thread panic: "@ + reason,
            DecryptStage::Creating => "Cannot create output: "@ + reason,
            _ => reason,
        }
    }

    /// Moves on to `stage` and asks for `action`.
    pub open spec fn to(self, stage: DecryptStage, action: ActionModel) -> (
        DecryptModel,
        ActionModel,
    ) {
        (DecryptModel { stage, ..self }, action)
    }

    /// Ends with a result.
    pub open spec fn finish(self, result: Result<Seq<char>, Seq<char>>) -> (
        DecryptModel,
        ActionModel,
    ) {
        self.to(DecryptStage::Finished, ActionModel::Finish(result))
    }

    /// The report after a segment.
    pub open spec fn progress(self) -> Progress {
        Progress::Streamed {
            done: crate::stream::sealed_of(self.run).len() as u64,
            total: if self.payload() == 0 {
                1
            } else {
                self.payload() as u64
            },
        }
    }

    /// Asks for the next segment, or goes on to the end after the last one.
    pub open spec fn read_on(self) -> (DecryptModel, ActionModel) {
        if self.stream().remaining == 0 {
            self.to(DecryptStage::Flushing, ActionModel::FlushOutput)
        } else {
            self.to(
                DecryptStage::Reading,
                ActionModel::ReadExact(self.stream().next_len() as usize),
            )
        }
    }

    /// Takes the magic.
    pub open spec fn take_magic(self, d: Seq<u8>) -> (DecryptModel, ActionModel) {
        if d == AEGIS_MAGIC@ {
            DecryptModel { input: d, ..self }.to(
                DecryptStage::Fields,
                ActionModel::ReadExact(FIELDS_SIZE),
            )
        } else {
            self.finish(Err("Not an Aegis vault file (wrong magic bytes)."@))
        }
    }

    /// Takes a sealed segment.
    pub open spec fn take_segment(self, d: Seq<u8>) -> (DecryptModel, ActionModel) {
        match self.stream().next_opened(d) {
            Some(plain) => DecryptModel {
                input: self.input + d,
                run: self.stream().advance(d, plain).run,
                ..self
            }.to(DecryptStage::Storing, ActionModel::WriteOutput(plain)),
            None => self.finish(
                Err(
                    refusal(
                        if self.stream().remaining <= SEGMENT_SIZE {
                            OpenFailure::Last
                        } else {
                            OpenFailure::Segment
                        },
                    ),
                ),
            ),
        }
    }

    /// What an event leads to.
    pub open spec fn step(self, e: EventModel) -> (DecryptModel, ActionModel) {
        match (self.stage, e) {
            (_, EventModel::Failed(reason)) => self.finish(Err(self.failed(reason))),
            (_, EventModel::Size(size)) => DecryptModel { size, ..self }.to(
                DecryptStage::Magic,
                ActionModel::ReadExact(MAGIC_SIZE),
            ),
            (DecryptStage::Magic, EventModel::Data(d)) => self.take_magic(d),
            (DecryptStage::Fields, EventModel::Data(d)) => DecryptModel {
                input: self.input + d,
                header: crate::header::fields_of(d),
                ..self
            }.to(DecryptStage::Deriving, ActionModel::DeriveKey),
            (_, EventModel::Data(d)) => self.take_segment(d),
            (DecryptStage::Start, _) => self.to(
                DecryptStage::Opening,
                ActionModel::OpenSource(self.path),
            ),
            (DecryptStage::Opening, _) => self.to(
                DecryptStage::Measuring,
                ActionModel::ReadMetadata,
            ),
            (DecryptStage::Deriving, _) => match crate::vault::vault_key(
                self.password,
                self.header,
            ) {
                Err(message) => self.finish(Err(message)),
                Ok(_) => self.to(
                    DecryptStage::Announcing,
                    ActionModel::Report(Progress::KeyReady),
                ),
            },
            (DecryptStage::Announcing, _) => self.to(
                DecryptStage::Creating,
                ActionModel::CreateOutput(crate::paths::restored(self.path)),
            ),
            (DecryptStage::Storing, _) => DecryptModel {
                written: self.written + self.run.last().plain,
                ..self
            }.to(DecryptStage::Reporting, ActionModel::Report(self.progress())),
            (DecryptStage::Flushing, _) => self.finish(
                Ok(
                    "Decrypted → "@ + crate::paths::quoted_path(
                        crate::paths::restored(self.path),
                    ),
                ),
            ),
            (_, _) => self.read_on(),
        }
    }
}

// ----- laws -----

/// The bytes taken so far, and those of the event, are the start of `file`.
pub open spec fn fed_from(m: DecryptModel, e: EventModel, file: Seq<u8>) -> bool {
    &&& m.input.len() <= file.len()
    &&& m.input == file.take(m.input.len() as int)
    &&& e matches EventModel::Data(d) ==> {
        &&& m.input.len() + d.len() <= file.len()
        &&& d == file.subrange(m.input.len() as int, (m.input.len() + d.len()) as int)
    }
}

/// A decryption that is fed a vault file, and none of whose actions fail,
/// succeeds only if the password opens the vault, and has then written exactly
/// what the vault holds; it ends in an error only if the password does not open
/// it.
pub proof fn decryption_gives_the_contents(m: DecryptModel, e: EventModel, file: Seq<u8>)
    requires
        m.wf(),
        m.expects(e),
        !(e is Failed),
        fed_from(m, e, file),
        m.stage is Start || m.stage is Opening || m.stage is Measuring || file.len() == m.size,
    ensures
        m.step(e).0.stage is Finished || m.step(e).0.input == file.take(
            m.step(e).0.input.len() as int,
        ),
        m.step(e).1 matches ActionModel::Finish(r) ==> (match r {
            Ok(_) => crate::vault::vault_contents(m.password, file) == Some(m.written),
            Err(_) => crate::vault::vault_contents(m.password, file) is None,
        }),
{
    if let EventModel::Data(d) = e {
        assert(m.input + d =~= file.take((m.input.len() + d.len()) as int));
        if m.stage is Magic {
            assert(d =~= file.take(MAGIC_SIZE as int));
            assert(m.input + d =~= d);
        } else if m.stage is Reading {
            lemma_headed(m, file);
            if m.stream().next_opened(d) is None {
                lemma_refused(m, d, file);
            }
        }
    } else if m.stage is Deriving {
        lemma_headed(m, file);
    } else if m.stage is Flushing {
        lemma_headed(m, file);
        assert(m.run.len() > 0 ==> crate::stream::run_ended(m.run));
        assert(file.skip(HEADER_SIZE as int) =~= crate::stream::sealed_of(m.run));
        crate::stream::opened_run_opens(
            m.key(),
            m.header.stream_nonce(),
            m.run,
            SEGMENT_SIZE as nat,
        );
    }
}

/// Behind the header, the file that a decryption is fed from is known by it.
pub(crate) proof fn lemma_headed(m: DecryptModel, file: Seq<u8>)
    requires
        m.headed(),
        m.input.len() <= file.len(),
        m.input == file.take(m.input.len() as int),
    ensures
        file.len() >= HEADER_SIZE,
        crate::header::has_magic(file),
        crate::header::header_of(file) == m.header,
        file.skip(HEADER_SIZE as int).take(crate::stream::sealed_of(m.run).len() as int)
            == crate::stream::sealed_of(m.run),
{
    let rest = file.skip(HEADER_SIZE as int);
    crate::header::header_reads_back(m.header, rest);
    assert(file.take(HEADER_SIZE as int) =~= m.input.take(HEADER_SIZE as int));
    assert(m.input.take(HEADER_SIZE as int) =~= m.header.encoded());
    assert(m.header.encoded() + rest =~= file);
    assert(rest.take(crate::stream::sealed_of(m.run).len() as int) =~= m.input.skip(
        HEADER_SIZE as int,
    ));
    assert(m.input.skip(HEADER_SIZE as int) =~= crate::stream::sealed_of(m.run));
}

/// A segment that does not open leaves the vault without contents.
proof fn lemma_refused(m: DecryptModel, d: Seq<u8>, file: Seq<u8>)
    requires
        m.wf(),
        m.stage is Reading,
        m.expects(EventModel::Data(d)),
        fed_from(m, EventModel::Data(d), file),
        file.len() == m.size,
        m.stream().next_opened(d) is None,
    ensures
        crate::vault::vault_contents(m.password, file) is None,
{
    let sealed = crate::stream::sealed_of(m.run);
    let payload = file.skip(HEADER_SIZE as int);
    let rest = payload.skip(sealed.len() as int);
    let (key, nonce, cap) = (m.key(), m.header.stream_nonce(), SEGMENT_SIZE as nat);
    lemma_headed(m, file);
    assert(payload =~= sealed + rest);
    assert(rest.len() == m.stream().remaining);
    assert forall|i: int| #![trigger m.run[i]] 0 <= i < m.run.len() implies !m.run[i].last
        && m.run[i].sealed.len() == cap by {
        if m.run[i].last {
            assert(i == m.run.len() - 1);
        }
    }
    crate::stream::lemma_open_after_run(key, nonce, m.run, rest, cap);
    if rest.len() <= cap {
        assert(rest =~= d);
    } else {
        assert(rest.take(cap as int) =~= d);
    }
}

/// A restored file is created only once the magic has been recognised and the
/// key derived, and only where the vault's path puts it.
pub proof fn output_created_only_for_a_vault(m: DecryptModel, e: EventModel)
    requires
        m.wf(),
        m.expects(e),
        m.step(e).1 is CreateOutput,
    ensures
        crate::header::has_magic(m.input),
        m.input == m.header.encoded(),
        crate::vault::vault_key(m.password, m.header) is Ok,
        m.step(e).1 == ActionModel::CreateOutput(crate::paths::restored(m.path)),
{
    crate::header::header_reads_back(m.header, Seq::empty());
    assert(m.header.encoded() + Seq::<u8>::empty() =~= m.header.encoded());
    assert(m.input =~= m.header.encoded());
}

/// The progress of a decryption stays within its total, and reaches it with
/// the last segment.
pub proof fn decryption_progress_in_range(m: DecryptModel, e: EventModel)
    requires
        m.wf(),
        m.expects(e),
    ensures
        m.step(e).1 matches ActionModel::Report(Progress::Streamed { done, total }) ==> {
            &&& 0 < done <= total
            &&& done == total <==> crate::stream::run_ended(m.run)
            &&& done == m.input.len() - 46
            &&& total == if m.size <= 46 {
                1
            } else {
                m.size - 46
            }
        },
{
    if m.stage is Storing && e is Done {
        let s = m.run[m.run.len() - 1];
        assert(s.sealed.len() > 0);
        assert(crate::stream::sealed_of(m.run).len() >= s.sealed.len());
    }
}

/// A decryption never asks for anything that destroys a file.
pub proof fn decryption_destroys_nothing(m: DecryptModel, e: EventModel)
    requires
        m.wf(),
        m.expects(e),
    ensures
        !crate::task::is_destructive(m.step(e).1),
{
}

/// A failed action ends a decryption with an error; nothing is asked for after
/// it.
pub proof fn failure_ends_decryption(m: DecryptModel, reason: Seq<char>)
    requires
        m.wf(),
        m.expects(EventModel::Failed(reason)),
    ensures
        m.step(EventModel::Failed(reason)).0.stage is Finished,
        m.step(EventModel::Failed(reason)).1 matches ActionModel::Finish(r) && r is Err,
        ({
            let text = m.step(EventModel::Failed(reason)).1->Finish_0->Err_0;
            &&& m.stage is Opening ==> text == "Cannot open file: "@ + reason
            &&& m.stage is Measuring ==> text == "Cannot read metadata: "@ + reason
            &&& m.stage is Deriving ==> text == "Thread panic: "@ + reason
            &&& m.stage is Creating ==> text == "Cannot create output: "@ + reason
            &&& m.stage is Magic || m.stage is Fields || m.stage is Reading || m.stage is Storing
                || m.stage is Flushing ==> text == reason
        }),
{
}

/// What a decryption accepts is exactly the vault that encrypting the restored
/// file under the same password and header would write. The one exception is a
/// payload whose last segment is empty.
pub proof fn accepted_vault_is_the_image(m: DecryptModel)
    requires
        m.wf(),
        m.stage is Flushing,
        m.run.len() > 0 ==> m.run.last().plain.len() > 0,
    ensures
        m.input == crate::vault::vault_image(m.password, m.header, m.written),
{
    assert forall|i: int| #![trigger m.run[i]] 0 <= i < m.run.len() implies m.run[i].sealed.len()
        == m.run[i].plain.len() + crate::stream::TAG_LEN by {
        assert(crate::stream::segment_fits(m.key(), m.header.stream_nonce(), i, m.run[i]));
    }
    crate::stream::sealed_run_is_the_sealing(
        m.key(),
        m.header.stream_nonce(),
        m.run,
        crate::task::BUFFER_SIZE as nat,
    );
}

/// Decrypting what was encrypted gives it back: fed the vault that a complete
/// encryption has written, under the same password, a decryption none of whose
/// actions fail does not end in an error, and what it has written when it
/// succeeds is what the encryption read.
pub proof fn decryption_undoes_encryption(
    done: crate::encrypt::EncryptModel,
    m: DecryptModel,
    e: EventModel,
)
    requires
        done.wf(),
        done.stage is Shredding,
        done.run.len() == 0 || crate::stream::plain_of(done.run).len() >= done.size,
        m.wf(),
        m.expects(e),
        !(e is Failed),
        m.password == done.password,
        fed_from(m, e, done.written),
        m.stage is Start || m.stage is Opening || m.stage is Measuring || m.size
            == done.written.len(),
    ensures
        m.step(e).1 matches ActionModel::Finish(r) ==> {
            &&& r is Ok
            &&& m.written == crate::stream::plain_of(done.run)
        },
{
    crate::vault::sealed_vault_holds_its_plaintext(done.password, done.header, done.run);
    decryption_gives_the_contents(m, e, done.written);
}

/// What a segment that was read comes to: it is opened under the number of
/// segments before it as counter, with the last flag where nothing follows it,
/// and what it holds is written; or it ends the decryption, with a message that
/// says whether it was the last one.
pub proof fn segments_are_opened_in_turn(m: DecryptModel, d: Seq<u8>)
    requires
        m.wf(),
        m.stage is Reading,
        m.expects(EventModel::Data(d)),
    ensures
        ({
            let (n, action) = m.step(EventModel::Data(d));
            let last = m.input.len() + d.len() == m.size;
            let opened = crate::stream::opened_segment(
                crate::key::argon2id_hash(
                    m.password,
                    m.header.salt,
                    m.header.mem_kib,
                    m.header.iters,
                    m.header.parallel,
                ),
                m.header.nonce.subrange(0, 7),
                m.run.len() as u32,
                last,
                d,
            );
            &&& opened is Some && (last || m.run.len() < 0xFFFF_FFFF) ==> {
                &&& action == ActionModel::WriteOutput(opened->Some_0)
                &&& n.input == m.input + d
                &&& n.run.len() == m.run.len() + 1 && n.run.drop_last() == m.run
                &&& n.run.last().plain == opened->Some_0
                &&& n.written == m.written && n.header == m.header && n.size == m.size
                &&& n.password == m.password && n.path == m.path
            }
            &&& opened is None || !last && m.run.len() >= 0xFFFF_FFFF ==> action
                == crate::task::failure(
                if last {
                    "Wrong password or corrupted vault."@
                } else {
                    "Decryption chunk failed — file may be corrupted."@
                },
            )
        }),
{
    crate::header::header_reads_back(m.header, Seq::empty());
    crate::key::derived_key_is_the_hash(
        m.password,
        m.header.salt,
        m.header.mem_kib,
        m.header.iters,
        m.header.parallel,
    );
    assert(m.header.stream_nonce() =~= m.header.nonce.subrange(0, 7));
    if let Some(plain) = m.stream().next_opened(d) {
        assert(m.stream().advance(d, plain).run.drop_last() =~= m.run);
    }
}

/// What follows what: the file is opened and measured, six bytes of magic and
/// forty of header are read, the key is derived and reported, the restored file
/// is created, and segments of 262160 bytes are read, written and reported in
/// turn until the file is at its end; then the restored file is flushed.
pub proof fn order_of_a_decryption(m: DecryptModel, e: EventModel)
    requires
        m.wf(),
        m.expects(e),
        !(e is Failed),
    ensures
        ({
            let (n, action) = m.step(e);
            let left = m.size - m.input.len();
            &&& n.path == m.path && n.password == m.password
            &&& m.stage is Start ==> action == ActionModel::OpenSource(m.path)
            &&& m.stage is Opening ==> action == ActionModel::ReadMetadata
            &&& m.stage is Measuring ==> action == ActionModel::ReadExact(6) && e
                == EventModel::Size(n.size)
            &&& m.stage is Magic ==> (if e->Data_0 == seq![
                0x41u8,
                0x45,
                0x47,
                0x49,
                0x53,
                0x32,
            ] {
                action == ActionModel::ReadExact(40) && n.size == m.size
            } else {
                action == crate::task::failure("Not an Aegis vault file (wrong magic bytes)."@)
            })
            &&& m.stage is Fields ==> {
                &&& action == ActionModel::DeriveKey && n.size == m.size
                &&& n.header.salt == e->Data_0.subrange(0, 16)
                &&& n.header.nonce == e->Data_0.subrange(16, 28)
                &&& n.header.mem_kib == crate::bytes::word_at(e->Data_0, 28)
                &&& n.header.iters == crate::bytes::word_at(e->Data_0, 32)
                &&& n.header.parallel == crate::bytes::word_at(e->Data_0, 36)
            }
            &&& m.stage is Deriving ==> {
                let h = m.header;
                let accepted = h.mem_kib >= 8 && h.mem_kib >= h.parallel * 8 && h.iters >= 1 && 1
                    <= h.parallel <= 0xFF_FFFF && m.password.len() <= 0xFFFF_FFFF;
                &&& accepted ==> action == ActionModel::Report(Progress::KeyReady) && n.header
                    == m.header && n.size == m.size
                &&& !accepted ==> action == crate::task::failure(
                    if h.mem_kib < 8 || h.mem_kib < h.parallel * 8 {
                        "Argon2 params error: "@ + "memory cost is too small"@
                    } else if h.iters < 1 {
                        "Argon2 params error: "@ + "time cost is too small"@
                    } else if h.parallel < 1 {
                        "Argon2 params error: "@ + "not enough threads"@
                    } else if h.parallel > 0xFF_FFFF {
                        "Argon2 params error: "@ + "too many threads"@
                    } else {
                        "Key derivation failed: "@ + "password is too long"@
                    },
                )
            }
            &&& m.stage is Announcing ==> action == ActionModel::CreateOutput(
                crate::paths::restored(m.path),
            )
            &&& m.stage is Storing ==> action is Report && n.run == m.run && n.input == m.input
                && n.written == m.written + m.run.last().plain
            &&& m.stage is Creating || m.stage is Reporting ==> {
                &&& n.run == m.run && n.input == m.input && n.written == m.written
                &&& left <= 0 ==> action == ActionModel::FlushOutput
                &&& left > 0 ==> action == ActionModel::ReadExact(
                    (if left <= 262160 {
                        left
                    } else {
                        262160
                    }) as usize,
                )
            }
            &&& m.stage is Flushing ==> action == ActionModel::Finish(
                Ok("Decrypted → "@ + crate::paths::quoted_path(crate::paths::restored(m.path))),
            ) && n.written == m.written
        }),
{
    if m.header.wf() {
        crate::header::header_reads_back(m.header, Seq::empty());
    }
    crate::key::derived_key_is_the_hash(
        m.password,
        m.header.salt,
        m.header.mem_kib,
        m.header.iters,
        m.header.parallel,
    );
    if m.stage is Magic {
        assert(AEGIS_MAGIC@ =~= seq![0x41u8, 0x45, 0x47, 0x49, 0x53, 0x32]);
    }
    if m.stage is Fields {
        let d = e->Data_0;
        assert(d.subrange(28, 32)[0] == d[28] && d.subrange(28, 32)[1] == d[29] && d.subrange(
            28,
            32,
        )[2] == d[30] && d.subrange(28, 32)[3] == d[31]);
        assert(d.subrange(32, 36)[0] == d[32] && d.subrange(32, 36)[1] == d[33] && d.subrange(
            32,
            36,
        )[2] == d[34] && d.subrange(32, 36)[3] == d[35]);
        assert(d.subrange(36, 40)[0] == d[36] && d.subrange(36, 40)[1] == d[37] && d.subrange(
            36,
            40,
        )[2] == d[38] && d.subrange(36, 40)[3] == d[39]);
    }
}

/// Whatever comes of what a decryption asked for, it takes: a success or a
/// failure of each action, every size, and every exact read. Once it has
/// finished it takes nothing.
pub proof fn decryption_takes_every_outcome(
    m: DecryptModel,
    size: u64,
    d: Seq<u8>,
    reason: Seq<char>,
)
    requires
        m.wf(),
    ensures
        m.stage is Start || m.stage is Opening || m.stage is Announcing || m.stage is Creating
            || m.stage is Storing || m.stage is Reporting || m.stage is Flushing ==> m.expects(
            EventModel::Done,
        ),
        m.stage is Deriving && m.header.parallel <= 0x1FFF_FFFF && m.header.mem_kib * 1024
            <= isize::MAX ==> m.expects(EventModel::Done),
        m.stage is Measuring ==> m.expects(EventModel::Size(size)),
        m.stage is Magic && d.len() == 6 ==> m.expects(EventModel::Data(d)),
        m.stage is Fields && d.len() == 40 ==> m.expects(EventModel::Data(d)),
        m.stage is Reading && d.len() <= 262160 && (d.len() == 262160 && m.size - m.input.len()
            >= 262160 || d.len() == m.size - m.input.len()) ==> m.expects(EventModel::Data(d)),
        !(m.stage is Start) && !(m.stage is Announcing) && !(m.stage is Reporting) && !(m.stage
            is Finished) ==> m.expects(EventModel::Failed(reason)),
        m.stage is Finished ==> !m.expects(EventModel::Done) && !m.expects(
            EventModel::Failed(reason),
        ) && !m.expects(EventModel::Size(size)) && !m.expects(EventModel::Data(d)),
{
    if m.stage is Reading {
        crate::header::header_reads_back(m.header, Seq::empty());
    }
}

// ----- code -----

/// What is said of a segment that does not open.
pub fn refusal_message(failure: OpenFailure) -> (r: String)
    ensures
        r@ == refusal(failure),
        failure is Last ==> r@ == "Wrong password or corrupted vault."@,
        failure is Segment ==> r@ == "Decryption chunk failed — file may be corrupted."@,
{
    match failure {
        OpenFailure::Last => "Wrong password or corrupted vault.".to_owned(),
        OpenFailure::Segment => "Decryption chunk failed — file may be corrupted.".to_owned(),
    }
}

enum DecryptPhase {
    Start(ProtectedBuffer),
    Opening(ProtectedBuffer),
    Measuring(ProtectedBuffer),
    Magic(ProtectedBuffer, u64),
    Fields(ProtectedBuffer, u64),
    Deriving(ProtectedBuffer, u64, Header),
    Announcing(OpenStream),
    Creating(OpenStream),
    Reading(OpenStream),
    Storing(OpenStream),
    Reporting(OpenStream),
    Flushing(OpenStream),
    Finished,
}

/// Decrypts the vault at a path into a file beside it.
pub struct DecryptTask {
    path: String,
    phase: DecryptPhase,
    model: Ghost<DecryptModel>,
}

impl View for DecryptTask {
    type V = DecryptModel;

    closed spec fn view(&self) -> DecryptModel {
        self.model@
    }
}

impl DecryptTask {
    /// The model is well formed and says what the task holds.
    pub closed spec fn inv(&self) -> bool {
        let m = self.model@;
        &&& m.wf()
        &&& self.path@ == m.path
        &&& match self.phase {
            DecryptPhase::Start(p) => m.stage is Start && p@ == m.password,
            DecryptPhase::Opening(p) => m.stage is Opening && p@ == m.password,
            DecryptPhase::Measuring(p) => m.stage is Measuring && p@ == m.password,
            DecryptPhase::Magic(p, size) => m.stage is Magic && p@ == m.password && size == m.size,
            DecryptPhase::Fields(p, size) => {
                m.stage is Fields && p@ == m.password && size == m.size
            },
            DecryptPhase::Deriving(p, size, h) => {
                m.stage is Deriving && p@ == m.password && size == m.size && h@ == m.header
            },
            DecryptPhase::Announcing(s) => m.stage is Announcing && s.inv() && s@ == m.stream(),
            DecryptPhase::Creating(s) => m.stage is Creating && s.inv() && s@ == m.stream(),
            DecryptPhase::Reading(s) => m.stage is Reading && s.inv() && s@ == m.stream(),
            DecryptPhase::Storing(s) => m.stage is Storing && s.inv() && s@ == m.stream(),
            DecryptPhase::Reporting(s) => m.stage is Reporting && s.inv() && s@ == m.stream(),
            DecryptPhase::Flushing(s) => m.stage is Flushing && s.inv() && s@ == m.stream(),
            DecryptPhase::Finished => m.stage is Finished,
        }
    }

    /// A task's model is well formed.
    pub proof fn inv_gives_wf(&self)
        requires
            self.inv(),
        ensures
            self@.wf(),
    {
    }

    /// A task that decrypts the vault at `path` under a password.
    pub fn new(password: Vec<u8>, path: String) -> (r: DecryptTask)
        ensures
            r.inv(),
            r@ == DecryptModel::fresh(path@, password@),
    {
        let ghost model = DecryptModel::fresh(path@, password@);
        DecryptTask {
            path,
            phase: DecryptPhase::Start(ProtectedBuffer::new(password)),
            model: Ghost(model),
        }
    }

    /// Whether `event` can come of what the task asked for.
    pub fn expects(&self, event: &Event) -> (r: bool)
        requires
            self.inv(),
        ensures
            r == self@.expects(event@),
    {
        match (&self.phase, event) {
            (DecryptPhase::Finished, _) => false,
            (DecryptPhase::Start(_), Event::Done) => true,
            (DecryptPhase::Start(_), _) => false,
            (DecryptPhase::Announcing(_), Event::Done) => true,
            (DecryptPhase::Announcing(_), _) => false,
            (DecryptPhase::Reporting(_), Event::Done) => true,
            (DecryptPhase::Reporting(_), _) => false,
            (_, Event::Failed(_)) => true,
            (DecryptPhase::Measuring(_), Event::Size(_)) => true,
            (DecryptPhase::Measuring(_), _) => false,
            (DecryptPhase::Magic(_, _), Event::Data(d)) => d.len() == MAGIC_SIZE,
            (DecryptPhase::Magic(_, _), _) => false,
            (DecryptPhase::Fields(_, _), Event::Data(d)) => d.len() == FIELDS_SIZE,
            (DecryptPhase::Fields(_, _), _) => false,
            (DecryptPhase::Reading(stream), Event::Data(d)) => d.len() == stream.next_len(),
            (DecryptPhase::Reading(_), _) => false,
            (DecryptPhase::Deriving(_, _, h), Event::Done) => {
                can_derive(h.mem_kib, h.iters, h.parallel)
            },
            (DecryptPhase::Deriving(_, _, _), _) => false,
            (_, Event::Done) => true,
            (_, _) => false,
        }
    }

    /// Asks for the next segment, or goes on to the end after the last one.
    fn read_on(path: String, stream: OpenStream, model: Ghost<DecryptModel>) -> (r: (
        DecryptTask,
        Action,
    ))
        requires
            path@ == model@.path,
            stream.inv(),
            stream@ == model@.stream(),
            model@.opened_well(),
            model@.written == crate::stream::plain_of(model@.run),
        ensures
            r.0.inv(),
            (r.0@, r.1@) == model@.read_on(),
    {
        let ghost m = model@.read_on().0;
        let len: usize = stream.next_len();
        if len == 0 {
            (
                DecryptTask { path, phase: DecryptPhase::Flushing(stream), model: Ghost(m) },
                Action::FlushOutput,
            )
        } else {
            (
                DecryptTask { path, phase: DecryptPhase::Reading(stream), model: Ghost(m) },
                Action::ReadExact(len),
            )
        }
    }

    /// Opens a segment and asks for its plaintext to be written.
    fn take_segment(
        path: String,
        stream: OpenStream,
        sealed: Vec<u8>,
        model: Ghost<DecryptModel>,
    ) -> (r: (DecryptTask, Action))
        requires
            path@ == model@.path,
            stream.inv(),
            stream@ == model@.stream(),
            model@.wf(),
            model@.stage is Reading,
            sealed@.len() == model@.stream().next_len(),
        ensures
            r.0.inv(),
            (r.0@, r.1@) == model@.take_segment(sealed@),
    {
        let ghost m = model@.take_segment(sealed@).0;
        let mut stream = stream;
        match stream.open(sealed.as_slice()) {
            Ok(plain) => {
                proof {
                    stream.inv_gives_wf();
                    crate::stream::lemma_push(model@.run, m.run.last());
                    assert(m.run.drop_last() =~= model@.run);
                    assert(m.input =~= m.header.encoded() + crate::stream::sealed_of(m.run));
                }
                (
                    DecryptTask { path, phase: DecryptPhase::Storing(stream), model: Ghost(m) },
                    Action::WriteOutput(plain),
                )
            },
            Err(failure) => {
                let message = refusal_message(failure);
                (
                    DecryptTask { path, phase: DecryptPhase::Finished, model: Ghost(m) },
                    Action::Finish(Err(message)),
                )
            },
        }
    }

    /// Derives the key and reports it, or ends with the reason why not.
    fn derive(
        path: String,
        password: ProtectedBuffer,
        size: u64,
        header: Header,
        model: Ghost<DecryptModel>,
    ) -> (r: (DecryptTask, Action))
        requires
            path@ == model@.path,
            password@ == model@.password,
            size == model@.size,
            header@ == model@.header,
            model@.wf(),
            model@.stage is Deriving,
            model@.expects(EventModel::Done),
        ensures
            r.0.inv(),
            (r.0@, r.1@) == model@.step(EventModel::Done),
    {
        let ghost m = model@.step(EventModel::Done).0;
        let derived = MasterKey::derive(
            password.data.as_slice(),
            header.salt.as_slice(),
            header.mem_kib,
            header.iters,
            header.parallel,
        );
        match derived {
            Err(message) => (
                DecryptTask { path, phase: DecryptPhase::Finished, model: Ghost(m) },
                Action::Finish(Err(message)),
            ),
            Ok(key) => {
                let payload: u64 = size.saturating_sub(HEADER_SIZE);
                let stream = OpenStream::new(key, header.stream_nonce(), SEGMENT_SIZE, payload);
                proof {
                    stream.inv_gives_wf();
                    assert(m.run =~= Seq::empty());
                }
                (
                    DecryptTask { path, phase: DecryptPhase::Announcing(stream), model: Ghost(m) },
                    Action::Report(Progress::KeyReady),
                )
            },
        }
    }

    /// Ends the task with the message of a failed action.
    fn fail(self, reason: String) -> (r: (DecryptTask, Action))
        requires
            self.inv(),
        ensures
            r.0.inv(),
            (r.0@, r.1@) == self@.finish(Err(self@.failed(reason@))),
    {
        let ghost m = self@.finish(Err(self@.failed(reason@))).0;
        let DecryptTask { path, phase, model } = self;
        let message = match phase {
            DecryptPhase::Opening(_) => prefixed("Cannot open file: ", reason.as_str()),
            DecryptPhase::Measuring(_) => prefixed("Cannot read metadata: ", reason.as_str()),
            DecryptPhase::Deriving(_, _, _) => prefixed("Thread panic: ", reason.as_str()),
            DecryptPhase::Creating(_) => prefixed("Cannot create output: ", reason.as_str()),
            _ => reason,
        };
        (
            DecryptTask { path, phase: DecryptPhase::Finished, model: Ghost(m) },
            Action::Finish(Err(message)),
        )
    }

    /// Takes what came of the last action and says what to do next.
    pub fn next(self, event: Event) -> (r: (DecryptTask, Action))
        requires
            self.inv(),
            self@.expects(event@),
        ensures
            r.0.inv(),
            (r.0@, r.1@) == self@.step(event@),
    {
        let ghost old_model = self@;
        let ghost m = self@.step(event@).0;
        let DecryptTask { path, phase, model } = self;
        match (phase, event) {
            (phase, Event::Failed(reason)) => DecryptTask { path, phase, model }.fail(reason),
            (DecryptPhase::Start(password), _) => {
                let source = path.clone();
                (
                    DecryptTask { path, phase: DecryptPhase::Opening(password), model: Ghost(m) },
                    Action::OpenSource(source),
                )
            },
            (DecryptPhase::Opening(password), _) => (
                DecryptTask { path, phase: DecryptPhase::Measuring(password), model: Ghost(m) },
                Action::ReadMetadata,
            ),
            (DecryptPhase::Measuring(password), Event::Size(size)) => (
                DecryptTask { path, phase: DecryptPhase::Magic(password, size), model: Ghost(m) },
                Action::ReadExact(MAGIC_SIZE),
            ),
            (DecryptPhase::Magic(password, size), Event::Data(d)) => {
                if is_magic(d.as_slice()) {
                    (
                        DecryptTask {
                            path,
                            phase: DecryptPhase::Fields(password, size),
                            model: Ghost(m),
                        },
                        Action::ReadExact(FIELDS_SIZE),
                    )
                } else {
                    (
                        DecryptTask { path, phase: DecryptPhase::Finished, model: Ghost(m) },
                        Action::Finish(
                            Err("Not an Aegis vault file (wrong magic bytes).".to_owned()),
                        ),
                    )
                }
            },
            (DecryptPhase::Fields(password, size), Event::Data(d)) => {
                let header = Header::decode_fields(d.as_slice());
                proof {
                    let file = AEGIS_MAGIC@ + d@;
                    assert(file.take(MAGIC_SIZE as int) =~= AEGIS_MAGIC@);
                    assert(file.subrange(MAGIC_SIZE as int, HEADER_SIZE as int) =~= d@);
                    assert(file.take(HEADER_SIZE as int) =~= file);
                    crate::header::header_is_unique(file);
                    assert(m.input =~= m.header.encoded() + crate::stream::sealed_of(m.run));
                }
                (
                    DecryptTask {
                        path,
                        phase: DecryptPhase::Deriving(password, size, header),
                        model: Ghost(m),
                    },
                    Action::DeriveKey,
                )
            },
            (DecryptPhase::Deriving(password, size, header), _) => DecryptTask::derive(
                path,
                password,
                size,
                header,
                model,
            ),
            (DecryptPhase::Announcing(stream), _) => {
                let output = decrypted_path(path.as_str());
                (
                    DecryptTask { path, phase: DecryptPhase::Creating(stream), model: Ghost(m) },
                    Action::CreateOutput(output),
                )
            },
            (DecryptPhase::Reading(stream), Event::Data(sealed)) => DecryptTask::take_segment(
                path,
                stream,
                sealed,
                model,
            ),
            (DecryptPhase::Storing(stream), _) => {
                let total: u64 = if stream.total() == 0 {
                    1
                } else {
                    stream.total()
                };
                let progress = Progress::Streamed { done: stream.done(), total };
                (
                    DecryptTask { path, phase: DecryptPhase::Reporting(stream), model: Ghost(m) },
                    Action::Report(progress),
                )
            },
            (DecryptPhase::Creating(stream), _) => {
                proof {
                    assert(old_model.run =~= Seq::empty());
                    assert(old_model.written =~= crate::stream::plain_of(old_model.run));
                }
                DecryptTask::read_on(path, stream, model)
            },
            (DecryptPhase::Reporting(stream), _) => DecryptTask::read_on(path, stream, model),
            (DecryptPhase::Flushing(_), _) => {
                let output = decrypted_path(path.as_str());
                let message = prefixed("Decrypted → ", quote_path(output.as_str()).as_str());
                (
                    DecryptTask { path, phase: DecryptPhase::Finished, model: Ghost(m) },
                    Action::Finish(Ok(message)),
                )
            },
            // No other event is expected.
            (phase, _) => (DecryptTask { path, phase, model }, Action::ReadMetadata),
        }
    }
}

} // verus!
