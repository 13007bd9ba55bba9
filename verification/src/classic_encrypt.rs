//! Encrypting a file into a classic vault beside it. The file is kept.

use crate::header::{ClassicHeader, ClassicHeaderModel};
use crate::key::{derive_secure_key, MasterKey, ProtectedBuffer};
use crate::paths::{quote_path, vault_path};
use crate::stream::{SealFailure, SealModel, SealStream, Segment};
use crate::task::{prefixed, Action, ActionModel, Event, EventModel, CLASSIC_BUFFER_SIZE};
use vstd::prelude::*;

verus! {

// ----- the model -----

/// What a classic encryption waits for.
#[derive(Clone, Copy, Debug, PartialEq, Eq)]
pub enum ClassicEncryptStage {
    /// The first event.
    Start,
    /// The source being opened.
    Opening,
    /// The source's size.
    Measuring,
    /// The vault file being created.
    Creating,
    /// The header being written.
    Heading,
    /// A chunk of the source.
    Reading,
    /// A segment being written.
    Storing,
    /// Nothing more.
    Finished,
}

/// What a classic encryption has done.
pub struct ClassicEncryptModel {
    pub path: Seq<char>,
    pub password: Seq<u8>,
    pub stage: ClassicEncryptStage,
    /// The size of the source, once it is known.
    pub size: u64,
    /// The header of the vault, once it is drawn up.
    pub header: ClassicHeaderModel,
    /// The segments sealed so far.
    pub run: Seq<Segment>,
    /// What has been written to the vault file.
    pub written: Seq<u8>,
}

/// What is said of a chunk that could not be sealed.
pub open spec fn classic_sealing_error(failure: SealFailure) -> Seq<char> {
    match failure {
        SealFailure::Last => "Encryption Finalization Failed"@,
        SealFailure::Segment => "Encryption Processing Failed"@,
    }
}

impl ClassicEncryptModel {
    /// The stream that seals the source.
    pub open spec fn stream(self) -> SealModel {
        SealModel {
            key: crate::vault::classic_key(self.password, self.header),
            nonce: self.header.nonce,
            size: self.size,
            run: self.run,
        }
    }

    /// The vault as far as `run` is concerned.
    pub open spec fn image(self, run: Seq<Segment>) -> Seq<u8> {
        self.header.encoded() + crate::stream::sealed_of(run)
    }

    /// The header is that of a new vault, and the segments are what the stream
    /// made of non-empty chunks.
    pub open spec fn sealed_well(self) -> bool {
        &&& self.headed()
        &&& self.stream().wf()
        &&& forall|i: int|
            #![trigger self.run[i]]
            0 <= i < self.run.len() ==> 0 < self.run[i].plain.len() <= CLASSIC_BUFFER_SIZE
    }

    /// The header is that of a new vault.
    pub open spec fn headed(self) -> bool {
        &&& self.header.wf()
        &&& self.header.iterations == crate::key::PBKDF2_ITERATIONS
    }

    /// The invariant of a classic encryption: what has been written is the
    /// header and every segment sealed so far, but for the one that is being
    /// written.
    pub open spec fn wf(self) -> bool {
        match self.stage {
            ClassicEncryptStage::Start
            | ClassicEncryptStage::Opening
            | ClassicEncryptStage::Measuring
            | ClassicEncryptStage::Creating => self.written.len() == 0 && self.run.len() == 0,
            ClassicEncryptStage::Heading => {
                self.headed() && self.written.len() == 0 && self.run.len() == 0
            },
            ClassicEncryptStage::Reading => {
                &&& self.sealed_well()
                &&& !crate::stream::run_ended(self.run)
                &&& self.written == self.image(self.run)
            },
            ClassicEncryptStage::Storing => {
                &&& self.sealed_well()
                &&& self.run.len() > 0
                &&& self.written == self.image(self.run.drop_last())
            },
            ClassicEncryptStage::Finished => true,
        }
    }

    /// A classic encryption that has done nothing yet.
    pub open spec fn fresh(path: Seq<char>, password: Seq<u8>) -> ClassicEncryptModel {
        ClassicEncryptModel {
            path,
            password,
            stage: ClassicEncryptStage::Start,
            size: 0,
            header: ClassicHeaderModel {
                salt: Seq::empty(),
                nonce: Seq::empty(),
                iterations: 0,
            },
            run: Seq::empty(),
            written: Seq::empty(),
        }
    }

    /// Events that can come of what it asked for. A read gives at most a
    /// buffer, and no more bytes in all than can be counted.
    pub open spec fn expects(self, e: EventModel) -> bool {
        match self.stage {
            ClassicEncryptStage::Start => e is Done,
            ClassicEncryptStage::Measuring => e is Size || e is Failed,
            ClassicEncryptStage::Reading => {
                ||| e is Failed
                ||| e matches EventModel::Data(d) && d.len() <= CLASSIC_BUFFER_SIZE
                    && crate::stream::plain_of(self.run).len() + d.len() <= u64::MAX
            },
            ClassicEncryptStage::Finished => false,
            _ => e is Done || e is Failed,
        }
    }

    /// Moves on to `stage` and asks for `action`.
    pub open spec fn to(self, stage: ClassicEncryptStage, action: ActionModel) -> (
        ClassicEncryptModel,
        ActionModel,
    ) {
        (ClassicEncryptModel { stage, ..self }, action)
    }

    /// Ends with a result.
    pub open spec fn finish(self, result: Result<Seq<char>, Seq<char>>) -> (
        ClassicEncryptModel,
        ActionModel,
    ) {
        self.to(ClassicEncryptStage::Finished, ActionModel::Finish(result))
    }

    /// Ends with the vault complete.
    pub open spec fn succeed(self) -> (ClassicEncryptModel, ActionModel) {
        self.finish(
            Ok("Vault generated at: "@ + crate::paths::quoted_path(self.path + ".aegis"@)),
        )
    }

    /// Asks for the next chunk.
    pub open spec fn read_on(self) -> (ClassicEncryptModel, ActionModel) {
        self.to(ClassicEncryptStage::Reading, ActionModel::ReadSome(CLASSIC_BUFFER_SIZE))
    }

    /// Takes a chunk of the source.
    pub open spec fn take_chunk(self, chunk: Seq<u8>) -> (ClassicEncryptModel, ActionModel) {
        if chunk.len() == 0 {
            self.succeed()
        } else if !self.stream().completes(chunk.len()) && self.stream().exhausted() {
            self.finish(Err(classic_sealing_error(SealFailure::Segment)))
        } else {
            let s = self.stream().next_segment(chunk);
            ClassicEncryptModel { run: self.run.push(s), ..self }.to(
                ClassicEncryptStage::Storing,
                ActionModel::WriteOutput(s.sealed),
            )
        }
    }

    /// What an event leads to; `header` is the one that a new vault gets.
    pub open spec fn step(self, e: EventModel, header: ClassicHeaderModel) -> (
        ClassicEncryptModel,
        ActionModel,
    ) {
        match (self.stage, e) {
            (_, EventModel::Failed(reason)) => self.finish(Err(reason)),
            (_, EventModel::Size(size)) => ClassicEncryptModel { size, ..self }.to(
                ClassicEncryptStage::Creating,
                ActionModel::CreateOutput(self.path + ".aegis"@),
            ),
            (_, EventModel::Data(chunk)) => self.take_chunk(chunk),
            (ClassicEncryptStage::Start, _) => self.to(
                ClassicEncryptStage::Opening,
                ActionModel::OpenSource(self.path),
            ),
            (ClassicEncryptStage::Opening, _) => self.to(
                ClassicEncryptStage::Measuring,
                ActionModel::ReadMetadata,
            ),
            (ClassicEncryptStage::Creating, _) => ClassicEncryptModel { header, ..self }.to(
                ClassicEncryptStage::Heading,
                ActionModel::WriteOutput(header.encoded()),
            ),
            (ClassicEncryptStage::Heading, _) => ClassicEncryptModel {
                written: self.header.encoded(),
                ..self
            }.read_on(),
            (_, _) => {
                let stored = ClassicEncryptModel {
                    written: self.written + self.run.last().sealed,
                    ..self
                };
                if crate::stream::run_ended(self.run) {
                    stored.succeed()
                } else {
                    stored.read_on()
                }
            },
        }
    }
}

// ----- laws -----

/// When a classic encryption succeeds, what has been written opens under the
/// same password to exactly what was read. This holds where every read but the
/// final one filled the buffer, and the source did not end before its announced
/// size.
pub proof fn classic_success_leaves_a_vault(
    m: ClassicEncryptModel,
    e: EventModel,
    header: ClassicHeaderModel,
)
    requires
        m.wf(),
        m.expects(e),
        m.step(e, header).1 matches ActionModel::Finish(r) && r is Ok,
        crate::stream::evenly_cut(m.run, CLASSIC_BUFFER_SIZE as nat),
        m.run.len() == 0 || crate::stream::plain_of(m.run).len() >= m.size,
    ensures
        ({
            let n = m.step(e, header).0;
            &&& n.run == m.run
            &&& n.written == n.image(n.run)
            &&& crate::vault::classic_contents(n.password, n.written) == Some(
                crate::stream::plain_of(n.run),
            )
            &&& n.written == crate::vault::classic_image(
                n.password,
                n.header,
                crate::stream::plain_of(n.run),
            )
        }),
{
    let n = m.step(e, header).0;
    assert(n.written =~= n.image(n.run));
    crate::vault::sealed_classic_vault_holds_its_plaintext(n.password, n.header, n.run);
}

/// A classic encryption never asks for anything that destroys a file: the
/// source is kept.
pub proof fn classic_encryption_destroys_nothing(
    m: ClassicEncryptModel,
    e: EventModel,
    header: ClassicHeaderModel,
)
    requires
        m.wf(),
        m.expects(e),
    ensures
        !crate::task::is_destructive(m.step(e, header).1),
{
}

/// A failed action ends a classic encryption with an error; nothing is asked
/// for after it.
pub proof fn failure_ends_classic_encryption(
    m: ClassicEncryptModel,
    reason: Seq<char>,
    header: ClassicHeaderModel,
)
    requires
        m.wf(),
        m.expects(EventModel::Failed(reason)),
    ensures
        m.step(EventModel::Failed(reason), header).0.stage is Finished,
        m.step(EventModel::Failed(reason), header).1 == crate::task::failure(reason),
{
}

/// What a read comes to: nothing ends the encryption, and anything else is
/// sealed at once, under the number of pieces before it as counter, as the last
/// piece where it completes the announced size.
pub proof fn classic_reads_are_sealed(
    m: ClassicEncryptModel,
    d: Seq<u8>,
    header: ClassicHeaderModel,
)
    requires
        m.wf(),
        m.stage is Reading,
        m.expects(EventModel::Data(d)),
    ensures
        ({
            let (n, action) = m.step(EventModel::Data(d), header);
            let before = crate::stream::plain_of(m.run).len();
            &&& n.password == m.password && n.header == m.header && n.size == m.size
            &&& n.written == m.written && n.path == m.path
            &&& d.len() == 0 ==> n.run == m.run && action == ActionModel::Finish(
                Ok("Vault generated at: "@ + crate::paths::quoted_path(m.path + ".aegis"@)),
            )
            &&& d.len() > 0 && m.run.len() >= 0xFFFF_FFFF && before + d.len() < m.size ==> action
                == crate::task::failure("Encryption Processing Failed"@)
            &&& d.len() > 0 && (m.run.len() < 0xFFFF_FFFF || before + d.len() >= m.size) ==> {
                &&& n.run.len() == m.run.len() + 1 && n.run.drop_last() == m.run
                &&& crate::stream::plain_of(n.run) == crate::stream::plain_of(m.run) + d
                &&& action == ActionModel::WriteOutput(
                    crate::stream::sealed_segment(
                        crate::key::pbkdf2_sha256(m.password, m.header.salt, 350_000),
                        m.header.nonce,
                        m.run.len() as u32,
                        before + d.len() >= m.size,
                        d,
                    ),
                )
            }
        }),
{
    let s = m.stream().next_segment(d);
    crate::stream::lemma_push(m.run, s);
    assert(m.run.push(s).drop_last() =~= m.run);
}

/// What follows what: the source is opened and measured, the vault is created
/// beside it and begun with its header, and pieces are read and written in turn
/// until the announced size is sealed or the source has no more.
pub proof fn order_of_a_classic_encryption(
    m: ClassicEncryptModel,
    e: EventModel,
    header: ClassicHeaderModel,
)
    requires
        m.wf(),
        m.expects(e),
        !(e is Failed),
    ensures
        ({
            let (n, action) = m.step(e, header);
            &&& n.path == m.path && n.password == m.password
            &&& m.stage is Start ==> action == ActionModel::OpenSource(m.path)
            &&& m.stage is Opening ==> action == ActionModel::ReadMetadata
            &&& m.stage is Measuring ==> action == ActionModel::CreateOutput(m.path + ".aegis"@)
                && e == EventModel::Size(n.size)
            &&& m.stage is Creating ==> action == ActionModel::WriteOutput(header.encoded())
                && n.header == header && n.size == m.size
            &&& m.stage is Heading ==> action == ActionModel::ReadSome(65536) && n.header
                == m.header && n.size == m.size
            &&& m.stage is Storing ==> {
                let over = crate::stream::plain_of(m.run).len() >= m.size;
                &&& n.run == m.run && n.written == m.written + m.run.last().sealed
                &&& over ==> action == ActionModel::Finish(
                    Ok("Vault generated at: "@ + crate::paths::quoted_path(m.path + ".aegis"@)),
                )
                &&& !over ==> action == ActionModel::ReadSome(65536)
            }
        }),
{
}

/// Whatever comes of what a classic encryption asked for, it takes. Once it has
/// finished it takes nothing.
pub proof fn classic_encryption_takes_every_outcome(
    m: ClassicEncryptModel,
    size: u64,
    d: Seq<u8>,
    reason: Seq<char>,
)
    ensures
        !(m.stage is Measuring) && !(m.stage is Reading) && !(m.stage is Finished) ==> m.expects(
            EventModel::Done,
        ),
        m.stage is Measuring ==> m.expects(EventModel::Size(size)),
        m.stage is Reading && d.len() <= 65536 && crate::stream::plain_of(m.run).len() + d.len()
            <= 0xFFFF_FFFF_FFFF_FFFF ==> m.expects(EventModel::Data(d)),
        !(m.stage is Start) && !(m.stage is Finished) ==> m.expects(EventModel::Failed(reason)),
        m.stage is Finished ==> !m.expects(EventModel::Done) && !m.expects(
            EventModel::Failed(reason),
        ) && !m.expects(EventModel::Size(size)) && !m.expects(EventModel::Data(d)),
{
}

// ----- code -----

/// What is said of a chunk that could not be sealed.
pub fn classic_sealing_message(failure: SealFailure) -> (r: String)
    ensures
        r@ == classic_sealing_error(failure),
        failure is Last ==> r@ == "Encryption Finalization Failed"@,
        failure is Segment ==> r@ == "Encryption Processing Failed"@,
{
    match failure {
        SealFailure::Last => "Encryption Finalization Failed".to_owned(),
        SealFailure::Segment => "Encryption Processing Failed".to_owned(),
    }
}

enum ClassicEncryptPhase {
    Start(ProtectedBuffer),
    Opening(ProtectedBuffer),
    Measuring(ProtectedBuffer),
    Creating(ProtectedBuffer, u64),
    Heading(ProtectedBuffer, u64, ClassicHeader),
    Reading(SealStream),
    Storing(SealStream),
    Finished,
}

/// Encrypts the file at a path into a classic vault beside it.
pub struct ClassicEncryptTask {
    path: String,
    phase: ClassicEncryptPhase,
    model: Ghost<ClassicEncryptModel>,
}

impl View for ClassicEncryptTask {
    type V = ClassicEncryptModel;

    closed spec fn view(&self) -> ClassicEncryptModel {
        self.model@
    }
}

impl ClassicEncryptTask {
    /// The model is well formed and says what the task holds.
    pub closed spec fn inv(&self) -> bool {
        let m = self.model@;
        &&& m.wf()
        &&& self.path@ == m.path
        &&& match self.phase {
            ClassicEncryptPhase::Start(p) => m.stage is Start && p@ == m.password,
            ClassicEncryptPhase::Opening(p) => m.stage is Opening && p@ == m.password,
            ClassicEncryptPhase::Measuring(p) => m.stage is Measuring && p@ == m.password,
            ClassicEncryptPhase::Creating(p, size) => {
                m.stage is Creating && p@ == m.password && size == m.size
            },
            ClassicEncryptPhase::Heading(p, size, h) => {
                m.stage is Heading && p@ == m.password && size == m.size && h@ == m.header
            },
            ClassicEncryptPhase::Reading(s) => m.stage is Reading && s.inv() && s@ == m.stream(),
            ClassicEncryptPhase::Storing(s) => m.stage is Storing && s.inv() && s@ == m.stream(),
            ClassicEncryptPhase::Finished => m.stage is Finished,
        }
    }

    /// A task's model is well formed.
    pub proof fn inv_gives_wf(&self)
        requires
            self.inv(),
        ensures
            self@.wf(),
    {
    }

    /// A task that encrypts the file at `path` under a password.
    pub fn new(password: Vec<u8>, path: String) -> (r: ClassicEncryptTask)
        ensures
            r.inv(),
            r@ == ClassicEncryptModel::fresh(path@, password@),
    {
        let ghost model = ClassicEncryptModel::fresh(path@, password@);
        ClassicEncryptTask {
            path,
            phase: ClassicEncryptPhase::Start(ProtectedBuffer::new(password)),
            model: Ghost(model),
        }
    }

    /// Whether `event` can come of what the task asked for.
    pub fn expects(&self, event: &Event) -> (r: bool)
        requires
            self.inv(),
        ensures
            r == self@.expects(event@),
    {
        match (&self.phase, event) {
            (ClassicEncryptPhase::Finished, _) => false,
            (ClassicEncryptPhase::Start(_), Event::Done) => true,
            (ClassicEncryptPhase::Start(_), _) => false,
            (_, Event::Failed(_)) => true,
            (ClassicEncryptPhase::Measuring(_), Event::Size(_)) => true,
            (ClassicEncryptPhase::Measuring(_), _) => false,
            (ClassicEncryptPhase::Reading(stream), Event::Data(chunk)) => {
                chunk.len() <= CLASSIC_BUFFER_SIZE && chunk.len() as u64 <= u64::MAX
                    - stream.done()
            },
            (ClassicEncryptPhase::Reading(_), _) => false,
            (_, Event::Done) => true,
            (_, _) => false,
        }
    }

    /// Draws up the vault with the given header and asks for it to be written.
    pub fn start_vault(self, header: ClassicHeader) -> (r: (ClassicEncryptTask, Action))
        requires
            self.inv(),
            self@.stage is Creating,
            header@.iterations == crate::key::PBKDF2_ITERATIONS,
        ensures
            r.0.inv(),
            (r.0@, r.1@) == self@.step(EventModel::Done, header@),
    {
        let ghost m = self@.step(EventModel::Done, header@).0;
        let bytes = header.encode();
        let ClassicEncryptTask { path, phase, model } = self;
        let phase = match phase {
            ClassicEncryptPhase::Creating(password, size) => ClassicEncryptPhase::Heading(
                password,
                size,
                header,
            ),
            other => other,
        };
        (ClassicEncryptTask { path, phase, model: Ghost(m) }, Action::WriteOutput(bytes))
    }

    /// Ends the task with the vault complete.
    fn succeed(path: String, model: Ghost<ClassicEncryptModel>) -> (r: (
        ClassicEncryptTask,
        Action,
    ))
        requires
            path@ == model@.path,
        ensures
            r.0.inv(),
            (r.0@, r.1@) == model@.succeed(),
    {
        let ghost m = model@.succeed().0;
        let output = vault_path(path.as_str());
        let message = prefixed("Vault generated at: ", quote_path(output.as_str()).as_str());
        (
            ClassicEncryptTask { path, phase: ClassicEncryptPhase::Finished, model: Ghost(m) },
            Action::Finish(Ok(message)),
        )
    }

    /// Seals a chunk of the source and asks for the segment to be written, or
    /// ends when the source has no more.
    fn take_chunk(
        path: String,
        stream: SealStream,
        chunk: Vec<u8>,
        model: Ghost<ClassicEncryptModel>,
    ) -> (r: (ClassicEncryptTask, Action))
        requires
            path@ == model@.path,
            stream.inv(),
            stream@ == model@.stream(),
            model@.wf(),
            model@.stage is Reading,
            model@.expects(EventModel::Data(chunk@)),
        ensures
            r.0.inv(),
            (r.0@, r.1@) == model@.take_chunk(chunk@),
    {
        if chunk.len() == 0 {
            return ClassicEncryptTask::succeed(path, model);
        }
        let ghost m = model@.take_chunk(chunk@).0;
        let mut stream = stream;
        match stream.seal(chunk.as_slice()) {
            Ok(sealed) => {
                proof {
                    stream.inv_gives_wf();
                    assert(m.run.drop_last() =~= model@.run);
                    assert forall|i: int|
                        #![trigger m.run[i]]
                        0 <= i < m.run.len() implies 0 < m.run[i].plain.len()
                        <= CLASSIC_BUFFER_SIZE by {
                        if i < model@.run.len() {
                            assert(m.run[i] == model@.run[i]);
                        }
                    }
                }
                (
                    ClassicEncryptTask {
                        path,
                        phase: ClassicEncryptPhase::Storing(stream),
                        model: Ghost(m),
                    },
                    Action::WriteOutput(sealed.bytes),
                )
            },
            Err(failure) => {
                let message = classic_sealing_message(failure);
                (
                    ClassicEncryptTask {
                        path,
                        phase: ClassicEncryptPhase::Finished,
                        model: Ghost(m),
                    },
                    Action::Finish(Err(message)),
                )
            },
        }
    }

    /// Takes what came of the last action and says what to do next. The header
    /// of a new vault gets a random salt and nonce; all else follows from the
    /// event.
    pub fn next(self, event: Event) -> (r: (ClassicEncryptTask, Action))
        requires
            self.inv(),
            self@.expects(event@),
        ensures
            r.0.inv(),
            (r.0@, r.1@) == self@.step(event@, r.0@.header),
            self@.stage is Creating && event is Done ==> {
                &&& crate::random::drawn(r.0@.header.salt)
                &&& crate::random::drawn(r.0@.header.nonce)
            },
    {
        let ghost old_model = self@;
        let ghost m = self@.step(event@, self@.header).0;
        let ClassicEncryptTask { path, phase, model } = self;
        match (phase, event) {
            (_, Event::Failed(reason)) => (
                ClassicEncryptTask { path, phase: ClassicEncryptPhase::Finished, model: Ghost(m) },
                Action::Finish(Err(reason)),
            ),
            (ClassicEncryptPhase::Start(password), _) => {
                let source = path.clone();
                (
                    ClassicEncryptTask {
                        path,
                        phase: ClassicEncryptPhase::Opening(password),
                        model: Ghost(m),
                    },
                    Action::OpenSource(source),
                )
            },
            (ClassicEncryptPhase::Opening(password), _) => (
                ClassicEncryptTask {
                    path,
                    phase: ClassicEncryptPhase::Measuring(password),
                    model: Ghost(m),
                },
                Action::ReadMetadata,
            ),
            (ClassicEncryptPhase::Measuring(password), Event::Size(size)) => {
                let output = vault_path(path.as_str());
                (
                    ClassicEncryptTask {
                        path,
                        phase: ClassicEncryptPhase::Creating(password, size),
                        model: Ghost(m),
                    },
                    Action::CreateOutput(output),
                )
            },
            (ClassicEncryptPhase::Creating(password, size), _) => ClassicEncryptTask {
                path,
                phase: ClassicEncryptPhase::Creating(password, size),
                model,
            }.start_vault(ClassicHeader::fresh()),
            (ClassicEncryptPhase::Heading(password, size, header), _) => {
                let derived = derive_secure_key(
                    password.data.as_slice(),
                    header.salt.as_slice(),
                    header.iterations,
                );
                let key = MasterKey::from_bytes(derived.key_bytes);
                let stream = SealStream::new(key, header.nonce, size);
                proof {
                    stream.inv_gives_wf();
                    assert(m.run =~= Seq::empty());
                    assert(m.image(m.run) =~= m.header.encoded());
                }
                (
                    ClassicEncryptTask {
                        path,
                        phase: ClassicEncryptPhase::Reading(stream),
                        model: Ghost(m),
                    },
                    Action::ReadSome(CLASSIC_BUFFER_SIZE),
                )
            },
            (ClassicEncryptPhase::Reading(stream), Event::Data(chunk)) => {
                ClassicEncryptTask::take_chunk(path, stream, chunk, model)
            },
            (ClassicEncryptPhase::Storing(stream), _) => {
                let ghost stored = ClassicEncryptModel {
                    written: old_model.written + old_model.run.last().sealed,
                    ..old_model
                };
                proof {
                    assert(stored.written =~= old_model.image(old_model.run));
                }
                if stream.ended() {
                    ClassicEncryptTask::succeed(path, Ghost(stored))
                } else {
                    (
                        ClassicEncryptTask {
                            path,
                            phase: ClassicEncryptPhase::Reading(stream),
                            model: Ghost(m),
                        },
                        Action::ReadSome(CLASSIC_BUFFER_SIZE),
                    )
                }
            },
            // No other event is expected.
            (phase, _) => (ClassicEncryptTask { path, phase, model }, Action::ReadMetadata),
        }
    }
}

} // verus!
