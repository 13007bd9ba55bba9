//! Decrypting a classic vault into a file beside it.

use crate::header::{ClassicHeader, ClassicHeaderModel, CLASSIC_HEADER_SIZE};
use crate::key::{derive_secure_key, MasterKey, ProtectedBuffer};
use crate::paths::{decrypted_path, quote_path};
use crate::stream::{OpenFailure, OpenModel, OpenStream, Segment};
use crate::task::{prefixed, Action, ActionModel, Event, EventModel};
use crate::vault::CLASSIC_SEGMENT_SIZE;
use vstd::prelude::*;

verus! {

// ----- the model -----

/// What a classic decryption waits for.
#[derive(Clone, Copy, Debug, PartialEq, Eq)]
pub enum ClassicDecryptStage {
    /// The first event.
    Start,
    /// The vault being opened.
    Opening,
    /// The vault's size.
    Measuring,
    /// The header.
    Heading,
    /// The restored file being created.
    Creating,
    /// A sealed segment.
    Reading,
    /// An opened segment being written.
    Storing,
    /// Nothing more.
    Finished,
}

/// What a classic decryption has done.
pub struct ClassicDecryptModel {
    pub path: Seq<char>,
    pub password: Seq<u8>,
    pub stage: ClassicDecryptStage,
    /// The size of the vault, once it is known.
    pub size: u64,
    /// The header of the vault, once it is read.
    pub header: ClassicHeaderModel,
    /// What has been read and accepted of the vault.
    pub input: Seq<u8>,
    /// The segments opened so far.
    pub run: Seq<Segment>,
    /// What has been written to the restored file.
    pub written: Seq<u8>,
}

/// What is said of a segment that does not open.
pub open spec fn classic_refusal(failure: OpenFailure) -> Seq<char> {
    match failure {
        OpenFailure::Last => "Wrong password or corrupted file."@,
        OpenFailure::Segment => "Decryption Processing Failed"@,
    }
}

impl ClassicDecryptModel {
    /// The stream that opens the payload.
    pub open spec fn stream(self) -> OpenModel {
        OpenModel {
            key: crate::vault::classic_key(self.password, self.header),
            nonce: self.header.nonce,
            cap: CLASSIC_SEGMENT_SIZE as nat,
            remaining: (self.size - CLASSIC_HEADER_SIZE - crate::stream::sealed_of(
                self.run,
            ).len()) as nat,
            run: self.run,
        }
    }

    /// The header is that of the vault and the input starts with it.
    pub open spec fn headed(self) -> bool {
        &&& self.header.wf()
        &&& self.input == self.header.encoded() + crate::stream::sealed_of(self.run)
    }

    /// The segments are what the stream made of the payload.
    pub open spec fn opened_well(self) -> bool {
        &&& self.headed()
        &&& CLASSIC_HEADER_SIZE + crate::stream::sealed_of(self.run).len() <= self.size
        &&& self.stream().wf()
    }

    /// The invariant of a classic decryption: what has been written is the
    /// plaintext of every segment read so far, but for the one that is being
    /// written.
    pub open spec fn wf(self) -> bool {
        match self.stage {
            ClassicDecryptStage::Start
            | ClassicDecryptStage::Opening
            | ClassicDecryptStage::Measuring
            | ClassicDecryptStage::Heading => {
                self.input.len() == 0 && self.run.len() == 0 && self.written.len() == 0
            },
            ClassicDecryptStage::Creating => {
                self.headed() && self.run.len() == 0 && self.written.len() == 0
            },
            ClassicDecryptStage::Reading => {
                &&& self.opened_well()
                &&& self.stream().remaining > 0
                &&& self.written == crate::stream::plain_of(self.run)
            },
            ClassicDecryptStage::Storing => {
                &&& self.opened_well()
                &&& self.run.len() > 0
                &&& self.written == crate::stream::plain_of(self.run.drop_last())
            },
            ClassicDecryptStage::Finished => true,
        }
    }

    /// A classic decryption that has done nothing yet.
    pub open spec fn fresh(path: Seq<char>, password: Seq<u8>) -> ClassicDecryptModel {
        ClassicDecryptModel {
            path,
            password,
            stage: ClassicDecryptStage::Start,
            size: 0,
            header: ClassicHeaderModel {
                salt: Seq::empty(),
                nonce: Seq::empty(),
                iterations: 0,
            },
            input: Seq::empty(),
            run: Seq::empty(),
            written: Seq::empty(),
        }
    }

    /// Events that can come of what it asked for. An exact read gives what was
    /// asked for, and a file whose header has been read is at least as long as
    /// it.
    pub open spec fn expects(self, e: EventModel) -> bool {
        match self.stage {
            ClassicDecryptStage::Start => e is Done,
            ClassicDecryptStage::Measuring => e is Size || e is Failed,
            ClassicDecryptStage::Heading => {
                ||| e is Failed
                ||| e matches EventModel::Data(d) && d.len() == CLASSIC_HEADER_SIZE
            },
            ClassicDecryptStage::Creating => {
                e is Failed || e is Done && self.size >= CLASSIC_HEADER_SIZE
            },
            ClassicDecryptStage::Reading => {
                ||| e is Failed
                ||| e matches EventModel::Data(d) && d.len() == self.stream().next_len()
            },
            ClassicDecryptStage::Finished => false,
            _ => e is Done || e is Failed,
        }
    }

    /// Moves on to `stage` and asks for `action`.
    pub open spec fn to(self, stage: ClassicDecryptStage, action: ActionModel) -> (
        ClassicDecryptModel,
        ActionModel,
    ) {
        (ClassicDecryptModel { stage, ..self }, action)
    }

    /// Ends with a result.
    pub open spec fn finish(self, result: Result<Seq<char>, Seq<char>>) -> (
        ClassicDecryptModel,
        ActionModel,
    ) {
        self.to(ClassicDecryptStage::Finished, ActionModel::Finish(result))
    }

    /// Asks for the next segment, or ends after the last one.
    pub open spec fn read_on(self) -> (ClassicDecryptModel, ActionModel) {
        if self.stream().remaining == 0 {
            self.finish(
                Ok(
                    "Decrypted file saved at: "@ + crate::paths::quoted_path(
                        crate::paths::restored(self.path),
                    ),
                ),
            )
        } else {
            self.to(
                ClassicDecryptStage::Reading,
                ActionModel::ReadExact(self.stream().next_len() as usize),
            )
        }
    }

    /// Takes a sealed segment.
    pub open spec fn take_segment(self, d: Seq<u8>) -> (ClassicDecryptModel, ActionModel) {
        match self.stream().next_opened(d) {
            Some(plain) => ClassicDecryptModel {
                input: self.input + d,
                run: self.stream().advance(d, plain).run,
                ..self
            }.to(ClassicDecryptStage::Storing, ActionModel::WriteOutput(plain)),
            None => self.finish(
                Err(
                    classic_refusal(
                        if self.stream().remaining <= CLASSIC_SEGMENT_SIZE {
                            OpenFailure::Last
                        } else {
                            OpenFailure::Segment
                        },
                    ),
                ),
            ),
        }
    }

    /// What an event leads to.
    pub open spec fn step(self, e: EventModel) -> (ClassicDecryptModel, ActionModel) {
        match (self.stage, e) {
            (_, EventModel::Failed(reason)) => self.finish(Err(reason)),
            (_, EventModel::Size(size)) => ClassicDecryptModel { size, ..self }.to(
                ClassicDecryptStage::Heading,
                ActionModel::ReadExact(CLASSIC_HEADER_SIZE as usize),
            ),
            (ClassicDecryptStage::Heading, EventModel::Data(d)) => ClassicDecryptModel {
                input: d,
                header: crate::header::classic_header_of(d),
                ..self
            }.to(
                ClassicDecryptStage::Creating,
                ActionModel::CreateOutput(crate::paths::restored(self.path)),
            ),
            (_, EventModel::Data(d)) => self.take_segment(d),
            (ClassicDecryptStage::Start, _) => self.to(
                ClassicDecryptStage::Opening,
                ActionModel::OpenSource(self.path),
            ),
            (ClassicDecryptStage::Opening, _) => self.to(
                ClassicDecryptStage::Measuring,
                ActionModel::ReadMetadata,
            ),
            (ClassicDecryptStage::Storing, _) => ClassicDecryptModel {
                written: self.written + self.run.last().plain,
                ..self
            }.read_on(),
            (_, _) => self.read_on(),
        }
    }
}

// ----- laws -----

/// The bytes taken so far, and those of the event, are the start of `file`.
pub open spec fn classic_fed_from(m: ClassicDecryptModel, e: EventModel, file: Seq<u8>) -> bool {
    &&& m.input.len() <= file.len()
    &&& m.input == file.take(m.input.len() as int)
    &&& e matches EventModel::Data(d) ==> {
        &&& m.input.len() + d.len() <= file.len()
        &&& d == file.subrange(m.input.len() as int, (m.input.len() + d.len()) as int)
    }
}

/// A classic decryption that is fed a vault file, and none of whose actions
/// fail, succeeds only if the password opens the vault, and has then written
/// exactly what the vault holds; it ends in an error only if the password does
/// not open it.
pub proof fn classic_decryption_gives_the_contents(
    m: ClassicDecryptModel,
    e: EventModel,
    file: Seq<u8>,
)
    requires
        m.wf(),
        m.expects(e),
        !(e is Failed),
        classic_fed_from(m, e, file),
        m.stage is Start || m.stage is Opening || m.stage is Measuring || file.len() == m.size,
    ensures
        m.step(e).0.stage is Finished || m.step(e).0.input == file.take(
            m.step(e).0.input.len() as int,
        ),
        m.step(e).1 matches ActionModel::Finish(r) ==> (match r {
            Ok(_) => crate::vault::classic_contents(m.password, file) == Some(
                m.step(e).0.written,
            ),
            Err(_) => crate::vault::classic_contents(m.password, file) is None,
        }),
{
    let n = m.step(e).0;
    if let EventModel::Data(d) = e {
        assert(m.input + d =~= file.take((m.input.len() + d.len()) as int));
        if m.stage is Heading {
            assert(m.input + d =~= d);
        } else if m.stream().next_opened(d) is None {
            lemma_classic_refused(m, d, file);
        }
    } else if n.stage is Finished {
        let sealed = crate::stream::sealed_of(m.run);
        let key = crate::vault::classic_key(m.password, m.header);
        lemma_classic_headed(m, file);
        assert(file.skip(CLASSIC_HEADER_SIZE as int) =~= sealed);
        assert(m.run.len() > 0 ==> crate::stream::run_ended(m.run));
        crate::stream::opened_run_opens(
            key,
            m.header.nonce,
            m.run,
            CLASSIC_SEGMENT_SIZE as nat,
        );
        assert(n.written =~= crate::stream::plain_of(m.run));
    }
}

/// Behind the header, the file that a classic decryption is fed from is known
/// by it.
pub(crate) proof fn lemma_classic_headed(m: ClassicDecryptModel, file: Seq<u8>)
    requires
        m.headed(),
        m.input.len() <= file.len(),
        m.input == file.take(m.input.len() as int),
    ensures
        file.len() >= CLASSIC_HEADER_SIZE,
        crate::header::classic_header_of(file) == m.header,
        file.skip(CLASSIC_HEADER_SIZE as int).take(
            crate::stream::sealed_of(m.run).len() as int,
        ) == crate::stream::sealed_of(m.run),
{
    let rest = file.skip(CLASSIC_HEADER_SIZE as int);
    crate::header::classic_header_reads_back(m.header, rest);
    assert(file.take(CLASSIC_HEADER_SIZE as int) =~= m.input.take(CLASSIC_HEADER_SIZE as int));
    assert(m.input.take(CLASSIC_HEADER_SIZE as int) =~= m.header.encoded());
    assert(m.header.encoded() + rest =~= file);
    assert(rest.take(crate::stream::sealed_of(m.run).len() as int) =~= m.input.skip(
        CLASSIC_HEADER_SIZE as int,
    ));
    assert(m.input.skip(CLASSIC_HEADER_SIZE as int) =~= crate::stream::sealed_of(m.run));
}

/// A segment that does not open leaves the classic vault without contents.
proof fn lemma_classic_refused(m: ClassicDecryptModel, d: Seq<u8>, file: Seq<u8>)
    requires
        m.wf(),
        m.stage is Reading,
        m.expects(EventModel::Data(d)),
        classic_fed_from(m, EventModel::Data(d), file),
        file.len() == m.size,
        m.stream().next_opened(d) is None,
    ensures
        crate::vault::classic_contents(m.password, file) is None,
{
    let sealed = crate::stream::sealed_of(m.run);
    let payload = file.skip(CLASSIC_HEADER_SIZE as int);
    let rest = payload.skip(sealed.len() as int);
    let key = crate::vault::classic_key(m.password, m.header);
    let cap = CLASSIC_SEGMENT_SIZE as nat;
    lemma_classic_headed(m, file);
    assert(payload =~= sealed + rest);
    assert(rest.len() == m.stream().remaining);
    assert forall|i: int| #![trigger m.run[i]] 0 <= i < m.run.len() implies !m.run[i].last
        && m.run[i].sealed.len() == cap by {
        if m.run[i].last {
            assert(i == m.run.len() - 1);
        }
    }
    crate::stream::lemma_open_after_run(key, m.header.nonce, m.run, rest, cap);
    if rest.len() <= cap {
        assert(rest =~= d);
    } else {
        assert(rest.take(cap as int) =~= d);
    }
}

/// A classic decryption never asks for anything that destroys a file.
pub proof fn classic_decryption_destroys_nothing(m: ClassicDecryptModel, e: EventModel)
    requires
        m.wf(),
        m.expects(e),
    ensures
        !crate::task::is_destructive(m.step(e).1),
{
}

/// A failed action ends a classic decryption with an error; nothing is asked
/// for after it.
pub proof fn failure_ends_classic_decryption(m: ClassicDecryptModel, reason: Seq<char>)
    requires
        m.wf(),
        m.expects(EventModel::Failed(reason)),
    ensures
        m.step(EventModel::Failed(reason)).0.stage is Finished,
        m.step(EventModel::Failed(reason)).1 == crate::task::failure(reason),
{
}

/// What a classic decryption accepts is exactly the vault that encrypting the
/// restored file under the same password and header would write. The one
/// exception is a payload whose last segment is empty.
pub proof fn accepted_classic_vault_is_the_image(m: ClassicDecryptModel)
    requires
        m.wf(),
        m.stage is Storing,
        m.stream().remaining == 0,
        m.run.last().plain.len() > 0,
    ensures
        m.input == crate::vault::classic_image(
            m.password,
            m.header,
            m.step(EventModel::Done).0.written,
        ),
{
    let key = crate::vault::classic_key(m.password, m.header);
    assert forall|i: int| #![trigger m.run[i]] 0 <= i < m.run.len() implies m.run[i].sealed.len()
        == m.run[i].plain.len() + crate::stream::TAG_LEN by {
        assert(crate::stream::segment_fits(key, m.header.nonce, i, m.run[i]));
    }
    crate::stream::sealed_run_is_the_sealing(
        key,
        m.header.nonce,
        m.run,
        crate::task::CLASSIC_BUFFER_SIZE as nat,
    );
    assert(m.step(EventModel::Done).0.written =~= crate::stream::plain_of(m.run));
}

/// Decrypting what was encrypted gives it back: fed the vault that a complete
/// classic encryption has written, under the same password, a classic
/// decryption none of whose actions fail does not end in an error, and what it
/// has written when it succeeds is what the encryption read.
pub proof fn classic_decryption_undoes_encryption(
    done: crate::classic_encrypt::ClassicEncryptModel,
    end: EventModel,
    header: ClassicHeaderModel,
    m: ClassicDecryptModel,
    e: EventModel,
)
    requires
        done.wf(),
        done.expects(end),
        done.step(end, header).1 matches ActionModel::Finish(r) && r is Ok,
        crate::stream::evenly_cut(done.run, crate::task::CLASSIC_BUFFER_SIZE as nat),
        done.run.len() == 0 || crate::stream::plain_of(done.run).len() >= done.size,
        m.wf(),
        m.expects(e),
        !(e is Failed),
        m.password == done.password,
        classic_fed_from(m, e, done.step(end, header).0.written),
        m.stage is Start || m.stage is Opening || m.stage is Measuring || m.size == done.step(
            end,
            header,
        ).0.written.len(),
    ensures
        m.step(e).1 matches ActionModel::Finish(r) ==> {
            &&& r is Ok
            &&& m.step(e).0.written == crate::stream::plain_of(done.run)
        },
{
    crate::classic_encrypt::classic_success_leaves_a_vault(done, end, header);
    classic_decryption_gives_the_contents(m, e, done.step(end, header).0.written);
}

/// What a segment that was read comes to: it is opened under the number of
/// segments before it as counter, with the last flag where nothing follows it,
/// and what it holds is written; or it ends the decryption, with a message that
/// says whether it was the last one.
pub proof fn classic_segments_are_opened_in_turn(m: ClassicDecryptModel, d: Seq<u8>)
    requires
        m.wf(),
        m.stage is Reading,
        m.expects(EventModel::Data(d)),
    ensures
        ({
            let (n, action) = m.step(EventModel::Data(d));
            let last = m.input.len() + d.len() == m.size;
            let opened = crate::stream::opened_segment(
                crate::key::pbkdf2_sha256(m.password, m.header.salt, m.header.iterations),
                m.header.nonce,
                m.run.len() as u32,
                last,
                d,
            );
            &&& opened is Some && (last || m.run.len() < 0xFFFF_FFFF) ==> {
                &&& action == ActionModel::WriteOutput(opened->Some_0)
                &&& n.input == m.input + d
                &&& n.run.len() == m.run.len() + 1 && n.run.drop_last() == m.run
                &&& n.run.last().plain == opened->Some_0
                &&& n.written == m.written && n.header == m.header && n.size == m.size
                &&& n.password == m.password && n.path == m.path
            }
            &&& opened is None || !last && m.run.len() >= 0xFFFF_FFFF ==> action
                == crate::task::failure(
                if last {
                    "Wrong password or corrupted file."@
                } else {
                    "Decryption Processing Failed"@
                },
            )
        }),
{
    crate::header::classic_header_reads_back(m.header, Seq::empty());
    if let Some(plain) = m.stream().next_opened(d) {
        assert(m.stream().advance(d, plain).run.drop_last() =~= m.run);
    }
}

/// What follows what: the file is opened and measured, its 27 bytes of header
/// are read, the restored file is created, and segments of 65552 bytes are read
/// and written in turn until the file is at its end.
pub proof fn order_of_a_classic_decryption(m: ClassicDecryptModel, e: EventModel)
    requires
        m.wf(),
        m.expects(e),
        !(e is Failed),
    ensures
        ({
            let (n, action) = m.step(e);
            let left = m.size - m.input.len();
            &&& n.path == m.path && n.password == m.password
            &&& m.stage is Start ==> action == ActionModel::OpenSource(m.path)
            &&& m.stage is Opening ==> action == ActionModel::ReadMetadata
            &&& m.stage is Measuring ==> action == ActionModel::ReadExact(27) && e
                == EventModel::Size(n.size)
            &&& m.stage is Heading ==> {
                &&& action == ActionModel::CreateOutput(crate::paths::restored(m.path))
                &&& n.size == m.size
                &&& n.header.salt == e->Data_0.subrange(0, 16)
                &&& n.header.nonce == e->Data_0.subrange(16, 23)
                &&& n.header.iterations == crate::bytes::word_at(e->Data_0, 23)
            }
            &&& m.stage is Storing ==> n.written == m.written + m.run.last().plain
            &&& m.stage is Creating || m.stage is Storing ==> {
                &&& n.run == m.run && n.input == m.input
                &&& left <= 0 ==> action == ActionModel::Finish(
                    Ok(
                        "Decrypted file saved at: "@ + crate::paths::quoted_path(
                            crate::paths::restored(m.path),
                        ),
                    ),
                )
                &&& left > 0 ==> action == ActionModel::ReadExact(
                    (if left <= 65552 {
                        left
                    } else {
                        65552
                    }) as usize,
                )
            }
        }),
{
    if m.header.wf() {
        crate::header::classic_header_reads_back(m.header, Seq::empty());
    }
    if m.stage is Heading {
        let d = e->Data_0;
        assert(d.subrange(23, 27)[0] == d[23] && d.subrange(23, 27)[1] == d[24] && d.subrange(
            23,
            27,
        )[2] == d[25] && d.subrange(23, 27)[3] == d[26]);
    }
}

/// Whatever comes of what a classic decryption asked for, it takes, where the
/// file is as long as its header. Once it has finished it takes nothing.
pub proof fn classic_decryption_takes_every_outcome(
    m: ClassicDecryptModel,
    size: u64,
    d: Seq<u8>,
    reason: Seq<char>,
)
    requires
        m.wf(),
    ensures
        m.stage is Start || m.stage is Opening || m.stage is Storing || m.stage is Creating
            && m.size >= 27 ==> m.expects(EventModel::Done),
        m.stage is Measuring ==> m.expects(EventModel::Size(size)),
        m.stage is Heading && d.len() == 27 ==> m.expects(EventModel::Data(d)),
        m.stage is Reading && d.len() <= 65552 && (d.len() == 65552 && m.size - m.input.len()
            >= 65552 || d.len() == m.size - m.input.len()) ==> m.expects(EventModel::Data(d)),
        !(m.stage is Start) && !(m.stage is Finished) ==> m.expects(EventModel::Failed(reason)),
        m.stage is Finished ==> !m.expects(EventModel::Done) && !m.expects(
            EventModel::Failed(reason),
        ) && !m.expects(EventModel::Size(size)) && !m.expects(EventModel::Data(d)),
{
    if m.stage is Reading {
        crate::header::classic_header_reads_back(m.header, Seq::empty());
    }
}

// ----- code -----

/// What is said of a segment that does not open.
pub fn classic_refusal_message(failure: OpenFailure) -> (r: String)
    ensures
        r@ == classic_refusal(failure),
        failure is Last ==> r@ == "Wrong password or corrupted file."@,
        failure is Segment ==> r@ == "Decryption Processing Failed"@,
{
    match failure {
        OpenFailure::Last => "Wrong password or corrupted file.".to_owned(),
        OpenFailure::Segment => "Decryption Processing Failed".to_owned(),
    }
}

enum ClassicDecryptPhase {
    Start(ProtectedBuffer),
    Opening(ProtectedBuffer),
    Measuring(ProtectedBuffer),
    Heading(ProtectedBuffer, u64),
    Creating(MasterKey, u64, ClassicHeader),
    Reading(OpenStream),
    Storing(OpenStream),
    Finished,
}

/// Decrypts the classic vault at a path into a file beside it.
pub struct ClassicDecryptTask {
    path: String,
    phase: ClassicDecryptPhase,
    model: Ghost<ClassicDecryptModel>,
}

impl View for ClassicDecryptTask {
    type V = ClassicDecryptModel;

    closed spec fn view(&self) -> ClassicDecryptModel {
        self.model@
    }
}

impl ClassicDecryptTask {
    /// The model is well formed and says what the task holds.
    pub closed spec fn inv(&self) -> bool {
        let m = self.model@;
        &&& m.wf()
        &&& self.path@ == m.path
        &&& match self.phase {
            ClassicDecryptPhase::Start(p) => m.stage is Start && p@ == m.password,
            ClassicDecryptPhase::Opening(p) => m.stage is Opening && p@ == m.password,
            ClassicDecryptPhase::Measuring(p) => m.stage is Measuring && p@ == m.password,
            ClassicDecryptPhase::Heading(p, size) => {
                m.stage is Heading && p@ == m.password && size == m.size
            },
            ClassicDecryptPhase::Creating(key, size, h) => {
                &&& m.stage is Creating && size == m.size && h@ == m.header
                &&& key@ == crate::vault::classic_key(m.password, m.header)
            },
            ClassicDecryptPhase::Reading(s) => m.stage is Reading && s.inv() && s@ == m.stream(),
            ClassicDecryptPhase::Storing(s) => m.stage is Storing && s.inv() && s@ == m.stream(),
            ClassicDecryptPhase::Finished => m.stage is Finished,
        }
    }

    /// A task's model is well formed.
    pub proof fn inv_gives_wf(&self)
        requires
            self.inv(),
        ensures
            self@.wf(),
    {
    }

    /// A task that decrypts the vault at `path` under a password.
    pub fn new(password: Vec<u8>, path: String) -> (r: ClassicDecryptTask)
        ensures
            r.inv(),
            r@ == ClassicDecryptModel::fresh(path@, password@),
    {
        let ghost model = ClassicDecryptModel::fresh(path@, password@);
        ClassicDecryptTask {
            path,
            phase: ClassicDecryptPhase::Start(ProtectedBuffer::new(password)),
            model: Ghost(model),
        }
    }

    /// Whether `event` can come of what the task asked for.
    pub fn expects(&self, event: &Event) -> (r: bool)
        requires
            self.inv(),
        ensures
            r == self@.expects(event@),
    {
        match (&self.phase, event) {
            (ClassicDecryptPhase::Finished, _) => false,
            (ClassicDecryptPhase::Start(_), Event::Done) => true,
            (ClassicDecryptPhase::Start(_), _) => false,
            (_, Event::Failed(_)) => true,
            (ClassicDecryptPhase::Measuring(_), Event::Size(_)) => true,
            (ClassicDecryptPhase::Measuring(_), _) => false,
            (ClassicDecryptPhase::Heading(_, _), Event::Data(d)) => {
                d.len() as u64 == CLASSIC_HEADER_SIZE
            },
            (ClassicDecryptPhase::Heading(_, _), _) => false,
            (ClassicDecryptPhase::Creating(_, size, _), Event::Done) => {
                *size >= CLASSIC_HEADER_SIZE
            },
            (ClassicDecryptPhase::Reading(stream), Event::Data(d)) => d.len() == stream.next_len(),
            (ClassicDecryptPhase::Reading(_), _) => false,
            (_, Event::Done) => true,
            (_, _) => false,
        }
    }

    /// Asks for the next segment, or ends after the last one.
    fn read_on(path: String, stream: OpenStream, model: Ghost<ClassicDecryptModel>) -> (r: (
        ClassicDecryptTask,
        Action,
    ))
        requires
            path@ == model@.path,
            stream.inv(),
            stream@ == model@.stream(),
            model@.opened_well(),
            model@.written == crate::stream::plain_of(model@.run),
        ensures
            r.0.inv(),
            (r.0@, r.1@) == model@.read_on(),
    {
        let ghost m = model@.read_on().0;
        let len: usize = stream.next_len();
        if len == 0 {
            let output = decrypted_path(path.as_str());
            let message = prefixed(
                "Decrypted file saved at: ",
                quote_path(output.as_str()).as_str(),
            );
            (
                ClassicDecryptTask { path, phase: ClassicDecryptPhase::Finished, model: Ghost(m) },
                Action::Finish(Ok(message)),
            )
        } else {
            (
                ClassicDecryptTask {
                    path,
                    phase: ClassicDecryptPhase::Reading(stream),
                    model: Ghost(m),
                },
                Action::ReadExact(len),
            )
        }
    }

    /// Opens a segment and asks for its plaintext to be written.
    fn take_segment(
        path: String,
        stream: OpenStream,
        sealed: Vec<u8>,
        model: Ghost<ClassicDecryptModel>,
    ) -> (r: (ClassicDecryptTask, Action))
        requires
            path@ == model@.path,
            stream.inv(),
            stream@ == model@.stream(),
            model@.wf(),
            model@.stage is Reading,
            sealed@.len() == model@.stream().next_len(),
        ensures
            r.0.inv(),
            (r.0@, r.1@) == model@.take_segment(sealed@),
    {
        let ghost m = model@.take_segment(sealed@).0;
        let mut stream = stream;
        match stream.open(sealed.as_slice()) {
            Ok(plain) => {
                proof {
                    stream.inv_gives_wf();
                    crate::stream::lemma_push(model@.run, m.run.last());
                    assert(m.run.drop_last() =~= model@.run);
                    assert(m.input =~= m.header.encoded() + crate::stream::sealed_of(m.run));
                }
                (
                    ClassicDecryptTask {
                        path,
                        phase: ClassicDecryptPhase::Storing(stream),
                        model: Ghost(m),
                    },
                    Action::WriteOutput(plain),
                )
            },
            Err(failure) => {
                let message = classic_refusal_message(failure);
                (
                    ClassicDecryptTask {
                        path,
                        phase: ClassicDecryptPhase::Finished,
                        model: Ghost(m),
                    },
                    Action::Finish(Err(message)),
                )
            },
        }
    }

    /// Takes what came of the last action and says what to do next.
    pub fn next(self, event: Event) -> (r: (ClassicDecryptTask, Action))
        requires
            self.inv(),
            self@.expects(event@),
        ensures
            r.0.inv(),
            (r.0@, r.1@) == self@.step(event@),
    {
        let ghost old_model = self@;
        let ghost m = self@.step(event@).0;
        let ClassicDecryptTask { path, phase, model } = self;
        match (phase, event) {
            (_, Event::Failed(reason)) => (
                ClassicDecryptTask { path, phase: ClassicDecryptPhase::Finished, model: Ghost(m) },
                Action::Finish(Err(reason)),
            ),
            (ClassicDecryptPhase::Start(password), _) => {
                let source = path.clone();
                (
                    ClassicDecryptTask {
                        path,
                        phase: ClassicDecryptPhase::Opening(password),
                        model: Ghost(m),
                    },
                    Action::OpenSource(source),
                )
            },
            (ClassicDecryptPhase::Opening(password), _) => (
                ClassicDecryptTask {
                    path,
                    phase: ClassicDecryptPhase::Measuring(password),
                    model: Ghost(m),
                },
                Action::ReadMetadata,
            ),
            (ClassicDecryptPhase::Measuring(password), Event::Size(size)) => (
                ClassicDecryptTask {
                    path,
                    phase: ClassicDecryptPhase::Heading(password, size),
                    model: Ghost(m),
                },
                Action::ReadExact(CLASSIC_HEADER_SIZE as usize),
            ),
            (ClassicDecryptPhase::Heading(password, size), Event::Data(d)) => {
                let header = ClassicHeader::decode(d.as_slice());
                let derived = derive_secure_key(
                    password.data.as_slice(),
                    header.salt.as_slice(),
                    header.iterations,
                );
                let key = MasterKey::from_bytes(derived.key_bytes);
                let output = decrypted_path(path.as_str());
                proof {
                    crate::header::classic_header_is_unique(d@);
                    assert(d@.take(CLASSIC_HEADER_SIZE as int) =~= d@);
                    assert(m.run =~= Seq::empty());
                    assert(m.input =~= m.header.encoded() + crate::stream::sealed_of(m.run));
                }
                (
                    ClassicDecryptTask {
                        path,
                        phase: ClassicDecryptPhase::Creating(key, size, header),
                        model: Ghost(m),
                    },
                    Action::CreateOutput(output),
                )
            },
            (ClassicDecryptPhase::Creating(key, size, header), _) => {
                let payload: u64 = size - CLASSIC_HEADER_SIZE;
                let stream = OpenStream::new(key, header.nonce, CLASSIC_SEGMENT_SIZE, payload);
                proof {
                    stream.inv_gives_wf();
                    assert(old_model.run =~= Seq::empty());
                    assert(old_model.written =~= crate::stream::plain_of(old_model.run));
                }
                ClassicDecryptTask::read_on(path, stream, model)
            },
            (ClassicDecryptPhase::Reading(stream), Event::Data(sealed)) => {
                ClassicDecryptTask::take_segment(path, stream, sealed, model)
            },
            (ClassicDecryptPhase::Storing(stream), _) => {
                let ghost stored = ClassicDecryptModel {
                    written: old_model.written + old_model.run.last().plain,
                    ..old_model
                };
                ClassicDecryptTask::read_on(path, stream, Ghost(stored))
            },
            // No other event is expected.
            (phase, _) => (ClassicDecryptTask { path, phase, model }, Action::ReadMetadata),
        }
    }
}

} // verus!
