//! Whole runs of an encryption and of a decryption, from the first action to
//! the result.

use crate::decrypt::{DecryptModel, DecryptStage, DecryptTask};
use crate::encrypt::{EncryptModel, EncryptStage, EncryptTask};
use crate::header::{Header, HeaderModel, HEADER_SIZE};
use crate::key::{ARGON2_ITERS, ARGON2_MEM_KIB, ARGON2_PARALLEL};
use crate::machine::{Machine, Memory, Outcome, Pass};
use crate::paths::{decrypted_path, vault_path};
use crate::shred::ShredStage;
use crate::stream::Segment;
use crate::task::{result_text, Action, ActionModel, Event, EventModel, Progress, BUFFER_SIZE};
use vstd::prelude::*;

verus! {

// ----- decryption -----

/// A decryption on a machine: what it waits for, and the machine.
pub struct DecryptRun {
    pub task: DecryptModel,
    pub action: ActionModel,
    pub machine: Machine,
}

impl DecryptRun {
    /// The run as it starts.
    pub open spec fn start(path: Seq<char>, password: Seq<u8>, machine: Machine) -> DecryptRun {
        let (task, action) = DecryptModel::fresh(path, password).step(EventModel::Done);
        DecryptRun { task, action, machine }
    }

    /// The run after one more action.
    pub open spec fn next(self) -> DecryptRun {
        let (machine, e) = self.machine.serve(self.action);
        let (task, action) = self.task.step(e);
        DecryptRun { task, action, machine }
    }

    /// The run after `n` more actions; it stays as it is once it has ended.
    pub open spec fn after(self, n: nat) -> DecryptRun
        decreases n,
    {
        if n == 0 || self.action is Finish {
            self
        } else {
            self.next().after((n - 1) as nat)
        }
    }

    /// The next `n` states are well formed, as the states of a task are
    /// (`inv_gives_wf`).
    pub open spec fn sound(self, n: nat) -> bool
        decreases n,
    {
        &&& self.task.wf()
        &&& n > 0 && !(self.action is Finish) ==> self.next().sound((n - 1) as nat)
    }

    /// The task's action is the one that its stage stands for.
    pub open spec fn asks(self) -> bool {
        match self.task.stage {
            DecryptStage::Start => false,
            DecryptStage::Opening => self.action == ActionModel::OpenSource(self.task.path),
            DecryptStage::Measuring => self.action is ReadMetadata,
            DecryptStage::Magic | DecryptStage::Fields | DecryptStage::Reading => {
                self.action == ActionModel::ReadExact(self.task.wanted() as usize)
            },
            DecryptStage::Deriving => self.action is DeriveKey,
            DecryptStage::Announcing => self.action == ActionModel::Report(Progress::KeyReady),
            DecryptStage::Reporting => {
                self.action == ActionModel::Report(self.task.progress())
            },
            DecryptStage::Creating => {
                self.action == ActionModel::CreateOutput(crate::paths::restored(self.task.path))
            },
            DecryptStage::Storing => {
                self.action == ActionModel::WriteOutput(self.task.run.last().plain)
            },
            DecryptStage::Flushing => self.action is FlushOutput,
            DecryptStage::Finished => self.action is Finish,
        }
    }

    /// The machine has given and taken what the task has.
    pub open spec fn agrees(self) -> bool {
        &&& self.machine.source.len() <= u64::MAX
        &&& self.machine.at == self.task.input.len() <= self.machine.source.len()
        &&& self.task.input == self.machine.source.take(self.machine.at as int)
        &&& self.task.stage is Opening || self.task.stage is Measuring || self.task.size
            == self.machine.source.len()
        &&& match self.task.stage {
            DecryptStage::Reading
            | DecryptStage::Storing
            | DecryptStage::Reporting
            | DecryptStage::Flushing => {
                &&& self.machine.created == Some(crate::paths::restored(self.task.path))
                &&& self.machine.output == Some(self.task.written)
            },
            DecryptStage::Creating => true,
            _ => self.machine.created is None && self.machine.output is None,
        }
        &&& !self.machine.removed
        &&& self.trail_agrees()
    }

    /// What else was asked for is what the task has gone through.
    pub open spec fn trail_agrees(self) -> bool {
        let (m, t) = (self.task, self.machine.trail);
        &&& m.stage is Opening || t.opened == Some(m.path)
        &&& t.removed is None && t.sized is None && t.passes.len() == 0
        &&& crate::machine::counts_pieces(t.reports, 262160, self.machine.source.len() - 46)
        &&& t.reports.len() == match m.stage {
            DecryptStage::Creating | DecryptStage::Reading | DecryptStage::Flushing => {
                m.run.len() + 1
            },
            DecryptStage::Storing | DecryptStage::Reporting => m.run.len(),
            _ => 0,
        }
        &&& m.stage is Storing || m.stage is Reporting ==> m.run.len() > 0
    }

    /// Actions that are still to come, at most.
    pub open spec fn measure(self) -> int {
        3 * (self.machine.source.len() - self.machine.at) + match self.task.stage {
            DecryptStage::Start => 12int,
            DecryptStage::Opening => 11,
            DecryptStage::Measuring => 10,
            DecryptStage::Magic => 9,
            DecryptStage::Fields => 8,
            DecryptStage::Deriving => 7,
            DecryptStage::Announcing => 6,
            DecryptStage::Creating => 5,
            DecryptStage::Reading => 4,
            DecryptStage::Storing => 6,
            DecryptStage::Reporting => 5,
            DecryptStage::Flushing => 1,
            DecryptStage::Finished => 0,
        }
    }

    /// The run has ended as it is to end.
    pub open spec fn fulfils(self, path: Seq<char>, password: Seq<u8>) -> bool {
        self.action matches ActionModel::Finish(r) && decrypted(path, password, r, self.machine)
    }
}

/// What a decryption is to come to: what the password reads out of the file,
/// where the vault's path puts it, or an error if it reads nothing. The vault
/// is kept.
pub open spec fn decrypted(
    path: Seq<char>,
    password: Seq<u8>,
    result: Result<Seq<char>, Seq<char>>,
    machine: Machine,
) -> bool {
    &&& !machine.removed
    &&& match crate::vault::vault_contents(password, machine.source) {
        Some(plain) => {
            &&& result == Ok::<Seq<char>, Seq<char>>(
                "Decrypted → "@ + crate::paths::quoted_path(crate::paths::restored(path)),
            )
            &&& machine.created == Some(crate::paths::restored(path))
            &&& machine.output == Some(plain)
        },
        None => result is Err,
    }
    &&& machine.trail.opened == Some(path)
    &&& machine.trail.removed is None && machine.trail.passes.len() == 0
    &&& match result {
        Ok(_) => {
            &&& read_well(password, machine.source, machine.output->Some_0)
            &&& machine.trail.flushed
            &&& machine.trail.reports.len() == 1 + (machine.source.len() - 46 + 262159) / 262160
            &&& crate::machine::counts_pieces(
                machine.trail.reports,
                262160,
                machine.source.len() - 46,
            )
        },
        Err(text) => {
            ||| refused_by_header(password, machine.source, machine.complaint, text)
                && machine.created is None && machine.output is None
            ||| machine.created == Some(crate::paths::restored(path)) && machine.output is Some
                && refused_by_segment(
                password,
                machine.source,
                machine.output->Some_0,
                text,
            )
        },
    }
}

/// A file starts with the magic, and under its costs the password comes to a
/// key.
pub open spec fn header_accepted(password: Seq<u8>, file: Seq<u8>) -> bool {
    let mem = crate::bytes::word_at(file, 34);
    let parallel = crate::bytes::word_at(file, 42);
    &&& file.len() >= 46
    &&& file.subrange(0, 6) == seq![0x41u8, 0x45, 0x47, 0x49, 0x53, 0x32]
    &&& mem >= 8 && mem >= parallel * 8
    &&& crate::bytes::word_at(file, 38) >= 1
    &&& 1 <= parallel <= 0xFF_FFFF
    &&& password.len() <= 0xFFFF_FFFF
}

/// The key that a password comes to under the header of a file.
pub open spec fn file_key(password: Seq<u8>, file: Seq<u8>) -> Seq<u8> {
    crate::key::argon2id_hash(
        password,
        file.subrange(6, 22),
        crate::bytes::word_at(file, 34),
        crate::bytes::word_at(file, 38),
        crate::bytes::word_at(file, 42),
    )
}

/// What the piece at index `i` of a file's payload opens to under the password.
pub open spec fn piece_opened(password: Seq<u8>, file: Seq<u8>, i: int) -> Option<Seq<u8>> {
    crate::stream::opened_segment(
        file_key(password, file),
        file.subrange(22, 29),
        i as u32,
        (i + 1) * 262160 >= file.len() - 46,
        crate::stream::cut(file.skip(46), 262160, i),
    )
}

/// Every piece of a file's payload opens, and to the pieces of `plain`.
pub open spec fn read_well(password: Seq<u8>, file: Seq<u8>, plain: Seq<u8>) -> bool {
    &&& header_accepted(password, file)
    &&& plain.len() == file.len() - 46 - 16 * ((file.len() - 46 + 262159) / 262160)
    &&& forall|i: int|
        0 <= i && i * 262160 < file.len() - 46 ==> #[trigger] piece_opened(password, file, i)
            == Some(crate::stream::cut(plain, 262144, i))
}

/// Why a file is refused before its payload is looked at.
pub open spec fn refused_by_header(
    password: Seq<u8>,
    file: Seq<u8>,
    complaint: Seq<char>,
    text: Seq<char>,
) -> bool {
    let mem = crate::bytes::word_at(file, 34);
    let iters = crate::bytes::word_at(file, 38);
    let parallel = crate::bytes::word_at(file, 42);
    &&& !header_accepted(password, file)
    &&& text == if file.len() < 6 {
        complaint
    } else if file.subrange(0, 6) != seq![0x41u8, 0x45, 0x47, 0x49, 0x53, 0x32] {
        "Not an Aegis vault file (wrong magic bytes)."@
    } else if file.len() < 46 {
        complaint
    } else if mem < 8 || mem < parallel * 8 {
        "Argon2 params error: "@ + "memory cost is too small"@
    } else if iters < 1 {
        "Argon2 params error: "@ + "time cost is too small"@
    } else if parallel < 1 {
        "Argon2 params error: "@ + "not enough threads"@
    } else if parallel > 0xFF_FFFF {
        "Argon2 params error: "@ + "too many threads"@
    } else {
        "Key derivation failed: "@ + "password is too long"@
    }
}

/// The first piece of a file's payload that does not open is the one at index
/// `i`; what stands before it has been restored.
pub open spec fn refused_at(
    password: Seq<u8>,
    file: Seq<u8>,
    output: Seq<u8>,
    text: Seq<char>,
    i: int,
) -> bool {
    &&& 0 <= i && i * 262160 < file.len() - 46
    &&& piece_opened(password, file, i) is None || i >= 0xFFFF_FFFF && (i + 1) * 262160
        < file.len() - 46
    &&& text == if (i + 1) * 262160 >= file.len() - 46 {
        "Wrong password or corrupted vault."@
    } else {
        "Decryption chunk failed — file may be corrupted."@
    }
    &&& output.len() == i * 262144
    &&& forall|j: int|
        0 <= j < i ==> #[trigger] piece_opened(password, file, j) == Some(
            crate::stream::cut(output, 262144, j),
        )
}

/// A file is refused because a piece of its payload does not open.
pub open spec fn refused_by_segment(
    password: Seq<u8>,
    file: Seq<u8>,
    output: Seq<u8>,
    text: Seq<char>,
) -> bool {
    &&& header_accepted(password, file)
    &&& exists|i: int| refused_at(password, file, output, text, i)
}

/// Argon2 can be asked about the costs in a vault file's header.
pub open spec fn costs_derivable(file: Seq<u8>) -> bool {
    let h = crate::header::header_of(file);
    file.len() >= HEADER_SIZE && crate::header::has_magic(file) ==> crate::key::derivable(
        h.mem_kib,
        h.iters,
        h.parallel,
    )
}

/// What the machine does is what a decryption can expect.
proof fn lemma_decrypt_expects(run: DecryptRun)
    requires
        run.task.wf(),
        run.asks(),
        run.agrees(),
        !(run.action is Finish),
        costs_derivable(run.machine.source),
    ensures
        run.task.expects(run.machine.serve(run.action).1),
{
    if run.task.stage is Deriving {
        crate::decrypt::lemma_headed(run.task, run.machine.source);
    }
}

/// The fields of the header that a decryption has read are those of the file.
proof fn lemma_file_fields(m: DecryptModel, file: Seq<u8>)
    requires
        m.headed(),
        m.input.len() <= file.len(),
        m.input == file.take(m.input.len() as int),
    ensures
        file.len() >= 46,
        file.subrange(0, 6) == seq![0x41u8, 0x45, 0x47, 0x49, 0x53, 0x32],
        file.subrange(6, 22) == m.header.salt,
        file.subrange(22, 29) == m.header.stream_nonce(),
        crate::bytes::word_at(file, 34) == m.header.mem_kib,
        crate::bytes::word_at(file, 38) == m.header.iters,
        crate::bytes::word_at(file, 42) == m.header.parallel,
        file.skip(46).take(crate::stream::sealed_of(m.run).len() as int)
            == crate::stream::sealed_of(m.run),
{
    let b = m.header.encoded();
    crate::decrypt::lemma_headed(m, file);
    crate::header::layout_of_a_header(m.header);
    assert(file.take(46) =~= m.input.take(46));
    assert(m.input.take(46) =~= b);
    assert(file.subrange(0, 6) =~= b.subrange(0, 6));
    assert(file.subrange(6, 22) =~= b.subrange(6, 22));
    assert(file.subrange(22, 34) =~= b.subrange(22, 34));
    assert(file.subrange(22, 29) =~= file.subrange(22, 34).take(7));
    assert(forall|i: int| 0 <= i < 46 ==> file[i] == #[trigger] file.take(46)[i]);
    assert(file[34] == b[34] && file[35] == b[35] && file[36] == b[36] && file[37] == b[37]);
    assert(file[38] == b[38] && file[39] == b[39] && file[40] == b[40] && file[41] == b[41]);
    assert(file[42] == b[42] && file[43] == b[43] && file[44] == b[44] && file[45] == b[45]);
}

/// The key of a decryption is that of the file that it reads.
proof fn lemma_file_key(m: DecryptModel, file: Seq<u8>)
    requires
        m.headed(),
        m.input.len() <= file.len(),
        m.input == file.take(m.input.len() as int),
    ensures
        crate::vault::vault_key(m.password, m.header) is Ok <==> header_accepted(m.password, file),
        crate::vault::vault_key(m.password, m.header) matches Ok(key) ==> key == file_key(
            m.password,
            file,
        ),
        crate::vault::vault_key(m.password, m.header) matches Err(text) ==> refused_by_header(
            m.password,
            file,
            Seq::empty(),
            text,
        ),
{
    lemma_file_fields(m, file);
    crate::key::derived_key_is_the_hash(
        m.password,
        m.header.salt,
        m.header.mem_kib,
        m.header.iters,
        m.header.parallel,
    );
}

/// The segments that a decryption has opened are the first pieces of the file's
/// payload.
proof fn lemma_pieces_read(m: DecryptModel, file: Seq<u8>)
    requires
        m.opened_well(),
        m.stream().remaining > 0,
        m.input.len() <= file.len() == m.size,
        m.input == file.take(m.input.len() as int),
    ensures
        header_accepted(m.password, file),
        crate::stream::sealed_of(m.run).len() == m.run.len() * 262160,
        crate::stream::plain_of(m.run).len() == m.run.len() * 262144,
        forall|j: int|
            0 <= j < m.run.len() ==> #[trigger] piece_opened(m.password, file, j) == Some(
                crate::stream::cut(crate::stream::plain_of(m.run), 262144, j),
            ),
{
    let (key, nonce) = (m.key(), m.header.stream_nonce());
    let payload = file.skip(46);
    lemma_file_fields(m, file);
    lemma_file_key(m, file);
    assert forall|i: int| #![trigger m.run[i]] 0 <= i < m.run.len() implies m.run[i].plain.len()
        == 262144 && !m.run[i].last by {
        crate::stream::segments_are_counted(key, nonce, m.run, i);
        if m.run[i].last {
            assert(m.run[i] == m.run.last());
        }
    }
    crate::stream::lemma_full_lengths(key, nonce, m.run, 262144);
    assert forall|j: int| 0 <= j < m.run.len() implies #[trigger] piece_opened(
        m.password,
        file,
        j,
    ) == Some(crate::stream::cut(crate::stream::plain_of(m.run), 262144, j)) by {
        assert(m.run.last() == m.run[m.run.len() - 1]);
        crate::stream::segments_stand_in_order(key, nonce, m.run, 262144, j);
        crate::stream::segments_are_counted(key, nonce, m.run, j);
        assert(crate::stream::cut(payload, 262160, j) =~= crate::stream::cut(
            payload.take(crate::stream::sealed_of(m.run).len() as int),
            262160,
            j,
        ));
    }
}

/// A decryption that meets a piece that does not open ends with what is to be
/// said of it.
proof fn lemma_refused_at(run: DecryptRun)
    requires
        run.task.wf(),
        run.asks(),
        run.agrees(),
        run.task.stage is Reading,
        run.next().task.stage is Finished,
    ensures
        run.next().action matches ActionModel::Finish(Err(text)) && refused_by_segment(
            run.task.password,
            run.machine.source,
            run.task.written,
            text,
        ),
{
    let m = run.task;
    let file = run.machine.source;
    let i = m.run.len() as int;
    let d = run.machine.serve(run.action).1->Data_0;
    lemma_pieces_read(m, file);
    lemma_file_fields(m, file);
    lemma_file_key(m, file);
    assert(d =~= crate::stream::cut(file.skip(46), 262160, i));
    assert(refused_at(
        m.password,
        file,
        m.written,
        run.next().action->Finish_0->Err_0,
        i,
    ));
}

/// A decryption that has read its file to the end has opened every piece.
proof fn lemma_read_well(m: DecryptModel, file: Seq<u8>)
    requires
        m.wf(),
        m.stage is Flushing,
        m.input.len() <= file.len() == m.size,
        m.input == file.take(m.input.len() as int),
    ensures
        read_well(m.password, file, m.written),
        m.run.len() == (file.len() - 46 + 262159) / 262160,
{
    lemma_file_fields(m, file);
    lemma_file_key(m, file);
    assert(m.run.len() > 0 ==> crate::stream::run_ended(m.run));
    assert(file.skip(46) =~= crate::stream::sealed_of(m.run));
    crate::vault::opening_of_a_vault(m.key(), m.header.stream_nonce(), m.run);
}

/// The report of an opened segment counts full ones.
proof fn lemma_decrypt_reported(run: DecryptRun)
    requires
        run.task.wf(),
        run.agrees(),
        run.task.stage is Reporting,
    ensures
        crate::machine::counts_pieces(
            run.machine.trail.reports.push(run.task.progress()),
            262160,
            run.machine.source.len() - 46,
        ),
{
    let m = run.task;
    let file = run.machine.source;
    lemma_file_fields(m, file);
    if m.stream().remaining > 0 {
        lemma_pieces_read(m, file);
    } else {
        assert(file.skip(46) =~= crate::stream::sealed_of(m.run));
        crate::vault::opening_of_a_vault(m.key(), m.header.stream_nonce(), m.run);
    }
}

/// One action of a decryption keeps the machine in step with the task and
/// brings the run nearer to its end.
#[verifier::rlimit(40)]
proof fn lemma_decrypt_next(run: DecryptRun)
    requires
        run.task.wf(),
        run.next().task.wf(),
        run.asks(),
        run.agrees(),
        !(run.action is Finish),
        costs_derivable(run.machine.source),
    ensures
        run.next().machine.source == run.machine.source,
        run.next().task.path == run.task.path,
        run.next().task.password == run.task.password,
        run.next().asks(),
        run.next().task.stage is Finished ==> run.next().fulfils(run.task.path, run.task.password),
        !(run.next().task.stage is Finished) ==> run.next().agrees(),
        0 <= run.next().measure() < run.measure(),
{
    let m = run.task;
    let file = run.machine.source;
    let (machine, e) = run.machine.serve(run.action);
    let n = run.next();
    match m.stage {
        DecryptStage::Magic | DecryptStage::Fields => {
            if e is Failed {
                assert(file.len() < HEADER_SIZE);
                if m.stage is Fields {
                    assert(file.take(6) =~= file.subrange(0, 6));
                    assert(m.input =~= seq![0x41u8, 0x45, 0x47, 0x49, 0x53, 0x32]);
                }
            } else {
                crate::decrypt::decryption_gives_the_contents(m, e, file);
                if m.stage is Magic {
                    assert(e->Data_0 =~= file.subrange(0, 6));
                    assert(crate::header::AEGIS_MAGIC@ =~= seq![
                        0x41u8,
                        0x45,
                        0x47,
                        0x49,
                        0x53,
                        0x32,
                    ]);
                }
            }
        },
        DecryptStage::Reading => {
            crate::decrypt::decryption_gives_the_contents(m, e, file);
            if n.task.stage is Finished {
                lemma_refused_at(run);
            }
        },
        DecryptStage::Deriving => {
            crate::decrypt::lemma_headed(m, file);
            lemma_file_fields(m, file);
            lemma_file_key(m, file);
            crate::decrypt::decryption_gives_the_contents(m, e, file);
        },
        DecryptStage::Reporting => {
            crate::decrypt::decryption_gives_the_contents(m, e, file);
            lemma_decrypt_reported(run);
        },
        DecryptStage::Flushing => {
            crate::decrypt::decryption_gives_the_contents(m, e, file);
            lemma_read_well(m, file);
        },
        _ => {
            crate::decrypt::decryption_gives_the_contents(m, e, file);
        },
    }
}

/// The run after one action more than `n`.
proof fn lemma_decrypt_after(run: DecryptRun, n: nat)
    requires
        !(run.after(n).action is Finish),
    ensures
        run.after(n + 1) == run.after(n).next(),
    decreases n,
{
    if n > 0 {
        lemma_decrypt_after(run.next(), (n - 1) as nat);
    } else {
        assert(run.after(1) == run.next().after(0));
    }
}

/// A run whose next state is well formed is sound for one action more.
proof fn lemma_decrypt_sound(run: DecryptRun, n: nat)
    requires
        run.sound(n),
        run.after(n).action is Finish || run.after(n).next().task.wf(),
    ensures
        run.sound(n + 1),
    decreases n,
{
    if !(run.action is Finish) {
        if n > 0 {
            lemma_decrypt_sound(run.next(), (n - 1) as nat);
        } else {
            assert(run.next().sound(0));
        }
    }
}

/// A run that is sound up to its end is sound.
proof fn lemma_decrypt_ended(run: DecryptRun, n: nat, k: nat)
    requires
        run.sound(n),
        run.after(n).action is Finish,
    ensures
        run.sound(k),
    decreases k,
{
    if k > 0 && !(run.action is Finish) {
        lemma_decrypt_ended(run.next(), (n - 1) as nat, (k - 1) as nat);
    }
}

proof fn lemma_decrypt_run(run: DecryptRun, n: nat)
    requires
        run.sound(n),
        run.asks(),
        run.task.stage is Finished ==> run.fulfils(run.task.path, run.task.password),
        !(run.task.stage is Finished) ==> run.agrees(),
        costs_derivable(run.machine.source),
        n >= run.measure(),
    ensures
        run.after(n).machine.source == run.machine.source,
        run.after(n).fulfils(run.task.path, run.task.password),
    decreases n,
{
    if n > 0 && !(run.action is Finish) {
        assert(run.next().sound((n - 1) as nat));
        lemma_decrypt_next(run);
        lemma_decrypt_run(run.next(), (n - 1) as nat);
    }
}

/// What a decryption comes to, in terms of the file alone. A file that starts as
/// a vault, under costs that Argon2 takes, is cut behind its 46 bytes of header
/// into pieces of 262160 bytes. If the piece at every index `i` opens under
/// counter `i`, with the last flag on the final piece alone, what they open to
/// is restored in order, and each piece is reported. Else what the pieces
/// before the first one that does not open hold is restored, and the message
/// says whether that is the final piece. Any other file is refused with the
/// reason, and nothing is created.
pub proof fn what_a_decryption_comes_to(
    path: Seq<char>,
    password: Seq<u8>,
    result: Result<Seq<char>, Seq<char>>,
    machine: Machine,
)
    requires
        decrypted(path, password, result, machine),
    ensures
        ({
            let file = machine.source;
            let trail = machine.trail;
            let mem = crate::bytes::word_at(file, 34);
            let iters = crate::bytes::word_at(file, 38);
            let parallel = crate::bytes::word_at(file, 42);
            let magic = file.len() >= 6 && file.subrange(0, 6) == seq![
                0x41u8,
                0x45,
                0x47,
                0x49,
                0x53,
                0x32,
            ];
            let accepted = file.len() >= 46 && magic && mem >= 8 && mem >= parallel * 8 && iters >= 1
                && 1 <= parallel <= 0xFF_FFFF && password.len() <= 0xFFFF_FFFF;
            &&& result matches Ok(text) ==> {
                &&& accepted
                &&& text == "Decrypted → "@ + crate::paths::quoted_path(
                    crate::paths::restored(path),
                )
                &&& machine.created == Some(crate::paths::restored(path))
                &&& machine.output is Some
                &&& machine.output->Some_0.len() == file.len() - 46 - 16 * ((file.len() - 46 + 262159) / 262160)
                &&& forall|i: int|
                    0 <= i && i * 262160 < file.len() - 46 ==> crate::stream::opened_segment(
                        crate::key::argon2id_hash(
                            password,
                            file.subrange(6, 22),
                            crate::bytes::word_at(file, 34),
                            crate::bytes::word_at(file, 38),
                            crate::bytes::word_at(file, 42),
                        ),
                        file.subrange(22, 29),
                        i as u32,
                        (i + 1) * 262160 >= file.len() - 46,
                        #[trigger] crate::stream::cut(file.skip(46), 262160, i),
                    ) == Some(
                        crate::stream::cut(machine.output->Some_0, 262144, i),
                    )
                &&& trail.flushed
                &&& trail.reports.len() == 1 + (file.len() - 46 + 262159) / 262160
                &&& trail.reports[0] == Progress::KeyReady
                &&& forall|j: int|
                    #![trigger trail.reports[j]]
                    1 <= j < trail.reports.len() ==> trail.reports[j] == (Progress::Streamed {
                        done: (if j * 262160 <= file.len() - 46 {
                            j * 262160
                        } else {
                            file.len() - 46
                        }) as u64,
                        total: (file.len() - 46) as u64,
                    })
            }
            &&& !accepted ==> {
                &&& machine.created is None && machine.output is None
                &&& result == Err::<Seq<char>, Seq<char>>(
                    if file.len() < 6 {
                        machine.complaint
                    } else if !magic {
                        "Not an Aegis vault file (wrong magic bytes)."@
                    } else if file.len() < 46 {
                        machine.complaint
                    } else if mem < 8 || mem < parallel * 8 {
                        "Argon2 params error: "@ + "memory cost is too small"@
                    } else if iters < 1 {
                        "Argon2 params error: "@ + "time cost is too small"@
                    } else if parallel < 1 {
                        "Argon2 params error: "@ + "not enough threads"@
                    } else if parallel > 0xFF_FFFF {
                        "Argon2 params error: "@ + "too many threads"@
                    } else {
                        "Key derivation failed: "@ + "password is too long"@
                    },
                )
            }
            &&& accepted ==> (result matches Err(text) ==> exists|i: int|
                {
                    &&& 0 <= i && i * 262160 < file.len() - 46
                    &&& crate::stream::opened_segment(
                        crate::key::argon2id_hash(
                            password,
                            file.subrange(6, 22),
                            crate::bytes::word_at(file, 34),
                            crate::bytes::word_at(file, 38),
                            crate::bytes::word_at(file, 42),
                        ),
                        file.subrange(22, 29),
                        i as u32,
                        (i + 1) * 262160 >= file.len() - 46,
                        #[trigger] crate::stream::cut(file.skip(46), 262160, i),
                    ) is None || i >= 0xFFFF_FFFF && (i + 1) * 262160 < file.len() - 46
                    &&& text == if (i + 1) * 262160 >= file.len() - 46 {
                        "Wrong password or corrupted vault."@
                    } else {
                        "Decryption chunk failed — file may be corrupted."@
                    }
                    &&& machine.created == Some(crate::paths::restored(path))
                    &&& machine.output is Some
                    &&& machine.output->Some_0.len() == i * 262144
                    &&& forall|j: int|
                        0 <= j < i ==> crate::stream::opened_segment(
                            crate::key::argon2id_hash(
                                password,
                                file.subrange(6, 22),
                                crate::bytes::word_at(file, 34),
                                crate::bytes::word_at(file, 38),
                                crate::bytes::word_at(file, 42),
                            ),
                            file.subrange(22, 29),
                            j as u32,
                            (j + 1) * 262160 >= file.len() - 46,
                            #[trigger] crate::stream::cut(file.skip(46), 262160, j),
                        ) == Some(
                            crate::stream::cut(machine.output->Some_0, 262144, j),
                        )
                })
            &&& trail.opened == Some(path)
            &&& trail.removed is None && trail.passes.len() == 0
        }),
{
    let file = machine.source;
    match result {
        Ok(_) => {
            let plain = machine.output->Some_0;
            assert forall|i: int| 0 <= i && i * 262160 < file.len() - 46 implies crate::stream::opened_segment(
                crate::key::argon2id_hash(
                    password,
                    file.subrange(6, 22),
                    crate::bytes::word_at(file, 34),
                    crate::bytes::word_at(file, 38),
                    crate::bytes::word_at(file, 42),
                ),
                file.subrange(22, 29),
                i as u32,
                (i + 1) * 262160 >= file.len() - 46,
                #[trigger] crate::stream::cut(file.skip(46), 262160, i),
            ) == Some(crate::stream::cut(plain, 262144, i)) by {
                assert(piece_opened(password, file, i) == Some(
                    crate::stream::cut(plain, 262144, i),
                ));
            }
            assert forall|j: int|
                #![trigger machine.trail.reports[j]]
                1 <= j < machine.trail.reports.len() implies file.len() > 46 by {}
        },
        Err(text) => {
            if refused_by_segment(password, file, machine.output->Some_0, text) {
                let i = choose|i: int| refused_at(
                    password,
                    file,
                    machine.output->Some_0,
                    text,
                    i,
                );
                let output = machine.output->Some_0;
                let piece = crate::stream::cut(file.skip(46), 262160, i);
                assert forall|j: int| 0 <= j < i implies crate::stream::opened_segment(
                    crate::key::argon2id_hash(
                        password,
                        file.subrange(6, 22),
                        crate::bytes::word_at(file, 34),
                        crate::bytes::word_at(file, 38),
                        crate::bytes::word_at(file, 42),
                    ),
                    file.subrange(22, 29),
                    j as u32,
                    (j + 1) * 262160 >= file.len() - 46,
                    #[trigger] crate::stream::cut(file.skip(46), 262160, j),
                ) == Some(crate::stream::cut(output, 262144, j)) by {
                    assert(piece_opened(password, file, j) == Some(
                        crate::stream::cut(output, 262144, j),
                    ));
                }
            }
        },
    }
}

/// A decryption comes to its end, and gives what the vault holds: once it has
/// had three actions for each byte of the file, and eleven more, it has written
/// exactly what the password reads out of the file and succeeded, or has ended
/// with an error if the password reads nothing out of it.
pub proof fn decryption_reads_the_vault(
    path: Seq<char>,
    password: Seq<u8>,
    machine: Machine,
    n: nat,
)
    requires
        machine == Machine::fresh(machine.source, machine.stride, machine.complaint),
        machine.source.len() <= u64::MAX,
        costs_derivable(machine.source),
        DecryptRun::start(path, password, machine).sound(n),
        n >= 3 * machine.source.len() + 11,
    ensures
        DecryptRun::start(path, password, machine).after(n).machine.source == machine.source,
        DecryptRun::start(path, password, machine).after(n).fulfils(path, password),
{
    let run = DecryptRun::start(path, password, machine);
    assert(run.task.input =~= machine.source.take(0));
    lemma_decrypt_run(run, n);
}

// ----- encryption -----

/// An encryption on a machine: what it waits for, the header that its vault
/// gets, and the machine.
pub struct EncryptRun {
    pub task: EncryptModel,
    pub action: ActionModel,
    pub header: HeaderModel,
    pub machine: Machine,
}

impl EncryptRun {
    /// The run as it starts.
    pub open spec fn start(
        path: Seq<char>,
        password: Seq<u8>,
        header: HeaderModel,
        machine: Machine,
    ) -> EncryptRun {
        let (task, action) = EncryptModel::fresh(path, password).step(EventModel::Done, header);
        EncryptRun { task, action, header, machine }
    }

    /// The run after one more action.
    pub open spec fn next(self) -> EncryptRun {
        let (machine, e) = self.machine.serve(self.action);
        let (task, action) = self.task.step(e, self.header);
        EncryptRun { task, action, machine, ..self }
    }

    /// The run after `n` more actions; it stays as it is once it has ended.
    pub open spec fn after(self, n: nat) -> EncryptRun
        decreases n,
    {
        if n == 0 || self.action is Finish {
            self
        } else {
            self.next().after((n - 1) as nat)
        }
    }

    /// The next `n` states are well formed, as the states of a task are
    /// (`inv_gives_wf`).
    pub open spec fn sound(self, n: nat) -> bool
        decreases n,
    {
        &&& self.task.wf()
        &&& n > 0 && !(self.action is Finish) ==> self.next().sound((n - 1) as nat)
    }

    /// The task's action is the one that its stage stands for.
    pub open spec fn asks(self) -> bool {
        match self.task.stage {
            EncryptStage::Start => false,
            EncryptStage::Opening => self.action == ActionModel::OpenSource(self.task.path),
            EncryptStage::Measuring => self.action is ReadMetadata,
            EncryptStage::Creating => {
                self.action == ActionModel::CreateOutput(self.task.path + ".aegis"@)
            },
            EncryptStage::Heading => {
                self.action == ActionModel::WriteOutput(self.header.encoded())
            },
            EncryptStage::Deriving => self.action is DeriveKey,
            EncryptStage::Announcing => self.action == ActionModel::Report(Progress::KeyReady),
            EncryptStage::Reporting => {
                self.action == ActionModel::Report(self.task.progress())
            },
            EncryptStage::Reading => {
                self.action == ActionModel::ReadSome(
                    (BUFFER_SIZE - self.task.pending.len()) as usize,
                )
            },
            EncryptStage::Storing => {
                self.action == ActionModel::WriteOutput(self.task.run.last().sealed)
            },
            EncryptStage::Flushing => self.action is FlushOutput,
            EncryptStage::Shredding => match self.task.shred.stage {
                ShredStage::Start | ShredStage::Ended => false,
                ShredStage::Sizing => self.action == ActionModel::StatFile(self.task.path),
                ShredStage::Opening => {
                    self.action == ActionModel::OpenForOverwrite(self.task.path)
                },
                ShredStage::Writing => {
                    self.action == ActionModel::Overwrite(self.task.shred.pending)
                },
                ShredStage::Flushing => self.action is FlushOverwrite,
                ShredStage::Removing => self.action == ActionModel::RemoveFile(self.task.path),
            },
            EncryptStage::Finished => self.action is Finish,
        }
    }

    /// The machine has given and taken what the task has.
    pub open spec fn agrees(self) -> bool {
        let (m, machine) = (self.task, self.machine);
        &&& machine.source.len() <= u64::MAX
        &&& machine.stride > 0
        &&& machine.at == crate::stream::plain_of(m.run).len() + m.pending.len()
        &&& machine.at <= machine.source.len()
        &&& crate::stream::plain_of(m.run) + m.pending == machine.source.take(machine.at as int)
        &&& m.over ==> machine.at == machine.source.len()
        &&& match m.stage {
            EncryptStage::Start | EncryptStage::Opening | EncryptStage::Measuring => true,
            EncryptStage::Creating => m.size == machine.source.len(),
            _ => {
                &&& m.size == machine.source.len()
                &&& m.header == self.header
                &&& machine.created == Some(m.path + ".aegis"@)
                &&& machine.output == Some(m.written)
            },
        }
        &&& m.stage is Flushing || m.stage is Shredding ==> machine.at == machine.source.len()
        &&& m.stage is Shredding && !(m.shred.stage is Sizing) ==> m.shred.size
            == machine.source.len()
        &&& self.trail_agrees()
    }

    /// What else was asked for is what the task has gone through.
    pub open spec fn trail_agrees(self) -> bool {
        let (m, t) = (self.task, self.machine.trail);
        let len = self.machine.source.len() as int;
        &&& m.stage is Opening || t.opened == Some(m.path)
        &&& t.removed is None
        &&& crate::machine::counts_pieces(t.reports, 262144, len)
        &&& t.reports.len() == match m.stage {
            EncryptStage::Reading | EncryptStage::Flushing | EncryptStage::Shredding => {
                m.run.len() + 1
            },
            EncryptStage::Storing | EncryptStage::Reporting => m.run.len(),
            _ => 0,
        }
        &&& if m.stage is Shredding {
            &&& t.flushed
            &&& m.shred.stage is Sizing || t.sized == Some(m.path)
            &&& t.passes.len() == m.shred.covered.len() + if m.shred.stage is Writing
                || m.shred.stage is Flushing {
                1int
            } else {
                0
            }
            &&& forall|j: int|
                #![trigger t.passes[j]]
                0 <= j < m.shred.covered.len() ==> t.passes[j] == full_pass(m.path, len)
            &&& m.shred.stage is Writing || m.shred.stage is Flushing ==> t.passes.last() == (Pass {
                bytes: m.shred.done,
                flushed: false,
                ..full_pass(m.path, len)
            })
        } else {
            t.passes.len() == 0
        }
    }

    /// Actions that shredding still takes, at most.
    pub open spec fn shred_measure(self) -> int {
        let pass = self.machine.source.len() + 3int;
        let left = self.machine.source.len() - self.task.shred.done;
        let later: int = if self.task.shred.covered.len() == 0 {
            2 * pass
        } else if self.task.shred.covered.len() == 1 {
            pass
        } else {
            0
        };
        match self.task.shred.stage {
            ShredStage::Start => 3 * pass + 3,
            ShredStage::Sizing => 3 * pass + 2,
            ShredStage::Opening => later + pass + 1,
            ShredStage::Writing => later + left + 2,
            ShredStage::Flushing => later + 2,
            ShredStage::Removing => 1,
            ShredStage::Ended => 0,
        }
    }

    /// Actions that are still to come, at most.
    pub open spec fn measure(self) -> int {
        let shredding = 3 * (self.machine.source.len() + 3) + 3int;
        let reading = 3 * (self.machine.source.len() - self.machine.at);
        match self.task.stage {
            EncryptStage::Start => shredding + reading + 12,
            EncryptStage::Opening => shredding + reading + 11,
            EncryptStage::Measuring => shredding + reading + 10,
            EncryptStage::Creating => shredding + reading + 9,
            EncryptStage::Heading => shredding + reading + 8,
            EncryptStage::Deriving => shredding + reading + 7,
            EncryptStage::Announcing => shredding + reading + 6,
            EncryptStage::Reading => shredding + reading + 3,
            EncryptStage::Storing => shredding + reading + 5,
            EncryptStage::Reporting => shredding + reading + 4,
            EncryptStage::Flushing => shredding + 1,
            EncryptStage::Shredding => self.shred_measure(),
            EncryptStage::Finished => 0,
        }
    }

    /// The run has ended as it is to end.
    pub open spec fn fulfils(self, path: Seq<char>, password: Seq<u8>) -> bool {
        self.action matches ActionModel::Finish(r) && encrypted(
            path,
            password,
            self.header,
            r,
            self.machine,
        )
    }
}

/// A pass over a whole file of `len` bytes, behind the flushed output.
pub open spec fn full_pass(path: Seq<char>, len: int) -> Pass {
    Pass { path, behind_flush: true, bytes: len as nat, flushed: true }
}

/// What an encryption is to come to: a vault beside the source that holds it,
/// and the source gone, after three passes over the whole of it.
pub open spec fn encrypted(
    path: Seq<char>,
    password: Seq<u8>,
    header: HeaderModel,
    result: Result<Seq<char>, Seq<char>>,
    machine: Machine,
) -> bool {
    &&& result == Ok::<Seq<char>, Seq<char>>(
        "Encrypted → "@ + crate::paths::quoted_path(path + ".aegis"@),
    )
    &&& machine.created == Some(path + ".aegis"@)
    &&& machine.output == Some(crate::vault::vault_image(password, header, machine.source))
    &&& crate::vault::vault_contents(password, machine.output->Some_0) == Some(machine.source)
    &&& machine.removed
    &&& machine.trail.opened == Some(path)
    &&& machine.trail.sized == Some(path)
    &&& machine.trail.removed == Some(path)
    &&& machine.trail.flushed
    &&& machine.trail.passes == seq![
        full_pass(path, machine.source.len() as int),
        full_pass(path, machine.source.len() as int),
        full_pass(path, machine.source.len() as int),
    ]
    &&& machine.trail.reports.len() == 1 + (machine.source.len() + 262143) / 262144
    &&& crate::machine::counts_pieces(machine.trail.reports, 262144, machine.source.len() as int)
    &&& laid_out(password, header, machine.source, machine.output->Some_0)
}

/// A vault file, byte for byte: the stored header, then the source in pieces of
/// 262144 bytes, each sealed under its index.
pub open spec fn laid_out(
    password: Seq<u8>,
    header: HeaderModel,
    source: Seq<u8>,
    file: Seq<u8>,
) -> bool {
    &&& file.len() == 46 + source.len() + 16 * ((source.len() + 262143) / 262144)
    &&& file.take(46) == header.encoded()
    &&& forall|i: int|
        0 <= i && i * 262144 < source.len() ==> #[trigger] crate::stream::cut(
            file.skip(46),
            262160,
            i,
        ) == crate::stream::sealed_segment(
            crate::key::argon2id_hash(password, header.salt, 65536, 3, 4),
            header.nonce.subrange(0, 7),
            i as u32,
            (i + 1) * 262144 >= source.len(),
            crate::stream::cut(source, 262144, i),
        )
}

/// The header of a new vault with the given salt and nonce.
pub open spec fn new_header(salt: Seq<u8>, nonce: Seq<u8>) -> HeaderModel {
    HeaderModel {
        salt,
        nonce,
        mem_kib: ARGON2_MEM_KIB,
        iters: ARGON2_ITERS,
        parallel: ARGON2_PARALLEL,
    }
}

/// What an encryption needs of its inputs: a password that Argon2 takes, a
/// source whose segments can be counted, and the header of a new vault.
pub open spec fn can_encrypt(password: Seq<u8>, header: HeaderModel, source: Seq<u8>) -> bool {
    &&& password.len() <= 0xFFFF_FFFF
    &&& source.len() <= 0x1_0000_0000 * BUFFER_SIZE
    &&& header.wf()
    &&& header.has_new_costs()
}

/// A run of full segments holds a buffer of plaintext for each.
pub(crate) proof fn lemma_full_run(run: Seq<Segment>, chunk: nat)
    requires
        forall|i: int| #![trigger run[i]] 0 <= i < run.len() ==> run[i].plain.len() == chunk,
    ensures
        crate::stream::plain_of(run).len() == run.len() * chunk,
    decreases run.len(),
{
    if run.len() > 0 {
        let front = run.drop_last();
        assert forall|i: int| #![trigger front[i]] 0 <= i < front.len() implies front[i].plain.len()
            == chunk by {
            assert(front[i] == run[i]);
        }
        lemma_full_run(front, chunk);
        assert(run[run.len() - 1].plain.len() == chunk);
        assert(run.len() * chunk == front.len() * chunk + chunk) by (nonlinear_arith)
            requires
                run.len() == front.len() + 1,
        ;
    }
}

/// What the machine reads is kept or sealed: the counter has room for it.
proof fn lemma_chunk_sealed(run: EncryptRun)
    requires
        run.task.wf(),
        run.asks(),
        run.agrees(),
        run.task.stage is Reading,
        can_encrypt(run.task.password, run.header, run.machine.source),
    ensures
        run.machine.left() > 0 ==> run.next().task.stage is Storing || run.next().task.stage
            is Reading,
        run.machine.left() == 0 ==> run.task.pending.len() == 0 && run.next().task.stage
            is Flushing,
{
    let m = run.task;
    assert forall|i: int| #![trigger m.run[i]] 0 <= i < m.run.len() implies m.run[i].plain.len()
        == BUFFER_SIZE by {
        if i == m.run.len() - 1 {
            assert(m.run[i] == m.run.last());
        }
    }
    lemma_full_run(m.run, BUFFER_SIZE as nat);
}

/// What the machine does is what an encryption can expect.
proof fn lemma_encrypt_expects(run: EncryptRun)
    requires
        run.task.wf(),
        run.asks(),
        run.agrees(),
        !(run.action is Finish),
    ensures
        run.task.expects(run.machine.serve(run.action).1),
{
}

/// The report of a segment counts full buffers.
proof fn lemma_reported(run: EncryptRun)
    requires
        run.task.wf(),
        run.agrees(),
        run.task.stage is Reporting,
        run.task.run.len() > 0,
    ensures
        crate::machine::counts_pieces(
            run.machine.trail.reports.push(run.task.progress()),
            262144,
            run.machine.source.len() as int,
        ),
{
    let m = run.task;
    let k = m.run.len() - 1;
    assert(m.run[k] == m.run.last());
    crate::stream::segments_stand_in_order(
        m.key(),
        m.header.stream_nonce(),
        m.run,
        BUFFER_SIZE as nat,
        k,
    );
    if !m.ended() {
        assert forall|i: int| #![trigger m.run[i]] 0 <= i < m.run.len() implies m.run[i].plain.len()
            == BUFFER_SIZE by {
            if i == k {
                assert(m.run[i] == m.run.last());
            }
        }
        lemma_full_run(m.run, BUFFER_SIZE as nat);
    }
}

/// The vault behind an encryption that has read its source is laid out as it is
/// to be.
proof fn lemma_laid_out(run: EncryptRun)
    requires
        run.task.wf(),
        run.agrees(),
        run.task.stage is Shredding,
        can_encrypt(run.task.password, run.header, run.machine.source),
    ensures
        run.task.run.len() == (run.machine.source.len() + 262143) / 262144,
        laid_out(
            run.task.password,
            run.header,
            run.machine.source,
            run.machine.output->Some_0,
        ),
{
    let m = run.task;
    let source = run.machine.source;
    let sealed = crate::stream::sealed_of(m.run);
    assert(source.take(source.len() as int) =~= source);
    assert(crate::stream::plain_of(m.run) + m.pending =~= crate::stream::plain_of(m.run));
    crate::header::layout_of_a_header(m.header);
    crate::vault::segments_of_a_vault(m.key(), m.header.stream_nonce(), m.run);
    crate::key::derived_key_is_the_hash(m.password, m.header.salt, 65536, 3, 4);
    assert(m.written.take(46) =~= m.header.encoded());
    assert(m.written.skip(46) =~= sealed);
    assert(m.header.stream_nonce() =~= m.header.nonce.subrange(0, 7));
}

/// One action of the shredder keeps the machine in step with the task and brings
/// the run nearer to its end.
#[verifier::rlimit(40)]
proof fn lemma_shred_next(run: EncryptRun)
    requires
        run.task.wf(),
        run.next().task.wf(),
        run.asks(),
        run.task.stage is Shredding,
        run.agrees(),
        !(run.action is Finish),
        can_encrypt(run.task.password, run.header, run.machine.source),
    ensures
        run.next().machine.source == run.machine.source,
        run.next().header == run.header,
        run.next().task.path == run.task.path,
        run.next().task.password == run.task.password,
        run.next().asks(),
        run.next().task.stage is Finished ==> run.next().fulfils(run.task.path, run.task.password),
        !(run.next().task.stage is Finished) ==> run.next().agrees(),
        0 <= run.next().measure() < run.measure(),
{
    let m = run.task;
    let source = run.machine.source;
    let n = run.next();
    let t = run.machine.trail;
    if n.task.stage is Finished {
        assert(source.take(source.len() as int) =~= source);
        assert(crate::stream::plain_of(m.run) + m.pending =~= crate::stream::plain_of(m.run));
        lemma_laid_out(run);
        assert(n.machine.trail.passes =~= seq![
            full_pass(m.path, source.len() as int),
            full_pass(m.path, source.len() as int),
            full_pass(m.path, source.len() as int),
        ]);
        crate::vault::sealed_vault_holds_its_plaintext(m.password, m.header, m.run);
    } else {
        assert(forall|j: int|
            #![trigger n.machine.trail.passes[j]]
            0 <= j < m.shred.covered.len() ==> n.machine.trail.passes[j] == t.passes[j]);
    }
}

/// One action of an encryption keeps the machine in step with the task and
/// brings the run nearer to its end.
#[verifier::rlimit(40)]
proof fn lemma_encrypt_next(run: EncryptRun)
    requires
        run.task.wf(),
        run.next().task.wf(),
        run.asks(),
        run.agrees(),
        !(run.action is Finish),
        can_encrypt(run.task.password, run.header, run.machine.source),
    ensures
        run.next().machine.source == run.machine.source,
        run.next().header == run.header,
        run.next().task.path == run.task.path,
        run.next().task.password == run.task.password,
        run.next().asks(),
        run.next().task.stage is Finished ==> run.next().fulfils(run.task.path, run.task.password),
        !(run.next().task.stage is Finished) ==> run.next().agrees(),
        0 <= run.next().measure() < run.measure(),
{
    let m = run.task;
    let source = run.machine.source;
    let (machine, e) = run.machine.serve(run.action);
    let n = run.next();
    if m.stage is Reading {
        lemma_chunk_sealed(run);
        let d = e->Data_0;
        let chunk = m.pending + d;
        let plain = crate::stream::plain_of(m.run);
        assert(plain + chunk =~= (plain + m.pending) + d);
        assert(plain + chunk =~= source.take(machine.at as int));
        if n.task.stage is Storing {
            let s = n.task.run.last();
            crate::stream::lemma_push(m.run, s);
            assert(n.task.run == m.run.push(s));
            assert(crate::stream::plain_of(n.task.run) + n.task.pending =~= source.take(
                machine.at as int,
            ));
        }
    } else if m.stage is Reporting {
        lemma_reported(run);
    } else if m.stage is Creating {
        assert(n.task.written =~= Seq::empty());
    } else if m.stage is Heading {
        assert(m.written + run.header.encoded() =~= run.header.encoded());
    } else if m.stage is Deriving {
        crate::encrypt::new_vault_key_exists(m);
    } else if m.stage is Shredding {
        lemma_shred_next(run);
    }
}

/// The run after one action more than `n`.
proof fn lemma_encrypt_after(run: EncryptRun, n: nat)
    requires
        !(run.after(n).action is Finish),
    ensures
        run.after(n + 1) == run.after(n).next(),
    decreases n,
{
    if n > 0 {
        lemma_encrypt_after(run.next(), (n - 1) as nat);
    } else {
        assert(run.after(1) == run.next().after(0));
    }
}

/// A run whose next state is well formed is sound for one action more.
proof fn lemma_encrypt_sound(run: EncryptRun, n: nat)
    requires
        run.sound(n),
        run.after(n).action is Finish || run.after(n).next().task.wf(),
    ensures
        run.sound(n + 1),
    decreases n,
{
    if !(run.action is Finish) {
        if n > 0 {
            lemma_encrypt_sound(run.next(), (n - 1) as nat);
        } else {
            assert(run.next().sound(0));
        }
    }
}

/// A run that is sound up to its end is sound.
proof fn lemma_encrypt_ended(run: EncryptRun, n: nat, k: nat)
    requires
        run.sound(n),
        run.after(n).action is Finish,
    ensures
        run.sound(k),
    decreases k,
{
    if k > 0 && !(run.action is Finish) {
        lemma_encrypt_ended(run.next(), (n - 1) as nat, (k - 1) as nat);
    }
}

proof fn lemma_encrypt_run(run: EncryptRun, n: nat)
    requires
        run.sound(n),
        run.asks(),
        run.task.stage is Finished ==> run.fulfils(run.task.path, run.task.password),
        !(run.task.stage is Finished) ==> run.agrees(),
        can_encrypt(run.task.password, run.header, run.machine.source),
        n >= run.measure(),
    ensures
        run.after(n).machine.source == run.machine.source,
        run.after(n).header == run.header,
        run.after(n).fulfils(run.task.path, run.task.password),
    decreases n,
{
    if n > 0 && !(run.action is Finish) {
        assert(run.next().sound((n - 1) as nat));
        lemma_encrypt_next(run);
        lemma_encrypt_run(run.next(), (n - 1) as nat);
    }
}

/// The fields of a header that a file starts with.
proof fn lemma_header_of(header: HeaderModel, file: Seq<u8>)
    requires
        header.wf(),
        header.has_new_costs(),
        file.len() >= 46,
        file.take(46) == header.encoded(),
    ensures
        file.subrange(0, 6) == seq![0x41u8, 0x45, 0x47, 0x49, 0x53, 0x32],
        file.subrange(6, 22) == header.salt,
        file.subrange(22, 34) == header.nonce,
        file.subrange(34, 46) == seq![0u8, 1, 0, 0, 0, 0, 0, 3, 0, 0, 0, 4],
{
    crate::header::layout_of_a_header(header);
    crate::header::costs_of_a_new_header(header);
    assert(file.subrange(0, 6) =~= file.take(46).subrange(0, 6));
    assert(file.subrange(6, 22) =~= file.take(46).subrange(6, 22));
    assert(file.subrange(22, 34) =~= file.take(46).subrange(22, 34));
    assert(file.subrange(34, 46) =~= file.take(46).subrange(34, 46));
}

/// What an encryption comes to, in terms of the source alone. The vault is the
/// letters AEGIS2, salt, nonce and costs, and behind them the source in pieces
/// of 262144 bytes, of which the one at index `i` is sealed under counter `i`,
/// the final one alone with the last flag, with the Argon2id hash of the whole
/// password as the key. Each piece is reported. Behind the flushed vault the
/// source has been overwritten three times from end to end, flushed each time,
/// and removed.
pub proof fn what_an_encryption_comes_to(
    path: Seq<char>,
    password: Seq<u8>,
    header: HeaderModel,
    result: Result<Seq<char>, Seq<char>>,
    machine: Machine,
)
    requires
        header.wf(),
        header.has_new_costs(),
        encrypted(path, password, header, result, machine),
    ensures
        ({
            let out = machine.output->Some_0;
            &&& result == Ok::<Seq<char>, Seq<char>>(
                "Encrypted → "@ + crate::paths::quoted_path(path + ".aegis"@),
            )
            &&& machine.created == Some(path + ".aegis"@)
            &&& machine.output is Some
            &&& machine.removed
            &&& out.len() == 46 + machine.source.len() + 16 * ((machine.source.len() + 262143) / 262144)
            &&& out.subrange(0, 6) == seq![0x41u8, 0x45, 0x47, 0x49, 0x53, 0x32]
            &&& out.subrange(6, 22) == header.salt
            &&& out.subrange(22, 34) == header.nonce
            &&& out.subrange(34, 46) == seq![0u8, 1, 0, 0, 0, 0, 0, 3, 0, 0, 0, 4]
            &&& forall|i: int|
                0 <= i && i * 262144 < machine.source.len() ==> #[trigger] crate::stream::cut(
                    out.skip(46),
                    262160,
                    i,
                ) == crate::stream::sealed_segment(
                    crate::key::argon2id_hash(password, header.salt, 65536, 3, 4),
                    header.nonce.subrange(0, 7),
                    i as u32,
                    (i + 1) * 262144 >= machine.source.len(),
                    crate::stream::cut(machine.source, 262144, i),
                )
            &&& machine.trail.opened == Some(path)
            &&& machine.trail.sized == Some(path)
            &&& machine.trail.removed == Some(path)
            &&& machine.trail.passes.len() == 3
            &&& forall|j: int|
                #![trigger machine.trail.passes[j]]
                0 <= j < 3 ==> machine.trail.passes[j].path == path && machine.trail.passes[j].behind_flush
                    && machine.trail.passes[j].bytes == machine.source.len() && machine.trail.passes[j].flushed
            &&& machine.trail.reports.len() == 1 + (machine.source.len() + 262143) / 262144
            &&& machine.trail.reports[0] == Progress::KeyReady
            &&& forall|j: int|
                #![trigger machine.trail.reports[j]]
                1 <= j < machine.trail.reports.len() ==> machine.trail.reports[j] == (Progress::Streamed {
                    done: (if j * 262144 <= machine.source.len() {
                        j * 262144
                    } else {
                        machine.source.len() as int
                    }) as u64,
                    total: (if machine.source.len() == 0 {
                        1
                    } else {
                        machine.source.len() as int
                    }) as u64,
                })
        }),
{
    lemma_header_of(header, machine.output->Some_0);
}

/// An encryption comes to its end, and leaves a vault that holds the source,
/// however little each read gives:
/// once it has had six actions for each byte of the source, and twenty-three
/// more, it has written exactly the vault that the source becomes under the
/// password and the header, removed the source, and succeeded.
pub proof fn encryption_makes_the_vault(
    path: Seq<char>,
    password: Seq<u8>,
    header: HeaderModel,
    machine: Machine,
    n: nat,
)
    requires
        machine == Machine::fresh(machine.source, machine.stride, machine.complaint),
        machine.stride > 0,
        can_encrypt(password, header, machine.source),
        EncryptRun::start(path, password, header, machine).sound(n),
        n >= 6 * machine.source.len() + 23,
    ensures
        ({
            let end = EncryptRun::start(path, password, header, machine).after(n);
            &&& end.machine.source == machine.source
            &&& end.header == header
            &&& end.fulfils(path, password)
        }),
{
    let run = EncryptRun::start(path, password, header, machine);
    assert(crate::stream::plain_of(run.task.run) + run.task.pending =~= machine.source.take(0));
    lemma_encrypt_run(run, n);
}

// ----- both -----

/// Decrypting what was encrypted gives it back: a decryption that is run to its
/// end on the vault that an encryption has left, under the same password,
/// succeeds, and what it has written, where the path of the vault puts it, is
/// the source of the encryption; the vault is kept. Where the vault stands at
/// the source's path with `.aegis` behind, this place is the source's path
/// (`decrypted_path`).
pub proof fn what_was_encrypted_comes_back(
    path: Seq<char>,
    password: Seq<u8>,
    header: HeaderModel,
    sealing: Machine,
    n: nat,
    vault_path: Seq<char>,
    opening: Machine,
    k: nat,
)
    requires
        sealing == Machine::fresh(sealing.source, sealing.stride, sealing.complaint),
        sealing.stride > 0,
        can_encrypt(password, header, sealing.source),
        EncryptRun::start(path, password, header, sealing).sound(n),
        n >= 6 * sealing.source.len() + 23,
        opening == Machine::fresh(opening.source, opening.stride, opening.complaint),
        EncryptRun::start(path, password, header, sealing).after(n).machine.output == Some(
            opening.source,
        ),
        opening.source.len() <= u64::MAX,
        DecryptRun::start(vault_path, password, opening).sound(k),
        k >= 3 * opening.source.len() + 11,
    ensures
        ({
            let end = DecryptRun::start(vault_path, password, opening).after(k);
            &&& end.action == ActionModel::Finish(
                Ok(
                    "Decrypted → "@ + crate::paths::quoted_path(
                        crate::paths::restored(vault_path),
                    ),
                ),
            )
            &&& end.machine.created == Some(crate::paths::restored(vault_path))
            &&& end.machine.output == Some(sealing.source)
            &&& end.machine.source == opening.source
            &&& !end.machine.removed
        }),
{
    encryption_makes_the_vault(path, password, header, sealing, n);
    let payload = crate::stream::seal_from(
        crate::vault::vault_key(password, header)->Ok_0,
        header.stream_nonce(),
        0,
        sealing.source,
        BUFFER_SIZE as nat,
    );
    crate::header::header_reads_back(header, payload);
    assert(opening.source == header.encoded() + payload);
    decryption_reads_the_vault(vault_path, password, opening, k);
}

// ----- in memory -----

/// Decrypts a vault in memory.
pub fn decrypt_in_memory(password: Vec<u8>, path: String, file: Vec<u8>) -> (r: Outcome)
    requires
        costs_derivable(file@),
    ensures
        r.memory@.source == file@,
        decrypted(path@, password@, result_text(r.result), r.memory@),
        forall|source: Seq<char>|
            crate::paths::leads_back(source) && path@ == #[trigger] (source + ".aegis"@)
                ==> crate::paths::restored(path@) == source,
        forall|n: nat|
            #[trigger] DecryptRun::start(
                path@,
                password@,
                Machine::fresh(file@, usize::MAX as nat, "early eof"@),
            ).sound(n),
        exists|n: nat|
            ({
                let end = #[trigger] DecryptRun::start(
                    path@,
                    password@,
                    Machine::fresh(file@, usize::MAX as nat, "early eof"@),
                ).after(n);
                &&& end.action == ActionModel::Finish(result_text(r.result))
                &&& end.machine == r.memory@
            }),
{
    // What is known of the place of the restored file comes from this call.
    let _ = decrypted_path(path.as_str());
    let mut memory = Memory::new(file);
    let ghost start = DecryptRun::start(path@, password@, memory@);
    let ghost mut n: nat = 0;
    let (mut task, mut action) = DecryptTask::new(password, path).next(Event::Done);
    proof {
        task.inv_gives_wf();
        assert(start.task.input =~= file@.take(0));
        assert(memory@.source.len() == memory.source.len());
    }
    loop
        invariant
            start == DecryptRun::start(path@, password@, Machine::fresh(file@, usize::MAX as nat, "early eof"@)),
            forall|source: Seq<char>|
                crate::paths::leads_back(source) && path@ == #[trigger] (source + ".aegis"@)
                    ==> crate::paths::restored(path@) == source,
            task.inv(),
            memory@.source == file@,
            costs_derivable(file@),
            start.after(n) == (DecryptRun { task: task@, action: action@, machine: memory@ }),
            start.sound(n),
            start.after(n).asks(),
            task@.path == path@,
            task@.password == password@,
            task@.stage is Finished ==> start.after(n).fulfils(path@, password@),
            !(task@.stage is Finished) ==> start.after(n).agrees(),
        decreases start.after(n).measure(),
    {
        match action {
            Action::Finish(result) => {
                proof {
                    assert forall|k: nat| #[trigger] start.sound(k) by {
                        lemma_decrypt_ended(start, n, k);
                    }
                }
                return Outcome { result, memory };
            },
            asked => {
                let ghost run = start.after(n);
                proof {
                    task.inv_gives_wf();
                    lemma_decrypt_expects(run);
                }
                let event = memory.serve(asked);
                let (next, next_action) = task.next(event);
                task = next;
                action = next_action;
                proof {
                    task.inv_gives_wf();
                    lemma_decrypt_next(run);
                    lemma_decrypt_after(start, n);
                    lemma_decrypt_sound(start, n);
                    n = n + 1;
                }
            },
        }
    }
}

/// Encrypts a file in memory, under a header with the given salt and nonce;
/// `None` if the password or the file is too long.
pub fn encrypt_in_memory(
    password: Vec<u8>,
    path: String,
    salt: [u8; 16],
    nonce: [u8; 12],
    source: Vec<u8>,
) -> (r: Option<Outcome>)
    ensures
        r is Some <==> can_encrypt(password@, new_header(salt@, nonce@), source@),
        r matches Some(end) ==> {
            &&& end.memory@.source == source@
            &&& encrypted(
                path@,
                password@,
                new_header(salt@, nonce@),
                result_text(end.result),
                end.memory@,
            )
            &&& forall|n: nat|
                #[trigger] EncryptRun::start(
                    path@,
                    password@,
                    new_header(salt@, nonce@),
                    Machine::fresh(source@, usize::MAX as nat, "early eof"@),
                ).sound(n)
        },
        r is Some <==> password@.len() <= 0xFFFF_FFFF && source@.len() <= 0x4_0000_0000_0000,
{
    let ghost header = new_header(salt@, nonce@);
    if password.len() as u64 > 0xFFFF_FFFF || source.len() as u64 > 0x1_0000_0000
        * BUFFER_SIZE as u64 {
        return None;
    }
    let mut memory = Memory::new(source);
    let ghost start = EncryptRun::start(path@, password@, header, memory@);
    let ghost mut n: nat = 0;
    let (mut task, mut action) = EncryptTask::new(password, path).next(Event::Done);
    proof {
        task.inv_gives_wf();
        assert(crate::stream::plain_of(start.task.run) + start.task.pending =~= source@.take(0));
    }
    loop
        invariant
            start == EncryptRun::start(
                path@,
                password@,
                header,
                Machine::fresh(source@, usize::MAX as nat, "early eof"@),
            ),
            task.inv(),
            memory@.source == source@,
            header == new_header(salt@, nonce@),
            can_encrypt(password@, header, source@),
            start.after(n) == (EncryptRun {
                task: task@,
                action: action@,
                header,
                machine: memory@,
            }),
            start.sound(n),
            start.after(n).asks(),
            task@.path == path@,
            task@.password == password@,
            task@.stage is Finished ==> start.after(n).fulfils(path@, password@),
            !(task@.stage is Finished) ==> start.after(n).agrees(),
        decreases start.after(n).measure(),
    {
        match action {
            Action::Finish(result) => {
                proof {
                    assert forall|k: nat| #[trigger] start.sound(k) by {
                        lemma_encrypt_ended(start, n, k);
                    }
                }
                return Some(Outcome { result, memory });
            },
            asked => {
                let ghost run = start.after(n);
                proof {
                    task.inv_gives_wf();
                    lemma_encrypt_expects(run);
                }
                let creating = matches!(asked, Action::CreateOutput(_));
                let event = memory.serve(asked);
                let (next, next_action) = if creating {
                    task.start_vault(Header::new(salt, nonce))
                } else {
                    task.next(event)
                };
                task = next;
                action = next_action;
                proof {
                    task.inv_gives_wf();
                    lemma_encrypt_next(run);
                    lemma_encrypt_after(start, n);
                    lemma_encrypt_sound(start, n);
                    n = n + 1;
                }
            },
        }
    }
}

/// Encrypts a file in memory and decrypts the vault again: what decrypting
/// will give back, which is the file, at its own path wherever this path names
/// a file. `None` if the password or the file is too long.
pub fn rehearse(
    password: Vec<u8>,
    path: String,
    salt: [u8; 16],
    nonce: [u8; 12],
    source: Vec<u8>,
) -> (r: Option<Outcome>)
    ensures
        r is Some <==> can_encrypt(password@, new_header(salt@, nonce@), source@),
        r matches Some(end) ==> {
            let place = crate::paths::restored(path@ + ".aegis"@);
            &&& result_text(end.result) == Ok::<Seq<char>, Seq<char>>(
                "Decrypted → "@ + crate::paths::quoted_path(place),
            )
            &&& end.memory@.created == Some(place)
            &&& end.memory@.output == Some(source@)
            &&& end.memory@.source == crate::vault::vault_image(
                password@,
                new_header(salt@, nonce@),
                source@,
            )
            &&& !end.memory@.removed
            &&& crate::paths::leads_back(path@) ==> place == path@
        },
{
    let again = vstd::slice::slice_to_vec(password.as_slice());
    let vault_path = vault_path(path.as_str());
    let ghost header = new_header(salt@, nonce@);
    match encrypt_in_memory(password, path, salt, nonce, source) {
        None => None,
        Some(sealed) => match sealed.memory.output {
            // An encryption that has ended has written its vault.
            None => None,
            Some(vault) => {
                proof {
                    let payload = crate::stream::seal_from(
                        crate::vault::vault_key(password@, header)->Ok_0,
                        header.stream_nonce(),
                        0,
                        source@,
                        BUFFER_SIZE as nat,
                    );
                    crate::header::header_reads_back(header, payload);
                }
                Some(decrypt_in_memory(again, vault_path, vault))
            },
        },
    }
}

} // verus!
