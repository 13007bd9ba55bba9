//! Whole runs of a classic encryption and of a classic decryption, from the
//! first action to the result.

use crate::classic_decrypt::{ClassicDecryptModel, ClassicDecryptStage, ClassicDecryptTask};
use crate::classic_encrypt::{ClassicEncryptModel, ClassicEncryptStage, ClassicEncryptTask};
use crate::header::{ClassicHeader, ClassicHeaderModel, CLASSIC_HEADER_SIZE};
use crate::key::PBKDF2_ITERATIONS;
use crate::machine::{Machine, Memory, Outcome, Trail};
use crate::paths::{decrypted_path, vault_path};
use crate::task::{result_text, Action, ActionModel, Event, EventModel, CLASSIC_BUFFER_SIZE};
use vstd::prelude::*;

verus! {

// ----- decryption -----

/// A classic decryption on a machine: what it waits for, and the machine.
pub struct ClassicDecryptRun {
    pub task: ClassicDecryptModel,
    pub action: ActionModel,
    pub machine: Machine,
}

impl ClassicDecryptRun {
    /// The run as it starts.
    pub open spec fn start(
        path: Seq<char>,
        password: Seq<u8>,
        machine: Machine,
    ) -> ClassicDecryptRun {
        let (task, action) = ClassicDecryptModel::fresh(path, password).step(EventModel::Done);
        ClassicDecryptRun { task, action, machine }
    }

    /// The run after one more action.
    pub open spec fn next(self) -> ClassicDecryptRun {
        let (machine, e) = self.machine.serve(self.action);
        let (task, action) = self.task.step(e);
        ClassicDecryptRun { task, action, machine }
    }

    /// The run after `n` more actions; it stays as it is once it has ended.
    pub open spec fn after(self, n: nat) -> ClassicDecryptRun
        decreases n,
    {
        if n == 0 || self.action is Finish {
            self
        } else {
            self.next().after((n - 1) as nat)
        }
    }

    /// The next `n` states are well formed, as the states of a task are
    /// (`inv_gives_wf`).
    pub open spec fn sound(self, n: nat) -> bool
        decreases n,
    {
        &&& self.task.wf()
        &&& n > 0 && !(self.action is Finish) ==> self.next().sound((n - 1) as nat)
    }

    /// The task's action is the one that its stage stands for.
    pub open spec fn asks(self) -> bool {
        match self.task.stage {
            ClassicDecryptStage::Start => false,
            ClassicDecryptStage::Opening => {
                self.action == ActionModel::OpenSource(self.task.path)
            },
            ClassicDecryptStage::Measuring => self.action is ReadMetadata,
            ClassicDecryptStage::Heading => {
                self.action == ActionModel::ReadExact(CLASSIC_HEADER_SIZE as usize)
            },
            ClassicDecryptStage::Creating => {
                self.action == ActionModel::CreateOutput(crate::paths::restored(self.task.path))
            },
            ClassicDecryptStage::Reading => {
                self.action == ActionModel::ReadExact(self.task.stream().next_len() as usize)
            },
            ClassicDecryptStage::Storing => {
                self.action == ActionModel::WriteOutput(self.task.run.last().plain)
            },
            ClassicDecryptStage::Finished => self.action is Finish,
        }
    }

    /// The machine has given and taken what the task has.
    pub open spec fn agrees(self) -> bool {
        &&& self.machine.source.len() <= u64::MAX
        &&& self.machine.at == self.task.input.len() <= self.machine.source.len()
        &&& self.task.input == self.machine.source.take(self.machine.at as int)
        &&& self.task.stage is Opening || self.task.stage is Measuring || self.task.size
            == self.machine.source.len()
        &&& match self.task.stage {
            ClassicDecryptStage::Reading | ClassicDecryptStage::Storing => {
                &&& self.machine.created == Some(crate::paths::restored(self.task.path))
                &&& self.machine.output == Some(self.task.written)
            },
            ClassicDecryptStage::Creating => true,
            _ => self.machine.created is None && self.machine.output is None,
        }
        &&& !self.machine.removed
        &&& self.task.stage is Opening || self.machine.trail.opened == Some(self.task.path)
        &&& only_opens(self.machine.trail)
    }

    /// Actions that are still to come, at most.
    pub open spec fn measure(self) -> int {
        2 * (self.machine.source.len() - self.machine.at) + match self.task.stage {
            ClassicDecryptStage::Start => 7int,
            ClassicDecryptStage::Opening => 6,
            ClassicDecryptStage::Measuring => 5,
            ClassicDecryptStage::Heading => 4,
            ClassicDecryptStage::Creating => 3,
            ClassicDecryptStage::Reading => 1,
            ClassicDecryptStage::Storing => 2,
            ClassicDecryptStage::Finished => 0,
        }
    }

    /// The run has ended as it is to end.
    pub open spec fn fulfils(self, path: Seq<char>, password: Seq<u8>) -> bool {
        self.action matches ActionModel::Finish(r) && classic_decrypted(
            path,
            password,
            r,
            self.machine,
        )
    }
}

/// What a classic decryption is to come to: what the password reads out of the
/// file, where the vault's path puts it, or an error if it reads nothing. The
/// vault is kept.
pub open spec fn classic_decrypted(
    path: Seq<char>,
    password: Seq<u8>,
    result: Result<Seq<char>, Seq<char>>,
    machine: Machine,
) -> bool {
    &&& !machine.removed
    &&& match crate::vault::classic_contents(password, machine.source) {
        Some(plain) => {
            &&& result == Ok::<Seq<char>, Seq<char>>(
                "Decrypted file saved at: "@ + crate::paths::quoted_path(
                    crate::paths::restored(path),
                ),
            )
            &&& machine.created == Some(crate::paths::restored(path))
            &&& machine.output == Some(plain)
        },
        None => result is Err,
    }
    &&& machine.trail.opened == Some(path)
    &&& only_opens(machine.trail)
    &&& match result {
        Ok(_) => classic_read_well(password, machine.source, machine.output->Some_0),
        Err(text) => {
            ||| machine.source.len() < 27 && text == machine.complaint && machine.created is None
                && machine.output is None
            ||| machine.source.len() >= 27 && machine.created == Some(crate::paths::restored(path))
                && machine.output is Some && classic_refused_by_segment(
                password,
                machine.source,
                machine.output->Some_0,
                text,
            )
        },
    }
}

/// A classic task overwrites and removes nothing, and reports nothing.
pub open spec fn only_opens(t: Trail) -> bool {
    &&& t.reports.len() == 0 && t.passes.len() == 0
    &&& t.sized is None && t.removed is None
}

/// What the piece at index `i` of a file's payload opens to under the password.
pub open spec fn classic_piece_opened(password: Seq<u8>, file: Seq<u8>, i: int) -> Option<Seq<u8>> {
    crate::stream::opened_segment(
        crate::key::pbkdf2_sha256(
            password,
            file.subrange(0, 16),
            crate::bytes::word_at(file, 23),
        ),
        file.subrange(16, 23),
        i as u32,
        (i + 1) * 65552 >= file.len() - 27,
        crate::stream::cut(file.skip(27), 65552, i),
    )
}

/// Every piece of a file's payload opens, and to the pieces of `plain`.
pub open spec fn classic_read_well(password: Seq<u8>, file: Seq<u8>, plain: Seq<u8>) -> bool {
    &&& file.len() >= 27
    &&& plain.len() == file.len() - 27 - 16 * ((file.len() - 27 + 65551) / 65552)
    &&& forall|i: int|
        0 <= i && i * 65552 < file.len() - 27 ==> #[trigger] classic_piece_opened(
            password,
            file,
            i,
        ) == Some(crate::stream::cut(plain, 65536, i))
}

/// The first piece of a file's payload that does not open is the one at index
/// `i`; what stands before it has been restored.
pub open spec fn classic_refused_at(
    password: Seq<u8>,
    file: Seq<u8>,
    output: Seq<u8>,
    text: Seq<char>,
    i: int,
) -> bool {
    &&& 0 <= i && i * 65552 < file.len() - 27
    &&& classic_piece_opened(password, file, i) is None || i >= 0xFFFF_FFFF && (i + 1) * 65552
        < file.len() - 27
    &&& text == if (i + 1) * 65552 >= file.len() - 27 {
        "Wrong password or corrupted file."@
    } else {
        "Decryption Processing Failed"@
    }
    &&& output.len() == i * 65536
    &&& forall|j: int|
        0 <= j < i ==> #[trigger] classic_piece_opened(password, file, j) == Some(
            crate::stream::cut(output, 65536, j),
        )
}

/// A file is refused because a piece of its payload does not open.
pub open spec fn classic_refused_by_segment(
    password: Seq<u8>,
    file: Seq<u8>,
    output: Seq<u8>,
    text: Seq<char>,
) -> bool {
    exists|i: int| classic_refused_at(password, file, output, text, i)
}

/// The fields of the header that a classic decryption has read are those of the
/// file.
proof fn lemma_classic_file_fields(m: ClassicDecryptModel, file: Seq<u8>)
    requires
        m.headed(),
        m.input.len() <= file.len(),
        m.input == file.take(m.input.len() as int),
    ensures
        file.len() >= 27,
        file.subrange(0, 16) == m.header.salt,
        file.subrange(16, 23) == m.header.nonce,
        crate::bytes::word_at(file, 23) == m.header.iterations,
        file.skip(27).take(crate::stream::sealed_of(m.run).len() as int)
            == crate::stream::sealed_of(m.run),
{
    let b = m.header.encoded();
    crate::classic_decrypt::lemma_classic_headed(m, file);
    crate::header::layout_of_a_classic_header(m.header);
    assert(file.take(27) =~= m.input.take(27));
    assert(m.input.take(27) =~= b);
    assert(file.subrange(0, 16) =~= b.subrange(0, 16));
    assert(file.subrange(16, 23) =~= b.subrange(16, 23));
    assert(forall|i: int| 0 <= i < 27 ==> file[i] == #[trigger] file.take(27)[i]);
    assert(file[23] == b[23] && file[24] == b[24] && file[25] == b[25] && file[26] == b[26]);
}

/// The segments that a classic decryption has opened are the first pieces of
/// the file's payload.
proof fn lemma_classic_pieces_read(m: ClassicDecryptModel, file: Seq<u8>)
    requires
        m.opened_well(),
        m.stream().remaining > 0,
        m.input.len() <= file.len() == m.size,
        m.input == file.take(m.input.len() as int),
    ensures
        crate::stream::sealed_of(m.run).len() == m.run.len() * 65552,
        crate::stream::plain_of(m.run).len() == m.run.len() * 65536,
        forall|j: int|
            0 <= j < m.run.len() ==> #[trigger] classic_piece_opened(m.password, file, j) == Some(
                crate::stream::cut(crate::stream::plain_of(m.run), 65536, j),
            ),
{
    let (key, nonce) = (crate::vault::classic_key(m.password, m.header), m.header.nonce);
    let payload = file.skip(27);
    lemma_classic_file_fields(m, file);
    assert forall|i: int| #![trigger m.run[i]] 0 <= i < m.run.len() implies m.run[i].plain.len()
        == 65536 && !m.run[i].last by {
        crate::stream::segments_are_counted(key, nonce, m.run, i);
        if m.run[i].last {
            assert(m.run[i] == m.run.last());
        }
    }
    crate::stream::lemma_full_lengths(key, nonce, m.run, 65536);
    assert forall|j: int| 0 <= j < m.run.len() implies #[trigger] classic_piece_opened(
        m.password,
        file,
        j,
    ) == Some(crate::stream::cut(crate::stream::plain_of(m.run), 65536, j)) by {
        assert(m.run.last() == m.run[m.run.len() - 1]);
        crate::stream::segments_stand_in_order(key, nonce, m.run, 65536, j);
        crate::stream::segments_are_counted(key, nonce, m.run, j);
        assert(crate::stream::cut(payload, 65552, j) =~= crate::stream::cut(
            payload.take(crate::stream::sealed_of(m.run).len() as int),
            65552,
            j,
        ));
    }
}

/// A classic decryption that meets a piece that does not open ends with what is
/// to be said of it.
proof fn lemma_classic_refused_at(run: ClassicDecryptRun)
    requires
        run.task.wf(),
        run.asks(),
        run.agrees(),
        run.task.stage is Reading,
        run.next().task.stage is Finished,
    ensures
        run.machine.source.len() >= 27,
        run.next().action matches ActionModel::Finish(Err(text)) && classic_refused_by_segment(
            run.task.password,
            run.machine.source,
            run.task.written,
            text,
        ),
{
    let m = run.task;
    let file = run.machine.source;
    let i = m.run.len() as int;
    let d = run.machine.serve(run.action).1->Data_0;
    lemma_classic_pieces_read(m, file);
    lemma_classic_file_fields(m, file);
    assert(d =~= crate::stream::cut(file.skip(27), 65552, i));
    assert(classic_refused_at(
        m.password,
        file,
        m.written,
        run.next().action->Finish_0->Err_0,
        i,
    ));
}

/// A classic decryption that has read its file to the end has opened every
/// piece.
proof fn lemma_classic_read_well(m: ClassicDecryptModel, file: Seq<u8>)
    requires
        m.wf(),
        m.stage is Creating && m.size == 27 || m.stage is Storing && m.stream().remaining == 0,
        m.input.len() <= file.len() == m.size,
        m.input == file.take(m.input.len() as int),
    ensures
        classic_read_well(m.password, file, crate::stream::plain_of(m.run)),
{
    let (key, nonce) = (crate::vault::classic_key(m.password, m.header), m.header.nonce);
    lemma_classic_file_fields(m, file);
    assert(m.run.len() > 0 ==> crate::stream::run_ended(m.run));
    assert(file.skip(27) =~= crate::stream::sealed_of(m.run));
    crate::vault::opening_of_a_classic_vault(key, nonce, m.run);
}

/// What a classic decryption comes to, in terms of the file alone. Behind its 27
/// bytes of header, the file is cut into pieces of 65552 bytes. If the piece at
/// every index `i` opens under counter `i`, with the last flag on the final
/// piece alone, what they open to is restored in order. Else what the pieces
/// before the first one that does not open hold is restored, and the message
/// says whether that is the final piece. A shorter file is refused, and nothing
/// is created.
pub proof fn what_a_classic_decryption_comes_to(
    path: Seq<char>,
    password: Seq<u8>,
    result: Result<Seq<char>, Seq<char>>,
    machine: Machine,
)
    requires
        classic_decrypted(path, password, result, machine),
    ensures
        ({
            let file = machine.source;
            let key = crate::key::pbkdf2_sha256(
                password,
                file.subrange(0, 16),
                crate::bytes::word_at(file, 23),
            );
            &&& result matches Ok(text) ==> {
                &&& file.len() >= 27
                &&& text == "Decrypted file saved at: "@ + crate::paths::quoted_path(
                    crate::paths::restored(path),
                )
                &&& machine.created == Some(crate::paths::restored(path))
                &&& machine.output is Some
                &&& machine.output->Some_0.len() == file.len() - 27 - 16 * ((file.len() - 27
                    + 65551) / 65552)
                &&& forall|i: int|
                    0 <= i && i * 65552 < file.len() - 27 ==> crate::stream::opened_segment(
                        key,
                        file.subrange(16, 23),
                        i as u32,
                        (i + 1) * 65552 >= file.len() - 27,
                        #[trigger] crate::stream::cut(file.skip(27), 65552, i),
                    ) == Some(crate::stream::cut(machine.output->Some_0, 65536, i))
            }
            &&& file.len() < 27 ==> {
                &&& machine.created is None && machine.output is None
                &&& result == Err::<Seq<char>, Seq<char>>(machine.complaint)
            }
            &&& file.len() >= 27 ==> (result matches Err(text) ==> exists|i: int|
                {
                    &&& 0 <= i && i * 65552 < file.len() - 27
                    &&& crate::stream::opened_segment(
                        key,
                        file.subrange(16, 23),
                        i as u32,
                        (i + 1) * 65552 >= file.len() - 27,
                        #[trigger] crate::stream::cut(file.skip(27), 65552, i),
                    ) is None || i >= 0xFFFF_FFFF && (i + 1) * 65552 < file.len() - 27
                    &&& text == if (i + 1) * 65552 >= file.len() - 27 {
                        "Wrong password or corrupted file."@
                    } else {
                        "Decryption Processing Failed"@
                    }
                    &&& machine.created == Some(crate::paths::restored(path))
                    &&& machine.output is Some
                    &&& machine.output->Some_0.len() == i * 65536
                    &&& forall|j: int|
                        0 <= j < i ==> crate::stream::opened_segment(
                            key,
                            file.subrange(16, 23),
                            j as u32,
                            (j + 1) * 65552 >= file.len() - 27,
                            #[trigger] crate::stream::cut(file.skip(27), 65552, j),
                        ) == Some(crate::stream::cut(machine.output->Some_0, 65536, j))
                })
            &&& machine.trail.opened == Some(path)
            &&& machine.trail.removed is None && machine.trail.passes.len() == 0
            &&& !machine.removed
        }),
{
    let file = machine.source;
    let output = machine.output->Some_0;
    let key = crate::key::pbkdf2_sha256(
        password,
        file.subrange(0, 16),
        crate::bytes::word_at(file, 23),
    );
    match result {
        Ok(_) => {
            assert forall|i: int|
                0 <= i && i * 65552 < file.len() - 27 implies crate::stream::opened_segment(
                key,
                file.subrange(16, 23),
                i as u32,
                (i + 1) * 65552 >= file.len() - 27,
                #[trigger] crate::stream::cut(file.skip(27), 65552, i),
            ) == Some(crate::stream::cut(output, 65536, i)) by {
                assert(classic_piece_opened(password, file, i) == Some(
                    crate::stream::cut(output, 65536, i),
                ));
            }
        },
        Err(text) => {
            if file.len() >= 27 {
                let i = choose|i: int| classic_refused_at(password, file, output, text, i);
                let piece = crate::stream::cut(file.skip(27), 65552, i);
                assert forall|j: int| 0 <= j < i implies crate::stream::opened_segment(
                    key,
                    file.subrange(16, 23),
                    j as u32,
                    (j + 1) * 65552 >= file.len() - 27,
                    #[trigger] crate::stream::cut(file.skip(27), 65552, j),
                ) == Some(crate::stream::cut(output, 65536, j)) by {
                    assert(classic_piece_opened(password, file, j) == Some(
                        crate::stream::cut(output, 65536, j),
                    ));
                }
            }
        },
    }
}

/// What the machine does is what a classic decryption can expect.
proof fn lemma_classic_decrypt_expects(run: ClassicDecryptRun)
    requires
        run.task.wf(),
        run.asks(),
        run.agrees(),
        !(run.action is Finish),
    ensures
        run.task.expects(run.machine.serve(run.action).1),
{
}

/// One action of a classic decryption keeps the machine in step with the task
/// and brings the run nearer to its end.
#[verifier::rlimit(40)]
proof fn lemma_classic_decrypt_next(run: ClassicDecryptRun)
    requires
        run.task.wf(),
        run.next().task.wf(),
        run.asks(),
        run.agrees(),
        !(run.action is Finish),
    ensures
        run.next().machine.source == run.machine.source,
        run.next().task.path == run.task.path,
        run.next().task.password == run.task.password,
        run.next().asks(),
        run.next().task.stage is Finished ==> run.next().fulfils(run.task.path, run.task.password),
        !(run.next().task.stage is Finished) ==> run.next().agrees(),
        0 <= run.next().measure() < run.measure(),
{
    let (_, e) = run.machine.serve(run.action);
    if !(e is Failed) {
        crate::classic_decrypt::classic_decryption_gives_the_contents(
            run.task,
            e,
            run.machine.source,
        );
    }
    if run.task.stage is Creating {
        assert(run.task.written =~= Seq::empty());
        assert(crate::stream::plain_of(run.task.run) =~= Seq::empty());
    }
    if run.next().task.stage is Finished {
        if run.task.stage is Reading {
            lemma_classic_refused_at(run);
        } else if run.task.stage is Creating || run.task.stage is Storing {
            lemma_classic_read_well(run.task, run.machine.source);
        }
    }
}

/// The run after one action more than `n`.
proof fn lemma_classic_decrypt_after(run: ClassicDecryptRun, n: nat)
    requires
        !(run.after(n).action is Finish),
    ensures
        run.after(n + 1) == run.after(n).next(),
    decreases n,
{
    if n > 0 {
        lemma_classic_decrypt_after(run.next(), (n - 1) as nat);
    } else {
        assert(run.after(1) == run.next().after(0));
    }
}

/// A run whose next state is well formed is sound for one action more.
proof fn lemma_classic_decrypt_sound(run: ClassicDecryptRun, n: nat)
    requires
        run.sound(n),
        run.after(n).action is Finish || run.after(n).next().task.wf(),
    ensures
        run.sound(n + 1),
    decreases n,
{
    if !(run.action is Finish) {
        if n > 0 {
            lemma_classic_decrypt_sound(run.next(), (n - 1) as nat);
        } else {
            assert(run.next().sound(0));
        }
    }
}

/// A run that is sound up to its end is sound.
proof fn lemma_classic_decrypt_ended(run: ClassicDecryptRun, n: nat, k: nat)
    requires
        run.sound(n),
        run.after(n).action is Finish,
    ensures
        run.sound(k),
    decreases k,
{
    if k > 0 && !(run.action is Finish) {
        lemma_classic_decrypt_ended(run.next(), (n - 1) as nat, (k - 1) as nat);
    }
}

proof fn lemma_classic_decrypt_run(run: ClassicDecryptRun, n: nat)
    requires
        run.sound(n),
        run.asks(),
        run.task.stage is Finished ==> run.fulfils(run.task.path, run.task.password),
        !(run.task.stage is Finished) ==> run.agrees(),
        n >= run.measure(),
    ensures
        run.after(n).machine.source == run.machine.source,
        run.after(n).fulfils(run.task.path, run.task.password),
    decreases n,
{
    if n > 0 && !(run.action is Finish) {
        assert(run.next().sound((n - 1) as nat));
        lemma_classic_decrypt_next(run);
        lemma_classic_decrypt_run(run.next(), (n - 1) as nat);
    }
}

/// A classic decryption comes to its end, and gives what the vault holds: once
/// it has had two actions for each byte of the file, and six more, it has
/// written exactly what the password reads out of the file and succeeded, or
/// has ended with an error if the password reads nothing out of it.
pub proof fn classic_decryption_reads_the_vault(
    path: Seq<char>,
    password: Seq<u8>,
    machine: Machine,
    n: nat,
)
    requires
        machine == Machine::fresh(machine.source, machine.stride, machine.complaint),
        machine.source.len() <= u64::MAX,
        ClassicDecryptRun::start(path, password, machine).sound(n),
        n >= 2 * machine.source.len() + 6,
    ensures
        ClassicDecryptRun::start(path, password, machine).after(n).machine.source == machine.source,
        ClassicDecryptRun::start(path, password, machine).after(n).fulfils(path, password),
{
    let run = ClassicDecryptRun::start(path, password, machine);
    assert(run.task.input =~= machine.source.take(0));
    lemma_classic_decrypt_run(run, n);
}

// ----- encryption -----

/// A classic encryption on a machine: what it waits for, the header that its
/// vault gets, and the machine.
pub struct ClassicEncryptRun {
    pub task: ClassicEncryptModel,
    pub action: ActionModel,
    pub header: ClassicHeaderModel,
    pub machine: Machine,
}

impl ClassicEncryptRun {
    /// The run as it starts.
    pub open spec fn start(
        path: Seq<char>,
        password: Seq<u8>,
        header: ClassicHeaderModel,
        machine: Machine,
    ) -> ClassicEncryptRun {
        let (task, action) = ClassicEncryptModel::fresh(path, password).step(
            EventModel::Done,
            header,
        );
        ClassicEncryptRun { task, action, header, machine }
    }

    /// The run after one more action.
    pub open spec fn next(self) -> ClassicEncryptRun {
        let (machine, e) = self.machine.serve(self.action);
        let (task, action) = self.task.step(e, self.header);
        ClassicEncryptRun { task, action, machine, ..self }
    }

    /// The run after `n` more actions; it stays as it is once it has ended.
    pub open spec fn after(self, n: nat) -> ClassicEncryptRun
        decreases n,
    {
        if n == 0 || self.action is Finish {
            self
        } else {
            self.next().after((n - 1) as nat)
        }
    }

    /// The next `n` states are well formed, as the states of a task are
    /// (`inv_gives_wf`).
    pub open spec fn sound(self, n: nat) -> bool
        decreases n,
    {
        &&& self.task.wf()
        &&& n > 0 && !(self.action is Finish) ==> self.next().sound((n - 1) as nat)
    }

    /// The task's action is the one that its stage stands for.
    pub open spec fn asks(self) -> bool {
        match self.task.stage {
            ClassicEncryptStage::Start => false,
            ClassicEncryptStage::Opening => {
                self.action == ActionModel::OpenSource(self.task.path)
            },
            ClassicEncryptStage::Measuring => self.action is ReadMetadata,
            ClassicEncryptStage::Creating => {
                self.action == ActionModel::CreateOutput(self.task.path + ".aegis"@)
            },
            ClassicEncryptStage::Heading => {
                self.action == ActionModel::WriteOutput(self.header.encoded())
            },
            ClassicEncryptStage::Reading => {
                self.action == ActionModel::ReadSome(CLASSIC_BUFFER_SIZE)
            },
            ClassicEncryptStage::Storing => {
                self.action == ActionModel::WriteOutput(self.task.run.last().sealed)
            },
            ClassicEncryptStage::Finished => self.action is Finish,
        }
    }

    /// The machine has given and taken what the task has, and every segment
    /// but the last one is full.
    pub open spec fn agrees(self) -> bool {
        let (m, machine) = (self.task, self.machine);
        &&& machine.source.len() <= u64::MAX
        &&& machine.stride >= CLASSIC_BUFFER_SIZE
        &&& machine.at == crate::stream::plain_of(m.run).len() <= machine.source.len()
        &&& crate::stream::plain_of(m.run) == machine.source.take(machine.at as int)
        &&& !machine.removed
        &&& m.stage is Opening || machine.trail.opened == Some(m.path)
        &&& only_opens(machine.trail)
        &&& forall|i: int|
            #![trigger m.run[i]]
            0 <= i < m.run.len() && !m.run[i].last ==> m.run[i].plain.len() == CLASSIC_BUFFER_SIZE
        &&& match m.stage {
            ClassicEncryptStage::Start
            | ClassicEncryptStage::Opening
            | ClassicEncryptStage::Measuring => true,
            ClassicEncryptStage::Creating => m.size == machine.source.len(),
            _ => {
                &&& m.size == machine.source.len()
                &&& m.header == self.header
                &&& machine.created == Some(m.path + ".aegis"@)
                &&& machine.output == Some(m.written)
            },
        }
    }

    /// Actions that are still to come, at most.
    pub open spec fn measure(self) -> int {
        2 * (self.machine.source.len() - self.machine.at) + match self.task.stage {
            ClassicEncryptStage::Start => 7int,
            ClassicEncryptStage::Opening => 6,
            ClassicEncryptStage::Measuring => 5,
            ClassicEncryptStage::Creating => 4,
            ClassicEncryptStage::Heading => 3,
            ClassicEncryptStage::Reading => 1,
            ClassicEncryptStage::Storing => 2,
            ClassicEncryptStage::Finished => 0,
        }
    }

    /// The run has ended as it is to end.
    pub open spec fn fulfils(self, path: Seq<char>, password: Seq<u8>) -> bool {
        self.action matches ActionModel::Finish(r) && classic_encrypted(
            path,
            password,
            self.header,
            r,
            self.machine,
        )
    }
}

/// What a classic encryption is to come to: a classic vault beside the source
/// that holds it, and the source kept.
pub open spec fn classic_encrypted(
    path: Seq<char>,
    password: Seq<u8>,
    header: ClassicHeaderModel,
    result: Result<Seq<char>, Seq<char>>,
    machine: Machine,
) -> bool {
    &&& result == Ok::<Seq<char>, Seq<char>>(
        "Vault generated at: "@ + crate::paths::quoted_path(path + ".aegis"@),
    )
    &&& machine.created == Some(path + ".aegis"@)
    &&& machine.output == Some(crate::vault::classic_image(password, header, machine.source))
    &&& crate::vault::classic_contents(password, machine.output->Some_0) == Some(machine.source)
    &&& !machine.removed
    &&& machine.trail.opened == Some(path)
    &&& only_opens(machine.trail)
    &&& classic_laid_out(password, header, machine.source, machine.output->Some_0)
}

/// A classic vault file, byte for byte: the stored header, then the source in
/// pieces of 65536 bytes, each sealed under its index.
pub open spec fn classic_laid_out(
    password: Seq<u8>,
    header: ClassicHeaderModel,
    source: Seq<u8>,
    file: Seq<u8>,
) -> bool {
    &&& file.len() == 27 + source.len() + 16 * ((source.len() + 65535) / 65536)
    &&& file.take(27) == header.encoded()
    &&& forall|i: int|
        0 <= i && i * 65536 < source.len() ==> #[trigger] crate::stream::cut(
            file.skip(27),
            65552,
            i,
        ) == crate::stream::sealed_segment(
            crate::key::pbkdf2_sha256(password, header.salt, 350_000),
            header.nonce,
            i as u32,
            (i + 1) * 65536 >= source.len(),
            crate::stream::cut(source, 65536, i),
        )
}

/// What a classic encryption comes to, in terms of the source alone. The vault
/// is salt, nonce and iterations, and behind them the source in pieces of 65536
/// bytes, of which the one at index `i` is sealed under counter `i`, the final
/// one alone with the last flag, with PBKDF2 of the whole password as the key.
/// Nothing is overwritten or removed.
pub proof fn what_a_classic_encryption_comes_to(
    path: Seq<char>,
    password: Seq<u8>,
    header: ClassicHeaderModel,
    result: Result<Seq<char>, Seq<char>>,
    machine: Machine,
)
    requires
        header.wf(),
        header.iterations == PBKDF2_ITERATIONS,
        classic_encrypted(path, password, header, result, machine),
    ensures
        ({
            let out = machine.output->Some_0;
            &&& result == Ok::<Seq<char>, Seq<char>>(
                "Vault generated at: "@ + crate::paths::quoted_path(path + ".aegis"@),
            )
            &&& machine.created == Some(path + ".aegis"@)
            &&& machine.output is Some
            &&& out.len() == 27 + machine.source.len() + 16 * ((machine.source.len() + 65535)
                / 65536)
            &&& out.subrange(0, 16) == header.salt
            &&& out.subrange(16, 23) == header.nonce
            &&& out.subrange(23, 27) == seq![0x00u8, 0x05, 0x57, 0x30]
            &&& forall|i: int|
                0 <= i && i * 65536 < machine.source.len() ==> #[trigger] crate::stream::cut(
                    out.skip(27),
                    65552,
                    i,
                ) == crate::stream::sealed_segment(
                    crate::key::pbkdf2_sha256(password, header.salt, 350_000),
                    header.nonce,
                    i as u32,
                    (i + 1) * 65536 >= machine.source.len(),
                    crate::stream::cut(machine.source, 65536, i),
                )
            &&& machine.trail.opened == Some(path)
            &&& machine.trail.removed is None && machine.trail.passes.len() == 0
            &&& !machine.removed
        }),
{
    let out = machine.output->Some_0;
    crate::header::layout_of_a_classic_header(header);
    crate::header::iterations_of_a_new_classic_header(header);
    assert(out.subrange(0, 16) =~= out.take(27).subrange(0, 16));
    assert(out.subrange(16, 23) =~= out.take(27).subrange(16, 23));
    assert(out.subrange(23, 27) =~= out.take(27).subrange(23, 27));
}

/// The header of a new classic vault with the given salt and nonce.
pub open spec fn new_classic_header(salt: Seq<u8>, nonce: Seq<u8>) -> ClassicHeaderModel {
    ClassicHeaderModel { salt, nonce, iterations: PBKDF2_ITERATIONS }
}

/// What a classic encryption needs of its inputs: a source whose segments can
/// be counted, and the header of a new classic vault.
pub open spec fn can_encrypt_classic(header: ClassicHeaderModel, source: Seq<u8>) -> bool {
    &&& source.len() <= 0x1_0000_0000 * CLASSIC_BUFFER_SIZE
    &&& header.wf()
    &&& header.iterations == crate::key::PBKDF2_ITERATIONS
}

/// What the machine does is what a classic encryption can expect.
proof fn lemma_classic_encrypt_expects(run: ClassicEncryptRun)
    requires
        run.task.wf(),
        run.asks(),
        run.agrees(),
        !(run.action is Finish),
    ensures
        run.task.expects(run.machine.serve(run.action).1),
{
}

/// One action of a classic encryption keeps the machine in step with the task
/// and brings the run nearer to its end.
#[verifier::rlimit(40)]
proof fn lemma_classic_encrypt_next(run: ClassicEncryptRun)
    requires
        run.task.wf(),
        run.next().task.wf(),
        run.asks(),
        run.agrees(),
        !(run.action is Finish),
        can_encrypt_classic(run.header, run.machine.source),
    ensures
        run.next().machine.source == run.machine.source,
        run.next().header == run.header,
        run.next().task.path == run.task.path,
        run.next().task.password == run.task.password,
        run.next().asks(),
        run.next().task.stage is Finished ==> run.next().fulfils(run.task.path, run.task.password),
        !(run.next().task.stage is Finished) ==> run.next().agrees(),
        0 <= run.next().measure() < run.measure(),
{
    let m = run.task;
    let source = run.machine.source;
    let (machine, e) = run.machine.serve(run.action);
    let n = run.next();
    if m.stage is Reading {
        assert forall|i: int| #![trigger m.run[i]] 0 <= i < m.run.len() implies !m.run[i].last by {
            if m.run[i].last {
                assert(i == m.run.len() - 1);
            }
        }
        crate::round_trip::lemma_full_run(m.run, CLASSIC_BUFFER_SIZE as nat);
        if run.machine.left() > 0 {
            let s = n.task.run.last();
            crate::stream::lemma_push(m.run, s);
            assert(n.task.run == m.run.push(s));
            assert(crate::stream::plain_of(n.task.run) =~= source.take(machine.at as int));
            assert forall|i: int|
                #![trigger n.task.run[i]]
                0 <= i < n.task.run.len() && !n.task.run[i].last implies n.task.run[i].plain.len()
                == CLASSIC_BUFFER_SIZE by {
                if i < m.run.len() {
                    assert(n.task.run[i] == m.run[i]);
                }
            }
        }
    } else if m.stage is Creating {
        assert(n.task.written =~= Seq::empty());
    } else if m.stage is Heading {
        assert(m.written + run.header.encoded() =~= run.header.encoded());
    }
    if n.task.stage is Finished {
        assert(source.take(source.len() as int) =~= source);
        assert forall|i: int| #![trigger m.run[i]] 0 <= i < m.run.len() - 1 implies
            m.run[i].plain.len() == CLASSIC_BUFFER_SIZE by {
            if m.run[i].last {
                assert(i == m.run.len() - 1);
            }
        }
        crate::classic_encrypt::classic_success_leaves_a_vault(m, e, run.header);
        crate::header::layout_of_a_classic_header(m.header);
        let key = crate::vault::classic_key(m.password, m.header);
        crate::vault::segments_of_a_classic_vault(key, m.header.nonce, m.run);
        let out = n.task.written;
        assert(out.take(27) =~= m.header.encoded());
        assert(out.skip(27) =~= crate::stream::sealed_of(m.run));
        assert(classic_laid_out(m.password, run.header, source, out));
    }
}

/// The run after one action more than `n`.
proof fn lemma_classic_encrypt_after(run: ClassicEncryptRun, n: nat)
    requires
        !(run.after(n).action is Finish),
    ensures
        run.after(n + 1) == run.after(n).next(),
    decreases n,
{
    if n > 0 {
        lemma_classic_encrypt_after(run.next(), (n - 1) as nat);
    } else {
        assert(run.after(1) == run.next().after(0));
    }
}

/// A run whose next state is well formed is sound for one action more.
proof fn lemma_classic_encrypt_sound(run: ClassicEncryptRun, n: nat)
    requires
        run.sound(n),
        run.after(n).action is Finish || run.after(n).next().task.wf(),
    ensures
        run.sound(n + 1),
    decreases n,
{
    if !(run.action is Finish) {
        if n > 0 {
            lemma_classic_encrypt_sound(run.next(), (n - 1) as nat);
        } else {
            assert(run.next().sound(0));
        }
    }
}

/// A run that is sound up to its end is sound.
proof fn lemma_classic_encrypt_ended(run: ClassicEncryptRun, n: nat, k: nat)
    requires
        run.sound(n),
        run.after(n).action is Finish,
    ensures
        run.sound(k),
    decreases k,
{
    if k > 0 && !(run.action is Finish) {
        lemma_classic_encrypt_ended(run.next(), (n - 1) as nat, (k - 1) as nat);
    }
}

proof fn lemma_classic_encrypt_run(run: ClassicEncryptRun, n: nat)
    requires
        run.sound(n),
        run.asks(),
        run.task.stage is Finished ==> run.fulfils(run.task.path, run.task.password),
        !(run.task.stage is Finished) ==> run.agrees(),
        can_encrypt_classic(run.header, run.machine.source),
        n >= run.measure(),
    ensures
        run.after(n).machine.source == run.machine.source,
        run.after(n).header == run.header,
        run.after(n).fulfils(run.task.path, run.task.password),
    decreases n,
{
    if n > 0 && !(run.action is Finish) {
        assert(run.next().sound((n - 1) as nat));
        lemma_classic_encrypt_next(run);
        lemma_classic_encrypt_run(run.next(), (n - 1) as nat);
    }
}

/// Where every read fills the buffer, a classic encryption comes to its end, and
/// leaves a vault that holds the source: once it has had two actions for each byte of the source, and six
/// more, it has written exactly the vault that the source becomes under the
/// password and the header, and succeeded.
pub proof fn classic_encryption_makes_the_vault(
    path: Seq<char>,
    password: Seq<u8>,
    header: ClassicHeaderModel,
    machine: Machine,
    n: nat,
)
    requires
        machine == Machine::fresh(machine.source, machine.stride, machine.complaint),
        machine.stride >= CLASSIC_BUFFER_SIZE,
        can_encrypt_classic(header, machine.source),
        ClassicEncryptRun::start(path, password, header, machine).sound(n),
        n >= 2 * machine.source.len() + 6,
    ensures
        ({
            let end = ClassicEncryptRun::start(path, password, header, machine).after(n);
            &&& end.machine.source == machine.source
            &&& end.header == header
            &&& end.fulfils(path, password)
        }),
{
    let run = ClassicEncryptRun::start(path, password, header, machine);
    assert(crate::stream::plain_of(run.task.run) =~= machine.source.take(0));
    lemma_classic_encrypt_run(run, n);
}

// ----- both -----

/// Decrypting what was encrypted gives it back, where every read of the
/// encryption filled the buffer: a classic decryption that is
/// run to its end on the vault that a classic encryption has left, under the
/// same password, succeeds, and what it has written, where the path of the
/// vault puts it, is the source of the encryption; the vault is kept. Where the
/// vault stands at the source's path with `.aegis` behind, this place is the
/// source's path (`decrypted_path`).
pub proof fn what_was_encrypted_classically_comes_back(
    path: Seq<char>,
    password: Seq<u8>,
    header: ClassicHeaderModel,
    sealing: Machine,
    n: nat,
    vault_path: Seq<char>,
    opening: Machine,
    k: nat,
)
    requires
        sealing == Machine::fresh(sealing.source, sealing.stride, sealing.complaint),
        sealing.stride >= CLASSIC_BUFFER_SIZE,
        can_encrypt_classic(header, sealing.source),
        ClassicEncryptRun::start(path, password, header, sealing).sound(n),
        n >= 2 * sealing.source.len() + 6,
        opening == Machine::fresh(opening.source, opening.stride, opening.complaint),
        ClassicEncryptRun::start(path, password, header, sealing).after(n).machine.output == Some(
            opening.source,
        ),
        opening.source.len() <= u64::MAX,
        ClassicDecryptRun::start(vault_path, password, opening).sound(k),
        k >= 2 * opening.source.len() + 6,
    ensures
        ({
            let end = ClassicDecryptRun::start(vault_path, password, opening).after(k);
            &&& end.action == ActionModel::Finish(
                Ok(
                    "Decrypted file saved at: "@ + crate::paths::quoted_path(
                        crate::paths::restored(vault_path),
                    ),
                ),
            )
            &&& end.machine.created == Some(crate::paths::restored(vault_path))
            &&& end.machine.output == Some(sealing.source)
            &&& end.machine.source == opening.source
            &&& !end.machine.removed
        }),
{
    classic_encryption_makes_the_vault(path, password, header, sealing, n);
    classic_decryption_reads_the_vault(vault_path, password, opening, k);
}

// ----- in memory -----

/// Decrypts a classic vault in memory.
pub fn classic_decrypt_in_memory(password: Vec<u8>, path: String, file: Vec<u8>) -> (r: Outcome)
    ensures
        r.memory@.source == file@,
        classic_decrypted(path@, password@, result_text(r.result), r.memory@),
        forall|source: Seq<char>|
            crate::paths::leads_back(source) && path@ == #[trigger] (source + ".aegis"@)
                ==> crate::paths::restored(path@) == source,
        forall|n: nat|
            #[trigger] ClassicDecryptRun::start(
                path@,
                password@,
                Machine::fresh(file@, usize::MAX as nat, "early eof"@),
            ).sound(n),
        exists|n: nat|
            ({
                let end = #[trigger] ClassicDecryptRun::start(
                    path@,
                    password@,
                    Machine::fresh(file@, usize::MAX as nat, "early eof"@),
                ).after(n);
                &&& end.action == ActionModel::Finish(result_text(r.result))
                &&& end.machine == r.memory@
            }),
{
    // What is known of the place of the restored file comes from this call.
    let _ = decrypted_path(path.as_str());
    let mut memory = Memory::new(file);
    let ghost start = ClassicDecryptRun::start(path@, password@, memory@);
    let ghost mut n: nat = 0;
    let (mut task, mut action) = ClassicDecryptTask::new(password, path).next(Event::Done);
    proof {
        task.inv_gives_wf();
        assert(start.task.input =~= file@.take(0));
        assert(memory@.source.len() == memory.source.len());
    }
    loop
        invariant
            start == ClassicDecryptRun::start(path@, password@, Machine::fresh(file@, usize::MAX as nat, "early eof"@)),
            forall|source: Seq<char>|
                crate::paths::leads_back(source) && path@ == #[trigger] (source + ".aegis"@)
                    ==> crate::paths::restored(path@) == source,
            task.inv(),
            memory@.source == file@,
            start.after(n) == (ClassicDecryptRun { task: task@, action: action@, machine: memory@ }),
            start.sound(n),
            start.after(n).asks(),
            task@.path == path@,
            task@.password == password@,
            task@.stage is Finished ==> start.after(n).fulfils(path@, password@),
            !(task@.stage is Finished) ==> start.after(n).agrees(),
        decreases start.after(n).measure(),
    {
        match action {
            Action::Finish(result) => {
                proof {
                    assert forall|k: nat| #[trigger] start.sound(k) by {
                        lemma_classic_decrypt_ended(start, n, k);
                    }
                }
                return Outcome { result, memory };
            },
            asked => {
                let ghost run = start.after(n);
                proof {
                    task.inv_gives_wf();
                    lemma_classic_decrypt_expects(run);
                }
                let event = memory.serve(asked);
                let (next, next_action) = task.next(event);
                task = next;
                action = next_action;
                proof {
                    task.inv_gives_wf();
                    lemma_classic_decrypt_next(run);
                    lemma_classic_decrypt_after(start, n);
                    lemma_classic_decrypt_sound(start, n);
                    n = n + 1;
                }
            },
        }
    }
}

/// Encrypts a file into a classic vault in memory, under a header with the given
/// salt and nonce; `None` if the file is too long.
pub fn classic_encrypt_in_memory(
    password: Vec<u8>,
    path: String,
    salt: [u8; 16],
    nonce: [u8; 7],
    source: Vec<u8>,
) -> (r: Option<Outcome>)
    ensures
        r is Some <==> can_encrypt_classic(new_classic_header(salt@, nonce@), source@),
        r matches Some(end) ==> {
            &&& end.memory@.source == source@
            &&& classic_encrypted(
                path@,
                password@,
                new_classic_header(salt@, nonce@),
                result_text(end.result),
                end.memory@,
            )
            &&& forall|n: nat|
                #[trigger] ClassicEncryptRun::start(
                    path@,
                    password@,
                    new_classic_header(salt@, nonce@),
                    Machine::fresh(source@, usize::MAX as nat, "early eof"@),
                ).sound(n)
        },
        r is Some <==> source@.len() <= 0x1_0000_0000_0000,
{
    let ghost header = new_classic_header(salt@, nonce@);
    if source.len() as u64 > 0x1_0000_0000 * CLASSIC_BUFFER_SIZE as u64 {
        return None;
    }
    let mut memory = Memory::new(source);
    let ghost start = ClassicEncryptRun::start(path@, password@, header, memory@);
    let ghost mut n: nat = 0;
    let (mut task, mut action) = ClassicEncryptTask::new(password, path).next(Event::Done);
    proof {
        task.inv_gives_wf();
        assert(crate::stream::plain_of(start.task.run) =~= source@.take(0));
    }
    loop
        invariant
            start == ClassicEncryptRun::start(
                path@,
                password@,
                header,
                Machine::fresh(source@, usize::MAX as nat, "early eof"@),
            ),
            task.inv(),
            memory@.source == source@,
            header == new_classic_header(salt@, nonce@),
            can_encrypt_classic(header, source@),
            start.after(n) == (ClassicEncryptRun {
                task: task@,
                action: action@,
                header,
                machine: memory@,
            }),
            start.sound(n),
            start.after(n).asks(),
            task@.path == path@,
            task@.password == password@,
            task@.stage is Finished ==> start.after(n).fulfils(path@, password@),
            !(task@.stage is Finished) ==> start.after(n).agrees(),
        decreases start.after(n).measure(),
    {
        match action {
            Action::Finish(result) => {
                proof {
                    assert forall|k: nat| #[trigger] start.sound(k) by {
                        lemma_classic_encrypt_ended(start, n, k);
                    }
                }
                return Some(Outcome { result, memory });
            },
            asked => {
                let ghost run = start.after(n);
                proof {
                    task.inv_gives_wf();
                    lemma_classic_encrypt_expects(run);
                }
                let creating = matches!(asked, Action::CreateOutput(_));
                let event = memory.serve(asked);
                let (next, next_action) = if creating {
                    task.start_vault(ClassicHeader::new(salt, nonce))
                } else {
                    task.next(event)
                };
                task = next;
                action = next_action;
                proof {
                    task.inv_gives_wf();
                    lemma_classic_encrypt_next(run);
                    lemma_classic_encrypt_after(start, n);
                    lemma_classic_encrypt_sound(start, n);
                    n = n + 1;
                }
            },
        }
    }
}

/// Encrypts a file into a classic vault in memory and decrypts it again: what
/// decrypting will give back, which is the file, at its own path wherever this
/// path names a file. `None` if the file is too long.
pub fn rehearse_classic(
    password: Vec<u8>,
    path: String,
    salt: [u8; 16],
    nonce: [u8; 7],
    source: Vec<u8>,
) -> (r: Option<Outcome>)
    ensures
        r is Some <==> can_encrypt_classic(new_classic_header(salt@, nonce@), source@),
        r matches Some(end) ==> {
            let place = crate::paths::restored(path@ + ".aegis"@);
            &&& result_text(end.result) == Ok::<Seq<char>, Seq<char>>(
                "Decrypted file saved at: "@ + crate::paths::quoted_path(place),
            )
            &&& end.memory@.created == Some(place)
            &&& end.memory@.output == Some(source@)
            &&& end.memory@.source == crate::vault::classic_image(
                password@,
                new_classic_header(salt@, nonce@),
                source@,
            )
            &&& !end.memory@.removed
            &&& crate::paths::leads_back(path@) ==> place == path@
        },
{
    let again = vstd::slice::slice_to_vec(password.as_slice());
    let vault_path = vault_path(path.as_str());
    match classic_encrypt_in_memory(password, path, salt, nonce, source) {
        None => None,
        Some(sealed) => match sealed.memory.output {
            // An encryption that has ended has written its vault.
            None => None,
            Some(vault) => {
                Some(classic_decrypt_in_memory(again, vault_path, vault))
            },
        },
    }
}

} // verus!
