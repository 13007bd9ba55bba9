//! Overwriting a file with random bytes before it is removed.

use crate::random::draw;
use crate::task::{prefixed, Action, ActionModel, Event, EventModel, BUFFER_SIZE};
use vstd::prelude::*;

verus! {

/// How often a file is overwritten.
pub const PASSES: u8 = 3;

// ----- the model -----

/// What a shredder waits for.
#[derive(Clone, Copy, Debug, PartialEq, Eq)]
pub enum ShredStage {
    Start,
    Sizing,
    Opening,
    Writing,
    Flushing,
    Removing,
    Ended,
}

/// What a shredder has done.
#[verifier::ext_equal]
pub struct ShredModel {
    pub path: Seq<char>,
    pub stage: ShredStage,
    /// The size of the file, once it is known.
    pub size: u64,
    /// Bytes overwritten in the pass that is under way.
    pub done: nat,
    /// Bytes being written right now.
    pub pending: nat,
    /// Bytes overwritten in each pass that was completed.
    pub covered: Seq<nat>,
}

/// What a shredder asks for next, or what it came to.
pub enum ShredOutcome {
    Do(ActionModel),
    End(Result<(), Seq<char>>),
}

impl ShredModel {
    /// Every completed pass has overwritten the whole file, and no pass goes
    /// beyond it.
    pub open spec fn wf(self) -> bool {
        &&& self.covered.len() <= PASSES
        &&& forall|i: int| #![trigger self.covered[i]] 0 <= i < self.covered.len() ==> self.covered[i] == self.size
        &&& self.done + self.pending <= self.size
        &&& match self.stage {
            ShredStage::Start | ShredStage::Sizing => self.covered.len() == 0,
            ShredStage::Opening => self.covered.len() < PASSES && self.done == 0 && self.pending == 0,
            ShredStage::Writing => self.covered.len() < PASSES && self.pending > 0,
            ShredStage::Flushing => {
                self.covered.len() < PASSES && self.done == self.size && self.pending == 0
            },
            ShredStage::Removing => self.covered.len() == PASSES,
            ShredStage::Ended => true,
        }
    }

    /// A shredder that has done nothing yet.
    pub open spec fn fresh(path: Seq<char>) -> ShredModel {
        ShredModel {
            path,
            stage: ShredStage::Start,
            size: 0,
            done: 0,
            pending: 0,
            covered: Seq::empty(),
        }
    }

    /// Events that can come of what it asked for.
    pub open spec fn expects(self, e: EventModel) -> bool {
        match self.stage {
            ShredStage::Start => e is Done,
            ShredStage::Sizing => e is Size || e is Failed,
            ShredStage::Ended => false,
            _ => e is Done || e is Failed,
        }
    }

    /// The message that a failure is reported with.
    pub open spec fn failed(self, reason: Seq<char>) -> Seq<char> {
        match self.stage {
            ShredStage::Sizing => "secure_delete metadata: "@ + reason,
            ShredStage::Opening => "secure_delete open: "@ + reason,
            ShredStage::Writing => "secure_delete write: "@ + reason,
            ShredStage::Flushing => "secure_delete flush: "@ + reason,
            _ => "secure_delete remove: "@ + reason,
        }
    }

    /// Starts another pass.
    pub open spec fn open_pass(self) -> (ShredModel, ShredOutcome) {
        (
            ShredModel { stage: ShredStage::Opening, done: 0, pending: 0, ..self },
            ShredOutcome::Do(ActionModel::OpenForOverwrite(self.path)),
        )
    }

    /// Bytes of the next piece of a pass; none if all is overwritten.
    pub open spec fn piece(self) -> nat {
        if self.size - self.done <= BUFFER_SIZE {
            (self.size - self.done) as nat
        } else {
            BUFFER_SIZE as nat
        }
    }

    /// The piece that is due once what was asked for is carried out; none if
    /// something other than a piece is.
    pub open spec fn due(self) -> nat {
        match self.stage {
            ShredStage::Opening => self.piece(),
            ShredStage::Writing => ShredModel { done: self.done + self.pending, ..self }.piece(),
            _ => 0,
        }
    }

    /// Writes the next piece of a pass, or flushes if all is overwritten.
    pub open spec fn go_on(self) -> (ShredModel, ShredOutcome) {
        if self.done < self.size {
            (
                ShredModel { stage: ShredStage::Writing, pending: self.piece(), ..self },
                ShredOutcome::Do(ActionModel::Overwrite(self.piece())),
            )
        } else {
            (
                ShredModel { stage: ShredStage::Flushing, pending: 0, ..self },
                ShredOutcome::Do(ActionModel::FlushOverwrite),
            )
        }
    }

    /// What an event leads to.
    pub open spec fn step(self, e: EventModel) -> (ShredModel, ShredOutcome) {
        match e {
            EventModel::Failed(reason) => (
                ShredModel { stage: ShredStage::Ended, ..self },
                ShredOutcome::End(Err(self.failed(reason))),
            ),
            EventModel::Size(size) => ShredModel { size, ..self }.open_pass(),
            _ => match self.stage {
                ShredStage::Start => (
                    ShredModel { stage: ShredStage::Sizing, ..self },
                    ShredOutcome::Do(ActionModel::StatFile(self.path)),
                ),
                ShredStage::Opening => self.go_on(),
                ShredStage::Writing => ShredModel { done: self.done + self.pending, ..self }.go_on(),
                ShredStage::Flushing => {
                    let next = ShredModel { covered: self.covered.push(self.done), ..self };
                    if next.covered.len() < PASSES {
                        next.open_pass()
                    } else {
                        (
                            ShredModel { stage: ShredStage::Removing, ..next },
                            ShredOutcome::Do(ActionModel::RemoveFile(self.path)),
                        )
                    }
                },
                _ => (ShredModel { stage: ShredStage::Ended, ..self }, ShredOutcome::End(Ok(()))),
            },
        }
    }
}

// ----- laws -----

/// A file is removed only after it has been overwritten from end to end, and
/// flushed, three times.
pub proof fn removed_only_after_three_passes(m: ShredModel, e: EventModel)
    requires
        m.wf(),
        m.expects(e),
        m.step(e).1 matches ShredOutcome::Do(a) && a is RemoveFile,
    ensures
        m.step(e).1 == ShredOutcome::Do(ActionModel::RemoveFile(m.path)),
        m.step(e).0.covered == seq![m.size as nat, m.size as nat, m.size as nat],
{
    assert(m.step(e).0.covered =~= seq![m.size as nat, m.size as nat, m.size as nat]);
}

/// A shredder succeeds exactly when the removal it asked for was carried out.
pub proof fn succeeds_only_after_removal(m: ShredModel, e: EventModel)
    requires
        m.wf(),
        m.expects(e),
    ensures
        m.step(e).1 == ShredOutcome::End(Ok(())) <==> m.stage is Removing && e is Done,
{
}

/// No pass writes beyond the end of the file, and no piece is empty or longer
/// than the buffer.
pub proof fn pieces_stay_inside(m: ShredModel, e: EventModel)
    requires
        m.wf(),
        m.expects(e),
    ensures
        m.step(e).1 matches ShredOutcome::Do(ActionModel::Overwrite(len)) ==> {
            &&& 0 < len <= BUFFER_SIZE
            &&& m.step(e).0.done + len <= m.step(e).0.size
        },
{
}

/// What follows what: the size, then three times an opening, pieces of 262144
/// bytes from the start of the file to its end, and a flush, then the removal.
pub proof fn order_of_shredding(m: ShredModel, e: EventModel)
    requires
        m.wf(),
        m.expects(e),
        !(e is Failed),
    ensures
        ({
            let (n, outcome) = m.step(e);
            let done = if m.stage is Writing {
                m.done + m.pending
            } else {
                0
            };
            &&& n.path == m.path
            &&& m.stage is Start ==> outcome == ShredOutcome::Do(ActionModel::StatFile(m.path))
                && n.stage is Sizing
            &&& e matches EventModel::Size(size) ==> n.size == size && n.covered == m.covered
                && n.stage is Opening && outcome == ShredOutcome::Do(
                ActionModel::OpenForOverwrite(m.path),
            )
            &&& m.stage is Opening || m.stage is Writing ==> {
                &&& n.size == m.size && n.covered == m.covered && n.done == done
                &&& done < m.size ==> n.stage is Writing && n.pending == (if m.size - done
                    <= 262144 {
                    m.size - done
                } else {
                    262144
                }) && outcome == ShredOutcome::Do(ActionModel::Overwrite(n.pending))
                &&& done >= m.size ==> n.stage is Flushing && outcome == ShredOutcome::Do(
                    ActionModel::FlushOverwrite,
                )
            }
            &&& m.stage is Flushing ==> {
                &&& n.size == m.size && n.covered == m.covered.push(m.size as nat)
                &&& m.covered.len() + 1 < 3 ==> n.stage is Opening && outcome == ShredOutcome::Do(
                    ActionModel::OpenForOverwrite(m.path),
                )
                &&& m.covered.len() + 1 == 3 ==> n.stage is Removing && outcome
                    == ShredOutcome::Do(ActionModel::RemoveFile(m.path))
            }
            &&& m.stage is Removing ==> outcome == ShredOutcome::End(Ok(()))
        }),
{
}

/// A failed action ends a shredder with the message that says which one it was.
pub proof fn failure_ends_shredding(m: ShredModel, reason: Seq<char>)
    requires
        m.wf(),
        m.expects(EventModel::Failed(reason)),
    ensures
        ({
            let (n, outcome) = m.step(EventModel::Failed(reason));
            &&& n.stage is Ended
            &&& m.stage is Sizing ==> outcome == ShredOutcome::End(
                Err("secure_delete metadata: "@ + reason),
            )
            &&& m.stage is Opening ==> outcome == ShredOutcome::End(
                Err("secure_delete open: "@ + reason),
            )
            &&& m.stage is Writing ==> outcome == ShredOutcome::End(
                Err("secure_delete write: "@ + reason),
            )
            &&& m.stage is Flushing ==> outcome == ShredOutcome::End(
                Err("secure_delete flush: "@ + reason),
            )
            &&& m.stage is Removing ==> outcome == ShredOutcome::End(
                Err("secure_delete remove: "@ + reason),
            )
        }),
{
}

/// Whatever comes of what a shredder asked for, it takes; once it has ended it
/// takes nothing.
pub proof fn shredder_takes_every_outcome(m: ShredModel, size: u64, reason: Seq<char>)
    ensures
        m.expects(EventModel::Done) <==> !(m.stage is Sizing) && !(m.stage is Ended),
        m.expects(EventModel::Size(size)) <==> m.stage is Sizing,
        m.expects(EventModel::Failed(reason)) <==> !(m.stage is Start) && !(m.stage is Ended),
{
}

// ----- code -----

/// What a shredder asks for next, or what it came to.
pub enum ShredStep {
    Do(Action),
    End(Result<(), String>),
}

impl View for ShredStep {
    type V = ShredOutcome;

    open spec fn view(&self) -> ShredOutcome {
        match self {
            ShredStep::Do(a) => ShredOutcome::Do(a@),
            ShredStep::End(Ok(())) => ShredOutcome::End(Ok(())),
            ShredStep::End(Err(t)) => ShredOutcome::End(Err(t@)),
        }
    }
}

/// Overwrites a file three times with random bytes, then removes it.
///
/// This is of no use on drives that move what is written elsewhere, as SSDs do.
pub struct Shredder {
    path: String,
    stage: ShredStage,
    size: u64,
    done: u64,
    pending: u64,
    passes: u8,
    covered: Ghost<Seq<nat>>,
}

impl View for Shredder {
    type V = ShredModel;

    closed spec fn view(&self) -> ShredModel {
        ShredModel {
            path: self.path@,
            stage: self.stage,
            size: self.size,
            done: self.done as nat,
            pending: self.pending as nat,
            covered: self.covered@,
        }
    }
}

impl Shredder {
    /// The model is well formed and the pass counter agrees with it.
    pub closed spec fn inv(&self) -> bool {
        &&& self@.wf()
        &&& self.passes == self.covered@.len()
    }

    /// A shredder's model is well formed.
    pub proof fn inv_gives_wf(&self)
        requires
            self.inv(),
        ensures
            self@.wf(),
    {
    }

    /// A shredder for the file at `path` that has done nothing yet.
    pub fn new(path: String) -> (r: Shredder)
        ensures
            r.inv(),
            r@ == ShredModel::fresh(path@),
    {
        Shredder {
            path,
            stage: ShredStage::Start,
            size: 0,
            done: 0,
            pending: 0,
            passes: 0,
            covered: Ghost(Seq::empty()),
        }
    }

    /// Whether `event` can come of what the shredder asked for.
    pub fn expects(&self, event: &Event) -> (r: bool)
        ensures
            r == self@.expects(event@),
    {
        match (self.stage, event) {
            (ShredStage::Ended, _) => false,
            (ShredStage::Start, Event::Done) => true,
            (ShredStage::Start, _) => false,
            (ShredStage::Sizing, Event::Size(_)) => true,
            (ShredStage::Sizing, Event::Failed(_)) => true,
            (ShredStage::Sizing, _) => false,
            (_, Event::Done) => true,
            (_, Event::Failed(_)) => true,
            (_, _) => false,
        }
    }

    fn open_pass(self) -> (r: (Shredder, ShredStep))
        requires
            self.passes == self.covered@.len() < PASSES,
            forall|i: int|
                #![trigger self.covered@[i]]
                0 <= i < self.covered@.len() ==> self.covered@[i] == self.size,
        ensures
            r.0.inv(),
            (r.0@, r.1@) == self@.open_pass(),
    {
        let path = self.path.clone();
        let next = Shredder { stage: ShredStage::Opening, done: 0, pending: 0, ..self };
        assert(next@ =~= self@.open_pass().0);
        (next, ShredStep::Do(Action::OpenForOverwrite(path)))
    }

    /// How many bytes the next piece takes, once what the shredder asked for is
    /// carried out; zero if something other than a piece is due.
    pub fn due(&self) -> (len: usize)
        requires
            self.inv(),
        ensures
            len == self@.due(),
    {
        let done: u64 = match self.stage {
            ShredStage::Opening => self.done,
            ShredStage::Writing => self.done + self.pending,
            _ => return 0,
        };
        let left: u64 = self.size - done;
        if left <= BUFFER_SIZE as u64 {
            left as usize
        } else {
            BUFFER_SIZE
        }
    }

    /// Goes on with a piece, overwriting with the given bytes.
    pub fn overwrite_with(self, bytes: Vec<u8>) -> (r: (Shredder, ShredStep))
        requires
            self.inv(),
            self@.due() > 0,
            bytes@.len() == self@.due(),
        ensures
            r.0.inv(),
            (r.0@, r.1@) == self@.step(EventModel::Done),
            r.1 == ShredStep::Do(Action::Overwrite(bytes)),
    {
        let done: u64 = match self.stage {
            ShredStage::Writing => self.done + self.pending,
            _ => self.done,
        };
        let next = Shredder {
            stage: ShredStage::Writing,
            done,
            pending: bytes.len() as u64,
            ..self
        };
        assert(next@ =~= self@.step(EventModel::Done).0);
        (next, ShredStep::Do(Action::Overwrite(bytes)))
    }

    /// Goes on with a piece of random bytes, or flushes if all is overwritten.
    fn go_on(self) -> (r: (Shredder, ShredStep))
        requires
            self.inv(),
            self@.stage is Opening || self@.stage is Writing,
        ensures
            r.0.inv(),
            (r.0@, r.1@) == self@.step(EventModel::Done),
            r.1 matches ShredStep::Do(Action::Overwrite(bytes)) ==> crate::random::drawn(bytes@),
    {
        let len: usize = self.due();
        if len > 0 {
            self.overwrite_with(draw(len))
        } else {
            let next = Shredder {
                stage: ShredStage::Flushing,
                done: self.size,
                pending: 0,
                ..self
            };
            assert(next@ =~= self@.step(EventModel::Done).0);
            (next, ShredStep::Do(Action::FlushOverwrite))
        }
    }

    fn fail(self, reason: String) -> (r: (Shredder, ShredStep))
        requires
            self.inv(),
        ensures
            r.0.inv(),
            (r.0@, r.1@) == self@.step(EventModel::Failed(reason@)),
    {
        let message = match self.stage {
            ShredStage::Sizing => prefixed("secure_delete metadata: ", reason.as_str()),
            ShredStage::Opening => prefixed("secure_delete open: ", reason.as_str()),
            ShredStage::Writing => prefixed("secure_delete write: ", reason.as_str()),
            ShredStage::Flushing => prefixed("secure_delete flush: ", reason.as_str()),
            _ => prefixed("secure_delete remove: ", reason.as_str()),
        };
        let next = Shredder { stage: ShredStage::Ended, ..self };
        assert(next@ =~= self@.step(EventModel::Failed(reason@)).0);
        (next, ShredStep::End(Err(message)))
    }

    /// Takes what came of the last action and says what to do next. Every piece
    /// is overwritten with bytes drawn for it.
    pub fn next(self, event: Event) -> (r: (Shredder, ShredStep))
        requires
            self.inv(),
            self@.expects(event@),
        ensures
            r.0.inv(),
            (r.0@, r.1@) == self@.step(event@),
            r.1 matches ShredStep::Do(Action::Overwrite(bytes)) ==> crate::random::drawn(bytes@),
    {
        match event {
            Event::Failed(reason) => self.fail(reason),
            Event::Size(size) => {
                let sized = Shredder { size, ..self };
                assert(sized@ =~= ShredModel { size, ..self@ });
                sized.open_pass()
            },
            _ => match self.stage {
                ShredStage::Start => {
                    let path = self.path.clone();
                    let next = Shredder { stage: ShredStage::Sizing, ..self };
                    assert(next@ =~= self@.step(event@).0);
                    (next, ShredStep::Do(Action::StatFile(path)))
                },
                ShredStage::Opening | ShredStage::Writing => self.go_on(),
                ShredStage::Flushing => {
                    let covered: Ghost<Seq<nat>> = Ghost(self.covered@.push(self.done as nat));
                    let passed = Shredder { passes: self.passes + 1, covered, ..self };
                    assert(passed@ =~= ShredModel {
                        covered: self@.covered.push(self@.done),
                        ..self@
                    });
                    if passed.passes < PASSES {
                        passed.open_pass()
                    } else {
                        let path = passed.path.clone();
                        let next = Shredder { stage: ShredStage::Removing, ..passed };
                        assert(next@ =~= self@.step(event@).0);
                        (next, ShredStep::Do(Action::RemoveFile(path)))
                    }
                },
                _ => {
                    let next = Shredder { stage: ShredStage::Ended, ..self };
                    assert(next@ =~= self@.step(event@).0);
                    (next, ShredStep::End(Ok(())))
                },
            },
        }
    }
}

} // verus!
