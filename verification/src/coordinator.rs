//! The access coordinator: the fixed workload that exercises a shared cell.
//!
//! The coordinator owns the first handle. It starts a number of readers,
//! lets them run for a while, starts the one writer, waits for every worker,
//! and only then reads the cell itself. That last read is the authoritative
//! check of the run.
//!
//! The coordinator decides; its caller acts. [`AccessCoordinator::directive`]
//! says what to do next, and [`AccessCoordinator::complete`] takes the news
//! that it was done. Spawning a context, pausing and joining are the caller's
//! business.
//!
//! # Failures
//!
//! A worker that terminated abnormally is noted when it is joined, and the
//! run goes on. The run as a whole fails only if the coordinator's own
//! verification read is refused, and it says so once, after every worker has
//! been joined.

use vstd::prelude::*;
use crate::lock::LockPoisoned;

verus! {

/// The shape of a workload.
#[derive(Debug, Clone, Copy, PartialEq, Eq)]
pub struct Workload {
    /// How many reader contexts run.
    pub readers: u64,
    /// How many read cycles each reader performs.
    pub cycles: u64,
    /// How long a reader pauses after each cycle, in milliseconds.
    pub read_pause_ms: u64,
    /// How long the coordinator lets the readers run before it starts the
    /// writer, in milliseconds.
    pub writer_delay_ms: u64,
}

/// A worker context.
#[derive(Debug, Clone, Copy, PartialEq, Eq)]
pub enum Worker {
    /// The reader with the given number, counted from 0.
    Reader(u64),
    Writer,
}

/// What the coordinator wants done next.
#[derive(Debug, Clone, Copy, PartialEq, Eq)]
pub enum Directive {
    /// Start the worker in a context of its own, with its own handle.
    Spawn(Worker),
    /// Let the given number of milliseconds pass.
    Pause(u64),
    /// Wait until the worker's context has ended.
    Join(Worker),
    /// Read the cell through the coordinator's handle.
    Verify,
    /// Nothing is left to do.
    Finished,
}

/// How a worker's context ended.
#[derive(Debug, Clone, Copy, PartialEq, Eq)]
pub enum Exit {
    Normal,
    /// The context terminated abnormally.
    Abnormal,
}

/// Report that a worker context terminated abnormally, made when it is
/// joined.
#[derive(Debug, Clone, Copy, PartialEq, Eq)]
pub struct JoinFailure {
    pub worker: Worker,
}

/// The news that a directive was carried out.
#[derive(Debug)]
pub enum Completion<T> {
    /// The worker was started.
    Spawned,
    /// The pause is over.
    Paused,
    /// The worker's context has ended.
    Joined(Exit),
    /// The verification read saw this value, or was refused.
    Verified(Result<T, LockPoisoned>),
}

/// How a run ended.
#[derive(Debug)]
pub enum Outcome<T> {
    /// The run is not over: directives are still open.
    Unfinished,
    /// The verification read saw `observed`.
    Verified { observed: T, failures: Vec<JoinFailure> },
    /// The verification read was refused: the run has failed.
    Failed { report: LockPoisoned, failures: Vec<JoinFailure> },
}

impl Workload {
    /// The number of a reader's place in the script, as a reader number.
    pub open spec fn reader_at(place: nat) -> u64 {
        place as u64
    }

    /// The place of the pause in the script.
    pub open spec fn pause_place(self) -> nat {
        self.readers as nat
    }

    /// The place in the script where `worker` is started.
    pub open spec fn spawn_place(self, worker: Worker) -> nat {
        match worker {
            Worker::Reader(number) => number as nat,
            Worker::Writer => (self.readers + 1) as nat,
        }
    }

    /// The place in the script where `worker` is joined.
    pub open spec fn join_place(self, worker: Worker) -> nat {
        match worker {
            Worker::Reader(number) => (self.readers + 2 + number) as nat,
            Worker::Writer => (2 * self.readers + 2) as nat,
        }
    }

    /// The place of the verification read in the script.
    pub open spec fn verify_place(self) -> nat {
        (2 * self.readers + 3) as nat
    }

    /// The number of directives in the script.
    pub open spec fn script_len(self) -> nat {
        (2 * self.readers + 4) as nat
    }

    /// Whether `worker` is one of the workload's workers.
    pub open spec fn employs(self, worker: Worker) -> bool {
        match worker {
            Worker::Reader(number) => number < self.readers,
            Worker::Writer => true,
        }
    }

    /// The script: the directive at each place. The readers are started in
    /// order, then comes the pause, then the writer is started; the readers
    /// are joined in order, then the writer; then comes the verification
    /// read. From then on nothing is left.
    pub open spec fn directive_at(self, place: nat) -> Directive {
        let readers = self.readers as nat;
        if place < readers {
            Directive::Spawn(Worker::Reader(Self::reader_at(place)))
        } else if place == readers {
            Directive::Pause(self.writer_delay_ms)
        } else if place == readers + 1 {
            Directive::Spawn(Worker::Writer)
        } else if place < 2 * readers + 2 {
            Directive::Join(Worker::Reader(Self::reader_at((place - readers - 2) as nat)))
        } else if place == 2 * readers + 2 {
            Directive::Join(Worker::Writer)
        } else if place == 2 * readers + 3 {
            Directive::Verify
        } else {
            Directive::Finished
        }
    }

    /// The workload of the standard run: three readers of two cycles each,
    /// pausing 100 ms after a cycle, and a writer that starts after 150 ms.
    pub fn standard() -> (plan: Workload)
        ensures
            plan == (Workload { readers: 3, cycles: 2, read_pause_ms: 100, writer_delay_ms: 150 }),
    {
        Workload { readers: 3, cycles: 2, read_pause_ms: 100, writer_delay_ms: 150 }
    }
}

/// Every worker of the workload is started at one place of the script and
/// joined at a later one, before the verification read; and the script has no
/// other place at which it is started or joined.
pub proof fn law_every_worker_is_spawned_then_joined(plan: Workload, worker: Worker, place: nat)
    requires
        plan.employs(worker),
    ensures
        plan.directive_at(plan.spawn_place(worker)) == Directive::Spawn(worker),
        plan.directive_at(plan.join_place(worker)) == Directive::Join(worker),
        plan.spawn_place(worker) < plan.join_place(worker) < plan.verify_place(),
        plan.directive_at(place) == Directive::Spawn(worker) ==> place == plan.spawn_place(worker),
        plan.directive_at(place) == Directive::Join(worker) ==> place == plan.join_place(worker),
{
}

/// The script starts and joins no one but the workload's workers.
pub proof fn law_only_workers_are_spawned(plan: Workload, worker: Worker, place: nat)
    requires
        plan.directive_at(place) == Directive::Spawn(worker) || plan.directive_at(place)
            == Directive::Join(worker),
    ensures
        plan.employs(worker),
{
}

/// The verification read comes strictly after every join, and so after
/// every worker has ended; it is the last directive of the script and occurs
/// once.
pub proof fn law_verification_follows_every_join(plan: Workload, place: nat)
    ensures
        plan.directive_at(plan.verify_place()) == Directive::Verify,
        plan.directive_at(place) is Join ==> place < plan.verify_place(),
        plan.directive_at(place) is Spawn ==> place < plan.verify_place(),
        plan.directive_at(place) is Verify ==> place == plan.verify_place(),
        plan.directive_at(place) is Finished <==> place >= plan.script_len(),
        plan.script_len() == plan.verify_place() + 1,
{
}

/// The writer is started after the pause, and the pause after every reader
/// has been started.
pub proof fn law_writer_starts_after_the_pause(plan: Workload, place: nat)
    ensures
        plan.directive_at(plan.pause_place()) == Directive::Pause(plan.writer_delay_ms),
        plan.directive_at(place) is Pause ==> place == plan.pause_place(),
        plan.pause_place() < plan.spawn_place(Worker::Writer),
        plan.directive_at(place) is Spawn && place < plan.pause_place() ==> plan.directive_at(place)
            != Directive::Spawn(Worker::Writer),
{
}

/// A coordinator as a mathematical value.
pub struct CoordinatorView<T> {
    pub plan: Workload,
    /// How many directives have been carried out.
    pub place: nat,
    /// The workers found to have terminated abnormally, in the order of
    /// their joins.
    pub failures: Seq<JoinFailure>,
    /// What the verification read gave, once it has been made.
    pub verdict: Option<Result<T, LockPoisoned>>,
}

impl<T> CoordinatorView<T> {
    /// A coordinator at the start of `plan`.
    pub open spec fn starting(plan: Workload) -> CoordinatorView<T> {
        CoordinatorView { plan, place: 0, failures: Seq::empty(), verdict: None }
    }

    /// The directive that is open.
    pub open spec fn directive(self) -> Directive {
        self.plan.directive_at(self.place)
    }

    /// Whether the script is over.
    pub open spec fn finished(self) -> bool {
        self.place >= self.plan.script_len()
    }

    /// Whether `completion` is news of the open directive.
    pub open spec fn accepts(self, completion: Completion<T>) -> bool {
        match (self.directive(), completion) {
            (Directive::Spawn(_), Completion::Spawned) => true,
            (Directive::Pause(_), Completion::Paused) => true,
            (Directive::Join(_), Completion::Joined(_)) => true,
            (Directive::Verify, Completion::Verified(_)) => true,
            _ => false,
        }
    }

    /// The coordinator after `completion`. News of the open directive moves
    /// the script on by one place; an abnormal exit is noted, and the result
    /// of the verification read is kept. Any other news changes nothing.
    pub open spec fn after(self, completion: Completion<T>) -> CoordinatorView<T> {
        if !self.accepts(completion) {
            self
        } else {
            CoordinatorView {
                place: self.place + 1,
                failures: match (self.directive(), completion) {
                    (Directive::Join(worker), Completion::Joined(Exit::Abnormal)) => {
                        self.failures.push(JoinFailure { worker })
                    },
                    _ => self.failures,
                },
                verdict: match completion {
                    Completion::Verified(result) => Some(result),
                    _ => self.verdict,
                },
                ..self
            }
        }
    }
}

/// A point of the script, kept so that no count can overflow.
#[derive(Debug, Clone, Copy)]
enum Phase {
    Spawning(u64),
    Pausing,
    Launching,
    Joining(u64),
    JoiningWriter,
    Verifying,
    Done,
}

/// The place in the script of `plan` that `phase` stands for.
spec fn place_of(plan: Workload, phase: Phase) -> nat {
    match phase {
        Phase::Spawning(number) => number as nat,
        Phase::Pausing => plan.pause_place(),
        Phase::Launching => plan.spawn_place(Worker::Writer),
        Phase::Joining(number) => plan.join_place(Worker::Reader(number)),
        Phase::JoiningWriter => plan.join_place(Worker::Writer),
        Phase::Verifying => plan.verify_place(),
        Phase::Done => plan.script_len(),
    }
}

/// The coordinator of one run over a cell that holds a `T`.
#[derive(Debug)]
pub struct AccessCoordinator<T> {
    plan: Workload,
    phase: Phase,
    failures: Vec<JoinFailure>,
    verdict: Option<Result<T, LockPoisoned>>,
}

impl<T> View for AccessCoordinator<T> {
    type V = CoordinatorView<T>;

    closed spec fn view(&self) -> CoordinatorView<T> {
        CoordinatorView {
            plan: self.plan,
            place: place_of(self.plan, self.phase),
            failures: self.failures@,
            verdict: if self.phase is Done {
                self.verdict
            } else {
                None
            },
        }
    }
}

impl<T> AccessCoordinator<T> {
    #[verifier::type_invariant]
    spec fn consistent(&self) -> bool {
        match self.phase {
            Phase::Spawning(number) | Phase::Joining(number) => number < self.plan.readers,
            Phase::Done => self.verdict is Some,
            _ => true,
        }
    }

    /// A coordinator at the start of `plan`.
    pub fn new(plan: Workload) -> (coordinator: AccessCoordinator<T>)
        ensures
            coordinator@ == CoordinatorView::<T>::starting(plan),
    {
        let phase = if plan.readers > 0 {
            Phase::Spawning(0)
        } else {
            Phase::Pausing
        };
        AccessCoordinator { plan, phase, failures: Vec::new(), verdict: None }
    }

    /// The workload that is run.
    pub fn plan(&self) -> (plan: Workload)
        ensures
            plan == self@.plan,
    {
        self.plan
    }

    /// What is to be done next.
    pub fn directive(&self) -> (directive: Directive)
        ensures
            directive == self@.directive(),
    {
        proof {
            use_type_invariant(self);
        }
        match self.phase {
            Phase::Spawning(number) => Directive::Spawn(Worker::Reader(number)),
            Phase::Pausing => Directive::Pause(self.plan.writer_delay_ms),
            Phase::Launching => Directive::Spawn(Worker::Writer),
            Phase::Joining(number) => Directive::Join(Worker::Reader(number)),
            Phase::JoiningWriter => Directive::Join(Worker::Writer),
            Phase::Verifying => Directive::Verify,
            Phase::Done => Directive::Finished,
        }
    }

    /// Whether the script is over.
    pub fn is_finished(&self) -> (finished: bool)
        ensures
            finished == self@.finished(),
            finished <==> self@.directive() is Finished,
            finished ==> self@.verdict is Some,
    {
        proof {
            use_type_invariant(self);
        }
        match self.phase {
            Phase::Done => true,
            _ => false,
        }
    }

    /// The workers found to have terminated abnormally so far.
    pub fn failures(&self) -> (failures: &Vec<JoinFailure>)
        ensures
            failures@ == self@.failures,
    {
        &self.failures
    }

    /// Takes the news that a directive was carried out, and says whether it
    /// was news of the open directive. If it was not, nothing changes.
    pub fn complete(&mut self, completion: Completion<T>) -> (accepted: bool)
        ensures
            accepted == old(self)@.accepts(completion),
            final(self)@ == old(self)@.after(completion),
    {
        proof {
            use_type_invariant(&*self);
        }
        let readers: u64 = self.plan.readers;
        match (self.phase, completion) {
            (Phase::Spawning(number), Completion::Spawned) => {
                self.phase = if number + 1 < readers {
                    Phase::Spawning(number + 1)
                } else {
                    Phase::Pausing
                };
                true
            },
            (Phase::Pausing, Completion::Paused) => {
                self.phase = Phase::Launching;
                true
            },
            (Phase::Launching, Completion::Spawned) => {
                self.phase = if readers > 0 {
                    Phase::Joining(0)
                } else {
                    Phase::JoiningWriter
                };
                true
            },
            (Phase::Joining(number), Completion::Joined(exit)) => {
                self.note(Worker::Reader(number), exit);
                self.phase = if number + 1 < readers {
                    Phase::Joining(number + 1)
                } else {
                    Phase::JoiningWriter
                };
                true
            },
            (Phase::JoiningWriter, Completion::Joined(exit)) => {
                self.note(Worker::Writer, exit);
                self.phase = Phase::Verifying;
                true
            },
            (Phase::Verifying, Completion::Verified(result)) => {
                self.verdict = Some(result);
                self.phase = Phase::Done;
                true
            },
            _ => false,
        }
    }

    /// Notes how `worker` ended, if it ended abnormally.
    fn note(&mut self, worker: Worker, exit: Exit)
        ensures
            final(self).plan == old(self).plan,
            final(self).phase == old(self).phase,
            final(self).verdict == old(self).verdict,
            final(self).failures@ == (match exit {
                Exit::Abnormal => old(self).failures@.push(JoinFailure { worker }),
                Exit::Normal => old(self).failures@,
            }),
    {
        proof {
            use_type_invariant(&*self);
        }
        match exit {
            Exit::Abnormal => {
                let mut failures: Vec<JoinFailure> = Vec::new();
                core::mem::swap(&mut self.failures, &mut failures);
                failures.push(JoinFailure { worker });
                core::mem::swap(&mut self.failures, &mut failures);
            },
            Exit::Normal => {},
        }
    }

    /// How the run ended. It has failed exactly if the verification read
    /// was refused; abnormal exits of workers are listed either way.
    pub fn conclude(self) -> (outcome: Outcome<T>)
        ensures
            match outcome {
                Outcome::Unfinished => !self@.finished(),
                Outcome::Verified { observed, failures } => {
                    &&& self@.finished()
                    &&& self@.verdict == Some(Ok::<T, LockPoisoned>(observed))
                    &&& failures@ == self@.failures
                },
                Outcome::Failed { report, failures } => {
                    &&& self@.finished()
                    &&& self@.verdict == Some(Err::<T, LockPoisoned>(report))
                    &&& failures@ == self@.failures
                },
            },
    {
        proof {
            use_type_invariant(&self);
        }
        match self.phase {
            Phase::Done => match self.verdict {
                Some(Ok(observed)) => Outcome::Verified { observed, failures: self.failures },
                Some(Err(report)) => Outcome::Failed { report, failures: self.failures },
                None => Outcome::Unfinished,
            },
            _ => Outcome::Unfinished,
        }
    }
}

} // verus!
