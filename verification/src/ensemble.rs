//! The cell together with its workers, under every schedule.
//!
//! Nothing is promised about the order in which the readers and the writer
//! take their steps. This module therefore speaks of all orders at once. An
//! [`Ensemble`] is the cell and the workers launched so far; a schedule is
//! any sequence of [`Turn`]s, each of which launches a worker or lets one
//! take the step that [`ReaderView::event`] or [`WriterView::event`] gives
//! it. The laws hold of whatever a schedule leads to.
//!
//! No context terminates abnormally in these runs; what an abnormal end does
//! is said by the lock's and the cell's own laws.

use vstd::prelude::*;
use crate::cell::{CellEvent, CellView};
use crate::coordinator::Workload;
use crate::lock::{LockEvent, LockView, READER_LIMIT};
use crate::worker::{cell_after, ReaderView, WriterView};

verus! {

/// Whose turn it is.
pub enum Turn {
    /// The coordinator starts the next reader, if one is left to start.
    LaunchReader,
    /// The coordinator starts the writer, if it has not.
    LaunchWriter,
    /// The reader with this number takes a step, if it has been started.
    Reader(nat),
    /// The writer takes a step, if it has been started.
    Writer,
}

/// Something that is counted over the readers.
pub enum Measure {
    /// The read guards they hold.
    Guards,
    /// The handles they have.
    Handles,
    /// The steps their programmes still have.
    Work,
}

/// What `reader` adds to the count of `measure`.
pub open spec fn weight(reader: ReaderView, measure: Measure) -> nat {
    match measure {
        Measure::Guards => if reader.holding {
            1
        } else {
            0
        },
        Measure::Handles => if reader.attached {
            1
        } else {
            0
        },
        Measure::Work => reader.steps_left(),
    }
}

/// The count of `measure` over `readers`.
pub open spec fn tally(readers: Seq<ReaderView>, measure: Measure) -> nat
    decreases readers.len(),
{
    if readers.len() == 0 {
        0
    } else {
        tally(readers.drop_last(), measure) + weight(readers.last(), measure)
    }
}

/// The steps that a reader takes from its launch to its exit, the launch
/// counted in, when it is never refused.
pub open spec fn steps_of_a_reader(plan: Workload) -> nat {
    (2 * plan.cycles + 2) as nat
}

/// The steps of the readers of `plan` that are still to be launched when
/// `launched` of them have been.
pub open spec fn steps_to_launch(plan: Workload, launched: nat) -> nat {
    ((plan.readers - launched) * steps_of_a_reader(plan)) as nat
}

/// A cell and the workers launched on it so far.
pub struct Ensemble<T> {
    pub cell: CellView<T>,
    pub readers: Seq<ReaderView>,
    pub writer: Option<WriterView<T>>,
}

impl<T> Ensemble<T> {
    /// The coordinator has made the cell and launched no one yet.
    pub open spec fn opening(initial: T) -> Ensemble<T> {
        Ensemble { cell: CellView::fresh(initial), readers: Seq::empty(), writer: None }
    }

    /// The ensemble after one turn of a run of `plan` whose writer installs
    /// `revision`. A turn of a worker that has not been started, and a launch
    /// that is not due, change nothing.
    pub open spec fn step(self, plan: Workload, revision: T, turn: Turn) -> Ensemble<T> {
        match turn {
            Turn::LaunchReader => if self.readers.len() < plan.readers {
                Ensemble {
                    cell: self.cell.step(CellEvent::Duplicate),
                    readers: self.readers.push(ReaderView::starting(plan.cycles as nat)),
                    ..self
                }
            } else {
                self
            },
            Turn::LaunchWriter => if self.writer is None {
                Ensemble {
                    cell: self.cell.step(CellEvent::Duplicate),
                    writer: Some(WriterView::starting(revision)),
                    ..self
                }
            } else {
                self
            },
            Turn::Reader(number) => if number < self.readers.len() {
                let reader = self.readers[number as int];
                Ensemble {
                    cell: cell_after(self.cell, reader.event()),
                    readers: self.readers.update(number as int, reader.after(self.cell.lock)),
                    ..self
                }
            } else {
                self
            },
            Turn::Writer => match self.writer {
                Some(writer) => Ensemble {
                    cell: cell_after(self.cell, writer.event()),
                    writer: Some(writer.after(self.cell.lock)),
                    ..self
                },
                None => self,
            },
        }
    }

    /// The ensemble after the turns of `schedule`, in order.
    pub open spec fn run(self, plan: Workload, revision: T, schedule: Seq<Turn>) -> Ensemble<T>
        decreases schedule.len(),
    {
        if schedule.len() == 0 {
            self
        } else {
            self.run(plan, revision, schedule.drop_last()).step(plan, revision, schedule.last())
        }
    }

    /// Every worker of `plan` has been launched and has exited: all of them
    /// can be joined.
    pub open spec fn all_joined(self, plan: Workload) -> bool {
        &&& self.readers.len() == plan.readers
        &&& forall|i: int| 0 <= i < self.readers.len() ==> (#[trigger] self.readers[i]).exited()
        &&& self.writer is Some
        &&& self.writer->0.exited()
    }

    /// The handles that the writer accounts for.
    pub open spec fn writer_handles(self) -> nat {
        match self.writer {
            Some(writer) => if writer.attached {
                1
            } else {
                0
            },
            None => 0,
        }
    }

    /// The steps that the writer still has before it, its launch counted in.
    pub open spec fn writer_steps(self) -> nat {
        match self.writer {
            Some(writer) => writer.steps_left(),
            None => 5,
        }
    }

    /// The steps that are left in the whole run: those of the workers that
    /// were launched, and those of the workers still to be launched.
    pub open spec fn steps_left(self, plan: Workload) -> nat {
        tally(self.readers, Measure::Work) + steps_to_launch(plan, self.readers.len())
            + self.writer_steps()
    }

    /// What is true of the ensemble at every moment of a run that started
    /// with the value `initial` and whose writer installs `revision`:
    ///
    /// - the cell keeps its invariant, and with it mutual exclusion;
    /// - no guard was lost, so the lock is not poisoned;
    /// - the outstanding guards are exactly those that the workers hold, and
    ///   the live handles exactly the coordinator's and the workers';
    /// - the cell holds `initial` until the writer has stored, and `revision`
    ///   from then on;
    /// - a writer that has exited has stored.
    pub open spec fn coherent(self, initial: T, revision: T, plan: Workload) -> bool {
        &&& self.cell.wf()
        &&& self.cell.lock.poison is None
        &&& self.readers.len() <= plan.readers
        &&& forall|i: int| 0 <= i < self.readers.len() ==> (#[trigger] self.readers[i]).wf()
        &&& self.cell.lock.readers == tally(self.readers, Measure::Guards)
        &&& self.cell.handles == 1 + tally(self.readers, Measure::Handles) + self.writer_handles()
        &&& match self.writer {
            None => self.cell.lock.writers == 0 && self.cell.value == Some(initial),
            Some(writer) => {
                &&& writer.wf()
                &&& !writer.refused
                &&& self.cell.lock.writers == (if writer.holding {
                    1nat
                } else {
                    0nat
                })
                &&& writer.revision is Some ==> writer.revision == Some(revision)
                    && self.cell.value == Some(initial)
                &&& writer.revision is None ==> self.cell.value == Some(revision)
                &&& !writer.attached ==> writer.revision is None
            },
        }
    }

    /// A turn that does a step of the run, whenever one is left. Launches
    /// come first. Then whoever holds a guard goes on: the writer, or else
    /// some reader. When no guard is held, the writer takes its step if it
    /// has one left, and else some reader that has.
    pub open spec fn willing(self, plan: Workload) -> Turn {
        if self.readers.len() < plan.readers {
            Turn::LaunchReader
        } else if self.writer is None {
            Turn::LaunchWriter
        } else if self.writer->0.holding {
            Turn::Writer
        } else if tally(self.readers, Measure::Guards) > 0 {
            Turn::Reader(first_with(self.readers, Measure::Guards))
        } else if self.writer->0.attached {
            Turn::Writer
        } else {
            Turn::Reader(first_with(self.readers, Measure::Work))
        }
    }

    /// The ensemble after `turns` turns, each of them the willing one.
    pub open spec fn carry_on(self, plan: Workload, revision: T, turns: nat) -> Ensemble<T>
        decreases turns,
    {
        if turns == 0 {
            self
        } else {
            self.step(plan, revision, self.willing(plan)).carry_on(
                plan,
                revision,
                (turns - 1) as nat,
            )
        }
    }

    /// The schedule of `turns` turns, each of them the willing one.
    pub open spec fn willing_schedule(self, plan: Workload, revision: T, turns: nat) -> Seq<Turn>
        decreases turns,
    {
        if turns == 0 {
            Seq::empty()
        } else {
            seq![self.willing(plan)] + self.step(
                plan,
                revision,
                self.willing(plan),
            ).willing_schedule(plan, revision, (turns - 1) as nat)
        }
    }
}

/// The number of some reader that counts for `measure`, if one does.
pub open spec fn first_with(readers: Seq<ReaderView>, measure: Measure) -> nat {
    choose|number: nat| number < readers.len() && weight(readers[number as int], measure) > 0
}

/// Replacing one reader changes a tally by the difference of the two.
pub proof fn lemma_tally_update(
    readers: Seq<ReaderView>,
    measure: Measure,
    at: int,
    reader: ReaderView,
)
    requires
        0 <= at < readers.len(),
    ensures
        tally(readers.update(at, reader), measure) + weight(readers[at], measure) == tally(
            readers,
            measure,
        ) + weight(reader, measure),
    decreases readers.len(),
{
    let changed = readers.update(at, reader);
    if at == readers.len() - 1 {
        assert(changed.drop_last() =~= readers.drop_last());
    } else {
        lemma_tally_update(readers.drop_last(), measure, at, reader);
        assert(changed.drop_last() =~= readers.drop_last().update(at, reader));
    }
}

/// One more reader adds its weight to a tally.
pub proof fn lemma_tally_push(readers: Seq<ReaderView>, measure: Measure, reader: ReaderView)
    ensures
        tally(readers.push(reader), measure) == tally(readers, measure) + weight(reader, measure),
{
    assert(readers.push(reader).drop_last() =~= readers);
}

/// A tally is at least what any one reader adds to it.
pub proof fn lemma_tally_counts(readers: Seq<ReaderView>, measure: Measure, at: int)
    requires
        0 <= at < readers.len(),
    ensures
        tally(readers, measure) >= weight(readers[at], measure),
    decreases readers.len(),
{
    if at < readers.len() - 1 {
        lemma_tally_counts(readers.drop_last(), measure, at);
    }
}

/// A tally to which no reader adds is 0.
pub proof fn lemma_tally_of_none(readers: Seq<ReaderView>, measure: Measure)
    requires
        forall|i: int| 0 <= i < readers.len() ==> weight(#[trigger] readers[i], measure) == 0,
    ensures
        tally(readers, measure) == 0,
    decreases readers.len(),
{
    if readers.len() > 0 {
        lemma_tally_of_none(readers.drop_last(), measure);
    }
}

/// A tally above 0 has a reader that adds to it, and [`first_with`] names
/// one.
pub proof fn lemma_tally_has_a_witness(readers: Seq<ReaderView>, measure: Measure)
    requires
        tally(readers, measure) > 0,
    ensures
        first_with(readers, measure) < readers.len(),
        weight(readers[first_with(readers, measure) as int], measure) > 0,
{
    if forall|i: int| 0 <= i < readers.len() ==> weight(#[trigger] readers[i], measure) == 0 {
        lemma_tally_of_none(readers, measure);
    } else {
        let at = choose|i: int|
            0 <= i < readers.len() && weight(#[trigger] readers[i], measure) > 0;
        let number = at as nat;
        assert(number < readers.len() && weight(readers[number as int], measure) > 0);
    }
}

/// The steps still to be launched, one reader at a time.
pub proof fn lemma_steps_to_launch(plan: Workload, launched: nat)
    requires
        launched <= plan.readers,
    ensures
        launched < plan.readers ==> steps_to_launch(plan, launched) == steps_to_launch(
            plan,
            launched + 1,
        ) + steps_of_a_reader(plan),
        launched == plan.readers <==> steps_to_launch(plan, launched) == 0,
{
    let each = steps_of_a_reader(plan) as int;
    let open = plan.readers - launched;
    assert(open * each == (open - 1) * each + each) by (nonlinear_arith);
    assert(open > 0 && each > 0 ==> open * each > 0) by (nonlinear_arith);
    assert(open == 0 ==> open * each == 0) by (nonlinear_arith);
    assert(open - 1 >= 0 && each > 0 ==> (open - 1) * each >= 0) by (nonlinear_arith);
}

/// Whatever a worker's next step needs of the cell is there: in a coherent
/// ensemble every launched worker is ready to step, whoever's turn it is.
pub proof fn law_workers_can_always_step<T>(
    ensemble: Ensemble<T>,
    initial: T,
    revision: T,
    plan: Workload,
)
    requires
        ensemble.coherent(initial, revision, plan),
    ensures
        forall|i: int|
            0 <= i < ensemble.readers.len() ==> (#[trigger] ensemble.readers[i]).ready(
                ensemble.cell,
            ),
        ensemble.writer is Some ==> ensemble.writer->0.ready(ensemble.cell),
{
    assert forall|i: int| 0 <= i < ensemble.readers.len() implies (#[trigger] ensemble.readers[i])
        .ready(ensemble.cell) by {
        lemma_tally_counts(ensemble.readers, Measure::Guards, i);
        lemma_tally_counts(ensemble.readers, Measure::Handles, i);
        assert(ensemble.readers[i].wf());
    }
}

/// One turn keeps the ensemble coherent.
pub proof fn law_turn_keeps_coherence<T>(
    ensemble: Ensemble<T>,
    initial: T,
    revision: T,
    plan: Workload,
    turn: Turn,
)
    requires
        ensemble.coherent(initial, revision, plan),
    ensures
        ensemble.step(plan, revision, turn).coherent(initial, revision, plan),
{
    let next = ensemble.step(plan, revision, turn);
    law_workers_can_always_step(ensemble, initial, revision, plan);
    match turn {
        Turn::LaunchReader => {
            if ensemble.readers.len() < plan.readers {
                let reader = ReaderView::starting(plan.cycles as nat);
                lemma_tally_push(ensemble.readers, Measure::Guards, reader);
                lemma_tally_push(ensemble.readers, Measure::Handles, reader);
                assert forall|i: int| 0 <= i < next.readers.len() implies (#[trigger] next
                    .readers[i]).wf() by {
                    if i < ensemble.readers.len() {
                        assert(next.readers[i] == ensemble.readers[i]);
                    }
                }
            }
        },
        Turn::LaunchWriter => {},
        Turn::Reader(number) => {
            if number < ensemble.readers.len() {
                let at = number as int;
                let reader = ensemble.readers[at];
                let moved = reader.after(ensemble.cell.lock);
                assert(reader.wf());
                assert(reader.ready(ensemble.cell));
                lemma_tally_update(ensemble.readers, Measure::Guards, at, moved);
                lemma_tally_update(ensemble.readers, Measure::Handles, at, moved);
                lemma_tally_counts(ensemble.readers, Measure::Guards, at);
                lemma_tally_counts(ensemble.readers, Measure::Handles, at);
                assert forall|i: int| 0 <= i < next.readers.len() implies (#[trigger] next
                    .readers[i]).wf() by {
                    if i != at {
                        assert(next.readers[i] == ensemble.readers[i]);
                    }
                }
            }
        },
        Turn::Writer => {},
    }
}

/// Every schedule keeps the ensemble coherent: at every moment of every
/// run, mutual exclusion holds, the guards and handles are accounted for,
/// and the cell holds either the initial value or the writer's revision,
/// whole.
pub proof fn law_every_schedule_is_coherent<T>(
    initial: T,
    revision: T,
    plan: Workload,
    schedule: Seq<Turn>,
)
    ensures
        Ensemble::opening(initial).run(plan, revision, schedule).coherent(initial, revision, plan),
        Ensemble::opening(initial).run(plan, revision, schedule).cell.lock.exclusive(),
    decreases schedule.len(),
{
    let opening = Ensemble::opening(initial);
    if schedule.len() > 0 {
        law_every_schedule_is_coherent(initial, revision, plan, schedule.drop_last());
        law_turn_keeps_coherence(
            opening.run(plan, revision, schedule.drop_last()),
            initial,
            revision,
            plan,
            schedule.last(),
        );
    }
}

/// What a coherent ensemble shows once every worker can be joined: the cell
/// holds exactly the revision, no guard is outstanding, the lock is not
/// poisoned, the coordinator's handle is the only one left, and a read
/// through it is granted.
pub proof fn law_joined_ensemble_shows_the_revision<T>(
    ensemble: Ensemble<T>,
    initial: T,
    revision: T,
    plan: Workload,
)
    requires
        ensemble.coherent(initial, revision, plan),
        ensemble.all_joined(plan),
    ensures
        ensemble.cell.value == Some(revision),
        ensemble.cell.lock == LockView::unlocked(),
        ensemble.cell.handles == 1,
        ensemble.cell.lock.read_admission() is Granted,
        ensemble.cell.enabled(CellEvent::Lock(LockEvent::TryRead)),
{
    assert forall|i: int| 0 <= i < ensemble.readers.len() implies weight(
        #[trigger] ensemble.readers[i],
        Measure::Guards,
    ) == 0 && weight(ensemble.readers[i], Measure::Handles) == 0 by {
        assert(ensemble.readers[i].exited());
        assert(ensemble.readers[i].wf());
    }
    lemma_tally_of_none(ensemble.readers, Measure::Guards);
    lemma_tally_of_none(ensemble.readers, Measure::Handles);
    assert(READER_LIMIT > 0);
}

/// Visibility after join. Take any workload, any initial value, any
/// revision and any schedule. If at its end every worker has been launched
/// and has exited, then the cell holds exactly the revision, no guard is
/// outstanding, the lock is not poisoned, the coordinator's handle is the
/// only one left, and the coordinator's verification read is granted.
pub proof fn law_joined_run_shows_the_revision<T>(
    initial: T,
    revision: T,
    plan: Workload,
    schedule: Seq<Turn>,
)
    requires
        Ensemble::opening(initial).run(plan, revision, schedule).all_joined(plan),
    ensures
        Ensemble::opening(initial).run(plan, revision, schedule).cell.value == Some(revision),
        Ensemble::opening(initial).run(plan, revision, schedule).cell.lock == LockView::unlocked(),
        Ensemble::opening(initial).run(plan, revision, schedule).cell.handles == 1,
        Ensemble::opening(initial).run(plan, revision, schedule).cell.lock.read_admission()
            is Granted,
        Ensemble::opening(initial).run(plan, revision, schedule).cell.enabled(
            CellEvent::Lock(LockEvent::TryRead),
        ),
{
    law_every_schedule_is_coherent(initial, revision, plan, schedule);
    law_joined_ensemble_shows_the_revision(
        Ensemble::opening(initial).run(plan, revision, schedule),
        initial,
        revision,
        plan,
    );
}

/// The run is over exactly when no step is left.
pub proof fn law_no_steps_left_means_joined<T>(
    ensemble: Ensemble<T>,
    initial: T,
    revision: T,
    plan: Workload,
)
    requires
        ensemble.coherent(initial, revision, plan),
    ensures
        ensemble.steps_left(plan) == 0 <==> ensemble.all_joined(plan),
{
    lemma_steps_to_launch(plan, ensemble.readers.len());
    if ensemble.steps_left(plan) == 0 {
        assert forall|i: int| 0 <= i < ensemble.readers.len() implies (#[trigger] ensemble
            .readers[i]).exited() by {
            lemma_tally_counts(ensemble.readers, Measure::Work, i);
        }
    }
    if ensemble.all_joined(plan) {
        assert forall|i: int| 0 <= i < ensemble.readers.len() implies weight(
            #[trigger] ensemble.readers[i],
            Measure::Work,
        ) == 0 by {
            assert(ensemble.readers[i].exited());
        }
        lemma_tally_of_none(ensemble.readers, Measure::Work);
    }
}

/// No turn adds work: a turn either does exactly one step of the run, or
/// it finds its worker waiting or absent and changes nothing.
pub proof fn law_a_turn_does_one_step_or_nothing<T>(
    ensemble: Ensemble<T>,
    initial: T,
    revision: T,
    plan: Workload,
    turn: Turn,
)
    requires
        ensemble.coherent(initial, revision, plan),
    ensures
        ensemble.step(plan, revision, turn) == ensemble || ensemble.step(
            plan,
            revision,
            turn,
        ).steps_left(plan) + 1 == ensemble.steps_left(plan),
{
    let next = ensemble.step(plan, revision, turn);
    law_workers_can_always_step(ensemble, initial, revision, plan);
    lemma_steps_to_launch(plan, ensemble.readers.len());
    match turn {
        Turn::LaunchReader => {
            if ensemble.readers.len() < plan.readers {
                lemma_tally_push(
                    ensemble.readers,
                    Measure::Work,
                    ReaderView::starting(plan.cycles as nat),
                );
            }
        },
        Turn::LaunchWriter => {},
        Turn::Reader(number) => {
            if number < ensemble.readers.len() {
                let at = number as int;
                let reader = ensemble.readers[at];
                let moved = reader.after(ensemble.cell.lock);
                assert(reader.wf());
                lemma_tally_update(ensemble.readers, Measure::Work, at, moved);
                lemma_tally_counts(ensemble.readers, Measure::Work, at);
                if moved == reader {
                    assert(next.readers =~= ensemble.readers);
                    assert(next.cell == ensemble.cell);
                }
            }
        },
        Turn::Writer => {},
    }
}

/// No deadlock. While a step of the run is left, the willing turn does
/// one: some worker can always go on, whatever the others are waiting for.
pub proof fn law_some_turn_makes_progress<T>(
    ensemble: Ensemble<T>,
    initial: T,
    revision: T,
    plan: Workload,
)
    requires
        ensemble.coherent(initial, revision, plan),
        ensemble.steps_left(plan) > 0,
    ensures
        ensemble.step(plan, revision, ensemble.willing(plan)).steps_left(plan) + 1
            == ensemble.steps_left(plan),
        ensemble.step(plan, revision, ensemble.willing(plan)).coherent(initial, revision, plan),
{
    let turn = ensemble.willing(plan);
    let next = ensemble.step(plan, revision, turn);
    law_turn_keeps_coherence(ensemble, initial, revision, plan, turn);
    law_workers_can_always_step(ensemble, initial, revision, plan);
    lemma_steps_to_launch(plan, ensemble.readers.len());
    if ensemble.readers.len() < plan.readers {
        lemma_tally_push(ensemble.readers, Measure::Work, ReaderView::starting(plan.cycles as nat));
    } else if ensemble.writer is None {
    } else if ensemble.writer->0.holding {
    } else if tally(ensemble.readers, Measure::Guards) > 0 {
        lemma_tally_has_a_witness(ensemble.readers, Measure::Guards);
        let at = first_with(ensemble.readers, Measure::Guards) as int;
        let reader = ensemble.readers[at];
        assert(reader.wf());
        lemma_tally_update(ensemble.readers, Measure::Work, at, reader.after(ensemble.cell.lock));
        lemma_tally_counts(ensemble.readers, Measure::Work, at);
    } else if ensemble.writer->0.attached {
    } else {
        lemma_tally_has_a_witness(ensemble.readers, Measure::Work);
        let at = first_with(ensemble.readers, Measure::Work) as int;
        let reader = ensemble.readers[at];
        assert(reader.wf());
        assert(READER_LIMIT > 0);
        lemma_tally_update(ensemble.readers, Measure::Work, at, reader.after(ensemble.cell.lock));
        lemma_tally_counts(ensemble.readers, Measure::Work, at);
    }
}

/// Carrying on with willing turns is running the willing schedule.
pub proof fn lemma_carry_on_is_a_run<T>(
    ensemble: Ensemble<T>,
    plan: Workload,
    revision: T,
    turns: nat,
)
    ensures
        ensemble.willing_schedule(plan, revision, turns).len() == turns,
        ensemble.run(plan, revision, ensemble.willing_schedule(plan, revision, turns))
            == ensemble.carry_on(plan, revision, turns),
    decreases turns,
{
    if turns > 0 {
        let turn = ensemble.willing(plan);
        let next = ensemble.step(plan, revision, turn);
        let rest = next.willing_schedule(plan, revision, (turns - 1) as nat);
        lemma_carry_on_is_a_run(next, plan, revision, (turns - 1) as nat);
        lemma_run_splits(ensemble, plan, revision, seq![turn], rest);
        assert(ensemble.run(plan, revision, seq![turn]) == next) by {
            assert(seq![turn].drop_last() =~= Seq::<Turn>::empty());
            assert(seq![turn].last() == turn);
            assert(ensemble.run(plan, revision, Seq::<Turn>::empty()) == ensemble);
        }
    }
}

/// Running two schedules one after the other is running their
/// concatenation.
pub proof fn lemma_run_splits<T>(
    ensemble: Ensemble<T>,
    plan: Workload,
    revision: T,
    first: Seq<Turn>,
    second: Seq<Turn>,
)
    ensures
        ensemble.run(plan, revision, first + second) == ensemble.run(plan, revision, first).run(
            plan,
            revision,
            second,
        ),
    decreases second.len(),
{
    if second.len() == 0 {
        assert(first + second =~= first);
    } else {
        lemma_run_splits(ensemble, plan, revision, first, second.drop_last());
        assert((first + second).drop_last() =~= first + second.drop_last());
        assert((first + second).last() == second.last());
    }
}

/// Carrying on for as many turns as steps are left ends the run.
pub proof fn lemma_carrying_on_ends_the_run<T>(
    ensemble: Ensemble<T>,
    initial: T,
    revision: T,
    plan: Workload,
)
    requires
        ensemble.coherent(initial, revision, plan),
    ensures
        ensemble.carry_on(plan, revision, ensemble.steps_left(plan)).coherent(
            initial,
            revision,
            plan,
        ),
        ensemble.carry_on(plan, revision, ensemble.steps_left(plan)).all_joined(plan),
    decreases ensemble.steps_left(plan),
{
    let left = ensemble.steps_left(plan);
    if left == 0 {
        law_no_steps_left_means_joined(ensemble, initial, revision, plan);
    } else {
        law_some_turn_makes_progress(ensemble, initial, revision, plan);
        lemma_carrying_on_ends_the_run(
            ensemble.step(plan, revision, ensemble.willing(plan)),
            initial,
            revision,
            plan,
        );
    }
}

/// Every run can be brought to its end, and then shows the revision. From
/// whatever a schedule has led to, the willing schedule of as many turns as
/// steps are left leads on to where every worker can be joined: no worker
/// waits for ever, the writer included, and the verification read that
/// follows is granted and sees the revision.
pub proof fn law_every_run_can_finish<T>(
    initial: T,
    revision: T,
    plan: Workload,
    schedule: Seq<Turn>,
)
    ensures
        ({
            let reached = Ensemble::opening(initial).run(plan, revision, schedule);
            let rest = reached.willing_schedule(plan, revision, reached.steps_left(plan));
            let end = Ensemble::opening(initial).run(plan, revision, schedule + rest);
            &&& rest.len() == reached.steps_left(plan)
            &&& end.all_joined(plan)
            &&& end.cell.value == Some(revision)
            &&& end.cell.lock.read_admission() is Granted
        }),
{
    let opening = Ensemble::opening(initial);
    let reached = opening.run(plan, revision, schedule);
    let left = reached.steps_left(plan);
    let rest = reached.willing_schedule(plan, revision, left);
    law_every_schedule_is_coherent(initial, revision, plan, schedule);
    lemma_carrying_on_ends_the_run(reached, initial, revision, plan);
    lemma_carry_on_is_a_run(reached, plan, revision, left);
    lemma_run_splits(opening, plan, revision, schedule, rest);
    law_joined_ensemble_shows_the_revision(
        reached.carry_on(plan, revision, left),
        initial,
        revision,
        plan,
    );
}

/// The length of a run. From its opening, a run of `plan` has one step for
/// the launch of each worker, two for each read cycle, three for the write,
/// and one for each worker's exit.
pub proof fn law_length_of_a_run<T>(initial: T, plan: Workload)
    ensures
        Ensemble::opening(initial).steps_left(plan) == plan.readers * (2 * plan.cycles + 2) + 5,
{
    assert(Ensemble::opening(initial).readers.len() == 0);
}

} // verus!
