//! The two kinds of worker context, as step machines.
//!
//! A worker owns one handle to the cell and runs a fixed programme against
//! it. Each call of `step` is one atomic action on the cell and tells the
//! caller what it did; between two steps the caller does whatever takes time:
//! it waits after [`Progress::Busy`], and pauses for the simulated work after
//! a read cycle. No guard is ever held across such a pause.
//!
//! A worker that is refused because the lock is poisoned reports it through
//! [`Progress::Refused`] and carries on with its programme; it never brings
//! the other workers down.
//!
//! A context that terminates abnormally takes no more steps. Its scope-exit
//! handler calls `abort` instead: a guard that the worker held is lost, which
//! poisons the lock, and the worker's handle is dropped.

use vstd::prelude::*;
use crate::cell::{
    Attempt, CellEvent, CellView, ReadGuard, SharedCell, SharedHandle, WriteGuard, HANDLE_LIMIT,
};
use crate::lock::{Admission, LockEvent, LockPoisoned, LockView};

verus! {

/// What one step of a worker did.
#[derive(Debug, Clone, Copy, PartialEq, Eq)]
pub enum Progress {
    /// The worker was granted access and now holds its guard.
    Acquired,
    /// Incompatible access is held elsewhere; nothing changed. Step again
    /// after another context has released.
    Busy,
    /// The lock is poisoned; the worker skips this access. For a reader the
    /// cycle is over, and its pause follows.
    Refused(LockPoisoned),
    /// The writer replaced the value.
    Stored,
    /// The worker gave its guard back. For a reader the cycle is over, and
    /// its pause follows.
    Released,
    /// The worker has finished its programme and dropped its handle.
    Exited,
    /// The worker had exited before; nothing happened.
    Gone,
}

/// A reader as a mathematical value.
pub struct ReaderView {
    /// Read cycles still to run.
    pub cycles_left: nat,
    /// Whether the reader holds a read guard.
    pub holding: bool,
    /// Whether the reader still has its handle.
    pub attached: bool,
}

impl ReaderView {
    /// A reader about to start `cycles` read cycles.
    pub open spec fn starting(cycles: nat) -> ReaderView {
        ReaderView { cycles_left: cycles, holding: false, attached: true }
    }

    /// The invariant of every reader: a guard is held only inside a cycle,
    /// through the reader's handle.
    pub open spec fn wf(self) -> bool {
        self.holding ==> self.attached && self.cycles_left > 0
    }

    /// The reader has dropped its handle.
    pub open spec fn exited(self) -> bool {
        !self.attached
    }

    /// What the reader's next step does to the cell, if anything: it gives
    /// back the guard it holds, or asks for one while cycles are left, or
    /// drops its handle when none is.
    pub open spec fn event<T>(self) -> Option<CellEvent<T>> {
        if self.holding {
            Some(CellEvent::Lock(LockEvent::ReleaseRead))
        } else if !self.attached {
            None
        } else if self.cycles_left > 0 {
            Some(CellEvent::Lock(LockEvent::TryRead))
        } else {
            Some(CellEvent::DropHandle)
        }
    }

    /// What the reader's next step reports, on a lock in state `lock`.
    pub open spec fn progress(self, lock: LockView) -> Progress {
        if self.holding {
            Progress::Released
        } else if !self.attached {
            Progress::Gone
        } else if self.cycles_left > 0 {
            match lock.read_admission() {
                Admission::Granted => Progress::Acquired,
                Admission::Busy => Progress::Busy,
                Admission::Poisoned(report) => Progress::Refused(report),
            }
        } else {
            Progress::Exited
        }
    }

    /// The reader after its next step, on a lock in state `lock`. A cycle is
    /// over when its guard is given back, or when it was refused.
    pub open spec fn after(self, lock: LockView) -> ReaderView {
        match self.progress(lock) {
            Progress::Acquired => ReaderView { holding: true, ..self },
            Progress::Released | Progress::Refused(_) => ReaderView {
                holding: false,
                cycles_left: (self.cycles_left - 1) as nat,
                ..self
            },
            Progress::Exited => ReaderView { attached: false, ..self },
            _ => self,
        }
    }

    /// How many steps the reader's programme still has, if it is never
    /// refused: an acquisition and a release for each cycle, and the drop of
    /// its handle.
    pub open spec fn steps_left(self) -> nat {
        if !self.attached {
            0
        } else if self.holding {
            2 * self.cycles_left
        } else {
            2 * self.cycles_left + 1
        }
    }

    /// The cell lets the reader take its next step.
    pub open spec fn ready<T>(self, cell: CellView<T>) -> bool {
        self.event::<T>() matches Some(event) ==> cell.enabled(event)
    }

    /// What the abnormal end of the reader's context does to its guard: a
    /// guard that is held is lost.
    pub open spec fn loss<T>(self) -> Option<CellEvent<T>> {
        if self.holding {
            Some(CellEvent::Lock(LockEvent::AbandonRead))
        } else {
            None
        }
    }

    /// What the abnormal end of the reader's context does to its handle: a
    /// handle that it still has is dropped.
    pub open spec fn detachment<T>(self) -> Option<CellEvent<T>> {
        if self.attached {
            Some(CellEvent::DropHandle)
        } else {
            None
        }
    }

    /// The cell lets the reader's context end abnormally: first the loss,
    /// then the detachment.
    pub open spec fn can_abort<T>(self, cell: CellView<T>) -> bool {
        &&& self.loss::<T>() matches Some(event) ==> cell.enabled(event)
        &&& self.detachment::<T>() matches Some(event) ==> cell_after(
            cell,
            self.loss(),
        ).enabled(event)
    }

    /// The reader after the abnormal end of its context.
    pub open spec fn aborted(self) -> ReaderView {
        ReaderView { holding: false, attached: false, ..self }
    }
}

/// A writer as a mathematical value.
pub struct WriterView<T> {
    /// The value still to be stored, until it has been.
    pub revision: Option<T>,
    /// Whether the writer holds the write guard.
    pub holding: bool,
    /// Whether the writer still has its handle.
    pub attached: bool,
    /// Whether the writer was refused by a poisoned lock.
    pub refused: bool,
}

impl<T> WriterView<T> {
    /// A writer about to install `revision`.
    pub open spec fn starting(revision: T) -> WriterView<T> {
        WriterView { revision: Some(revision), holding: false, attached: true, refused: false }
    }

    /// The invariant of every writer: the guard is held through the
    /// writer's handle, and never after a refusal.
    pub open spec fn wf(self) -> bool {
        self.holding ==> self.attached && !self.refused
    }

    /// The writer has dropped its handle.
    pub open spec fn exited(self) -> bool {
        !self.attached
    }

    /// The writer has stored its revision.
    pub open spec fn stored(self) -> bool {
        self.revision is None
    }

    /// What the writer's next step does to the cell, if anything: it asks
    /// for the write guard, then stores its revision, then gives the guard
    /// back, then drops its handle. After a refusal it drops its handle at
    /// once.
    pub open spec fn event(self) -> Option<CellEvent<T>> {
        if self.holding {
            match self.revision {
                Some(revision) => Some(CellEvent::Store(revision)),
                None => Some(CellEvent::Lock(LockEvent::ReleaseWrite)),
            }
        } else if !self.attached {
            None
        } else if self.revision is Some && !self.refused {
            Some(CellEvent::Lock(LockEvent::TryWrite))
        } else {
            Some(CellEvent::DropHandle)
        }
    }

    /// What the writer's next step reports, on a lock in state `lock`.
    pub open spec fn progress(self, lock: LockView) -> Progress {
        if self.holding {
            if self.revision is Some {
                Progress::Stored
            } else {
                Progress::Released
            }
        } else if !self.attached {
            Progress::Gone
        } else if self.revision is Some && !self.refused {
            match lock.write_admission() {
                Admission::Granted => Progress::Acquired,
                Admission::Busy => Progress::Busy,
                Admission::Poisoned(report) => Progress::Refused(report),
            }
        } else {
            Progress::Exited
        }
    }

    /// The writer after its next step, on a lock in state `lock`.
    pub open spec fn after(self, lock: LockView) -> WriterView<T> {
        match self.progress(lock) {
            Progress::Acquired => WriterView { holding: true, ..self },
            Progress::Refused(_) => WriterView { refused: true, ..self },
            Progress::Stored => WriterView { revision: None, ..self },
            Progress::Released => WriterView { holding: false, ..self },
            Progress::Exited => WriterView { attached: false, ..self },
            _ => self,
        }
    }

    /// How many steps the writer's programme still has, if it is not
    /// refused: the acquisition, the store, the release, and the drop of its
    /// handle.
    pub open spec fn steps_left(self) -> nat {
        if !self.attached {
            0
        } else if self.holding {
            if self.revision is Some {
                3
            } else {
                2
            }
        } else if self.revision is Some && !self.refused {
            4
        } else {
            1
        }
    }

    /// The cell lets the writer take its next step.
    pub open spec fn ready(self, cell: CellView<T>) -> bool {
        self.event() matches Some(event) ==> cell.enabled(event)
    }

    /// What the abnormal end of the writer's context does to its guard: a
    /// guard that is held is lost.
    pub open spec fn loss(self) -> Option<CellEvent<T>> {
        if self.holding {
            Some(CellEvent::Lock(LockEvent::AbandonWrite))
        } else {
            None
        }
    }

    /// What the abnormal end of the writer's context does to its handle: a
    /// handle that it still has is dropped.
    pub open spec fn detachment(self) -> Option<CellEvent<T>> {
        if self.attached {
            Some(CellEvent::DropHandle)
        } else {
            None
        }
    }

    /// The cell lets the writer's context end abnormally: first the loss,
    /// then the detachment.
    pub open spec fn can_abort(self, cell: CellView<T>) -> bool {
        &&& self.loss() matches Some(event) ==> cell.enabled(event)
        &&& self.detachment() matches Some(event) ==> cell_after(cell, self.loss()).enabled(event)
    }

    /// The writer after the abnormal end of its context. A revision that was
    /// not stored yet never will be.
    pub open spec fn aborted(self) -> WriterView<T> {
        WriterView { holding: false, attached: false, ..self }
    }
}

/// The cell after a worker's step that causes `event`, or none.
pub open spec fn cell_after<T>(cell: CellView<T>, event: Option<CellEvent<T>>) -> CellView<T> {
    match event {
        Some(event) => cell.step(event),
        None => cell,
    }
}

/// A reader context: it runs a number of read cycles, each one an
/// acquisition, an observation and a release, and then drops its handle.
#[derive(Debug)]
pub struct ReaderTask {
    cycles_left: u64,
    handle: Option<SharedHandle>,
    guard: Option<ReadGuard>,
}

impl View for ReaderTask {
    type V = ReaderView;

    closed spec fn view(&self) -> ReaderView {
        ReaderView {
            cycles_left: self.cycles_left as nat,
            holding: self.guard is Some,
            attached: self.handle is Some,
        }
    }
}

impl ReaderTask {
    #[verifier::type_invariant]
    spec fn consistent(&self) -> bool {
        self.guard is Some ==> self.handle is Some && self.cycles_left > 0
    }

    /// Starts a reader on `cell`: it gets a duplicate of `owner`, and has
    /// `cycles` read cycles before it.
    pub fn launch<T>(cell: &mut SharedCell<T>, owner: &SharedHandle, cycles: u64) -> (task:
        ReaderTask)
        requires
            0 < old(cell)@.handles < HANDLE_LIMIT,
        ensures
            final(cell)@ == old(cell)@.step(CellEvent::Duplicate),
            task@ == ReaderView::starting(cycles as nat),
            task@.wf(),
    {
        let handle = cell.duplicate(owner);
        ReaderTask { cycles_left: cycles, handle: Some(handle), guard: None }
    }

    /// Read cycles still to run.
    pub fn cycles_left(&self) -> (cycles: u64)
        ensures
            cycles == self@.cycles_left,
            self@.wf(),
    {
        proof {
            use_type_invariant(self);
        }
        self.cycles_left
    }

    /// Whether the reader holds a read guard.
    pub fn is_holding(&self) -> (holding: bool)
        ensures
            holding == self@.holding,
    {
        self.guard.is_some()
    }

    /// Whether the reader has dropped its handle.
    pub fn has_exited(&self) -> (exited: bool)
        ensures
            exited == self@.exited(),
    {
        self.handle.is_none()
    }

    /// Whether `cell` lets the reader take its next step.
    pub fn can_step<T>(&self, cell: &SharedCell<T>) -> (ready: bool)
        ensures
            ready == self@.ready(cell@),
    {
        proof {
            use_type_invariant(self);
        }
        if self.guard.is_some() {
            cell.handle_count() > 0 && cell.reader_count() > 0
        } else if self.handle.is_none() {
            true
        } else if self.cycles_left > 0 {
            cell.handle_count() > 0
        } else {
            cell.handle_count() > 1 || (cell.handle_count() == 1 && cell.reader_count() == 0
                && !cell.is_write_locked())
        }
    }

    /// The value, while the reader holds its guard.
    pub fn observe<'a, T>(&self, cell: &'a SharedCell<T>) -> (value: &'a T)
        requires
            self@.holding,
            cell@.lock.readers > 0,
        ensures
            cell@.value == Some(*value),
    {
        cell.read(self.guard.as_ref().unwrap())
    }

    /// One atomic action of the reader on `cell`; see [`ReaderView::event`]
    /// for which one it is.
    pub fn step<T>(&mut self, cell: &mut SharedCell<T>) -> (progress: Progress)
        requires
            old(self)@.ready(old(cell)@),
        ensures
            progress == old(self)@.progress(old(cell)@.lock),
            final(self)@ == old(self)@.after(old(cell)@.lock),
            final(cell)@ == cell_after(old(cell)@, old(self)@.event()),
            final(self)@.wf(),
    {
        proof {
            use_type_invariant(&*self);
        }
        if self.guard.is_some() {
            let mut held: Option<ReadGuard> = None;
            core::mem::swap(&mut self.guard, &mut held);
            cell.release_read(held.unwrap());
            self.cycles_left = self.cycles_left - 1;
            Progress::Released
        } else if self.handle.is_none() {
            Progress::Gone
        } else if self.cycles_left > 0 {
            match cell.acquire_read(self.handle.as_ref().unwrap()) {
                Attempt::Granted(guard) => {
                    self.guard = Some(guard);
                    Progress::Acquired
                },
                Attempt::Busy => Progress::Busy,
                Attempt::Poisoned(report) => {
                    self.cycles_left = self.cycles_left - 1;
                    Progress::Refused(report)
                },
            }
        } else {
            let mut owned: Option<SharedHandle> = None;
            core::mem::swap(&mut self.handle, &mut owned);
            let released = cell.drop_handle(owned.unwrap());
            Progress::Exited
        }
    }

    /// Whether `cell` lets the reader's context end abnormally.
    pub fn may_abort<T>(&self, cell: &SharedCell<T>) -> (allowed: bool)
        ensures
            allowed == self@.can_abort(cell@),
    {
        proof {
            use_type_invariant(self);
        }
        if self.guard.is_some() {
            // the last handle may go once the lost guard was the last one
            cell.handle_count() > 0 && cell.reader_count() > 0 && (cell.handle_count() > 1
                || cell.reader_count() == 1)
        } else if self.handle.is_some() {
            cell.handle_count() > 1 || (cell.handle_count() == 1 && cell.reader_count() == 0
                && !cell.is_write_locked())
        } else {
            true
        }
    }

    /// The abnormal end of the reader's context. A guard that it holds is
    /// lost, which poisons the lock; then its handle is dropped. The reader
    /// takes no part in anything afterwards.
    pub fn abort<T>(&mut self, cell: &mut SharedCell<T>)
        requires
            old(self)@.can_abort(old(cell)@),
        ensures
            final(cell)@ == cell_after(
                cell_after(old(cell)@, old(self)@.loss()),
                old(self)@.detachment(),
            ),
            old(self)@.holding ==> final(cell)@.lock.poison is Some,
            final(self)@ == old(self)@.aborted(),
            final(self)@.wf(),
    {
        proof {
            use_type_invariant(&*self);
        }
        let mut held: Option<ReadGuard> = None;
        core::mem::swap(&mut self.guard, &mut held);
        match held {
            Some(guard) => {
                cell.abandon_read(guard);
            },
            None => {},
        }
        let mut owned: Option<SharedHandle> = None;
        core::mem::swap(&mut self.handle, &mut owned);
        match owned {
            Some(handle) => {
                let released = cell.drop_handle(handle);
            },
            None => {},
        }
    }
}

/// The writer context: it performs one write, which replaces the value by
/// its revision under the write guard, and then drops its handle.
#[derive(Debug)]
pub struct WriterTask<T> {
    revision: Option<T>,
    handle: Option<SharedHandle>,
    guard: Option<WriteGuard>,
    refused: bool,
}

impl<T> View for WriterTask<T> {
    type V = WriterView<T>;

    closed spec fn view(&self) -> WriterView<T> {
        WriterView {
            revision: self.revision,
            holding: self.guard is Some,
            attached: self.handle is Some,
            refused: self.refused,
        }
    }
}

impl<T> WriterTask<T> {
    #[verifier::type_invariant]
    spec fn consistent(&self) -> bool {
        self.guard is Some ==> self.handle is Some && !self.refused
    }

    /// Starts the writer on `cell`: it gets a duplicate of `owner`, and will
    /// install `revision`.
    pub fn launch(cell: &mut SharedCell<T>, owner: &SharedHandle, revision: T) -> (task:
        WriterTask<T>)
        requires
            0 < old(cell)@.handles < HANDLE_LIMIT,
        ensures
            final(cell)@ == old(cell)@.step(CellEvent::Duplicate),
            task@ == WriterView::starting(revision),
            task@.wf(),
    {
        let handle = cell.duplicate(owner);
        WriterTask { revision: Some(revision), handle: Some(handle), guard: None, refused: false }
    }

    /// Whether the writer holds the write guard.
    pub fn is_holding(&self) -> (holding: bool)
        ensures
            holding == self@.holding,
            self@.wf(),
    {
        proof {
            use_type_invariant(self);
        }
        self.guard.is_some()
    }

    /// Whether the writer has stored its revision.
    pub fn has_stored(&self) -> (stored: bool)
        ensures
            stored == self@.stored(),
    {
        self.revision.is_none()
    }

    /// Whether the writer has dropped its handle.
    pub fn has_exited(&self) -> (exited: bool)
        ensures
            exited == self@.exited(),
    {
        self.handle.is_none()
    }

    /// The value, while the writer holds the write guard.
    pub fn observe<'a>(&self, cell: &'a SharedCell<T>) -> (value: &'a T)
        requires
            self@.holding,
            cell@.lock.writers > 0,
        ensures
            cell@.value == Some(*value),
    {
        cell.current(self.guard.as_ref().unwrap())
    }

    /// Whether `cell` lets the writer take its next step.
    pub fn can_step(&self, cell: &SharedCell<T>) -> (ready: bool)
        ensures
            ready == self@.ready(cell@),
    {
        proof {
            use_type_invariant(self);
        }
        if self.guard.is_some() {
            cell.handle_count() > 0 && cell.is_write_locked()
        } else if self.handle.is_none() {
            true
        } else if self.revision.is_some() && !self.refused {
            cell.handle_count() > 0
        } else {
            cell.handle_count() > 1 || (cell.handle_count() == 1 && cell.reader_count() == 0
                && !cell.is_write_locked())
        }
    }

    /// One atomic action of the writer on `cell`; see [`WriterView::event`]
    /// for which one it is.
    pub fn step(&mut self, cell: &mut SharedCell<T>) -> (progress: Progress)
        requires
            old(self)@.ready(old(cell)@),
        ensures
            progress == old(self)@.progress(old(cell)@.lock),
            final(self)@ == old(self)@.after(old(cell)@.lock),
            final(cell)@ == cell_after(old(cell)@, old(self)@.event()),
            final(self)@.wf(),
    {
        proof {
            use_type_invariant(&*self);
        }
        if self.guard.is_some() {
            if self.revision.is_some() {
                let mut pending: Option<T> = None;
                core::mem::swap(&mut self.revision, &mut pending);
                cell.store(self.guard.as_ref().unwrap(), pending.unwrap());
                Progress::Stored
            } else {
                let mut held: Option<WriteGuard> = None;
                core::mem::swap(&mut self.guard, &mut held);
                cell.release_write(held.unwrap());
                Progress::Released
            }
        } else if self.handle.is_none() {
            Progress::Gone
        } else if self.revision.is_some() && !self.refused {
            match cell.acquire_write(self.handle.as_ref().unwrap()) {
                Attempt::Granted(guard) => {
                    self.guard = Some(guard);
                    Progress::Acquired
                },
                Attempt::Busy => Progress::Busy,
                Attempt::Poisoned(report) => {
                    self.refused = true;
                    Progress::Refused(report)
                },
            }
        } else {
            let mut owned: Option<SharedHandle> = None;
            core::mem::swap(&mut self.handle, &mut owned);
            let released = cell.drop_handle(owned.unwrap());
            Progress::Exited
        }
    }

    /// Whether `cell` lets the writer's context end abnormally.
    pub fn may_abort(&self, cell: &SharedCell<T>) -> (allowed: bool)
        ensures
            allowed == self@.can_abort(cell@),
    {
        proof {
            use_type_invariant(self);
        }
        if self.guard.is_some() {
            cell.handle_count() > 0 && cell.is_write_locked()
        } else if self.handle.is_some() {
            cell.handle_count() > 1 || (cell.handle_count() == 1 && cell.reader_count() == 0
                && !cell.is_write_locked())
        } else {
            true
        }
    }

    /// The abnormal end of the writer's context. A guard that it holds is
    /// lost, which poisons the lock with the report that a mutation was
    /// interrupted; then its handle is dropped. A revision that was not
    /// stored yet is discarded.
    pub fn abort(&mut self, cell: &mut SharedCell<T>)
        requires
            old(self)@.can_abort(old(cell)@),
        ensures
            final(cell)@ == cell_after(
                cell_after(old(cell)@, old(self)@.loss()),
                old(self)@.detachment(),
            ),
            old(self)@.holding ==> final(cell)@.lock.poison == Some(
                LockPoisoned { mutation_interrupted: true },
            ),
            final(self)@ == old(self)@.aborted(),
            final(self)@.wf(),
    {
        proof {
            use_type_invariant(&*self);
        }
        let mut held: Option<WriteGuard> = None;
        core::mem::swap(&mut self.guard, &mut held);
        match held {
            Some(guard) => {
                cell.abandon_write(guard);
            },
            None => {},
        }
        let mut owned: Option<SharedHandle> = None;
        core::mem::swap(&mut self.handle, &mut owned);
        match owned {
            Some(handle) => {
                let released = cell.drop_handle(handle);
            },
            None => {},
        }
    }
}

} // verus!
