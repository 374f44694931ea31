//! The shared cell: one value, the lock that arbitrates access to it, and the
//! count of handles that keep it alive.
//!
//! A [`SharedCell`] is the single place where the state of the cell lives.
//! Contexts never hold the value or the lock themselves; they hold tokens. A
//! [`SharedHandle`] stands for one counted reference, a [`ReadGuard`] or
//! [`WriteGuard`] for access that is currently held. Tokens cannot be copied
//! or made up, and giving one back consumes it.
//!
//! Each method is one atomic transition. Whoever shares a cell between
//! contexts serialises the calls, and lets a context that was told
//! [`Attempt::Busy`] wait until another one has released.

use vstd::prelude::*;
use crate::lock::{Admission, LockEvent, LockMode, LockPoisoned, LockState, LockView};

verus! {

/// The most handles one cell can have.
pub const HANDLE_LIMIT: u64 = 0xffff_ffff_ffff_ffff;

/// One thing that can happen to a cell.
pub enum CellEvent<T> {
    /// Something happens to the cell's lock.
    Lock(LockEvent),
    /// A handle is duplicated.
    Duplicate,
    /// A handle is dropped.
    DropHandle,
    /// The holder of the write guard replaces the value.
    Store(T),
}

/// A cell as a mathematical value. `value` is `None` once the last handle is
/// gone.
pub struct CellView<T> {
    pub value: Option<T>,
    pub lock: LockView,
    pub handles: nat,
}

impl<T> CellView<T> {
    /// A cell as [`SharedCell::create`] makes it: one handle, unlocked.
    pub open spec fn fresh(value: T) -> CellView<T> {
        CellView { value: Some(value), lock: LockView::unlocked(), handles: 1 }
    }

    /// The invariant of every cell: the lock is exclusive, the value is
    /// there exactly while a handle is, and no guard outlives the last handle.
    pub open spec fn wf(self) -> bool {
        &&& self.lock.exclusive()
        &&& self.handles > 0 <==> self.value is Some
        &&& self.handles == 0 ==> self.lock.idle()
    }

    /// Whether `event` can happen. Nothing happens to a cell without handles;
    /// the last handle cannot go while a guard borrowed through it is
    /// outstanding; only the holder of the write guard stores.
    pub open spec fn enabled(self, event: CellEvent<T>) -> bool {
        &&& self.handles > 0
        &&& match event {
            CellEvent::Lock(e) => self.lock.enabled(e),
            CellEvent::Duplicate => true,
            CellEvent::DropHandle => self.handles > 1 || self.lock.idle(),
            CellEvent::Store(_) => self.lock.writers > 0,
        }
    }

    /// The cell after `event`.
    pub open spec fn step(self, event: CellEvent<T>) -> CellView<T> {
        match event {
            CellEvent::Lock(e) => CellView { lock: self.lock.step(e), ..self },
            CellEvent::Duplicate => CellView { handles: self.handles + 1, ..self },
            CellEvent::DropHandle => CellView {
                handles: (self.handles - 1) as nat,
                value: if self.handles == 1 {
                    None
                } else {
                    self.value
                },
                ..self
            },
            CellEvent::Store(value) => CellView { value: Some(value), ..self },
        }
    }

    /// Whether `event` hands the value out of the cell: it is the drop of the
    /// last handle.
    pub open spec fn releases_value(self, event: CellEvent<T>) -> bool {
        event is DropHandle && self.handles == 1
    }

    /// The cell after the events of `trace`, in order.
    pub open spec fn run(self, trace: Seq<CellEvent<T>>) -> CellView<T>
        decreases trace.len(),
    {
        if trace.len() == 0 {
            self
        } else {
            self.run(trace.drop_last()).step(trace.last())
        }
    }

    /// Every event of `trace` can happen at the moment it does.
    pub open spec fn admits(self, trace: Seq<CellEvent<T>>) -> bool
        decreases trace.len(),
    {
        trace.len() > 0 ==> {
            &&& self.admits(trace.drop_last())
            &&& self.run(trace.drop_last()).enabled(trace.last())
        }
    }

    /// How many times the events of `trace` hand the value out of the cell.
    pub open spec fn released(self, trace: Seq<CellEvent<T>>) -> nat
        decreases trace.len(),
    {
        if trace.len() == 0 {
            0
        } else {
            let earlier = self.released(trace.drop_last());
            if self.run(trace.drop_last()).releases_value(trace.last()) {
                earlier + 1
            } else {
                earlier
            }
        }
    }
}

/// No event of `trace` replaces the value.
pub open spec fn stores_nothing<T>(trace: Seq<CellEvent<T>>) -> bool {
    forall|i: int| 0 <= i < trace.len() ==> !(#[trigger] trace[i] is Store)
}

/// Whether `event` is one that only the holder of the write guard can cause:
/// a store, the release of the write guard, or its loss.
pub open spec fn needs_write_guard<T>(event: CellEvent<T>) -> bool {
    match event {
        CellEvent::Store(_) => true,
        CellEvent::Lock(e) => e == LockEvent::ReleaseWrite || e == LockEvent::AbandonWrite,
        _ => false,
    }
}

/// No event of `trace` is one of the write guard's holder.
pub open spec fn leaves_writer_alone<T>(trace: Seq<CellEvent<T>>) -> bool {
    forall|i: int| 0 <= i < trace.len() ==> !needs_write_guard(#[trigger] trace[i])
}

/// `copies` duplications of a handle, then the drop of each duplicate.
pub open spec fn duplicate_then_drop<T>(copies: nat) -> Seq<CellEvent<T>> {
    Seq::new(copies, |i: int| CellEvent::Duplicate) + Seq::new(
        copies,
        |i: int| CellEvent::DropHandle,
    )
}

/// One event keeps the invariant of the cell.
pub proof fn law_step_keeps_wf<T>(cell: CellView<T>, event: CellEvent<T>)
    requires
        cell.wf(),
        cell.enabled(event),
    ensures
        cell.step(event).wf(),
{
}

/// A history keeps the invariant of the cell, and with it mutual exclusion.
pub proof fn law_run_keeps_wf<T>(cell: CellView<T>, trace: Seq<CellEvent<T>>)
    requires
        cell.wf(),
        cell.admits(trace),
    ensures
        cell.run(trace).wf(),
        cell.run(trace).lock.exclusive(),
    decreases trace.len(),
{
    if trace.len() > 0 {
        law_run_keeps_wf(cell, trace.drop_last());
        law_step_keeps_wf(cell.run(trace.drop_last()), trace.last());
    }
}

/// Running two histories one after the other is running their concatenation.
pub proof fn lemma_run_concat<T>(
    cell: CellView<T>,
    first: Seq<CellEvent<T>>,
    second: Seq<CellEvent<T>>,
)
    ensures
        cell.run(first + second) == cell.run(first).run(second),
        cell.admits(first + second) <==> cell.admits(first) && cell.run(first).admits(second),
    decreases second.len(),
{
    if second.len() == 0 {
        assert(first + second =~= first);
    } else {
        lemma_run_concat(cell, first, second.drop_last());
        assert((first + second).drop_last() =~= first + second.drop_last());
        assert((first + second).last() == second.last());
    }
}

/// A cell that has lost its last handle is gone for good: nothing can happen
/// to it any more, so its value cannot be handed out a second time.
pub proof fn law_nothing_after_last_drop<T>(cell: CellView<T>, event: CellEvent<T>)
    requires
        cell.handles == 0,
    ensures
        !cell.enabled(event),
{
}

/// Reference counting. Take a new cell and any history of its handles,
/// guards and stores. The value has been handed out of the cell exactly once
/// if no handle is left, and not at all while one is: it is never freed
/// early, never freed twice, and never leaked.
pub proof fn law_value_released_exactly_once<T>(value: T, trace: Seq<CellEvent<T>>)
    requires
        CellView::fresh(value).admits(trace),
    ensures
        CellView::fresh(value).run(trace).handles == 0 ==> CellView::fresh(value).released(trace)
            == 1,
        CellView::fresh(value).run(trace).handles > 0 ==> CellView::fresh(value).released(trace)
            == 0,
        CellView::fresh(value).run(trace).handles > 0 <==> CellView::fresh(value).run(
            trace,
        ).value is Some,
    decreases trace.len(),
{
    let cell = CellView::fresh(value);
    law_run_keeps_wf(cell, trace);
    if trace.len() > 0 {
        law_value_released_exactly_once(value, trace.drop_last());
    }
}

/// Duplicating never disturbs the cell. After `copies` duplications and the
/// drop of every duplicate, with no guard taken in between, the cell is
/// exactly what it was: the same value, the same lock, the same handles. A
/// read through the first handle is answered as it would have been before.
pub proof fn law_duplication_is_idempotent<T>(cell: CellView<T>, copies: nat)
    requires
        cell.wf(),
        cell.handles > 0,
    ensures
        cell.admits(duplicate_then_drop(copies)),
        cell.run(duplicate_then_drop(copies)) == cell,
        cell.run(duplicate_then_drop(copies)).lock.read_admission() == cell.lock.read_admission(),
        cell.run(duplicate_then_drop(copies)).value == cell.value,
{
    let up = Seq::new(copies, |i: int| CellEvent::<T>::Duplicate);
    let down = Seq::new(copies, |i: int| CellEvent::<T>::DropHandle);
    lemma_duplications(cell, copies);
    let top = cell.run(up);
    lemma_drops(top, copies);
    lemma_run_concat(cell, up, down);
    assert(cell.run(up + down) =~= cell);
}

/// `count` duplications add `count` handles and change nothing else.
proof fn lemma_duplications<T>(cell: CellView<T>, count: nat)
    requires
        cell.handles > 0,
    ensures
        cell.admits(Seq::new(count, |i: int| CellEvent::<T>::Duplicate)),
        cell.run(Seq::new(count, |i: int| CellEvent::<T>::Duplicate)) == (CellView {
            handles: cell.handles + count,
            ..cell
        }),
    decreases count,
{
    let trace = Seq::new(count, |i: int| CellEvent::<T>::Duplicate);
    if count > 0 {
        let shorter = Seq::new((count - 1) as nat, |i: int| CellEvent::<T>::Duplicate);
        lemma_duplications(cell, (count - 1) as nat);
        assert(trace.drop_last() =~= shorter);
    }
}

/// `count` drops from a cell with more than `count` handles take `count`
/// handles away and change nothing else.
proof fn lemma_drops<T>(cell: CellView<T>, count: nat)
    requires
        cell.handles > count,
    ensures
        cell.admits(Seq::new(count, |i: int| CellEvent::<T>::DropHandle)),
        cell.run(Seq::new(count, |i: int| CellEvent::<T>::DropHandle)) == (CellView {
            handles: (cell.handles - count) as nat,
            ..cell
        }),
    decreases count,
{
    let trace = Seq::new(count, |i: int| CellEvent::<T>::DropHandle);
    if count > 0 {
        let shorter = Seq::new((count - 1) as nat, |i: int| CellEvent::<T>::DropHandle);
        lemma_drops(cell, (count - 1) as nat);
        assert(trace.drop_last() =~= shorter);
    }
}

/// Only a store changes the value of a live cell: after a history without
/// stores that leaves a handle, the value is what it was.
pub proof fn law_value_is_stable<T>(cell: CellView<T>, trace: Seq<CellEvent<T>>)
    requires
        cell.admits(trace),
        stores_nothing(trace),
        cell.run(trace).handles > 0,
    ensures
        cell.run(trace).value == cell.value,
    decreases trace.len(),
{
    if trace.len() > 0 {
        let earlier = trace.drop_last();
        assert(forall|i: int| 0 <= i < earlier.len() ==> earlier[i] == trace[i]);
        assert(!(trace[trace.len() - 1] is Store));
        law_value_is_stable(cell, earlier);
    }
}

/// Visibility. The holder of the write guard stores `value` and releases the
/// guard. Whatever happens afterwards, short of another store: while a handle
/// is left the cell holds exactly `value`, and once every guard is back and
/// none was lost, a read is granted and sees it.
pub proof fn law_write_is_visible<T>(cell: CellView<T>, value: T, later: Seq<CellEvent<T>>)
    requires
        cell.wf(),
        cell.lock.writers == 1,
        stores_nothing(later),
        cell.step(CellEvent::Store(value)).step(CellEvent::Lock(LockEvent::ReleaseWrite)).admits(
            later,
        ),
        cell.step(CellEvent::Store(value)).step(CellEvent::Lock(LockEvent::ReleaseWrite)).run(
            later,
        ).handles > 0,
    ensures
        cell.enabled(CellEvent::Store(value)),
        cell.step(CellEvent::Store(value)).enabled(CellEvent::Lock(LockEvent::ReleaseWrite)),
        cell.step(CellEvent::Store(value)).step(CellEvent::Lock(LockEvent::ReleaseWrite)).run(
            later,
        ).value == Some(value),
        ({
            let end = cell.step(CellEvent::Store(value)).step(
                CellEvent::Lock(LockEvent::ReleaseWrite),
            ).run(later);
            end.lock.idle() && end.lock.poison is None ==> end.lock.read_admission() is Granted
        }),
{
    let written = cell.step(CellEvent::Store(value)).step(CellEvent::Lock(LockEvent::ReleaseWrite));
    law_value_is_stable(written, later);
}

/// No lost update. While the write guard is outstanding, nothing that other
/// contexts can do touches the cell's value or its lock: what the writer
/// stored is still there, whole, when the writer comes back, and the lock is
/// still the writer's alone.
pub proof fn law_no_lost_update<T>(cell: CellView<T>, value: T, meanwhile: Seq<CellEvent<T>>)
    requires
        cell.wf(),
        cell.lock.writers == 1,
        leaves_writer_alone(meanwhile),
        cell.step(CellEvent::Store(value)).admits(meanwhile),
    ensures
        cell.step(CellEvent::Store(value)).run(meanwhile).value == Some(value),
        cell.step(CellEvent::Store(value)).run(meanwhile).lock == cell.lock,
        cell.step(CellEvent::Store(value)).run(meanwhile).lock.writers == 1,
        cell.step(CellEvent::Store(value)).run(meanwhile).lock.readers == 0,
    decreases meanwhile.len(),
{
    let stored = cell.step(CellEvent::Store(value));
    if meanwhile.len() > 0 {
        let earlier = meanwhile.drop_last();
        assert(forall|i: int| 0 <= i < earlier.len() ==> earlier[i] == meanwhile[i]);
        assert(!needs_write_guard(meanwhile[meanwhile.len() - 1]));
        law_no_lost_update(cell, value, earlier);
        law_run_keeps_wf(stored, earlier);
    }
}

/// A counted reference to a cell. It cannot be copied: a second one comes
/// from [`SharedCell::duplicate`] only.
#[derive(Debug)]
pub struct SharedHandle {
    seal: (),
}

/// Proof of holding read access. Giving it back is the only way that access
/// ends.
#[derive(Debug)]
pub struct ReadGuard {
    seal: (),
}

/// Proof of holding write access, which also allows replacing the value.
/// Giving it back is the only way that access ends.
#[derive(Debug)]
pub struct WriteGuard {
    seal: (),
}

/// The answer to one attempt to take a guard.
#[derive(Debug)]
pub enum Attempt<G> {
    /// Access is held from now on; the guard proves it.
    Granted(G),
    /// Incompatible access is held elsewhere: wait for a release, then try
    /// again.
    Busy,
    /// The lock is poisoned: no access was granted.
    Poisoned(LockPoisoned),
}

impl<G> Attempt<G> {
    /// The answer without the guard.
    pub open spec fn admission(self) -> Admission {
        match self {
            Attempt::Granted(_) => Admission::Granted,
            Attempt::Busy => Admission::Busy,
            Attempt::Poisoned(report) => Admission::Poisoned(report),
        }
    }
}

/// A value shared by counted handles, with reader-writer arbitrated access.
pub struct SharedCell<T> {
    value: Option<T>,
    lock: LockState,
    handles: u64,
}

impl<T> View for SharedCell<T> {
    type V = CellView<T>;

    closed spec fn view(&self) -> CellView<T> {
        CellView {
            value: if self.handles > 0 {
                self.value
            } else {
                None
            },
            lock: self.lock@,
            handles: self.handles as nat,
        }
    }
}

impl<T> SharedCell<T> {
    #[verifier::type_invariant]
    spec fn consistent(&self) -> bool {
        &&& self.handles > 0 ==> self.value is Some
        &&& self.handles == 0 ==> self.lock@.idle()
        &&& self.lock@.exclusive()
    }

    /// Wraps `value`: the cell starts unlocked, with the one handle that is
    /// returned.
    pub fn create(value: T) -> (made: (SharedCell<T>, SharedHandle))
        ensures
            made.0@ == CellView::fresh(value),
            made.0@.wf(),
    {
        let lock = LockState::new();
        (SharedCell { value: Some(value), lock, handles: 1 }, SharedHandle { seal: () })
    }

    /// The number of live handles.
    pub fn handle_count(&self) -> (count: u64)
        ensures
            count == self@.handles,
            self@.wf(),
    {
        proof {
            use_type_invariant(self);
        }
        self.handles
    }

    /// The number of outstanding read guards.
    pub fn reader_count(&self) -> (count: u64)
        ensures
            count == self@.lock.readers,
    {
        self.lock.reader_count()
    }

    /// Whether the write guard is outstanding.
    pub fn is_write_locked(&self) -> (locked: bool)
        ensures
            locked == (self@.lock.writers == 1),
            self@.lock.exclusive(),
    {
        self.lock.is_write_locked()
    }

    /// The mode of the cell's lock.
    pub fn lock_mode(&self) -> (mode: LockMode)
        ensures
            mode == self@.lock.mode(),
            self@.lock.exclusive(),
    {
        self.lock.mode()
    }

    /// The poison report, if a guard has been lost.
    pub fn poison(&self) -> (report: Option<LockPoisoned>)
        ensures
            report == self@.lock.poison,
    {
        self.lock.poison()
    }

    /// Whether a handle can be duplicated: the cell is alive and below the
    /// handle limit.
    pub fn can_duplicate(&self) -> (allowed: bool)
        ensures
            allowed == (0 < self@.handles < HANDLE_LIMIT),
    {
        0 < self.handles && self.handles < HANDLE_LIMIT
    }

    /// Whether a handle can be dropped: it is not the last one, or no guard
    /// is outstanding.
    pub fn can_drop_handle(&self) -> (allowed: bool)
        ensures
            allowed == self@.enabled(CellEvent::DropHandle),
    {
        self.handles > 1 || (self.handles == 1 && self.lock.is_idle())
    }

    /// Makes one more handle to the same cell. Nothing but the count changes.
    pub fn duplicate(&mut self, handle: &SharedHandle) -> (copy: SharedHandle)
        requires
            0 < old(self)@.handles < HANDLE_LIMIT,
        ensures
            final(self)@ == old(self)@.step(CellEvent::Duplicate),
            final(self)@.wf(),
    {
        proof {
            use_type_invariant(&*self);
        }
        self.handles = self.handles + 1;
        SharedHandle { seal: () }
    }

    /// Gives a handle back. The drop of the last handle ends the cell and
    /// hands its value out; every other drop returns `None`.
    pub fn drop_handle(&mut self, handle: SharedHandle) -> (released: Option<T>)
        requires
            old(self)@.enabled(CellEvent::DropHandle),
        ensures
            final(self)@ == old(self)@.step(CellEvent::DropHandle),
            final(self)@.wf(),
            released == (if old(self)@.releases_value(CellEvent::DropHandle) {
                old(self)@.value
            } else {
                None
            }),
    {
        proof {
            use_type_invariant(&*self);
        }
        self.handles = self.handles - 1;
        let mut released: Option<T> = None;
        if self.handles == 0 {
            core::mem::swap(&mut self.value, &mut released);
        }
        released
    }

    /// Asks for read access through `handle`. See [`LockView::read_admission`]
    /// for when it is granted; only a grant changes the cell.
    pub fn acquire_read(&mut self, handle: &SharedHandle) -> (attempt: Attempt<ReadGuard>)
        requires
            old(self)@.handles > 0,
        ensures
            attempt.admission() == old(self)@.lock.read_admission(),
            final(self)@ == old(self)@.step(CellEvent::Lock(LockEvent::TryRead)),
            final(self)@.wf(),
    {
        proof {
            use_type_invariant(&*self);
        }
        let mut lock = self.lock;
        let admission = lock.try_read();
        self.lock = lock;
        match admission {
            Admission::Granted => Attempt::Granted(ReadGuard { seal: () }),
            Admission::Busy => Attempt::Busy,
            Admission::Poisoned(report) => Attempt::Poisoned(report),
        }
    }

    /// Asks for write access through `handle`. See
    /// [`LockView::write_admission`] for when it is granted; only a grant
    /// changes the cell.
    pub fn acquire_write(&mut self, handle: &SharedHandle) -> (attempt: Attempt<WriteGuard>)
        requires
            old(self)@.handles > 0,
        ensures
            attempt.admission() == old(self)@.lock.write_admission(),
            final(self)@ == old(self)@.step(CellEvent::Lock(LockEvent::TryWrite)),
            final(self)@.wf(),
    {
        proof {
            use_type_invariant(&*self);
        }
        let mut lock = self.lock;
        let admission = lock.try_write();
        self.lock = lock;
        match admission {
            Admission::Granted => Attempt::Granted(WriteGuard { seal: () }),
            Admission::Busy => Attempt::Busy,
            Admission::Poisoned(report) => Attempt::Poisoned(report),
        }
    }

    /// Asks for read access through `handle` on behalf of a context that has
    /// been told of `acknowledged` and goes on regardless, with degraded
    /// guarantees: the value may have been left half-updated. See
    /// [`LockView::read_admission_despite`] for the answer; only a grant
    /// changes the cell.
    pub fn acquire_read_despite(
        &mut self,
        handle: &SharedHandle,
        acknowledged: LockPoisoned,
    ) -> (attempt: Attempt<ReadGuard>)
        requires
            old(self)@.handles > 0,
        ensures
            attempt.admission() == old(self)@.lock.read_admission_despite(acknowledged),
            final(self)@ == old(self)@.step(
                CellEvent::Lock(LockEvent::TryReadDespite(acknowledged)),
            ),
            final(self)@.wf(),
    {
        proof {
            use_type_invariant(&*self);
        }
        let mut lock = self.lock;
        let admission = lock.try_read_despite(acknowledged);
        self.lock = lock;
        match admission {
            Admission::Granted => Attempt::Granted(ReadGuard { seal: () }),
            Admission::Busy => Attempt::Busy,
            Admission::Poisoned(report) => Attempt::Poisoned(report),
        }
    }

    /// Asks for write access through `handle` on behalf of a context that
    /// has been told of `acknowledged` and goes on regardless. See
    /// [`LockView::write_admission_despite`] for the answer; only a grant
    /// changes the cell.
    pub fn acquire_write_despite(
        &mut self,
        handle: &SharedHandle,
        acknowledged: LockPoisoned,
    ) -> (attempt: Attempt<WriteGuard>)
        requires
            old(self)@.handles > 0,
        ensures
            attempt.admission() == old(self)@.lock.write_admission_despite(acknowledged),
            final(self)@ == old(self)@.step(
                CellEvent::Lock(LockEvent::TryWriteDespite(acknowledged)),
            ),
            final(self)@.wf(),
    {
        proof {
            use_type_invariant(&*self);
        }
        let mut lock = self.lock;
        let admission = lock.try_write_despite(acknowledged);
        self.lock = lock;
        match admission {
            Admission::Granted => Attempt::Granted(WriteGuard { seal: () }),
            Admission::Busy => Attempt::Busy,
            Admission::Poisoned(report) => Attempt::Poisoned(report),
        }
    }

    /// The value, for the holder of a read guard.
    pub fn read(&self, guard: &ReadGuard) -> (value: &T)
        requires
            self@.lock.readers > 0,
        ensures
            self@.value == Some(*value),
    {
        proof {
            use_type_invariant(self);
        }
        self.value.as_ref().unwrap()
    }

    /// The value, for the holder of the write guard.
    pub fn current(&self, guard: &WriteGuard) -> (value: &T)
        requires
            self@.lock.writers > 0,
        ensures
            self@.value == Some(*value),
    {
        proof {
            use_type_invariant(self);
        }
        self.value.as_ref().unwrap()
    }

    /// Replaces the value, for the holder of the write guard. The lock and
    /// the handles are untouched.
    pub fn store(&mut self, guard: &WriteGuard, value: T)
        requires
            old(self)@.lock.writers > 0,
        ensures
            final(self)@ == old(self)@.step(CellEvent::Store(value)),
            final(self)@.value == Some(value),
            final(self)@.wf(),
    {
        proof {
            use_type_invariant(&*self);
        }
        self.value = Some(value);
    }

    /// Ends the read access that `guard` stands for.
    pub fn release_read(&mut self, guard: ReadGuard)
        requires
            old(self)@.lock.readers > 0,
        ensures
            final(self)@ == old(self)@.step(CellEvent::Lock(LockEvent::ReleaseRead)),
            final(self)@.wf(),
    {
        proof {
            use_type_invariant(&*self);
        }
        let mut lock = self.lock;
        lock.release_read();
        self.lock = lock;
    }

    /// Ends the write access that `guard` stands for.
    pub fn release_write(&mut self, guard: WriteGuard)
        requires
            old(self)@.lock.writers > 0,
        ensures
            final(self)@ == old(self)@.step(CellEvent::Lock(LockEvent::ReleaseWrite)),
            final(self)@.wf(),
    {
        proof {
            use_type_invariant(&*self);
        }
        let mut lock = self.lock;
        lock.release_write();
        self.lock = lock;
    }

    /// Records that the holder of `guard` terminated abnormally: its read
    /// access ends and the lock is poisoned.
    pub fn abandon_read(&mut self, guard: ReadGuard)
        requires
            old(self)@.lock.readers > 0,
        ensures
            final(self)@ == old(self)@.step(CellEvent::Lock(LockEvent::AbandonRead)),
            final(self)@.lock.poison is Some,
            final(self)@.wf(),
    {
        proof {
            use_type_invariant(&*self);
        }
        let mut lock = self.lock;
        lock.abandon_read();
        self.lock = lock;
    }

    /// Records that the holder of `guard` terminated abnormally: its write
    /// access ends and the lock is poisoned, with the report that a mutation
    /// was interrupted.
    pub fn abandon_write(&mut self, guard: WriteGuard)
        requires
            old(self)@.lock.writers > 0,
        ensures
            final(self)@ == old(self)@.step(CellEvent::Lock(LockEvent::AbandonWrite)),
            final(self)@.lock.poison == Some(LockPoisoned { mutation_interrupted: true }),
            final(self)@.wf(),
    {
        proof {
            use_type_invariant(&*self);
        }
        let mut lock = self.lock;
        lock.abandon_write();
        self.lock = lock;
    }
}

} // verus!
