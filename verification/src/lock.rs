//! The reader-writer lock protocol.
//!
//! A lock is either unlocked, read-locked by one or more holders, or
//! write-locked by exactly one. Every change of mode is one call on
//! [`LockState`], so whoever serialises those calls gets transitions that are
//! atomic with respect to all contexts.
//!
//! # Admission policy
//!
//! The lock prefers readers. A read is granted whenever no write guard is
//! outstanding and the lock is not poisoned, whether or not a writer is
//! waiting. A write is granted only when nothing at all is outstanding. A
//! writer can therefore be kept waiting for as long as read guards overlap
//! without a gap; it is admitted at the first moment the lock is idle. Readers
//! never wait for other readers.
//!
//! # Poisoning
//!
//! A guard that is lost instead of released (its holder terminated abnormally)
//! poisons the lock for good. Every later attempt is refused with a
//! [`LockPoisoned`] report and grants nothing. Guards that were outstanding at
//! that moment stay valid and are released as usual.
//!
//! A context that has been told may go on regardless, with degraded
//! guarantees: it asks again and hands the report back. The lock then
//! overlooks that report, and only that one. If another guard was lost in
//! between and the report has changed, the context is told the new one.

use vstd::prelude::*;

verus! {

/// The most read guards that can be outstanding at once.
pub const READER_LIMIT: u64 = 0xffff_ffff_ffff_ffff;

/// Report that a guard holder was lost while it held the lock.
#[derive(Debug, Clone, Copy, PartialEq, Eq)]
pub struct LockPoisoned {
    /// A write guard was among the lost ones: the protected value may have
    /// been left half-updated.
    pub mutation_interrupted: bool,
}

/// The answer to one attempt to take the lock.
#[derive(Debug, Clone, Copy, PartialEq, Eq)]
pub enum Admission {
    /// The guard is now outstanding.
    Granted,
    /// Incompatible access is held elsewhere; try again after a release.
    Busy,
    /// The lock is poisoned; nothing was granted.
    Poisoned(LockPoisoned),
}

/// The mode a lock is in.
#[derive(Debug, Clone, Copy, PartialEq, Eq)]
pub enum LockMode {
    Unlocked,
    /// Read-locked, with the number of outstanding read guards (at least 1).
    ReadLocked(u64),
    WriteLocked,
}

/// One thing that can happen to a lock.
#[derive(Debug, Clone, Copy, PartialEq, Eq)]
pub enum LockEvent {
    /// A context asks for a read guard.
    TryRead,
    /// A context asks for the write guard.
    TryWrite,
    /// A context that was told of the given report asks for a read guard
    /// regardless.
    TryReadDespite(LockPoisoned),
    /// A context that was told of the given report asks for the write guard
    /// regardless.
    TryWriteDespite(LockPoisoned),
    /// A read guard is released by its holder.
    ReleaseRead,
    /// The write guard is released by its holder.
    ReleaseWrite,
    /// A read guard is lost: its holder terminated abnormally.
    AbandonRead,
    /// The write guard is lost: its holder terminated abnormally.
    AbandonWrite,
}

/// A lock as a mathematical value: how many guards of each kind are
/// outstanding, and the poison report if there is one.
pub struct LockView {
    pub readers: nat,
    pub writers: nat,
    pub poison: Option<LockPoisoned>,
}

impl LockView {
    /// A new lock: nothing outstanding, not poisoned.
    pub open spec fn unlocked() -> LockView {
        LockView { readers: 0, writers: 0, poison: None }
    }

    /// Mutual exclusion: at most one write guard is outstanding, and while
    /// one is, no read guard is.
    pub open spec fn exclusive(self) -> bool {
        &&& self.writers <= 1
        &&& self.writers == 1 ==> self.readers == 0
    }

    /// No guard of either kind is outstanding.
    pub open spec fn idle(self) -> bool {
        self.readers == 0 && self.writers == 0
    }

    /// The mode of a lock that satisfies [`LockView::exclusive`].
    pub open spec fn mode(self) -> LockMode {
        if self.writers > 0 {
            LockMode::WriteLocked
        } else if self.readers > 0 {
            LockMode::ReadLocked(self.readers as u64)
        } else {
            LockMode::Unlocked
        }
    }

    /// The answer to a request for a read guard.
    pub open spec fn read_admission(self) -> Admission {
        if self.poison is Some {
            Admission::Poisoned(self.poison->0)
        } else if self.writers > 0 || self.readers >= READER_LIMIT {
            Admission::Busy
        } else {
            Admission::Granted
        }
    }

    /// The answer to a request for the write guard.
    pub open spec fn write_admission(self) -> Admission {
        if self.poison is Some {
            Admission::Poisoned(self.poison->0)
        } else if !self.idle() {
            Admission::Busy
        } else {
            Admission::Granted
        }
    }

    /// Whether the lock carries a report other than `acknowledged`, of which
    /// its caller has therefore not been told.
    pub open spec fn has_news_for(self, acknowledged: LockPoisoned) -> bool {
        self.poison is Some && self.poison != Some(acknowledged)
    }

    /// The answer to a request for a read guard by a context that has been
    /// told of `acknowledged` and goes on regardless.
    pub open spec fn read_admission_despite(self, acknowledged: LockPoisoned) -> Admission {
        if self.has_news_for(acknowledged) {
            Admission::Poisoned(self.poison->0)
        } else if self.writers > 0 || self.readers >= READER_LIMIT {
            Admission::Busy
        } else {
            Admission::Granted
        }
    }

    /// The answer to a request for the write guard by a context that has
    /// been told of `acknowledged` and goes on regardless.
    pub open spec fn write_admission_despite(self, acknowledged: LockPoisoned) -> Admission {
        if self.has_news_for(acknowledged) {
            Admission::Poisoned(self.poison->0)
        } else if !self.idle() {
            Admission::Busy
        } else {
            Admission::Granted
        }
    }

    /// The report a lock carries once a guard has been lost while `writing`
    /// says whether that guard was the write guard.
    pub open spec fn poisoned_by(self, writing: bool) -> LockPoisoned {
        LockPoisoned {
            mutation_interrupted: writing || (self.poison is Some
                && self.poison->0.mutation_interrupted),
        }
    }

    /// Whether `event` can happen: a guard can only be released or lost
    /// while it is outstanding. Attempts can always be made.
    pub open spec fn enabled(self, event: LockEvent) -> bool {
        match event {
            LockEvent::TryRead | LockEvent::TryWrite => true,
            LockEvent::TryReadDespite(_) | LockEvent::TryWriteDespite(_) => true,
            LockEvent::ReleaseRead | LockEvent::AbandonRead => self.readers > 0,
            LockEvent::ReleaseWrite | LockEvent::AbandonWrite => self.writers > 0,
        }
    }

    /// The lock after `event`.
    pub open spec fn step(self, event: LockEvent) -> LockView {
        match event {
            LockEvent::TryRead => if self.read_admission() is Granted {
                LockView { readers: self.readers + 1, ..self }
            } else {
                self
            },
            LockEvent::TryWrite => if self.write_admission() is Granted {
                LockView { writers: self.writers + 1, ..self }
            } else {
                self
            },
            LockEvent::TryReadDespite(acknowledged) => if self.read_admission_despite(
                acknowledged,
            ) is Granted {
                LockView { readers: self.readers + 1, ..self }
            } else {
                self
            },
            LockEvent::TryWriteDespite(acknowledged) => if self.write_admission_despite(
                acknowledged,
            ) is Granted {
                LockView { writers: self.writers + 1, ..self }
            } else {
                self
            },
            LockEvent::ReleaseRead => LockView { readers: (self.readers - 1) as nat, ..self },
            LockEvent::ReleaseWrite => LockView { writers: (self.writers - 1) as nat, ..self },
            LockEvent::AbandonRead => LockView {
                readers: (self.readers - 1) as nat,
                poison: Some(self.poisoned_by(false)),
                ..self
            },
            LockEvent::AbandonWrite => LockView {
                writers: (self.writers - 1) as nat,
                poison: Some(self.poisoned_by(true)),
                ..self
            },
        }
    }

    /// The lock after the events of `trace`, in order.
    pub open spec fn run(self, trace: Seq<LockEvent>) -> LockView
        decreases trace.len(),
    {
        if trace.len() == 0 {
            self
        } else {
            self.run(trace.drop_last()).step(trace.last())
        }
    }

    /// Every event of `trace` can happen at the moment it does.
    pub open spec fn admits(self, trace: Seq<LockEvent>) -> bool
        decreases trace.len(),
    {
        trace.len() > 0 ==> {
            &&& self.admits(trace.drop_last())
            &&& self.run(trace.drop_last()).enabled(trace.last())
        }
    }
}

/// One event keeps mutual exclusion.
pub proof fn law_step_keeps_exclusion(lock: LockView, event: LockEvent)
    requires
        lock.exclusive(),
        lock.enabled(event),
    ensures
        lock.step(event).exclusive(),
{
}

/// A history that can happen stays one when it is cut short.
pub proof fn lemma_admits_prefix(lock: LockView, trace: Seq<LockEvent>, upto: int)
    requires
        lock.admits(trace),
        0 <= upto <= trace.len(),
    ensures
        lock.admits(trace.take(upto)),
    decreases trace.len(),
{
    if upto == trace.len() {
        assert(trace.take(upto) =~= trace);
    } else {
        lemma_admits_prefix(lock, trace.drop_last(), upto);
        assert(trace.drop_last().take(upto) =~= trace.take(upto));
    }
}

/// Mutual exclusion at the end of a history: whatever events have happened
/// to a lock that was exclusive, it still is.
pub proof fn lemma_run_keeps_exclusion(lock: LockView, trace: Seq<LockEvent>)
    requires
        lock.exclusive(),
        lock.admits(trace),
    ensures
        lock.run(trace).exclusive(),
    decreases trace.len(),
{
    if trace.len() > 0 {
        lemma_run_keeps_exclusion(lock, trace.drop_last());
        law_step_keeps_exclusion(lock.run(trace.drop_last()), trace.last());
    }
}

/// Mutual exclusion at every moment. Take a new lock and any history of
/// attempts, releases and losses in which guards are only released or lost
/// while outstanding. At every point `upto` of that history, the lock has at
/// most one write guard outstanding, and none while any read guard is.
pub proof fn law_mutual_exclusion(trace: Seq<LockEvent>, upto: int)
    requires
        LockView::unlocked().admits(trace),
        0 <= upto <= trace.len(),
    ensures
        LockView::unlocked().run(trace.take(upto)).exclusive(),
        LockView::unlocked().run(trace.take(upto)).writers > 0
            ==> LockView::unlocked().run(trace.take(upto)).readers == 0,
        LockView::unlocked().run(trace.take(upto)).writers <= 1,
{
    lemma_admits_prefix(LockView::unlocked(), trace, upto);
    lemma_run_keeps_exclusion(LockView::unlocked(), trace.take(upto));
}

/// While the write guard is outstanding every attempt is turned away and
/// changes nothing, whatever report it acknowledges, and there is no read
/// guard that could be released.
pub proof fn law_write_guard_excludes(lock: LockView, acknowledged: LockPoisoned)
    requires
        lock.exclusive(),
        lock.writers == 1,
    ensures
        !(lock.read_admission() is Granted),
        !(lock.write_admission() is Granted),
        !(lock.read_admission_despite(acknowledged) is Granted),
        !(lock.write_admission_despite(acknowledged) is Granted),
        lock.step(LockEvent::TryRead) == lock,
        lock.step(LockEvent::TryWrite) == lock,
        lock.step(LockEvent::TryReadDespite(acknowledged)) == lock,
        lock.step(LockEvent::TryWriteDespite(acknowledged)) == lock,
        !lock.enabled(LockEvent::ReleaseRead),
        !lock.enabled(LockEvent::AbandonRead),
{
}

/// Readers share: on a lock that is not poisoned, not write-locked and below
/// the reader limit, a read is granted however many read guards are
/// outstanding.
pub proof fn law_readers_share(lock: LockView)
    requires
        lock.poison is None,
        lock.writers == 0,
        lock.readers < READER_LIMIT,
    ensures
        lock.read_admission() is Granted,
        lock.step(LockEvent::TryRead).readers == lock.readers + 1,
{
}

/// Poison is for good: once a lock carries a report, every later attempt
/// that does not acknowledge one is refused, whatever happens in between.
pub proof fn law_poison_is_permanent(lock: LockView, trace: Seq<LockEvent>)
    requires
        lock.poison is Some,
    ensures
        lock.run(trace).poison is Some,
        lock.run(trace).read_admission() is Poisoned,
        lock.run(trace).write_admission() is Poisoned,
    decreases trace.len(),
{
    if trace.len() > 0 {
        law_poison_is_permanent(lock, trace.drop_last());
    }
}

/// Going on regardless is never silent, and never unsafe. An attempt that
/// acknowledges `acknowledged` is answered as a plain attempt would be on a
/// lock without poison, unless the lock carries another report, which it then
/// gives. On a lock that is not poisoned it is a plain attempt.
pub proof fn law_acknowledged_poison_is_overlooked(lock: LockView, acknowledged: LockPoisoned)
    ensures
        lock.poison is None ==> lock.read_admission_despite(acknowledged) == lock.read_admission(),
        lock.poison is None ==> lock.write_admission_despite(acknowledged)
            == lock.write_admission(),
        lock.poison == Some(acknowledged) ==> lock.read_admission_despite(acknowledged)
            == (LockView { poison: None, ..lock }).read_admission(),
        lock.poison == Some(acknowledged) ==> lock.write_admission_despite(acknowledged)
            == (LockView { poison: None, ..lock }).write_admission(),
        lock.has_news_for(acknowledged) ==> lock.read_admission_despite(acknowledged)
            == lock.read_admission(),
        lock.has_news_for(acknowledged) ==> lock.write_admission_despite(acknowledged)
            == lock.write_admission(),
{
}

/// The state of one reader-writer lock.
#[derive(Debug, Clone, Copy, PartialEq, Eq)]
pub struct LockState {
    readers: u64,
    writer: bool,
    poison: Option<LockPoisoned>,
}

impl View for LockState {
    type V = LockView;

    closed spec fn view(&self) -> LockView {
        LockView {
            readers: self.readers as nat,
            writers: if self.writer { 1 } else { 0 },
            poison: self.poison,
        }
    }
}

impl LockState {
    #[verifier::type_invariant]
    spec fn holds_exclusion(&self) -> bool {
        self.writer ==> self.readers == 0
    }

    /// An unlocked lock.
    pub fn new() -> (lock: LockState)
        ensures
            lock@ == LockView::unlocked(),
    {
        LockState { readers: 0, writer: false, poison: None }
    }

    /// The number of outstanding read guards.
    pub fn reader_count(&self) -> (count: u64)
        ensures
            count == self@.readers,
            self@.exclusive(),
    {
        proof {
            use_type_invariant(self);
        }
        self.readers
    }

    /// Whether the write guard is outstanding.
    pub fn is_write_locked(&self) -> (locked: bool)
        ensures
            locked == (self@.writers == 1),
            self@.exclusive(),
    {
        proof {
            use_type_invariant(self);
        }
        self.writer
    }

    /// Whether no guard is outstanding.
    pub fn is_idle(&self) -> (idle: bool)
        ensures
            idle == self@.idle(),
    {
        self.readers == 0 && !self.writer
    }

    /// The poison report, if a guard has been lost.
    pub fn poison(&self) -> (report: Option<LockPoisoned>)
        ensures
            report == self@.poison,
    {
        self.poison
    }

    /// The mode the lock is in. It is never write-locked and read-locked at
    /// once.
    pub fn mode(&self) -> (mode: LockMode)
        ensures
            mode == self@.mode(),
            self@.exclusive(),
    {
        proof {
            use_type_invariant(self);
        }
        if self.writer {
            LockMode::WriteLocked
        } else if self.readers > 0 {
            LockMode::ReadLocked(self.readers)
        } else {
            LockMode::Unlocked
        }
    }

    /// Asks for a read guard. It is granted unless the lock is poisoned,
    /// write-locked, or at the reader limit; only a grant changes the lock.
    pub fn try_read(&mut self) -> (admission: Admission)
        ensures
            admission == old(self)@.read_admission(),
            final(self)@ == old(self)@.step(LockEvent::TryRead),
            final(self)@.exclusive(),
    {
        proof {
            use_type_invariant(&*self);
        }
        match self.poison {
            Some(report) => Admission::Poisoned(report),
            None => {
                if self.writer || self.readers == READER_LIMIT {
                    Admission::Busy
                } else {
                    self.readers = self.readers + 1;
                    Admission::Granted
                }
            },
        }
    }

    /// Asks for the write guard. It is granted only when the lock is idle
    /// and not poisoned; only a grant changes the lock.
    pub fn try_write(&mut self) -> (admission: Admission)
        ensures
            admission == old(self)@.write_admission(),
            final(self)@ == old(self)@.step(LockEvent::TryWrite),
            final(self)@.exclusive(),
    {
        proof {
            use_type_invariant(&*self);
        }
        match self.poison {
            Some(report) => Admission::Poisoned(report),
            None => {
                if self.writer || self.readers > 0 {
                    Admission::Busy
                } else {
                    self.writer = true;
                    Admission::Granted
                }
            },
        }
    }

    /// Whether the lock carries a report other than `acknowledged`.
    fn news_for(&self, acknowledged: LockPoisoned) -> (news: Option<LockPoisoned>)
        ensures
            news is Some <==> self@.has_news_for(acknowledged),
            news is Some ==> news == self@.poison,
    {
        match self.poison {
            Some(report) => {
                if report.mutation_interrupted == acknowledged.mutation_interrupted {
                    None
                } else {
                    Some(report)
                }
            },
            None => None,
        }
    }

    /// Asks for a read guard on behalf of a context that has been told of
    /// `acknowledged` and goes on regardless. That report is overlooked; any
    /// other is given as the answer. Only a grant changes the lock.
    pub fn try_read_despite(&mut self, acknowledged: LockPoisoned) -> (admission: Admission)
        ensures
            admission == old(self)@.read_admission_despite(acknowledged),
            final(self)@ == old(self)@.step(LockEvent::TryReadDespite(acknowledged)),
            final(self)@.exclusive(),
    {
        proof {
            use_type_invariant(&*self);
        }
        match self.news_for(acknowledged) {
            Some(report) => Admission::Poisoned(report),
            None => {
                if self.writer || self.readers == READER_LIMIT {
                    Admission::Busy
                } else {
                    self.readers = self.readers + 1;
                    Admission::Granted
                }
            },
        }
    }

    /// Asks for the write guard on behalf of a context that has been told of
    /// `acknowledged` and goes on regardless. That report is overlooked; any
    /// other is given as the answer. Only a grant changes the lock.
    pub fn try_write_despite(&mut self, acknowledged: LockPoisoned) -> (admission: Admission)
        ensures
            admission == old(self)@.write_admission_despite(acknowledged),
            final(self)@ == old(self)@.step(LockEvent::TryWriteDespite(acknowledged)),
            final(self)@.exclusive(),
    {
        proof {
            use_type_invariant(&*self);
        }
        match self.news_for(acknowledged) {
            Some(report) => Admission::Poisoned(report),
            None => {
                if self.writer || self.readers > 0 {
                    Admission::Busy
                } else {
                    self.writer = true;
                    Admission::Granted
                }
            },
        }
    }

    /// Gives one read guard back.
    pub fn release_read(&mut self)
        requires
            old(self)@.readers > 0,
        ensures
            final(self)@ == old(self)@.step(LockEvent::ReleaseRead),
            final(self)@.exclusive(),
    {
        proof {
            use_type_invariant(&*self);
        }
        self.readers = self.readers - 1;
    }

    /// Gives the write guard back.
    pub fn release_write(&mut self)
        requires
            old(self)@.writers > 0,
        ensures
            final(self)@ == old(self)@.step(LockEvent::ReleaseWrite),
            final(self)@.idle(),
    {
        proof {
            use_type_invariant(&*self);
        }
        self.writer = false;
    }

    /// Records that a read guard was lost: the guard is gone and the lock is
    /// poisoned.
    pub fn abandon_read(&mut self)
        requires
            old(self)@.readers > 0,
        ensures
            final(self)@ == old(self)@.step(LockEvent::AbandonRead),
            final(self)@.exclusive(),
    {
        proof {
            use_type_invariant(&*self);
        }
        let interrupted: bool = match self.poison {
            Some(report) => report.mutation_interrupted,
            None => false,
        };
        self.readers = self.readers - 1;
        self.poison = Some(LockPoisoned { mutation_interrupted: interrupted });
    }

    /// Records that the write guard was lost: the guard is gone and the lock
    /// is poisoned, with the report that a mutation was interrupted.
    pub fn abandon_write(&mut self)
        requires
            old(self)@.writers > 0,
        ensures
            final(self)@ == old(self)@.step(LockEvent::AbandonWrite),
            final(self)@.idle(),
    {
        proof {
            use_type_invariant(&*self);
        }
        self.writer = false;
        self.poison = Some(LockPoisoned { mutation_interrupted: true });
    }
}

} // verus!
