use shared_cell::lock::{Admission, LockMode, LockPoisoned, LockState, READER_LIMIT};

#[test]
fn new_lock_is_unlocked() {
    let lock = LockState::new();
    assert_eq!(lock.mode(), LockMode::Unlocked);
    assert_eq!(lock.reader_count(), 0);
    assert!(!lock.is_write_locked());
    assert!(lock.is_idle());
    assert_eq!(lock.poison(), None);
}

#[test]
fn readers_are_admitted_together() {
    let mut lock = LockState::new();
    assert_eq!(lock.try_read(), Admission::Granted);
    assert_eq!(lock.try_read(), Admission::Granted);
    assert_eq!(lock.try_read(), Admission::Granted);
    assert_eq!(lock.mode(), LockMode::ReadLocked(3));
    assert_eq!(lock.reader_count(), 3);
    assert!(!lock.is_idle());
}

#[test]
fn writer_waits_for_every_reader() {
    let mut lock = LockState::new();
    assert_eq!(lock.try_read(), Admission::Granted);
    assert_eq!(lock.try_read(), Admission::Granted);
    assert_eq!(lock.try_write(), Admission::Busy);
    assert_eq!(lock.mode(), LockMode::ReadLocked(2));
    lock.release_read();
    assert_eq!(lock.try_write(), Admission::Busy);
    assert_eq!(lock.mode(), LockMode::ReadLocked(1));
    lock.release_read();
    assert_eq!(lock.mode(), LockMode::Unlocked);
    assert_eq!(lock.try_write(), Admission::Granted);
    assert_eq!(lock.mode(), LockMode::WriteLocked);
}

#[test]
fn write_lock_turns_everyone_away() {
    let mut lock = LockState::new();
    assert_eq!(lock.try_write(), Admission::Granted);
    assert!(lock.is_write_locked());
    assert_eq!(lock.try_read(), Admission::Busy);
    assert_eq!(lock.try_write(), Admission::Busy);
    assert_eq!(lock.reader_count(), 0);
    assert_eq!(lock.mode(), LockMode::WriteLocked);
    lock.release_write();
    assert!(lock.is_idle());
    assert_eq!(lock.try_read(), Admission::Granted);
}

#[test]
fn readers_are_preferred_over_a_waiting_writer() {
    let mut lock = LockState::new();
    assert_eq!(lock.try_read(), Admission::Granted);
    assert_eq!(lock.try_write(), Admission::Busy);
    // the refused writer leaves no trace: another reader still gets in
    assert_eq!(lock.try_read(), Admission::Granted);
    assert_eq!(lock.reader_count(), 2);
}

#[test]
fn mutual_exclusion_holds_along_a_history() {
    let mut lock = LockState::new();
    let mut outstanding_reads: u64 = 0;
    let mut outstanding_writes: u64 = 0;
    // a fixed pseudo-random walk over attempts and releases
    let mut seed: u64 = 0x2545_f491_4f6c_dd1d;
    for _ in 0..2000 {
        seed ^= seed << 13;
        seed ^= seed >> 7;
        seed ^= seed << 17;
        match seed % 4 {
            0 => {
                if lock.try_read() == Admission::Granted {
                    outstanding_reads += 1;
                }
            }
            1 => {
                if lock.try_write() == Admission::Granted {
                    outstanding_writes += 1;
                }
            }
            2 => {
                if outstanding_reads > 0 {
                    lock.release_read();
                    outstanding_reads -= 1;
                }
            }
            _ => {
                if outstanding_writes > 0 {
                    lock.release_write();
                    outstanding_writes -= 1;
                }
            }
        }
        assert!(outstanding_writes <= 1);
        assert!(outstanding_writes == 0 || outstanding_reads == 0);
        assert_eq!(lock.reader_count(), outstanding_reads);
        assert_eq!(lock.is_write_locked(), outstanding_writes == 1);
    }
}

#[test]
fn lost_read_guard_poisons_the_lock() {
    let mut lock = LockState::new();
    assert_eq!(lock.try_read(), Admission::Granted);
    assert_eq!(lock.try_read(), Admission::Granted);
    lock.abandon_read();
    let report = LockPoisoned { mutation_interrupted: false };
    assert_eq!(lock.poison(), Some(report));
    assert_eq!(lock.reader_count(), 1);
    assert_eq!(lock.try_read(), Admission::Poisoned(report));
    assert_eq!(lock.try_write(), Admission::Poisoned(report));
    // the guard that was outstanding is still given back as usual
    lock.release_read();
    assert!(lock.is_idle());
    assert_eq!(lock.try_write(), Admission::Poisoned(report));
    assert_eq!(lock.mode(), LockMode::Unlocked);
}

#[test]
fn lost_write_guard_reports_the_interrupted_mutation() {
    let mut lock = LockState::new();
    assert_eq!(lock.try_write(), Admission::Granted);
    lock.abandon_write();
    let report = LockPoisoned { mutation_interrupted: true };
    assert!(lock.is_idle());
    assert_eq!(lock.poison(), Some(report));
    assert_eq!(lock.try_read(), Admission::Poisoned(report));
    assert_eq!(lock.try_write(), Admission::Poisoned(report));
}

#[test]
fn interrupted_mutation_stays_on_the_report() {
    let mut lock = LockState::new();
    assert_eq!(lock.try_read(), Admission::Granted);
    lock.release_read();
    assert_eq!(lock.try_write(), Admission::Granted);
    lock.abandon_write();
    assert_eq!(lock.poison(), Some(LockPoisoned { mutation_interrupted: true }));
    // nothing can be acquired any more, so nothing more can be lost
    assert_eq!(lock.try_read(), Admission::Poisoned(LockPoisoned { mutation_interrupted: true }));
    assert_eq!(lock.reader_count(), 0);
}

#[test]
fn lost_read_guard_after_another_keeps_the_report() {
    let mut lock = LockState::new();
    assert_eq!(lock.try_read(), Admission::Granted);
    assert_eq!(lock.try_read(), Admission::Granted);
    lock.abandon_read();
    lock.abandon_read();
    assert_eq!(lock.poison(), Some(LockPoisoned { mutation_interrupted: false }));
    assert!(lock.is_idle());
}

#[test]
fn reader_limit_is_the_largest_count() {
    assert_eq!(READER_LIMIT, u64::MAX);
}

#[test]
fn refused_attempts_change_nothing() {
    let mut lock = LockState::new();
    assert_eq!(lock.try_write(), Admission::Granted);
    let before = lock;
    assert_eq!(lock.try_read(), Admission::Busy);
    assert_eq!(lock, before);
    assert_eq!(lock.try_write(), Admission::Busy);
    assert_eq!(lock, before);
}

#[test]
fn acknowledged_poison_is_overlooked() {
    let mut lock = LockState::new();
    assert_eq!(lock.try_write(), Admission::Granted);
    lock.abandon_write();
    let report = LockPoisoned { mutation_interrupted: true };
    assert_eq!(lock.try_read(), Admission::Poisoned(report));
    // told, the context goes on regardless
    assert_eq!(lock.try_read_despite(report), Admission::Granted);
    assert_eq!(lock.try_read_despite(report), Admission::Granted);
    assert_eq!(lock.mode(), LockMode::ReadLocked(2));
    // the usual exclusion still holds
    assert_eq!(lock.try_write_despite(report), Admission::Busy);
    lock.release_read();
    lock.release_read();
    assert_eq!(lock.try_write_despite(report), Admission::Granted);
    assert_eq!(lock.try_read_despite(report), Admission::Busy);
    assert_eq!(lock.try_write_despite(report), Admission::Busy);
    lock.release_write();
    // and everyone who does not acknowledge is still refused
    assert_eq!(lock.try_read(), Admission::Poisoned(report));
    assert_eq!(lock.try_write(), Admission::Poisoned(report));
    assert_eq!(lock.poison(), Some(report));
}

#[test]
fn changed_report_is_news() {
    let mut lock = LockState::new();
    assert_eq!(lock.try_read(), Admission::Granted);
    lock.abandon_read();
    let first = LockPoisoned { mutation_interrupted: false };
    assert_eq!(lock.try_write(), Admission::Poisoned(first));
    assert_eq!(lock.try_write_despite(first), Admission::Granted);
    // the context that went on regardless is lost in turn
    lock.abandon_write();
    let second = LockPoisoned { mutation_interrupted: true };
    assert_eq!(lock.poison(), Some(second));
    // whoever acknowledges only the first report is told the second
    assert_eq!(lock.try_read_despite(first), Admission::Poisoned(second));
    assert_eq!(lock.try_write_despite(first), Admission::Poisoned(second));
    assert!(lock.is_idle());
    assert_eq!(lock.try_read_despite(second), Admission::Granted);
}

#[test]
fn acknowledging_on_a_clean_lock_is_a_plain_attempt() {
    let mut lock = LockState::new();
    let report = LockPoisoned { mutation_interrupted: true };
    assert_eq!(lock.try_read_despite(report), Admission::Granted);
    assert_eq!(lock.try_write_despite(report), Admission::Busy);
    lock.release_read();
    assert_eq!(lock.try_write_despite(report), Admission::Granted);
    assert_eq!(lock.try_read_despite(report), Admission::Busy);
    assert_eq!(lock.poison(), None);
}
