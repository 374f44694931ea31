use shared_cell::cell::{Attempt, SharedCell, SharedHandle};
use shared_cell::config::AppConfig;
use shared_cell::coordinator::{
    AccessCoordinator, Completion, Directive, Exit, JoinFailure, Outcome, Worker, Workload,
};
use shared_cell::lock::{LockMode, LockPoisoned};
use shared_cell::worker::{Progress, ReaderTask, WriterTask};

/// Steps a reader that must be ready.
fn step_reader<T>(task: &mut ReaderTask, cell: &mut SharedCell<T>) -> Progress {
    assert!(task.can_step(cell));
    task.step(cell)
}

/// Steps a writer that must be ready.
fn step_writer<T>(task: &mut WriterTask<T>, cell: &mut SharedCell<T>) -> Progress {
    assert!(task.can_step(cell));
    task.step(cell)
}

/// The coordinator's verification read: acquire, copy, release.
fn verification_read(
    cell: &mut SharedCell<AppConfig>,
    owner: &SharedHandle,
) -> Result<AppConfig, LockPoisoned> {
    match cell.acquire_read(owner) {
        Attempt::Granted(guard) => {
            let seen = cell.read(&guard).snapshot();
            cell.release_read(guard);
            Ok(seen)
        }
        Attempt::Poisoned(report) => Err(report),
        Attempt::Busy => panic!("the verification read found the lock held"),
    }
}

/// Carries out a whole run in one context, in the order that the pauses of
/// `plan` give. With `reverse_rounds` the readers take their steps from the
/// last to the first. Returns what every reader saw, the outcome, and the cell
/// with the coordinator's handle.
fn run_workload(
    plan: Workload,
    reverse_rounds: bool,
) -> (Vec<Vec<AppConfig>>, Outcome<AppConfig>, SharedCell<AppConfig>, SharedHandle) {
    let (mut cell, owner) = SharedCell::create(AppConfig::default());
    let mut coordinator: AccessCoordinator<AppConfig> = AccessCoordinator::new(plan);
    let mut readers: Vec<ReaderTask> = Vec::new();
    let mut seen: Vec<Vec<AppConfig>> = Vec::new();
    let mut writer: Option<WriterTask<AppConfig>> = None;
    loop {
        match coordinator.directive() {
            Directive::Spawn(Worker::Reader(number)) => {
                assert_eq!(number as usize, readers.len());
                readers.push(ReaderTask::launch(&mut cell, &owner, plan.cycles));
                seen.push(Vec::new());
                assert!(coordinator.complete(Completion::Spawned));
            }
            Directive::Pause(millis) => {
                assert_eq!(millis, plan.writer_delay_ms);
                // while the coordinator pauses, every reader runs the cycles
                // that start before the pause is over
                let due = if plan.read_pause_ms == 0 {
                    plan.cycles
                } else {
                    std::cmp::min(plan.cycles, millis / plan.read_pause_ms + 1)
                };
                for _ in 0..due {
                    let order: Vec<usize> = if reverse_rounds {
                        (0..readers.len()).rev().collect()
                    } else {
                        (0..readers.len()).collect()
                    };
                    for &at in &order {
                        assert_eq!(step_reader(&mut readers[at], &mut cell), Progress::Acquired);
                    }
                    assert_eq!(cell.lock_mode(), LockMode::ReadLocked(readers.len() as u64));
                    for &at in &order {
                        seen[at].push(readers[at].observe(&cell).snapshot());
                        assert_eq!(step_reader(&mut readers[at], &mut cell), Progress::Released);
                    }
                }
                assert!(coordinator.complete(Completion::Paused));
            }
            Directive::Spawn(Worker::Writer) => {
                writer = Some(WriterTask::launch(&mut cell, &owner, AppConfig::upgraded()));
                assert!(coordinator.complete(Completion::Spawned));
            }
            Directive::Join(Worker::Reader(number)) => {
                let task = &mut readers[number as usize];
                while !task.has_exited() {
                    match step_reader(task, &mut cell) {
                        Progress::Acquired => {
                            seen[number as usize].push(task.observe(&cell).snapshot());
                        }
                        Progress::Released | Progress::Exited => {}
                        other => panic!("reader {} made no progress: {:?}", number, other),
                    }
                }
                assert!(coordinator.complete(Completion::Joined(Exit::Normal)));
            }
            Directive::Join(Worker::Writer) => {
                let task = writer.as_mut().expect("the writer was spawned");
                while !task.has_exited() {
                    match step_writer(task, &mut cell) {
                        Progress::Acquired | Progress::Stored | Progress::Released
                        | Progress::Exited => {}
                        other => panic!("the writer made no progress: {:?}", other),
                    }
                }
                assert!(coordinator.complete(Completion::Joined(Exit::Normal)));
            }
            Directive::Verify => {
                let verdict = verification_read(&mut cell, &owner);
                assert!(coordinator.complete(Completion::Verified(verdict)));
            }
            Directive::Finished => break,
        }
    }
    assert!(coordinator.is_finished());
    (seen, coordinator.conclude(), cell, owner)
}

#[test]
fn standard_workload_has_the_documented_shape() {
    let plan = Workload::standard();
    assert_eq!(plan.readers, 3);
    assert_eq!(plan.cycles, 2);
    assert_eq!(plan.read_pause_ms, 100);
    assert_eq!(plan.writer_delay_ms, 150);
}

#[test]
fn script_of_the_standard_workload() {
    let mut coordinator: AccessCoordinator<u8> = AccessCoordinator::new(Workload::standard());
    assert_eq!(coordinator.plan(), Workload::standard());
    let mut script = Vec::new();
    while !coordinator.is_finished() {
        let directive = coordinator.directive();
        script.push(directive);
        let news = match directive {
            Directive::Spawn(_) => Completion::Spawned,
            Directive::Pause(_) => Completion::Paused,
            Directive::Join(_) => Completion::Joined(Exit::Normal),
            Directive::Verify => Completion::Verified(Ok(0u8)),
            Directive::Finished => unreachable!(),
        };
        assert!(coordinator.complete(news));
    }
    assert_eq!(
        script,
        vec![
            Directive::Spawn(Worker::Reader(0)),
            Directive::Spawn(Worker::Reader(1)),
            Directive::Spawn(Worker::Reader(2)),
            Directive::Pause(150),
            Directive::Spawn(Worker::Writer),
            Directive::Join(Worker::Reader(0)),
            Directive::Join(Worker::Reader(1)),
            Directive::Join(Worker::Reader(2)),
            Directive::Join(Worker::Writer),
            Directive::Verify,
        ]
    );
    assert_eq!(coordinator.directive(), Directive::Finished);
}

#[test]
fn script_without_readers() {
    let plan = Workload { readers: 0, cycles: 5, read_pause_ms: 1, writer_delay_ms: 9 };
    let mut coordinator: AccessCoordinator<u8> = AccessCoordinator::new(plan);
    assert_eq!(coordinator.directive(), Directive::Pause(9));
    assert!(coordinator.complete(Completion::Paused));
    assert_eq!(coordinator.directive(), Directive::Spawn(Worker::Writer));
    assert!(coordinator.complete(Completion::Spawned));
    assert_eq!(coordinator.directive(), Directive::Join(Worker::Writer));
    assert!(coordinator.complete(Completion::Joined(Exit::Normal)));
    assert_eq!(coordinator.directive(), Directive::Verify);
    assert!(!coordinator.is_finished());
    assert!(coordinator.complete(Completion::Verified(Ok(3u8))));
    assert!(coordinator.is_finished());
    assert_eq!(coordinator.directive(), Directive::Finished);
    match coordinator.conclude() {
        Outcome::Verified { observed, failures } => {
            assert_eq!(observed, 3);
            assert!(failures.is_empty());
        }
        other => panic!("unexpected outcome {:?}", other),
    }
}

#[test]
fn news_of_another_directive_changes_nothing() {
    let mut coordinator: AccessCoordinator<u8> = AccessCoordinator::new(Workload::standard());
    assert_eq!(coordinator.directive(), Directive::Spawn(Worker::Reader(0)));
    assert!(!coordinator.complete(Completion::Paused));
    assert!(!coordinator.complete(Completion::Joined(Exit::Abnormal)));
    assert!(!coordinator.complete(Completion::Verified(Ok(1))));
    assert_eq!(coordinator.directive(), Directive::Spawn(Worker::Reader(0)));
    assert!(coordinator.failures().is_empty());
    assert!(coordinator.complete(Completion::Spawned));
    assert_eq!(coordinator.directive(), Directive::Spawn(Worker::Reader(1)));
}

#[test]
fn nothing_is_accepted_after_the_end() {
    let plan = Workload { readers: 0, cycles: 0, read_pause_ms: 0, writer_delay_ms: 0 };
    let mut coordinator: AccessCoordinator<u8> = AccessCoordinator::new(plan);
    assert!(coordinator.complete(Completion::Paused));
    assert!(coordinator.complete(Completion::Spawned));
    assert!(coordinator.complete(Completion::Joined(Exit::Normal)));
    assert!(coordinator.complete(Completion::Verified(Ok(7))));
    assert!(!coordinator.complete(Completion::Verified(Ok(8))));
    assert!(!coordinator.complete(Completion::Spawned));
    assert!(!coordinator.complete(Completion::Paused));
    assert!(!coordinator.complete(Completion::Joined(Exit::Normal)));
    match coordinator.conclude() {
        Outcome::Verified { observed, .. } => assert_eq!(observed, 7),
        other => panic!("unexpected outcome {:?}", other),
    }
}

#[test]
fn unfinished_run_has_no_outcome() {
    let mut coordinator: AccessCoordinator<u8> = AccessCoordinator::new(Workload::standard());
    assert!(coordinator.complete(Completion::Spawned));
    assert!(!coordinator.is_finished());
    assert!(matches!(coordinator.conclude(), Outcome::Unfinished));
    let fresh: AccessCoordinator<u8> = AccessCoordinator::new(Workload::standard());
    assert!(matches!(fresh.conclude(), Outcome::Unfinished));
}

#[test]
fn abnormal_exits_are_noted_and_not_fatal() {
    let plan = Workload { readers: 2, cycles: 1, read_pause_ms: 0, writer_delay_ms: 0 };
    let mut coordinator: AccessCoordinator<u32> = AccessCoordinator::new(plan);
    assert!(coordinator.complete(Completion::Spawned));
    assert!(coordinator.complete(Completion::Spawned));
    assert!(coordinator.complete(Completion::Paused));
    assert!(coordinator.complete(Completion::Spawned));
    assert_eq!(coordinator.directive(), Directive::Join(Worker::Reader(0)));
    assert!(coordinator.complete(Completion::Joined(Exit::Normal)));
    assert!(coordinator.complete(Completion::Joined(Exit::Abnormal)));
    assert_eq!(coordinator.failures(), &vec![JoinFailure { worker: Worker::Reader(1) }]);
    assert_eq!(coordinator.directive(), Directive::Join(Worker::Writer));
    assert!(coordinator.complete(Completion::Joined(Exit::Abnormal)));
    assert_eq!(coordinator.directive(), Directive::Verify);
    assert!(coordinator.complete(Completion::Verified(Ok(11))));
    match coordinator.conclude() {
        Outcome::Verified { observed, failures } => {
            assert_eq!(observed, 11);
            assert_eq!(
                failures,
                vec![
                    JoinFailure { worker: Worker::Reader(1) },
                    JoinFailure { worker: Worker::Writer },
                ]
            );
        }
        other => panic!("unexpected outcome {:?}", other),
    }
}

#[test]
fn refused_verification_read_fails_the_run() {
    let plan = Workload { readers: 1, cycles: 1, read_pause_ms: 0, writer_delay_ms: 0 };
    let mut coordinator: AccessCoordinator<u32> = AccessCoordinator::new(plan);
    assert!(coordinator.complete(Completion::Spawned));
    assert!(coordinator.complete(Completion::Paused));
    assert!(coordinator.complete(Completion::Spawned));
    assert!(coordinator.complete(Completion::Joined(Exit::Normal)));
    assert!(coordinator.complete(Completion::Joined(Exit::Abnormal)));
    let report = LockPoisoned { mutation_interrupted: true };
    assert!(coordinator.complete(Completion::Verified(Err(report))));
    match coordinator.conclude() {
        Outcome::Failed { report: seen, failures } => {
            assert_eq!(seen, report);
            assert_eq!(failures, vec![JoinFailure { worker: Worker::Writer }]);
        }
        other => panic!("unexpected outcome {:?}", other),
    }
}

#[test]
fn reader_runs_its_cycles_and_exits() {
    let (mut cell, owner) = SharedCell::create(5u32);
    let mut reader = ReaderTask::launch(&mut cell, &owner, 2);
    assert_eq!(cell.handle_count(), 2);
    assert_eq!(reader.cycles_left(), 2);
    assert!(!reader.is_holding());
    assert!(!reader.has_exited());
    assert_eq!(step_reader(&mut reader, &mut cell), Progress::Acquired);
    assert!(reader.is_holding());
    assert_eq!(*reader.observe(&cell), 5);
    assert_eq!(cell.lock_mode(), LockMode::ReadLocked(1));
    assert_eq!(step_reader(&mut reader, &mut cell), Progress::Released);
    assert_eq!(reader.cycles_left(), 1);
    assert_eq!(cell.lock_mode(), LockMode::Unlocked);
    assert_eq!(step_reader(&mut reader, &mut cell), Progress::Acquired);
    assert_eq!(step_reader(&mut reader, &mut cell), Progress::Released);
    assert_eq!(reader.cycles_left(), 0);
    assert_eq!(step_reader(&mut reader, &mut cell), Progress::Exited);
    assert!(reader.has_exited());
    assert_eq!(cell.handle_count(), 1);
    assert_eq!(step_reader(&mut reader, &mut cell), Progress::Gone);
    assert_eq!(step_reader(&mut reader, &mut cell), Progress::Gone);
    assert_eq!(cell.handle_count(), 1);
}

#[test]
fn reader_without_cycles_only_drops_its_handle() {
    let (mut cell, owner) = SharedCell::create(5u32);
    let mut reader = ReaderTask::launch(&mut cell, &owner, 0);
    assert_eq!(step_reader(&mut reader, &mut cell), Progress::Exited);
    assert_eq!(cell.handle_count(), 1);
    assert_eq!(cell.lock_mode(), LockMode::Unlocked);
}

#[test]
fn reader_waits_while_the_writer_holds() {
    let (mut cell, owner) = SharedCell::create(1u32);
    let mut reader = ReaderTask::launch(&mut cell, &owner, 1);
    let mut writer = WriterTask::launch(&mut cell, &owner, 2u32);
    assert_eq!(step_writer(&mut writer, &mut cell), Progress::Acquired);
    assert_eq!(step_reader(&mut reader, &mut cell), Progress::Busy);
    assert_eq!(reader.cycles_left(), 1);
    assert_eq!(step_writer(&mut writer, &mut cell), Progress::Stored);
    assert_eq!(step_reader(&mut reader, &mut cell), Progress::Busy);
    assert_eq!(step_writer(&mut writer, &mut cell), Progress::Released);
    assert_eq!(step_reader(&mut reader, &mut cell), Progress::Acquired);
    assert_eq!(*reader.observe(&cell), 2);
    assert_eq!(step_reader(&mut reader, &mut cell), Progress::Released);
}

#[test]
fn writer_waits_while_a_reader_holds() {
    let (mut cell, owner) = SharedCell::create(1u32);
    let mut reader = ReaderTask::launch(&mut cell, &owner, 1);
    let mut writer = WriterTask::launch(&mut cell, &owner, 2u32);
    assert_eq!(cell.handle_count(), 3);
    assert_eq!(step_reader(&mut reader, &mut cell), Progress::Acquired);
    assert_eq!(step_writer(&mut writer, &mut cell), Progress::Busy);
    assert_eq!(step_writer(&mut writer, &mut cell), Progress::Busy);
    assert!(!writer.is_holding());
    assert!(!writer.has_stored());
    assert_eq!(*reader.observe(&cell), 1);
    assert_eq!(step_reader(&mut reader, &mut cell), Progress::Released);
    assert_eq!(step_writer(&mut writer, &mut cell), Progress::Acquired);
    assert!(writer.is_holding());
    assert_eq!(step_writer(&mut writer, &mut cell), Progress::Stored);
    assert!(writer.has_stored());
    assert_eq!(step_writer(&mut writer, &mut cell), Progress::Released);
    assert_eq!(step_writer(&mut writer, &mut cell), Progress::Exited);
    assert!(writer.has_exited());
    assert_eq!(step_writer(&mut writer, &mut cell), Progress::Gone);
    assert_eq!(step_reader(&mut reader, &mut cell), Progress::Exited);
    assert_eq!(cell.handle_count(), 1);
    assert_eq!(cell.drop_handle(owner), Some(2));
}

#[test]
fn refused_reader_skips_the_cycle_and_goes_on() {
    let (mut cell, owner) = SharedCell::create(1u32);
    let mut reader = ReaderTask::launch(&mut cell, &owner, 2);
    let guard = match cell.acquire_write(&owner) {
        Attempt::Granted(guard) => guard,
        other => panic!("unexpected {:?}", other),
    };
    cell.abandon_write(guard);
    let report = LockPoisoned { mutation_interrupted: true };
    assert_eq!(step_reader(&mut reader, &mut cell), Progress::Refused(report));
    assert_eq!(reader.cycles_left(), 1);
    assert!(!reader.is_holding());
    assert_eq!(step_reader(&mut reader, &mut cell), Progress::Refused(report));
    assert_eq!(reader.cycles_left(), 0);
    assert_eq!(step_reader(&mut reader, &mut cell), Progress::Exited);
    assert_eq!(cell.handle_count(), 1);
}

#[test]
fn refused_writer_stores_nothing() {
    let (mut cell, owner) = SharedCell::create(1u32);
    let mut writer = WriterTask::launch(&mut cell, &owner, 2u32);
    let guard = match cell.acquire_read(&owner) {
        Attempt::Granted(guard) => guard,
        other => panic!("unexpected {:?}", other),
    };
    cell.abandon_read(guard);
    let report = LockPoisoned { mutation_interrupted: false };
    assert_eq!(step_writer(&mut writer, &mut cell), Progress::Refused(report));
    assert!(!writer.has_stored());
    assert!(!writer.is_holding());
    assert_eq!(step_writer(&mut writer, &mut cell), Progress::Exited);
    assert_eq!(step_writer(&mut writer, &mut cell), Progress::Gone);
    assert_eq!(cell.drop_handle(owner), Some(1));
}

#[test]
fn poisoned_run_fails_at_the_verification_read_only() {
    let plan = Workload { readers: 2, cycles: 1, read_pause_ms: 0, writer_delay_ms: 0 };
    let (mut cell, owner) = SharedCell::create(AppConfig::default());
    let mut coordinator: AccessCoordinator<AppConfig> = AccessCoordinator::new(plan);
    let mut first = ReaderTask::launch(&mut cell, &owner, plan.cycles);
    assert!(coordinator.complete(Completion::Spawned));
    let mut second = ReaderTask::launch(&mut cell, &owner, plan.cycles);
    assert!(coordinator.complete(Completion::Spawned));
    assert!(coordinator.complete(Completion::Paused));
    // the writer's context dies while it holds the write guard
    let lost = cell.duplicate(&owner);
    let guard = match cell.acquire_write(&lost) {
        Attempt::Granted(guard) => guard,
        other => panic!("unexpected {:?}", other),
    };
    cell.abandon_write(guard);
    assert!(cell.drop_handle(lost).is_none());
    assert!(coordinator.complete(Completion::Spawned));
    // the readers report the refusal and finish all the same
    let report = LockPoisoned { mutation_interrupted: true };
    assert_eq!(step_reader(&mut first, &mut cell), Progress::Refused(report));
    assert_eq!(step_reader(&mut first, &mut cell), Progress::Exited);
    assert!(coordinator.complete(Completion::Joined(Exit::Normal)));
    assert_eq!(step_reader(&mut second, &mut cell), Progress::Refused(report));
    assert_eq!(step_reader(&mut second, &mut cell), Progress::Exited);
    assert!(coordinator.complete(Completion::Joined(Exit::Normal)));
    assert!(coordinator.complete(Completion::Joined(Exit::Abnormal)));
    assert_eq!(coordinator.directive(), Directive::Verify);
    let verdict = verification_read(&mut cell, &owner);
    assert_eq!(verdict, Err(report));
    assert!(coordinator.complete(Completion::Verified(verdict)));
    match coordinator.conclude() {
        Outcome::Failed { report: seen, failures } => {
            assert_eq!(seen, report);
            assert_eq!(failures, vec![JoinFailure { worker: Worker::Writer }]);
        }
        other => panic!("unexpected outcome {:?}", other),
    }
}

#[test]
fn concrete_scenario_ends_with_the_upgraded_config() {
    let (seen, outcome, mut cell, owner) = run_workload(Workload::standard(), false);
    // each of the three readers ran its two cycles before the writer started
    assert_eq!(seen.len(), 3);
    for observations in &seen {
        assert_eq!(observations, &vec![AppConfig::default(), AppConfig::default()]);
    }
    match outcome {
        Outcome::Verified { observed, failures } => {
            assert_eq!(observed.app_name, "MySuperApp");
            assert_eq!(observed.max_connections, 200);
            assert!(observed.debug_mode);
            assert_eq!(observed, AppConfig::new("MySuperApp", 200, true));
            assert!(failures.is_empty());
        }
        other => panic!("unexpected outcome {:?}", other),
    }
    assert_eq!(cell.handle_count(), 1);
    assert_eq!(cell.lock_mode(), LockMode::Unlocked);
    assert_eq!(cell.poison(), None);
    assert_eq!(cell.drop_handle(owner), Some(AppConfig::upgraded()));
}

#[test]
fn concrete_scenario_in_another_order() {
    let (seen, outcome, cell, _owner) = run_workload(Workload::standard(), true);
    assert_eq!(seen.len(), 3);
    match outcome {
        Outcome::Verified { observed, failures } => {
            assert!(observed.same_as(&AppConfig::upgraded()));
            assert!(failures.is_empty());
        }
        other => panic!("unexpected outcome {:?}", other),
    }
    assert_eq!(cell.handle_count(), 1);
}

#[test]
fn readers_that_outlast_the_pause_see_the_upgrade() {
    // four cycles of 100 ms: two start before the writer does, two after
    let plan = Workload { readers: 2, cycles: 4, read_pause_ms: 100, writer_delay_ms: 150 };
    let (seen, outcome, _cell, _owner) = run_workload(plan, false);
    // reader 0 is joined, and so runs to its end, before the writer steps
    assert_eq!(seen[0].len(), 4);
    assert_eq!(seen[1].len(), 4);
    for observations in &seen {
        for observation in observations {
            // never a mixture of the two configurations
            assert!(
                observation.same_as(&AppConfig::default())
                    || observation.same_as(&AppConfig::upgraded())
            );
        }
    }
    match outcome {
        Outcome::Verified { observed, .. } => assert_eq!(observed, AppConfig::upgraded()),
        other => panic!("unexpected outcome {:?}", other),
    }
}

#[test]
fn every_interleaving_of_a_small_run_shows_the_revision() {
    // one reader with one cycle, one writer: all orders of their steps
    for choices in 0u32..(1 << 9) {
        let (mut cell, owner) = SharedCell::create(1u32);
        let mut reader = ReaderTask::launch(&mut cell, &owner, 1);
        let mut writer = WriterTask::launch(&mut cell, &owner, 2u32);
        let mut turn = 0;
        while !(reader.has_exited() && writer.has_exited()) {
            let pick_reader = if turn < 9 { (choices >> turn) & 1 == 0 } else { turn % 2 == 0 };
            turn += 1;
            if pick_reader {
                if step_reader(&mut reader, &mut cell) == Progress::Acquired {
                    let seen = *reader.observe(&cell);
                    assert!(seen == 1 || seen == 2);
                    assert_eq!(seen == 2, writer.has_stored());
                }
            } else {
                step_writer(&mut writer, &mut cell);
            }
            assert!(!(cell.is_write_locked() && cell.reader_count() > 0));
            assert!(turn < 200);
        }
        assert_eq!(cell.handle_count(), 1);
        assert_eq!(cell.lock_mode(), LockMode::Unlocked);
        match cell.acquire_read(&owner) {
            Attempt::Granted(guard) => {
                assert_eq!(*cell.read(&guard), 2);
                cell.release_read(guard);
            }
            other => panic!("verification read not granted: {:?}", other),
        }
    }
}

#[test]
fn writer_sees_its_own_store_before_it_releases() {
    let (mut cell, owner) = SharedCell::create(AppConfig::default());
    let mut writer = WriterTask::launch(&mut cell, &owner, AppConfig::upgraded());
    assert_eq!(step_writer(&mut writer, &mut cell), Progress::Acquired);
    assert_eq!(writer.observe(&cell), &AppConfig::default());
    assert_eq!(step_writer(&mut writer, &mut cell), Progress::Stored);
    assert_eq!(writer.observe(&cell), &AppConfig::upgraded());
    assert_eq!(step_writer(&mut writer, &mut cell), Progress::Released);
}

#[test]
fn aborted_reader_loses_its_guard_and_poisons() {
    let (mut cell, owner) = SharedCell::create(1u32);
    let mut lost = ReaderTask::launch(&mut cell, &owner, 3);
    let mut other = ReaderTask::launch(&mut cell, &owner, 3);
    assert_eq!(step_reader(&mut lost, &mut cell), Progress::Acquired);
    assert_eq!(step_reader(&mut other, &mut cell), Progress::Acquired);
    assert!(lost.may_abort(&cell));
    lost.abort(&mut cell);
    assert!(lost.has_exited());
    assert!(!lost.is_holding());
    assert_eq!(cell.handle_count(), 2);
    assert_eq!(cell.reader_count(), 1);
    let report = LockPoisoned { mutation_interrupted: false };
    assert_eq!(cell.poison(), Some(report));
    // the aborted reader takes no part any more
    assert_eq!(step_reader(&mut lost, &mut cell), Progress::Gone);
    // the other one finishes its cycle, and is refused from then on
    assert_eq!(*other.observe(&cell), 1);
    assert_eq!(step_reader(&mut other, &mut cell), Progress::Released);
    assert_eq!(step_reader(&mut other, &mut cell), Progress::Refused(report));
    assert_eq!(step_reader(&mut other, &mut cell), Progress::Refused(report));
    assert_eq!(step_reader(&mut other, &mut cell), Progress::Exited);
    assert_eq!(cell.handle_count(), 1);
}

#[test]
fn aborted_writer_reports_the_interrupted_mutation() {
    let (mut cell, owner) = SharedCell::create(1u32);
    let mut writer = WriterTask::launch(&mut cell, &owner, 2u32);
    assert_eq!(step_writer(&mut writer, &mut cell), Progress::Acquired);
    assert_eq!(step_writer(&mut writer, &mut cell), Progress::Stored);
    assert!(writer.may_abort(&cell));
    writer.abort(&mut cell);
    assert!(writer.has_exited());
    assert!(!cell.is_write_locked());
    assert_eq!(cell.handle_count(), 1);
    assert_eq!(cell.poison(), Some(LockPoisoned { mutation_interrupted: true }));
    assert_eq!(step_writer(&mut writer, &mut cell), Progress::Gone);
    match cell.acquire_read(&owner) {
        Attempt::Poisoned(report) => assert!(report.mutation_interrupted),
        other => panic!("unexpected {:?}", other),
    }
}

#[test]
fn abort_without_a_guard_only_drops_the_handle() {
    let (mut cell, owner) = SharedCell::create(1u32);
    let mut reader = ReaderTask::launch(&mut cell, &owner, 2);
    let mut writer = WriterTask::launch(&mut cell, &owner, 2u32);
    assert_eq!(cell.handle_count(), 3);
    assert!(reader.may_abort(&cell));
    reader.abort(&mut cell);
    assert!(writer.may_abort(&cell));
    writer.abort(&mut cell);
    assert_eq!(cell.handle_count(), 1);
    assert_eq!(cell.poison(), None);
    assert!(!writer.has_stored());
    // aborting again changes nothing
    assert!(reader.may_abort(&cell));
    reader.abort(&mut cell);
    assert_eq!(cell.handle_count(), 1);
    match cell.acquire_read(&owner) {
        Attempt::Granted(guard) => {
            assert_eq!(*cell.read(&guard), 1);
            cell.release_read(guard);
        }
        other => panic!("unexpected {:?}", other),
    }
}

#[test]
fn worker_that_outlives_the_coordinator_releases_the_value() {
    let (mut cell, owner) = SharedCell::create(1u32);
    let mut reader = ReaderTask::launch(&mut cell, &owner, 1);
    assert!(cell.can_drop_handle());
    assert!(cell.drop_handle(owner).is_none());
    assert_eq!(step_reader(&mut reader, &mut cell), Progress::Acquired);
    // the reader's handle is the last one, and its guard is out
    assert!(!cell.can_drop_handle());
    assert!(reader.may_abort(&cell));
    assert_eq!(step_reader(&mut reader, &mut cell), Progress::Released);
    assert!(cell.can_drop_handle());
    assert_eq!(step_reader(&mut reader, &mut cell), Progress::Exited);
    assert_eq!(cell.handle_count(), 0);
    assert!(!cell.can_duplicate());
    assert!(!cell.can_drop_handle());
}

#[test]
fn run_has_as_many_steps_as_its_plan_gives() {
    // one launch, two steps a cycle and one exit for each reader; one launch,
    // three steps and one exit for the writer
    let plan = Workload { readers: 4, cycles: 3, read_pause_ms: 0, writer_delay_ms: 0 };
    let (mut cell, owner) = SharedCell::create(0u32);
    let mut steps: u64 = 0;
    let mut readers: Vec<ReaderTask> = Vec::new();
    for _ in 0..plan.readers {
        readers.push(ReaderTask::launch(&mut cell, &owner, plan.cycles));
        steps += 1;
    }
    let mut writer = WriterTask::launch(&mut cell, &owner, 9u32);
    steps += 1;
    let mut round = 0;
    while !(writer.has_exited() && readers.iter().all(|reader| reader.has_exited())) {
        for reader in readers.iter_mut() {
            match step_reader(reader, &mut cell) {
                Progress::Busy | Progress::Gone => {}
                _ => steps += 1,
            }
        }
        match step_writer(&mut writer, &mut cell) {
            Progress::Busy | Progress::Gone => {}
            _ => steps += 1,
        }
        round += 1;
        assert!(round < 1000);
    }
    assert_eq!(steps, plan.readers * (2 * plan.cycles + 2) + 5);
    assert_eq!(cell.drop_handle(owner), Some(9));
}
