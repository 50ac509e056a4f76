use lodestone_core::backup::{
    backup_dir_name, backup_name_for, BackupInstruction, BackupScheduler, SchedulerEvent, State,
};

fn tick(s: &mut BackupScheduler, state: State) -> bool {
    s.handle(SchedulerEvent::Tick(state))
}

fn send(s: &mut BackupScheduler, i: BackupInstruction) -> bool {
    s.handle(SchedulerEvent::Instruction(i))
}

#[test]
fn pause_drops_instructions() {
    let mut s = BackupScheduler::new(Some(10));
    let mut backups = 0;
    for i in [
        BackupInstruction::Pause,
        BackupInstruction::SetPeriod(Some(5)),
        BackupInstruction::BackupNow,
        BackupInstruction::Resume,
    ] {
        if send(&mut s, i) {
            backups += 1;
        }
    }
    assert_eq!(backups, 0);
    assert_eq!(s, BackupScheduler::new(Some(10)));
    // after Resume, instructions take effect again
    assert!(send(&mut s, BackupInstruction::BackupNow));
}

#[test]
fn ticks_are_ignored_while_paused() {
    let mut s = BackupScheduler::new(Some(1));
    send(&mut s, BackupInstruction::Pause);
    assert!(!tick(&mut s, State::Running));
    assert_eq!(s.counter, 0);
}

#[test]
fn one_backup_every_period() {
    let mut s = BackupScheduler::new(Some(3));
    let results: Vec<bool> = (0..3).map(|_| tick(&mut s, State::Running)).collect();
    assert_eq!(results, vec![false, false, true]);
    assert_eq!(s.counter, 0);
    let more: Vec<bool> = (0..6).map(|_| tick(&mut s, State::Running)).collect();
    assert_eq!(more.iter().filter(|b| **b).count(), 2);
}

#[test]
fn no_backup_while_stopped() {
    let mut s = BackupScheduler::new(Some(1));
    for state in [State::Stopped, State::Starting, State::Stopping] {
        for _ in 0..5 {
            assert!(!tick(&mut s, state));
        }
    }
    assert_eq!(s.counter, 0);
}

#[test]
fn set_period_keeps_counter() {
    let mut s = BackupScheduler::new(Some(5));
    tick(&mut s, State::Running);
    tick(&mut s, State::Running);
    assert!(!send(&mut s, BackupInstruction::SetPeriod(Some(3))));
    assert_eq!(s.counter, 2);
    assert!(tick(&mut s, State::Running));
    send(&mut s, BackupInstruction::SetPeriod(None));
    for _ in 0..10 {
        assert!(!tick(&mut s, State::Running));
    }
    // BackupNow works regardless of period and state
    assert!(send(&mut s, BackupInstruction::BackupNow));
    assert!(!send(&mut s, BackupInstruction::Resume));
}

#[test]
fn zero_period_backs_up_every_tick() {
    let mut s = BackupScheduler::new(Some(0));
    assert!(tick(&mut s, State::Running));
    assert!(tick(&mut s, State::Running));
}

#[test]
fn backup_directory_names() {
    assert_eq!(backup_name_for("x"), "backup-x");
    assert_eq!(backup_dir_name(1431648000).unwrap(), "backup-2015-05-15_00-00-00");
    assert_eq!(backup_dir_name(0).unwrap(), "backup-1970-01-01_00-00-00");
    assert!(backup_dir_name(i64::MAX).is_none());
}

#[test]
fn ticks_and_instructions_during_pause_are_dropped() {
    let mut s = BackupScheduler::new(Some(2));
    tick(&mut s, State::Running);
    let before = s;
    let mut backups = 0;
    let events = [
        SchedulerEvent::Instruction(BackupInstruction::Pause),
        SchedulerEvent::Tick(State::Running),
        SchedulerEvent::Instruction(BackupInstruction::SetPeriod(Some(5))),
        SchedulerEvent::Tick(State::Running),
        SchedulerEvent::Instruction(BackupInstruction::BackupNow),
        SchedulerEvent::Tick(State::Stopped),
        SchedulerEvent::Instruction(BackupInstruction::Resume),
    ];
    for e in events {
        if s.handle(e) {
            backups += 1;
        }
    }
    assert_eq!(backups, 0);
    assert_eq!(s, before);
}

#[test]
fn counter_stays_below_period() {
    let mut s = BackupScheduler::new(Some(3));
    let mut backups = 0;
    for n in 1..=10 {
        if tick(&mut s, State::Running) {
            backups += 1;
        }
        assert!(s.counter < 3);
        assert_eq!(backups, n / 3);
    }
}
