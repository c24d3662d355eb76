use screenshot_sorter::relocation::{
    relocation_step, Action, MoveOperation, Outcome, Phase, SAVE_TO, SETTLE_DELAY_SECS,
};

fn run(op: &MoveOperation, directory: Outcome, rename: Outcome) -> (Vec<Action>, Outcome) {
    let mut actions = Vec::new();
    let mut phase = Phase::Planned;
    let mut last = Outcome::Succeeded;
    for _ in 0..10 {
        let (next, action) = relocation_step(op, phase, last);
        actions.push(action);
        match action {
            Action::EnsureDirectory => last = directory,
            Action::RenameNow => last = rename,
            Action::RenameAfterDelay => last = Outcome::Succeeded,
            Action::Return(seen) => {
                assert_eq!(next, Phase::Finished(seen));
                return (actions, seen);
            }
        }
        phase = next;
    }
    panic!("the relocation did not finish");
}

#[test]
fn constants() {
    assert_eq!(SAVE_TO, "twitch-screenshots");
    assert_eq!(SETTLE_DELAY_SECS, 2);
}

#[test]
fn plan_reads_channel_and_keeps_name() {
    let op = MoveOperation::plan("channel_Sat-Jan-18-2025_1_06_05-PM.png", false);
    assert_eq!(op.file_name, "channel_Sat-Jan-18-2025_1_06_05-PM.png");
    assert_eq!(op.channel, "channel");
    assert!(!op.delayed);
}

#[test]
fn destination_is_below_the_channel() {
    let op = MoveOperation::plan("my_channel_name_Sat-Jan-18-2025_1_06_05-PM.png", false);
    assert_eq!(op.destination_dir(), vec!["twitch-screenshots", "my_channel_name"]);
    assert_eq!(
        op.destination_path(),
        vec![
            "twitch-screenshots",
            "my_channel_name",
            "my_channel_name_Sat-Jan-18-2025_1_06_05-PM.png"
        ]
    );
}

#[test]
fn duplicate_counter_stays_in_the_moved_name() {
    let name = "channel_Sat-Jan-18-2025_1_06_05-PM(1).png";
    let op = MoveOperation::plan(name, false);
    assert_eq!(op.file_name, name);
    assert_eq!(op.destination_path(), vec!["twitch-screenshots", "channel", name]);
}

#[test]
fn destination_does_not_depend_on_the_delay() {
    let name = "channel_Sat-Jan-18-2025_1_06_05-PM.png";
    let now = MoveOperation::plan(name, false);
    let later = MoveOperation::plan(name, true);
    assert_eq!(now.destination_dir(), later.destination_dir());
    assert_eq!(now.destination_path(), later.destination_path());
}

#[test]
fn planning_twice_gives_the_same_destination() {
    let name = "channel_Sat-Jan-18-2025_1_06_05-PM.png";
    let first = MoveOperation::plan(name, false);
    let second = MoveOperation::plan(name, false);
    assert_eq!(first.destination_path(), second.destination_path());
}

#[test]
fn only_a_delayed_move_waits() {
    let name = "channel_Sat-Jan-18-2025_1_06_05-PM.png";
    assert_eq!(MoveOperation::plan(name, true).settle_delay_secs(), 2);
    assert_eq!(MoveOperation::plan(name, false).settle_delay_secs(), 0);
}

#[test]
fn immediate_move_creates_then_renames() {
    let op = MoveOperation::plan("channel_Sat-Jan-18-2025_1_06_05-PM.png", false);
    let (actions, seen) = run(&op, Outcome::Succeeded, Outcome::Succeeded);
    assert_eq!(
        actions,
        vec![Action::EnsureDirectory, Action::RenameNow, Action::Return(Outcome::Succeeded)]
    );
    assert_eq!(seen, Outcome::Succeeded);
}

#[test]
fn immediate_move_reports_a_failed_rename() {
    let op = MoveOperation::plan("channel_Sat-Jan-18-2025_1_06_05-PM.png", false);
    let (actions, seen) = run(&op, Outcome::Succeeded, Outcome::Failed);
    assert_eq!(
        actions,
        vec![Action::EnsureDirectory, Action::RenameNow, Action::Return(Outcome::Failed)]
    );
    assert_eq!(seen, Outcome::Failed);
}

#[test]
fn failed_directory_ends_the_move() {
    for delayed in [false, true] {
        let op = MoveOperation::plan("channel_Sat-Jan-18-2025_1_06_05-PM.png", delayed);
        let (actions, seen) = run(&op, Outcome::Failed, Outcome::Succeeded);
        assert_eq!(actions, vec![Action::EnsureDirectory, Action::Return(Outcome::Failed)]);
        assert_eq!(seen, Outcome::Failed);
    }
}

#[test]
fn delayed_move_is_scheduled_and_reported_as_done() {
    let op = MoveOperation::plan("channel_Sat-Jan-18-2025_1_06_05-PM.png", true);
    let (actions, seen) = run(&op, Outcome::Succeeded, Outcome::Failed);
    assert_eq!(
        actions,
        vec![Action::EnsureDirectory, Action::RenameAfterDelay, Action::Return(Outcome::Succeeded)]
    );
    assert_eq!(seen, Outcome::Succeeded);
}

#[test]
fn delayed_move_ignores_what_is_reported_after_scheduling() {
    let op = MoveOperation::plan("channel_Sat-Jan-18-2025_1_06_05-PM.png", true);
    let next = relocation_step(&op, Phase::RenameRequested, Outcome::Failed);
    assert_eq!(next, (Phase::Finished(Outcome::Succeeded), Action::Return(Outcome::Succeeded)));
}

#[test]
fn first_step_does_not_look_at_the_outcome() {
    let op = MoveOperation::plan("channel_Sat-Jan-18-2025_1_06_05-PM.png", false);
    for last in [Outcome::Succeeded, Outcome::Failed] {
        assert_eq!(
            relocation_step(&op, Phase::Planned, last),
            (Phase::DirectoryRequested, Action::EnsureDirectory)
        );
    }
}

#[test]
fn finished_move_stays_finished() {
    let op = MoveOperation::plan("channel_Sat-Jan-18-2025_1_06_05-PM.png", false);
    for seen in [Outcome::Succeeded, Outcome::Failed] {
        for last in [Outcome::Succeeded, Outcome::Failed] {
            assert_eq!(
                relocation_step(&op, Phase::Finished(seen), last),
                (Phase::Finished(seen), Action::Return(seen))
            );
        }
    }
}
