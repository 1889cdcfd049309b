use engine::order::stable_sort_order;
use engine::task::{
    last_narrated, narration_after, needs_start, watch_step, Narrator, Outcome, RunState,
    WatchStep,
};

fn lines(items: &[&str]) -> Vec<String> {
    items.iter().map(|s| s.to_string()).collect()
}

#[test]
fn the_newest_narrated_line_is_reported() {
    let log = lines(&[
        "Applying CraftBukkit Patches",
        "[INFO] Building Spigot-API",
        "Compiling Spigot & Spigot-API",
        "Patching net/minecraft/server/MinecraftServer.java",
    ]);
    assert_eq!(
        last_narrated(&log, Narrator::BuildSteps).as_deref(),
        Some("Compiling Spigot & Spigot-API")
    );
    assert_eq!(last_narrated(&log, Narrator::Silent), None);
    assert_eq!(last_narrated(&lines(&[]), Narrator::BuildSteps), None);
}

#[test]
fn an_overlong_line_is_never_narrated() {
    let long = format!("Compiling {}", "x".repeat(200));
    assert_eq!(last_narrated(&lines(&[&long]), Narrator::BuildSteps), None);
}

#[test]
fn only_a_clean_exit_succeeds() {
    assert!(Outcome::Exited(Some(0)).succeeded());
    assert!(!Outcome::Exited(Some(1)).succeeded());
    assert!(!Outcome::Exited(None).succeeded());
    assert!(!Outcome::TimedOut.succeeded());
}

#[test]
fn a_running_task_is_not_started_again() {
    assert!(!needs_start(Some(RunState::Running)));
    assert!(needs_start(Some(RunState::Exited)));
    assert!(needs_start(Some(RunState::Killed)));
    assert!(needs_start(None));
}

#[test]
fn a_watch_step_checks_cancel_then_deadline_then_status() {
    assert_eq!(watch_step(true, true, None, None), WatchStep::Cancel);
    assert_eq!(watch_step(false, true, Some(RunState::Running), None), WatchStep::TimeOut);
    assert_eq!(watch_step(false, false, None, None), WatchStep::Vanished);
    assert_eq!(watch_step(false, false, Some(RunState::Killed), None), WatchStep::Stopped);
    assert_eq!(
        watch_step(false, false, Some(RunState::Exited), Some(3)),
        WatchStep::Finished(Outcome::Exited(Some(3)))
    );
    assert_eq!(watch_step(false, false, Some(RunState::Running), None), WatchStep::Continue);
}

#[test]
fn narration_keeps_the_last_line_until_a_newer_one() {
    assert_eq!(narration_after(Some("a".into()), None), Some("a".to_string()));
    assert_eq!(narration_after(Some("a".into()), Some("b".into())), Some("b".to_string()));
    assert_eq!(narration_after(None, None), None);
}

#[test]
fn a_stable_order_keeps_ties_in_place() {
    assert_eq!(stable_sort_order(&vec![21, 8, 17, 8]), vec![1, 3, 2, 0]);
    assert_eq!(stable_sort_order(&vec![]), Vec::<usize>::new());
    assert_eq!(stable_sort_order(&vec![5, 5, 5]), vec![0, 1, 2]);
}
