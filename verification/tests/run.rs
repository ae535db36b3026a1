use celemod::registry::{get_mod_cached_new, ModInfoCached, ModRegistry};
use celemod::mods::{LocalMod, ModDependency};
use celemod::run::DownloadRun;
use celemod::tasks::{DownloadInfo, DownloadStatus, RunState};

fn record(name: &str, id: i64) -> ModInfoCached {
    ModInfoCached {
        name: name.to_string(),
        version: "1.0.0".to_string(),
        game_banana_id: id,
        game_banana_file_id: id + 1000,
        download_url: format!("https://mods.example/{name}"),
    }
}

fn registry_of(records: Vec<ModInfoCached>) -> ModRegistry {
    get_mod_cached_new(Some(records), None)
}

fn dep(name: &str, version: &str) -> ModDependency {
    ModDependency { name: name.to_string(), version: version.to_string(), optional: false }
}

fn installed(name: &str, version: &str) -> LocalMod {
    LocalMod {
        game_banana_id: 77,
        name: name.to_string(),
        deps: vec![],
        version: version.to_string(),
        file: format!("{name}.zip"),
    }
}

fn statuses(tasks: &Vec<DownloadInfo>) -> Vec<(String, DownloadStatus)> {
    tasks.iter().map(|t| (t.name.clone(), t.status)).collect()
}

fn named(tasks: &Vec<DownloadInfo>, name: &str) -> usize {
    tasks.iter().filter(|t| t.name == name).count()
}

#[test]
fn a_new_run_has_the_requested_mod_waiting() {
    let run = DownloadRun::new("A".to_string(), "https://mods.example/A".to_string(), "mods", true);
    assert_eq!(run.state(), RunState::Pending);
    assert_eq!(run.cursor(), 0);
    assert!(run.scheduled_ids().is_empty());
    let tasks = run.tasks();
    assert_eq!(tasks.len(), 1);
    assert_eq!(tasks[0].name, "A");
    assert_eq!(tasks[0].url, "https://mods.example/A");
    assert_eq!(tasks[0].dest, "mods/A.zip");
    assert_eq!(tasks[0].status, DownloadStatus::Waiting);
    assert_eq!(tasks[0].data, "");
}

#[test]
fn the_first_task_is_written_under_a_compatible_file_name() {
    let run = DownloadRun::new("My Mod: Part 2".to_string(), "u".to_string(), "mods", false);
    assert_eq!(run.tasks()[0].name, "My Mod: Part 2");
    assert_eq!(run.tasks()[0].dest, "mods/My_Mod__Part_2.zip");
}

#[test]
fn starting_a_task_marks_it_and_asks_for_its_transfer() {
    let mut run = DownloadRun::new("A".to_string(), "https://mods.example/A".to_string(), "mods", true);
    let request = run.start_task().unwrap();
    assert_eq!(request.url, "https://mods.example/A");
    assert_eq!(request.dest, "mods/A.zip");
    assert!(request.multi_thread);
    assert_eq!(run.tasks()[0].status, DownloadStatus::Downloading);
    assert_eq!(run.state(), RunState::Pending);
    let again = run.start_task().unwrap();
    assert_eq!(again.dest, "mods/A.zip");
    assert_eq!(run.tasks()[0].status, DownloadStatus::Downloading);
}

#[test]
fn progress_is_kept_as_text_and_reported_as_pending() {
    let mut run = DownloadRun::new("A".to_string(), "u".to_string(), "mods", false);
    run.start_task();
    let reaction = run.on_progress("42.5".to_string());
    assert_eq!(reaction.snapshots.len(), 1);
    assert_eq!(reaction.snapshots[0].state, RunState::Pending);
    assert_eq!(reaction.snapshots[0].tasks.len(), 1);
    assert_eq!(reaction.snapshots[0].tasks[0].data, "42.5");
    assert_eq!(reaction.snapshots[0].tasks[0].status, DownloadStatus::Downloading);
    assert!(reaction.remove.is_none());
    assert!(reaction.unresolved.is_empty());
    assert_eq!(run.tasks()[0].data, "42.5");
}

#[test]
fn diamond_dependency_is_scheduled_once() {
    let registry = registry_of(vec![record("B", 2), record("C", 3), record("D", 4)]);
    let none: Vec<LocalMod> = vec![];
    let mut run = DownloadRun::new("A".to_string(), "https://mods.example/A".to_string(), "mods", false);

    run.start_task();
    run.on_success(&vec![dep("B", "1.0.0"), dep("C", "1.0.0")], &none, &registry);
    assert_eq!(named(run.tasks(), "B"), 1);
    assert_eq!(named(run.tasks(), "C"), 1);

    run.start_task();
    run.on_success(&vec![dep("D", "1.0.0")], &none, &registry);
    assert_eq!(named(run.tasks(), "D"), 1);

    run.start_task();
    let reaction = run.on_success(&vec![dep("D", "1.0.0")], &none, &registry);
    assert!(reaction.unresolved.is_empty());
    assert_eq!(named(run.tasks(), "D"), 1);
    assert_eq!(run.tasks().len(), 4);
    assert_eq!(run.scheduled_ids(), &vec![2, 3, 4]);

    run.start_task();
    let last = run.on_success(&vec![], &none, &registry);
    assert_eq!(run.state(), RunState::Finished);
    assert_eq!(last.snapshots.len(), 2);
    assert_eq!(last.snapshots[0].state, RunState::Pending);
    assert_eq!(last.snapshots[1].state, RunState::Finished);
    assert_eq!(named(&last.snapshots[1].tasks, "D"), 1);
    assert!(run.tasks().iter().all(|t| t.status == DownloadStatus::Finished && t.data == "100"));
}

#[test]
fn one_manifest_that_names_a_mod_twice_schedules_it_once() {
    let registry = registry_of(vec![record("B", 2)]);
    let none: Vec<LocalMod> = vec![];
    let mut run = DownloadRun::new("A".to_string(), "u".to_string(), "mods", false);
    run.on_success(&vec![dep("B", "1.0.0"), dep("B", "2.0.0")], &none, &registry);
    assert_eq!(named(run.tasks(), "B"), 1);
    assert_eq!(run.scheduled_ids(), &vec![2]);
}

#[test]
fn two_names_with_one_external_id_are_one_mod() {
    let registry = registry_of(vec![record("B", 2), record("B renamed", 2)]);
    let none: Vec<LocalMod> = vec![];
    let mut run = DownloadRun::new("A".to_string(), "u".to_string(), "mods", false);
    run.on_success(&vec![dep("B", "1.0.0"), dep("B renamed", "1.0.0")], &none, &registry);
    assert_eq!(run.tasks().len(), 2);
    assert_eq!(run.tasks()[1].name, "B");
    assert_eq!(run.scheduled_ids(), &vec![2]);
}

#[test]
fn first_failure_ends_the_run_and_leaves_the_rest_waiting() {
    let registry = registry_of(vec![record("B", 2), record("C", 3)]);
    let none: Vec<LocalMod> = vec![];
    let mut run = DownloadRun::new("A".to_string(), "https://mods.example/A".to_string(), "mods", false);

    run.start_task();
    run.on_success(&vec![dep("B", "1.0.0"), dep("C", "1.0.0")], &none, &registry);
    assert_eq!(run.tasks().len(), 3);

    run.start_task();
    run.on_progress("12".to_string());
    let reaction = run.on_failure("connection reset".to_string());

    assert_eq!(run.state(), RunState::Failed);
    assert_eq!(reaction.snapshots.len(), 1);
    assert_eq!(reaction.snapshots[0].state, RunState::Failed);
    assert_eq!(reaction.snapshots[0].state.as_str(), "failed");
    assert_eq!(reaction.remove.as_deref(), Some("mods/B.zip"));

    let tasks = &reaction.snapshots[0].tasks;
    assert_eq!(tasks.len(), 3);
    assert_eq!(tasks[0].status, DownloadStatus::Finished);
    assert_eq!(tasks[0].data, "100");
    assert_eq!(tasks[1].status, DownloadStatus::Failed);
    assert_eq!(tasks[1].data, "connection reset");
    assert!(!tasks[1].data.is_empty());
    assert_eq!(tasks[2].status, DownloadStatus::Waiting);
    assert_eq!(tasks[2].data, "0");
    assert_eq!(statuses(run.tasks()), statuses(tasks));
}

#[test]
fn a_run_that_is_over_ignores_every_report() {
    let registry = registry_of(vec![record("B", 2), record("C", 3)]);
    let none: Vec<LocalMod> = vec![];
    let mut run = DownloadRun::new("A".to_string(), "u".to_string(), "mods", false);
    run.on_success(&vec![dep("B", "1.0.0")], &none, &registry);
    run.on_failure("no route".to_string());
    let before = statuses(run.tasks());

    assert!(run.start_task().is_none());
    let r1 = run.on_progress("50".to_string());
    let r2 = run.on_success(&vec![dep("C", "1.0.0")], &none, &registry);
    let r3 = run.on_failure("again".to_string());
    for r in [&r1, &r2, &r3] {
        assert!(r.snapshots.is_empty());
        assert!(r.remove.is_none());
        assert!(r.unresolved.is_empty());
        assert!(r.unreadable.is_empty());
    }
    assert_eq!(run.state(), RunState::Failed);
    assert_eq!(statuses(run.tasks()), before);
    assert_eq!(run.tasks()[1].data, "no route");
    assert_eq!(run.tasks().len(), 2);

    let mut done = DownloadRun::new("A".to_string(), "u".to_string(), "mods", false);
    done.on_success(&vec![], &none, &registry);
    assert_eq!(done.state(), RunState::Finished);
    assert!(done.start_task().is_none());
    assert!(done.on_failure("late".to_string()).snapshots.is_empty());
    assert!(done.on_progress("1".to_string()).snapshots.is_empty());
    assert!(done.on_success(&vec![dep("B", "1.0.0")], &none, &registry).snapshots.is_empty());
    assert_eq!(done.state(), RunState::Finished);
    assert_eq!(done.tasks().len(), 1);
    assert_eq!(done.tasks()[0].status, DownloadStatus::Finished);
}

#[test]
fn satisfied_dependency_adds_no_task() {
    let registry = registry_of(vec![record("X", 9)]);
    let mods = vec![installed("X", "2.0.0")];
    let mut run = DownloadRun::new("A".to_string(), "u".to_string(), "mods", false);
    run.start_task();
    let reaction = run.on_success(&vec![dep("X", "1.5.0")], &mods, &registry);
    assert_eq!(run.tasks().len(), 1);
    assert_eq!(named(run.tasks(), "X"), 0);
    assert!(run.scheduled_ids().is_empty());
    assert!(reaction.unresolved.is_empty());
    assert_eq!(run.state(), RunState::Finished);
}

#[test]
fn an_installed_mod_that_is_too_old_is_downloaded_again() {
    let registry = registry_of(vec![record("X", 9)]);
    let mods = vec![installed("X", "1.4.9")];
    let mut run = DownloadRun::new("A".to_string(), "u".to_string(), "mods", false);
    run.on_success(&vec![dep("X", "1.5.0")], &mods, &registry);
    assert_eq!(named(run.tasks(), "X"), 1);
    assert_eq!(run.tasks()[1].url, "https://mods.example/X");
    assert_eq!(run.tasks()[1].dest, "mods/X.zip");
    assert_eq!(run.tasks()[1].status, DownloadStatus::Downloading);
    assert_eq!(run.tasks()[1].data, "0");
    assert_eq!(run.scheduled_ids(), &vec![9]);
}

#[test]
fn optional_dependencies_are_scheduled_like_required_ones() {
    let registry = registry_of(vec![record("B", 2)]);
    let none: Vec<LocalMod> = vec![];
    let mut run = DownloadRun::new("A".to_string(), "u".to_string(), "mods", false);
    let optional = ModDependency { name: "B".to_string(), version: "1.0.0".to_string(), optional: true };
    run.on_success(&vec![optional], &none, &registry);
    assert_eq!(named(run.tasks(), "B"), 1);
}

#[test]
fn unresolvable_dependency_is_skipped_and_the_run_finishes() {
    let registry = registry_of(vec![record("B", 2)]);
    let none: Vec<LocalMod> = vec![];
    let mut run = DownloadRun::new("A".to_string(), "u".to_string(), "mods", false);

    run.start_task();
    let reaction = run.on_success(&vec![dep("Ghost", "1.0.0"), dep("B", "1.0.0")], &none, &registry);
    assert_eq!(reaction.unresolved, vec!["Ghost".to_string()]);
    assert_eq!(named(run.tasks(), "Ghost"), 0);
    assert_eq!(run.tasks().len(), 2);
    assert_eq!(run.state(), RunState::Pending);
    assert_eq!(reaction.snapshots.len(), 1);
    assert_eq!(reaction.snapshots[0].state.as_str(), "pending");

    run.start_task();
    let last = run.on_success(&vec![], &none, &registry);
    assert_eq!(run.state(), RunState::Finished);
    assert_eq!(last.snapshots.last().unwrap().state, RunState::Finished);
    assert_eq!(last.snapshots.last().unwrap().state.as_str(), "finished");
}

#[test]
fn chain_is_finalized_in_order() {
    let registry = registry_of(vec![record("C", 3), record("B", 2)]);
    let none: Vec<LocalMod> = vec![];
    let mut run = DownloadRun::new("A".to_string(), "u".to_string(), "mods", false);
    let (downloading, finished, waiting) =
        (DownloadStatus::Downloading, DownloadStatus::Finished, DownloadStatus::Waiting);

    assert_eq!(statuses(run.tasks()), vec![("A".to_string(), waiting)]);
    run.start_task();
    assert_eq!(statuses(run.tasks()), vec![("A".to_string(), downloading)]);

    run.on_success(&vec![dep("B", "1.0.0")], &none, &registry);
    assert_eq!(run.cursor(), 1);
    assert_eq!(
        statuses(run.tasks()),
        vec![("A".to_string(), finished), ("B".to_string(), downloading)]
    );

    run.start_task();
    run.on_success(&vec![dep("C", "1.0.0")], &none, &registry);
    assert_eq!(run.cursor(), 2);
    assert_eq!(
        statuses(run.tasks()),
        vec![("A".to_string(), finished), ("B".to_string(), finished), ("C".to_string(), downloading)]
    );

    run.start_task();
    let last = run.on_success(&vec![], &none, &registry);
    assert_eq!(run.cursor(), 3);
    assert_eq!(run.state(), RunState::Finished);
    assert_eq!(
        statuses(&last.snapshots[1].tasks),
        vec![("A".to_string(), finished), ("B".to_string(), finished), ("C".to_string(), finished)]
    );
}

#[test]
fn new_tasks_go_to_the_end_in_the_order_of_the_declarations() {
    let registry = registry_of(vec![record("B", 2), record("C", 3), record("D", 4), record("E", 5)]);
    let none: Vec<LocalMod> = vec![];
    let mut run = DownloadRun::new("A".to_string(), "u".to_string(), "mods", false);
    run.on_success(&vec![dep("C", "1"), dep("B", "1")], &none, &registry);
    run.on_success(&vec![dep("E", "1"), dep("B", "1"), dep("D", "1")], &none, &registry);
    let names: Vec<&str> = run.tasks().iter().map(|t| t.name.as_str()).collect();
    assert_eq!(names, vec!["A", "C", "B", "E", "D"]);
    assert_eq!(run.scheduled_ids(), &vec![3, 2, 5, 4]);
}

#[test]
fn a_dependency_on_the_requested_mod_itself_is_scheduled_once() {
    let registry = registry_of(vec![record("A", 1), record("B", 2)]);
    let none: Vec<LocalMod> = vec![];
    let mut run = DownloadRun::new("A".to_string(), "u".to_string(), "mods", false);
    run.on_success(&vec![dep("B", "1")], &none, &registry);
    run.on_success(&vec![dep("A", "1")], &none, &registry);
    run.on_success(&vec![dep("B", "1")], &none, &registry);
    assert_eq!(run.state(), RunState::Finished);
    let names: Vec<&str> = run.tasks().iter().map(|t| t.name.as_str()).collect();
    assert_eq!(names, vec!["A", "B", "A"]);
}

#[test]
fn an_unreadable_version_is_handed_back_and_the_task_is_finished() {
    let registry = registry_of(vec![record("B", 2), record("X", 9)]);
    let mods = vec![installed("X", "2.0.0-beta")];
    let mut run = DownloadRun::new("A".to_string(), "u".to_string(), "mods", false);
    run.start_task();
    let reaction = run.on_success(&vec![dep("X", "1.5.0"), dep("B", "1.0.0")], &mods, &registry);
    assert_eq!(run.state(), RunState::Pending);
    assert_eq!(run.tasks().len(), 2);
    assert_eq!(run.tasks()[0].status, DownloadStatus::Finished);
    assert_eq!(run.tasks()[0].data, "100");
    assert_eq!(run.tasks()[1].name, "B");
    assert_eq!(named(run.tasks(), "X"), 0);
    assert_eq!(run.scheduled_ids(), &vec![2]);
    assert!(reaction.remove.is_none());
    assert!(reaction.unresolved.is_empty());
    assert_eq!(reaction.unreadable.len(), 1);
    assert_eq!(reaction.unreadable[0].name, "X");
    assert_eq!(reaction.unreadable[0].version, "1.5.0");
    assert_eq!(reaction.snapshots.len(), 1);
    assert_eq!(reaction.snapshots[0].state, RunState::Pending);
}

#[test]
fn a_minimum_version_that_is_no_version_is_never_taken_for_one() {
    let registry = registry_of(vec![record("B", 2)]);
    let mods = vec![installed("B", "9.9.9")];
    let mut run = DownloadRun::new("A".to_string(), "u".to_string(), "mods", false);
    let reaction = run.on_success(&vec![dep("B", "1.0.0-beta")], &mods, &registry);
    assert_eq!(named(run.tasks(), "B"), 0);
    assert_eq!(reaction.unreadable.len(), 1);
    assert_eq!(reaction.unreadable[0].version, "1.0.0-beta");
    assert_eq!(run.state(), RunState::Finished);
    assert_eq!(reaction.snapshots.last().unwrap().state, RunState::Finished);
}

#[test]
fn an_installed_mod_that_the_registry_does_not_know_still_satisfies() {
    let registry = registry_of(vec![record("B", 2)]);
    let mods = vec![installed("Homemade", "1.2.0")];
    let mut run = DownloadRun::new("A".to_string(), "u".to_string(), "mods", false);
    let reaction = run.on_success(&vec![dep("Homemade", "1.0.0")], &mods, &registry);
    assert!(reaction.unresolved.is_empty());
    assert!(reaction.unreadable.is_empty());
    assert_eq!(run.tasks().len(), 1);
    assert_eq!(run.state(), RunState::Finished);
}

#[test]
fn an_unknown_dependency_does_not_stop_the_ones_around_it() {
    let registry = registry_of(vec![record("B", 2), record("C", 3)]);
    let none: Vec<LocalMod> = vec![];
    let mut with_ghost = DownloadRun::new("A".to_string(), "u".to_string(), "mods", false);
    let mut without = DownloadRun::new("A".to_string(), "u".to_string(), "mods", false);
    let warned = with_ghost.on_success(&vec![dep("B", "1"), dep("Z", "1"), dep("C", "1")], &none, &registry);
    let quiet = without.on_success(&vec![dep("B", "1"), dep("C", "1")], &none, &registry);
    assert_eq!(warned.unresolved, vec!["Z".to_string()]);
    assert!(quiet.unresolved.is_empty());
    assert_eq!(statuses(with_ghost.tasks()), statuses(without.tasks()));
    assert_eq!(with_ghost.scheduled_ids(), without.scheduled_ids());
    assert_eq!(with_ghost.tasks()[0].status, DownloadStatus::Finished);
    assert_eq!(named(with_ghost.tasks(), "Z"), 0);
}

#[test]
fn snapshots_are_copies_of_the_worklist() {
    let registry = registry_of(vec![record("B", 2)]);
    let none: Vec<LocalMod> = vec![];
    let mut run = DownloadRun::new("A".to_string(), "u".to_string(), "mods", false);
    let first = run.on_progress("10".to_string());
    run.on_success(&vec![dep("B", "1")], &none, &registry);
    assert_eq!(first.snapshots[0].tasks.len(), 1);
    assert_eq!(first.snapshots[0].tasks[0].data, "10");
    assert_eq!(first.snapshots[0].tasks[0].status, DownloadStatus::Waiting);
    let snapshot = run.snapshot(RunState::Pending);
    assert_eq!(snapshot.tasks.len(), 2);
    assert_eq!(statuses(&snapshot.tasks), statuses(run.tasks()));
}
