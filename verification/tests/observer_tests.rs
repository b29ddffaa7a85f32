use overkami::observer::{
    compute_application_diff, ApplicationEvent, ListenerTable,
};
use overkami::process::{
    filter_processes, get_application_process, get_application_processes, new_process_system,
    refresh_blocking, ApplicationProcess,
};

fn proc(pid: u32, path: &str) -> ApplicationProcess {
    ApplicationProcess::new(pid, None, String::from(path))
}

#[test]
fn diff_reports_added_and_removed() {
    let previous = vec![proc(1, "a"), proc(2, "b")];
    let current = vec![proc(2, "b"), proc(3, "c")];
    let diff = compute_application_diff(&previous, &current);
    assert_eq!(diff.added.len(), 1);
    assert_eq!(diff.added[0].pid, 3);
    assert_eq!(diff.removed.len(), 1);
    assert_eq!(diff.removed[0].pid, 1);
}

#[test]
fn diff_of_identical_snapshots_is_empty() {
    let snapshot = vec![proc(1, "a"), proc(2, "b")];
    let diff = compute_application_diff(&snapshot, &snapshot);
    assert!(diff.added.is_empty());
    assert!(diff.removed.is_empty());
}

#[test]
fn first_snapshot_reports_everything_added() {
    let current = vec![proc(1, "a")];
    let diff = compute_application_diff(&Vec::new(), &current);
    assert_eq!(diff.added.len(), 1);
    assert!(diff.removed.is_empty());
}

#[test]
fn listeners_route_by_exact_path() {
    let mut table = ListenerTable::new();
    table.listen_application(String::from("editor.exe"), 10);
    table.listen_application(String::from("editor.exe"), 11);
    table.listen_application(String::from("browser.exe"), 12);
    let editors = table.subscribers_of(&String::from("editor.exe"));
    assert_eq!(editors, vec![10, 11]);
    let browsers = table.subscribers_of(&String::from("browser.exe"));
    assert_eq!(browsers, vec![12]);
    assert!(table.subscribers_of(&String::from("editor")).is_empty());
}

#[test]
fn unlisten_reports_whether_registered() {
    let mut table = ListenerTable::new();
    table.listen_application(String::from("editor.exe"), 10);
    assert!(table.unlisten_application(&String::from("editor.exe"), 10));
    assert!(!table.unlisten_application(&String::from("editor.exe"), 10));
    assert!(table.subscribers_of(&String::from("editor.exe")).is_empty());
}

#[test]
fn subscription_moves_between_paths() {
    let mut table = ListenerTable::new();
    table.listen_application(String::from("editor.exe"), 10);
    assert!(table.unlisten_application(&String::from("editor.exe"), 10));
    table.listen_application(String::from("browser.exe"), 10);
    assert!(table.subscribers_of(&String::from("editor.exe")).is_empty());
    assert_eq!(table.subscribers_of(&String::from("browser.exe")), vec![10]);
}

#[test]
fn diff_events_reach_the_right_subscribers() {
    let mut table = ListenerTable::new();
    table.listen_application(String::from("editor.exe"), 10);
    table.listen_application(String::from("browser.exe"), 12);
    let previous = vec![proc(600, "browser.exe")];
    let current = vec![proc(500, "editor.exe")];
    let diff = compute_application_diff(&previous, &current);
    let deliveries = table.route_application_diff(&diff);
    assert_eq!(
        deliveries,
        vec![(10, ApplicationEvent::Added(500)), (12, ApplicationEvent::Removed(600))]
    );
}

#[test]
fn events_for_unregistered_paths_go_nowhere() {
    let table = ListenerTable::new();
    let diff = compute_application_diff(&Vec::new(), &vec![proc(500, "editor.exe")]);
    let deliveries = table.route_application_diff(&diff);
    assert!(deliveries.is_empty());
}

#[test]
fn snapshot_filter_keeps_registered_paths_only() {
    let entries = vec![
        (1, None, Some(String::from("editor.exe"))),
        (2, Some(String::from("browser")), Some(String::from("browser.exe"))),
        (3, None, None),
        (4, None, Some(String::from("other.exe"))),
    ];
    let registered = vec![String::from("editor.exe"), String::from("browser.exe")];
    let matched = filter_processes(&entries, &registered);
    assert_eq!(matched.len(), 2);
    assert_eq!(matched[0].pid, 1);
    assert_eq!(matched[0].path, "editor.exe");
    assert_eq!(matched[1].pid, 2);
    assert_eq!(matched[1].name.as_deref(), Some("browser"));
}

#[test]
fn lookup_finds_first_process_by_pid() {
    let processes = vec![proc(1, "a"), proc(2, "b")];
    let found = get_application_process(&processes, 2).unwrap();
    assert_eq!(found.path, "b");
    assert!(get_application_process(&processes, 9).is_none());
}

#[test]
fn live_snapshot_respects_registration() {
    let mut sys = new_process_system();
    refresh_blocking(&mut sys);
    // nothing registered: nothing matches, however many processes run
    let none = get_application_processes(&sys, &Vec::new());
    assert!(none.is_empty());
}

#[test]
fn changed_path_counts_as_exit_and_start() {
    // equality covers all attributes: the same pid under a new executable
    // path is one process gone and another arrived
    let previous = vec![proc(1, "old.exe")];
    let current = vec![proc(1, "new.exe")];
    let diff = compute_application_diff(&previous, &current);
    assert_eq!(diff.added.len(), 1);
    assert_eq!(diff.added[0].path, "new.exe");
    assert_eq!(diff.removed.len(), 1);
    assert_eq!(diff.removed[0].path, "old.exe");
}

#[test]
fn repeated_registration_does_not_duplicate() {
    let mut table = ListenerTable::new();
    table.listen_application(String::from("editor.exe"), 10);
    table.listen_application(String::from("editor.exe"), 10);
    assert_eq!(table.subscribers_of(&String::from("editor.exe")), vec![10]);
}
