use overkami::app_windows::get_application_windows;
use overkami::process::ApplicationProcess;
use overkami::window::{Bounds, TargetWindow};

fn window(id: u64, pid: u32, title: Option<&str>) -> TargetWindow {
    TargetWindow {
        id,
        pid,
        title: title.map(String::from),
        bounds: Some(Bounds { x: 0, y: 0, width: 100, height: 100 }),
        frontmost: None,
    }
}

fn proc(pid: u32, name: Option<&str>, path: &str) -> ApplicationProcess {
    ApplicationProcess::new(pid, name.map(String::from), String::from(path))
}

#[test]
fn each_application_is_listed_once() {
    let windows = vec![
        window(1, 500, Some("doc one")),
        window(2, 500, Some("doc two")),
        window(3, 600, Some("start page")),
    ];
    let processes = vec![proc(500, Some("editor"), "editor.exe"), proc(600, None, "browser.exe")];
    let listing = get_application_windows(&windows, &processes, 1);
    assert_eq!(listing.len(), 2);
    assert_eq!(listing[0].title.as_deref(), Some("doc one"));
    assert_eq!(listing[0].name.as_deref(), Some("editor"));
    assert_eq!(listing[0].path, "editor.exe");
    assert_eq!(listing[1].path, "browser.exe");
}

#[test]
fn own_process_is_skipped() {
    let windows = vec![window(1, 500, Some("me"))];
    let processes = vec![proc(500, None, "overkami")];
    let listing = get_application_windows(&windows, &processes, 500);
    assert!(listing.is_empty());
}

#[test]
fn window_of_unknown_process_is_skipped() {
    let windows = vec![window(1, 500, Some("ghost"))];
    let listing = get_application_windows(&windows, &Vec::new(), 1);
    assert!(listing.is_empty());
}

#[test]
fn empty_title_counts_as_none() {
    let windows = vec![window(1, 500, Some(""))];
    let processes = vec![proc(500, None, "editor.exe")];
    let listing = get_application_windows(&windows, &processes, 1);
    assert_eq!(listing.len(), 1);
    assert!(listing[0].title.is_none());
}
