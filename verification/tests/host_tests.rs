use overkami::config::{ApplyWallpaper, Wallpaper, WallpaperSource};
use overkami::manager::WallpaperManager;
use overkami::overlay_host::OverlayHost;
use overkami::overlay::SurfaceOp;
use overkami::wallpaper_host::WallpaperHost;
use overkami::window::{Bounds, TargetWindow, WindowEvent};

fn editor_config() -> Wallpaper {
    Wallpaper {
        name: String::from("forest"),
        application_name: String::from("editor.exe"),
        filters: Vec::new(),
        source: WallpaperSource::Video { location: String::from("forest.mp4") },
        opacity: 800,
    }
}

fn editor_window() -> TargetWindow {
    TargetWindow {
        id: 11,
        pid: 500,
        title: Some(String::from("untitled — editor")),
        bounds: Some(Bounds { x: 40, y: 50, width: 800, height: 600 }),
        frontmost: Some(false),
    }
}

#[test]
fn one_overlay_for_one_qualifying_window() {
    let (host, ops) = OverlayHost::start(1, 500, &editor_config(), &vec![editor_window()]);
    assert_eq!(host.overlays.len(), 1);
    let (window_id, overlay) = &host.overlays[0];
    assert_eq!(*window_id, 11);
    assert_eq!(overlay.opacity, 800);
    assert_eq!(overlay.bounds, Bounds { x: 40, y: 50, width: 800, height: 600 });
    assert!(matches!(
        ops[0],
        SurfaceOp::CreateSurface { wallpaper_id: 1, target_window: 11, opacity: 800, .. }
    ));
    assert!(ops
        .iter()
        .any(|op| matches!(op, SurfaceOp::SetPosition { x: 40, y: 50 })));
    assert!(ops
        .iter()
        .any(|op| matches!(op, SurfaceOp::SetSize { width: 800, height: 600 })));
}

#[test]
fn foreign_and_degenerate_windows_get_no_overlay() {
    let mut other_pid = editor_window();
    other_pid.pid = 777;
    let mut flat = editor_window();
    flat.id = 12;
    flat.bounds = Some(Bounds { x: 0, y: 0, width: 800, height: 0 });
    let (host, ops) = OverlayHost::start(1, 500, &editor_config(), &vec![other_pid, flat]);
    assert_eq!(host.overlays.len(), 0);
    assert!(ops.is_empty());
}

#[test]
fn created_event_binds_a_new_window() {
    let (mut host, _) = OverlayHost::start(1, 500, &editor_config(), &Vec::new());
    let mut new_window = editor_window();
    new_window.id = 13;
    let ops = host.handle_window_event(13, WindowEvent::Created, Some(&new_window));
    assert_eq!(host.overlays.len(), 1);
    assert!(matches!(ops[0], SurfaceOp::CreateSurface { target_window: 13, .. }));
}

#[test]
fn closed_event_removes_and_destroys() {
    let (mut host, _) = OverlayHost::start(1, 500, &editor_config(), &vec![editor_window()]);
    let ops = host.handle_window_event(11, WindowEvent::Closed, None);
    assert_eq!(host.overlays.len(), 0);
    assert_eq!(ops.len(), 1);
    assert!(matches!(ops[0], SurfaceOp::Destroy));
    // a later event for the closed window id is ignored without error
    let stale = host.handle_window_event(11, WindowEvent::Activated, None);
    assert!(stale.is_empty());
    assert_eq!(host.overlays.len(), 0);
}

#[test]
fn close_while_active_still_tears_down() {
    let mut w = editor_window();
    w.frontmost = Some(true);
    let (mut host, _) = OverlayHost::start(1, 500, &editor_config(), &vec![w]);
    let ops = host.handle_window_event(11, WindowEvent::Activated, None);
    assert!(!ops.is_empty());
    let ops = host.handle_window_event(11, WindowEvent::Closed, None);
    assert_eq!(ops.len(), 1);
    assert!(matches!(ops[0], SurfaceOp::Destroy));
    assert_eq!(host.overlays.len(), 0);
    let stale = host.handle_window_event(11, WindowEvent::Moved {
        bounds: Bounds { x: 1, y: 2, width: 3, height: 4 },
    }, None);
    assert!(stale.is_empty());
}

#[test]
fn unknown_window_event_is_ignored() {
    let (mut host, _) = OverlayHost::start(1, 500, &editor_config(), &vec![editor_window()]);
    let ops = host.handle_window_event(999, WindowEvent::Resized {
        bounds: Bounds { x: 0, y: 0, width: 1, height: 1 },
    }, None);
    assert!(ops.is_empty());
    assert_eq!(host.overlays.len(), 1);
}

#[test]
fn stopping_twice_has_no_second_effect() {
    let (mut host, _) = OverlayHost::start(1, 500, &editor_config(), &vec![editor_window()]);
    let first = host.stop();
    assert_eq!(first.len(), 1);
    assert!(matches!(first[0], SurfaceOp::Destroy));
    assert!(host.stopped);
    let second = host.stop();
    assert!(second.is_empty());
    assert!(host.stopped);
    assert_eq!(host.overlays.len(), 0);
}

#[test]
fn at_most_one_overlay_host_per_pid() {
    let mut host = WallpaperHost::new(9, editor_config());
    let ops = host.on_application_added(500, Some(&vec![editor_window()]));
    assert_eq!(host.overlay_hosts.len(), 1);
    assert!(!ops.is_empty());
    // a second added event for the same pid leaves the single host in place
    let ops = host.on_application_added(500, Some(&vec![editor_window()]));
    assert_eq!(host.overlay_hosts.len(), 1);
    assert!(ops.is_empty());
    // removal drops to zero, and removing again stays at zero
    let ops = host.on_application_removed(500);
    assert_eq!(host.overlay_hosts.len(), 0);
    assert_eq!(ops.len(), 1);
    let ops = host.on_application_removed(500);
    assert_eq!(host.overlay_hosts.len(), 0);
    assert!(ops.is_empty());
}

#[test]
fn failed_attach_creates_no_host() {
    let mut host = WallpaperHost::new(9, editor_config());
    let ops = host.on_application_added(500, None);
    assert_eq!(host.overlay_hosts.len(), 0);
    assert!(ops.is_empty());
}

#[test]
fn application_change_rebuilds_for_running_processes() {
    // editor.exe (pid 500) and browser.exe (pid 600) both run; the target
    // moves from editor.exe to browser.exe mid-run.
    let mut host = WallpaperHost::new(9, editor_config());
    host.on_application_added(500, Some(&vec![editor_window()]));
    assert_eq!(host.overlay_hosts.len(), 1);
    let update = ApplyWallpaper {
        name: None,
        application_name: Some(String::from("browser.exe")),
        filters: None,
        opacity: None,
        source: None,
    };
    let (ops, needs_rebuild) = host.apply_wallpaper(update);
    assert!(needs_rebuild);
    assert_eq!(host.overlay_hosts.len(), 0);
    assert_eq!(ops.len(), 1);
    assert!(matches!(ops[0], SurfaceOp::Destroy));
    // bootstrap from the processes already running under the new path,
    // without any further added event
    let browser_window = TargetWindow {
        id: 21,
        pid: 600,
        title: Some(String::from("start page — browser")),
        bounds: Some(Bounds { x: 0, y: 0, width: 1024, height: 768 }),
        frontmost: Some(true),
    };
    host.rebuild_overlay_hosts(&vec![(600, vec![browser_window])]);
    assert_eq!(host.overlay_hosts.len(), 1);
    assert_eq!(host.overlay_hosts[0].pid, 600);
    assert!(host.overlay_hosts.iter().all(|h| h.pid != 500));
}

#[test]
fn opacity_only_update_keeps_other_fields() {
    let mut manager = WallpaperManager::new();
    assert!(manager.add_wallpaper(3, editor_config()));
    let update = ApplyWallpaper {
        name: None,
        application_name: None,
        filters: None,
        opacity: Some(150),
        source: None,
    };
    let (_, needs_rebuild) = manager.apply_wallpaper(3, update).unwrap();
    assert!(!needs_rebuild);
    let read_back = manager.config_of(3).unwrap();
    assert_eq!(read_back.name, "forest");
    assert_eq!(read_back.application_name, "editor.exe");
    assert!(read_back.filters.is_empty());
    assert!(matches!(&read_back.source, WallpaperSource::Video { location } if location == "forest.mp4"));
    assert_eq!(read_back.opacity, 150);
}

#[test]
fn apply_to_unknown_wallpaper_fails() {
    let mut manager = WallpaperManager::new();
    let update = ApplyWallpaper {
        name: None,
        application_name: None,
        filters: None,
        opacity: Some(150),
        source: None,
    };
    let err = manager.apply_wallpaper(77, update).unwrap_err();
    assert_eq!(err.code, "wallpaper_not_found");
}

#[test]
fn remove_wallpaper_destroys_its_surfaces() {
    let mut manager = WallpaperManager::new();
    assert!(manager.add_wallpaper(3, editor_config()));
    // second add under the same id is refused
    assert!(!manager.add_wallpaper(3, editor_config()));
    // grow an overlay host under the wallpaper, then remove the wallpaper
    let i = manager.hosts.iter().position(|(id, _)| *id == 3).unwrap();
    manager.hosts[i].1.on_application_added(500, Some(&vec![editor_window()]));
    let ops = manager.remove_wallpaper(3);
    assert_eq!(ops.len(), 1);
    assert!(matches!(ops[0], SurfaceOp::Destroy));
    assert!(manager.config_of(3).is_none());
    let ops = manager.remove_wallpaper(3);
    assert!(ops.is_empty());
}
