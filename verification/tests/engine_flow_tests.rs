//! One poll cycle of the engine, end to end: a wallpaper is registered, a
//! matching process appears in the snapshot diff, the event is routed to the
//! wallpaper's subscription and dispatched, and an overlay materializes over
//! the process's qualifying window.

use overkami::config::{Wallpaper, WallpaperSource};
use overkami::manager::WallpaperManager;
use overkami::observer::{compute_application_diff, ApplicationEvent};
use overkami::overlay::SurfaceOp;
use overkami::process::ApplicationProcess;
use overkami::window::{Bounds, TargetWindow};

const WALLPAPER: u128 = 0xabcd;

fn setup_manager() -> WallpaperManager {
    let mut manager = WallpaperManager::new();
    let config = Wallpaper {
        name: String::from("ocean"),
        application_name: String::from("editor.exe"),
        filters: Vec::new(),
        source: WallpaperSource::Picture { location: String::from("ocean.png") },
        opacity: 900,
    };
    assert!(manager.add_wallpaper(WALLPAPER, config));
    manager
}

#[test]
fn process_appearance_creates_an_overlay() {
    let mut manager = setup_manager();

    // the poll loop sees editor.exe start
    let current = vec![ApplicationProcess::new(500, None, String::from("editor.exe"))];
    let diff = compute_application_diff(&Vec::new(), &current);
    let deliveries = manager.listeners.route_application_diff(&diff);
    assert_eq!(deliveries, vec![(WALLPAPER, ApplicationEvent::Added(500))]);

    // the window observer attached and found one window
    let window = TargetWindow {
        id: 11,
        pid: 500,
        title: Some(String::from("untitled — editor")),
        bounds: Some(Bounds { x: 40, y: 50, width: 800, height: 600 }),
        frontmost: Some(false),
    };
    let (subscriber, event) = deliveries[0];
    let ops = manager.dispatch_application_event(subscriber, event, Some(&vec![window]));
    assert!(matches!(
        ops[0],
        SurfaceOp::CreateSurface { wallpaper_id: WALLPAPER, target_window: 11, opacity: 900, .. }
    ));

    let host = &manager.hosts[0].1;
    assert_eq!(host.overlay_hosts.len(), 1);
    assert_eq!(host.overlay_hosts[0].pid, 500);
    assert_eq!(host.overlay_hosts[0].overlays.len(), 1);
}

#[test]
fn process_exit_destroys_the_overlay() {
    let mut manager = setup_manager();
    let window = TargetWindow {
        id: 11,
        pid: 500,
        title: Some(String::from("untitled — editor")),
        bounds: Some(Bounds { x: 40, y: 50, width: 800, height: 600 }),
        frontmost: Some(false),
    };
    manager.dispatch_application_event(
        WALLPAPER,
        ApplicationEvent::Added(500),
        Some(&vec![window]),
    );

    // the next poll sees editor.exe gone
    let previous = vec![ApplicationProcess::new(500, None, String::from("editor.exe"))];
    let diff = compute_application_diff(&previous, &Vec::new());
    let deliveries = manager.listeners.route_application_diff(&diff);
    assert_eq!(deliveries, vec![(WALLPAPER, ApplicationEvent::Removed(500))]);

    let ops = manager.dispatch_application_event(WALLPAPER, ApplicationEvent::Removed(500), None);
    assert_eq!(ops.len(), 1);
    assert!(matches!(ops[0], SurfaceOp::Destroy));
    assert!(manager.hosts[0].1.overlay_hosts.is_empty());
}

#[test]
fn delivery_for_a_dropped_wallpaper_is_ignored() {
    let mut manager = setup_manager();
    let ops = manager.dispatch_application_event(0x999, ApplicationEvent::Added(500), None);
    assert!(ops.is_empty());
}
