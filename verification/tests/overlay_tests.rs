use overkami::config::WallpaperSource;
use overkami::filter::{Filter, StringFilterStrategy};
use overkami::overlay::{Overlay, OverlayState, SurfaceOp};
use overkami::window::{Bounds, TargetWindow, WindowEvent};

fn window(id: u64, pid: u32, title: &str, bounds: Bounds) -> TargetWindow {
    TargetWindow {
        id,
        pid,
        title: Some(String::from(title)),
        bounds: Some(bounds),
        frontmost: Some(false),
    }
}

fn source() -> WallpaperSource {
    WallpaperSource::RemoteWebPage { location: String::from("https://example.invalid/") }
}

fn bounds_10_20() -> Bounds {
    Bounds { x: 10, y: 20, width: 300, height: 200 }
}

#[test]
fn zero_width_window_is_rejected() {
    let w = window(1, 7, "anything", Bounds { x: 0, y: 0, width: 0, height: 100 });
    assert!(!Overlay::should_handle(&w, &[]));
    assert!(Overlay::new(1, &w, &source(), 1000, &[]).is_none());
}

#[test]
fn zero_height_window_is_rejected() {
    let w = window(1, 7, "anything", Bounds { x: 0, y: 0, width: 100, height: 0 });
    assert!(!Overlay::should_handle(&w, &[]));
    assert!(Overlay::new(1, &w, &source(), 1000, &[]).is_none());
}

#[test]
fn window_without_title_is_rejected() {
    let w = TargetWindow {
        id: 1,
        pid: 7,
        title: None,
        bounds: Some(bounds_10_20()),
        frontmost: Some(false),
    };
    assert!(!Overlay::should_handle(&w, &[]));
}

#[test]
fn window_without_bounds_is_rejected() {
    let w = TargetWindow {
        id: 1,
        pid: 7,
        title: Some(String::from("anything")),
        bounds: None,
        frontmost: Some(false),
    };
    assert!(!Overlay::should_handle(&w, &[]));
}

#[test]
fn filtered_out_window_is_rejected() {
    let filters = vec![Filter::WindowName {
        name: String::from("Notes"),
        strategy: StringFilterStrategy::Exact,
    }];
    let w = window(1, 7, "Browser", bounds_10_20());
    assert!(!Overlay::should_handle(&w, &filters));
    let accepted = window(2, 7, "Notes", bounds_10_20());
    assert!(Overlay::should_handle(&accepted, &filters));
}

#[test]
fn bound_overlay_matches_window_geometry_and_opacity() {
    let w = window(5, 7, "untitled", bounds_10_20());
    let (overlay, ops) = Overlay::new(42, &w, &source(), 700, &[]).unwrap();
    assert_eq!(overlay.target_window_id, 5);
    assert_eq!(overlay.opacity, 700);
    assert_eq!(overlay.bounds, bounds_10_20());
    assert!(matches!(overlay.state, OverlayState::Inactive));
    assert!(matches!(
        ops[0],
        SurfaceOp::CreateSurface { wallpaper_id: 42, target_window: 5, opacity: 700, .. }
    ));
    let n = ops.len();
    assert!(matches!(ops[n - 2], SurfaceOp::SetPosition { x: 10, y: 20 }));
    assert!(matches!(ops[n - 1], SurfaceOp::SetSize { width: 300, height: 200 }));
}

#[test]
fn frontmost_window_binds_active() {
    let mut w = window(5, 7, "untitled", bounds_10_20());
    w.frontmost = Some(true);
    let (overlay, _) = Overlay::new(42, &w, &source(), 1000, &[]).unwrap();
    assert!(matches!(overlay.state, OverlayState::Active));
}

#[test]
fn moved_event_repositions_only() {
    let w = window(5, 7, "untitled", bounds_10_20());
    let (mut overlay, _) = Overlay::new(42, &w, &source(), 1000, &[]).unwrap();
    let ops = overlay.handle_target_window_event(WindowEvent::Moved {
        bounds: Bounds { x: 50, y: 60, width: 999, height: 999 },
    });
    assert_eq!(overlay.bounds, Bounds { x: 50, y: 60, width: 300, height: 200 });
    assert_eq!(ops.len(), 1);
    assert!(matches!(ops[0], SurfaceOp::SetPosition { x: 50, y: 60 }));
}

#[test]
fn resized_event_rescales_only() {
    let w = window(5, 7, "untitled", bounds_10_20());
    let (mut overlay, _) = Overlay::new(42, &w, &source(), 1000, &[]).unwrap();
    let ops = overlay.handle_target_window_event(WindowEvent::Resized {
        bounds: Bounds { x: 999, y: 999, width: 640, height: 480 },
    });
    assert_eq!(overlay.bounds, Bounds { x: 10, y: 20, width: 640, height: 480 });
    assert_eq!(ops.len(), 1);
    assert!(matches!(ops[0], SurfaceOp::SetSize { width: 640, height: 480 }));
}

#[test]
fn activation_forces_topmost_after_reorder() {
    let w = window(5, 7, "untitled", bounds_10_20());
    let (mut overlay, _) = Overlay::new(42, &w, &source(), 1000, &[]).unwrap();
    let ops = overlay.handle_target_window_event(WindowEvent::Activated);
    assert!(matches!(overlay.state, OverlayState::Active));
    assert!(matches!(ops[0], SurfaceOp::OrderAboveTarget { target: 5 }));
    assert!(matches!(ops[1], SurfaceOp::SettleDelay));
    assert!(matches!(ops[2], SurfaceOp::OrderAboveTarget { target: 5 }));
    assert!(matches!(ops[3], SurfaceOp::SetTopmost { topmost: true }));
}

#[test]
fn deactivation_releases_topmost_then_reorders_twice() {
    let mut w = window(5, 7, "untitled", bounds_10_20());
    w.frontmost = Some(true);
    let (mut overlay, _) = Overlay::new(42, &w, &source(), 1000, &[]).unwrap();
    let ops = overlay.handle_target_window_event(WindowEvent::Deactivated);
    assert!(matches!(overlay.state, OverlayState::Inactive));
    assert!(matches!(ops[0], SurfaceOp::SetTopmost { topmost: false }));
    assert!(matches!(ops[1], SurfaceOp::OrderAboveTarget { target: 5 }));
    assert!(matches!(ops[2], SurfaceOp::SettleDelay));
    assert!(matches!(ops[3], SurfaceOp::OrderAboveTarget { target: 5 }));
}

#[test]
fn opacity_update_changes_surface_alpha() {
    let w = window(5, 7, "untitled", bounds_10_20());
    let (mut overlay, _) = Overlay::new(42, &w, &source(), 1000, &[]).unwrap();
    let ops = overlay.apply_wallpaper(Some(250), None);
    assert_eq!(overlay.opacity, 250);
    assert_eq!(ops.len(), 1);
    assert!(matches!(ops[0], SurfaceOp::SetOpacity { opacity: 250 }));
}

#[test]
fn source_update_reloads_content() {
    let w = window(5, 7, "untitled", bounds_10_20());
    let (mut overlay, _) = Overlay::new(42, &w, &source(), 1000, &[]).unwrap();
    let new_source = WallpaperSource::Picture { location: String::from("cat.png") };
    let ops = overlay.apply_wallpaper(None, Some(new_source));
    assert_eq!(ops.len(), 1);
    assert!(matches!(&ops[0], SurfaceOp::ReplaceContent { .. }));
    assert!(matches!(&overlay.source, WallpaperSource::Picture { location } if location == "cat.png"));
}

#[test]
fn close_destroys_the_surface() {
    let w = window(5, 7, "untitled", bounds_10_20());
    let (mut overlay, _) = Overlay::new(42, &w, &source(), 1000, &[]).unwrap();
    let ops = overlay.close();
    assert!(matches!(overlay.state, OverlayState::Closed));
    assert_eq!(ops.len(), 1);
    assert!(matches!(ops[0], SurfaceOp::Destroy));
}
