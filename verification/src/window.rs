//! Target windows and the events reported about them.
//!
//! A [`TargetWindow`] is the engine's picture of one OS window at the moment
//! it was queried: its identity, owner process, title, geometry and whether
//! it is the foreground window. Queries can fail on a live system, so title,
//! bounds and foreground state are each optional. A [`WindowEvent`] is one
//! report from the platform window observer; move and resize reports carry
//! the bounds queried alongside them.

use vstd::prelude::*;

verus! {

/// A window's position and size in logical pixels.
#[derive(Debug, Clone, Copy, PartialEq, Eq, Structural)]
pub struct Bounds {
    pub x: i64,
    pub y: i64,
    pub width: u64,
    pub height: u64,
}

/// One OS window of the target application, as last queried.
#[derive(Debug)]
pub struct TargetWindow {
    /// Stable identity for the window's OS lifetime.
    pub id: u64,
    /// Process that owns the window.
    pub pid: u32,
    /// Title text; `None` when it could not be obtained.
    pub title: Option<String>,
    /// Geometry; `None` when it could not be obtained.
    pub bounds: Option<Bounds>,
    /// Whether the window was the OS foreground window; `None` when the
    /// query failed.
    pub frontmost: Option<bool>,
}

/// The mathematical content of a [`TargetWindow`].
pub struct TargetWindowView {
    pub id: u64,
    pub pid: u32,
    pub title: Option<Seq<char>>,
    pub bounds: Option<Bounds>,
    pub frontmost: Option<bool>,
}

impl View for TargetWindow {
    type V = TargetWindowView;

    open spec fn view(&self) -> TargetWindowView {
        TargetWindowView {
            id: self.id,
            pid: self.pid,
            title: self.title.deep_view(),
            bounds: self.bounds,
            frontmost: self.frontmost,
        }
    }
}

impl DeepView for TargetWindow {
    type V = TargetWindowView;

    open spec fn deep_view(&self) -> TargetWindowView {
        self.view()
    }
}

/// One report from the platform window observer about a target window.
#[derive(Debug, Clone, Copy, PartialEq, Eq, Structural)]
pub enum WindowEvent {
    /// A window appeared.
    Created,
    /// The window closed; exactly one such report ends its tracking.
    Closed,
    /// The window moved; carries the bounds queried alongside the report.
    Moved { bounds: Bounds },
    /// The window was resized; carries the bounds queried alongside.
    Resized { bounds: Bounds },
    /// The window became the foreground window.
    Activated,
    /// The window stopped being the foreground window.
    Deactivated,
}

} // verus!
