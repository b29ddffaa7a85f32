//! Window-attachment synchronization engine for application wallpapers.
//!
//! The crate models the core that keeps decorative overlay surfaces glued to
//! the windows of a target application: discovering matching processes,
//! tracking their windows, binding one overlay per qualifying window, and
//! keeping each overlay's geometry, stacking order and visibility consistent
//! with its target window. Platform window hooks, surface rendering and
//! configuration storage are external collaborators; the decisions the engine
//! takes on their reports are verified here.

pub mod app_windows;
pub mod config;
pub mod filter;
pub mod manager;
pub mod observer;
pub mod overlay;
pub mod overlay_host;
pub mod process;
pub mod retry;
pub mod url;
pub mod wallpaper_host;
pub mod window;
