//! The application listing shown when the user picks a target application.
//!
//! From a system-wide window enumeration and a process snapshot, build one
//! entry per foreign application that has a window: its first window's
//! title, the process's display name, and the executable path the user's
//! choice will be registered under. The engine's own process is skipped, a
//! process is listed once however many windows it has, and an empty title
//! counts as none.

use vstd::prelude::*;

use crate::process::{spec_find_process, ApplicationProcess, ProcessView};
use crate::window::{TargetWindow, TargetWindowView};

verus! {

/// One application the user can target, with a sample window title.
#[derive(Debug)]
pub struct ApplicationWindow {
    /// The first window's title, when present and non-empty.
    pub title: Option<String>,
    /// The process's display name, when the OS offers one.
    pub name: Option<String>,
    /// The executable path the wallpaper would be registered under.
    pub path: String,
}

/// The mathematical content of an [`ApplicationWindow`].
pub struct ApplicationWindowView {
    pub title: Option<Seq<char>>,
    pub name: Option<Seq<char>>,
    pub path: Seq<char>,
}

impl View for ApplicationWindow {
    type V = ApplicationWindowView;

    open spec fn view(&self) -> ApplicationWindowView {
        ApplicationWindowView {
            title: self.title.deep_view(),
            name: self.name.deep_view(),
            path: self.path@,
        }
    }
}

impl DeepView for ApplicationWindow {
    type V = ApplicationWindowView;

    open spec fn deep_view(&self) -> ApplicationWindowView {
        self.view()
    }
}

/// A window title worth showing: present and non-empty.
pub open spec fn spec_shown_title(title: Option<Seq<char>>) -> Option<Seq<char>> {
    match title {
        Some(t) => if t.len() > 0 {
            Some(t)
        } else {
            None
        },
        None => None,
    }
}

/// The listing built from the windows not yet skipped, given the process
/// ids already listed (or skipped) so far: the engine's own process and
/// repeated owners are passed over, a window whose owner is not in the
/// snapshot is passed over too, and each remaining window contributes one
/// entry.
pub open spec fn spec_application_windows(
    windows: Seq<TargetWindowView>,
    processes: Seq<ProcessView>,
    self_pid: u32,
    seen: Seq<u32>,
) -> Seq<ApplicationWindowView>
    decreases windows.len(),
{
    if windows.len() == 0 {
        Seq::empty()
    } else {
        let w = windows.first();
        let rest = windows.drop_first();
        if w.pid == self_pid || seen.contains(w.pid) {
            spec_application_windows(rest, processes, self_pid, seen)
        } else {
            match spec_find_process(processes, w.pid) {
                None => spec_application_windows(rest, processes, self_pid, seen.push(w.pid)),
                Some(p) => seq![
                    ApplicationWindowView {
                        title: spec_shown_title(w.title),
                        name: p.name,
                        path: p.path,
                    },
                ] + spec_application_windows(rest, processes, self_pid, seen.push(w.pid)),
            }
        }
    }
}

/// Builds the application listing: one entry per process, other than the
/// engine's own, that owns a window and stands in the process snapshot, in
/// window enumeration order.
pub fn get_application_windows(
    windows: &Vec<TargetWindow>,
    processes: &Vec<ApplicationProcess>,
    self_pid: u32,
) -> (r: Vec<ApplicationWindow>)
    ensures
        r.deep_view() == spec_application_windows(
            windows.deep_view(),
            processes.deep_view(),
            self_pid,
            Seq::empty(),
        ),
{
    let mut r: Vec<ApplicationWindow> = Vec::new();
    let mut seen: Vec<u32> = Vec::new();
    let windows_len = windows.len();
    let mut i: usize = 0;
    assert(windows.deep_view().skip(0) =~= windows.deep_view());
    while i < windows_len
        invariant
            windows_len == windows@.len(),
            0 <= i <= windows_len,
            spec_application_windows(
                windows.deep_view(),
                processes.deep_view(),
                self_pid,
                Seq::empty(),
            ) == r.deep_view() + spec_application_windows(
                windows.deep_view().skip(i as int),
                processes.deep_view(),
                self_pid,
                seen@,
            ),
        decreases windows_len - i,
    {
        let ghost suffix = windows.deep_view().skip(i as int);
        assert(suffix.first() == windows.deep_view()[i as int]);
        assert(suffix.drop_first() =~= windows.deep_view().skip(i as int + 1));
        let w = &windows[i];
        assert(w.deep_view() == windows.deep_view()[i as int]);
        let ghost r_before = r.deep_view();
        let ghost seen_before = seen@;
        if w.pid != self_pid && !contains_pid(&seen, w.pid) {
            seen.push(w.pid);
            match crate::process::get_application_process(processes, w.pid) {
                Some(p) => {
                    let title = match &w.title {
                        Some(t) => {
                            if t.as_str().is_empty() {
                                None
                            } else {
                                Some(t.clone())
                            }
                        },
                        None => None,
                    };
                    let entry = ApplicationWindow { title, name: p.name, path: p.path };
                    assert(entry.deep_view() == (ApplicationWindowView {
                        title: spec_shown_title(windows.deep_view()[i as int].title),
                        name: spec_find_process(processes.deep_view(), w.pid)->0.name,
                        path: spec_find_process(processes.deep_view(), w.pid)->0.path,
                    }));
                    r.push(entry);
                    assert(r.deep_view() =~= r_before.push(entry.deep_view()));
                    assert(r.deep_view() + spec_application_windows(
                        windows.deep_view().skip(i as int + 1),
                        processes.deep_view(),
                        self_pid,
                        seen@,
                    ) =~= r_before + spec_application_windows(
                        suffix,
                        processes.deep_view(),
                        self_pid,
                        seen_before,
                    ));
                },
                None => {},
            }
        }
        i = i + 1;
    }
    assert(windows.deep_view().skip(windows_len as int) =~= Seq::<TargetWindowView>::empty());
    r
}

/// Whether the pid stands among those already handled.
fn contains_pid(seen: &Vec<u32>, pid: u32) -> (r: bool)
    ensures
        r == seen@.contains(pid),
{
    let seen_len = seen.len();
    let mut i: usize = 0;
    while i < seen_len
        invariant
            seen_len == seen@.len(),
            0 <= i <= seen_len,
            forall|j: int| 0 <= j < i ==> #[trigger] seen@[j] != pid,
        decreases seen_len - i,
    {
        if seen[i] == pid {
            return true;
        }
        i = i + 1;
    }
    false
}

} // verus!
