//! The registry of all active wallpapers.
//!
//! The [`WallpaperManager`] owns one [`WallpaperHost`] per registered
//! wallpaper, keyed by the wallpaper's stable id, together with the
//! application observer's listener table. The configuration UI drives it
//! through add, remove and apply commands; applying to an unknown id is the
//! one command error. A wallpaper is subscribed under its configuration's
//! target path for as long as it is registered, and an apply that changes
//! the target path moves that subscription atomically.

use vstd::prelude::*;

use crate::config::{spec_apply_update, ApplyWallpaper, Wallpaper};
use crate::observer::{ApplicationEvent, ListenerTable};
use crate::overlay::{SurfaceOp, SurfaceOpView};
use crate::wallpaper_host::{spec_count_pid, spec_total_overlays, WallpaperHost};
use crate::window::TargetWindow;

verus! {

/// A failed command, as reported to the configuration UI.
#[derive(Debug)]
pub struct CommandError {
    /// Machine-readable code naming the failure.
    pub code: String,
    /// Optional human-readable detail.
    pub detail: Option<String>,
}

/// A failed configuration write, as reported to the configuration UI.
#[derive(Debug)]
pub struct Error {
    /// What failed.
    pub message: String,
    /// The underlying failure's text.
    pub detail: String,
}

/// How many overlay hosts of one wallpaper follow the given process id.
pub open spec fn spec_count_pid_of(host: WallpaperHost, pid: u32) -> nat {
    spec_count_pid(host.overlay_hosts@, pid)
}

/// The top-level registry: every live wallpaper host, keyed by wallpaper
/// id, and the application observer's routing table.
#[derive(Debug)]
pub struct WallpaperManager {
    /// Wallpaper id → host, ids unique.
    pub hosts: Vec<(u128, WallpaperHost)>,
    /// Who listens for which target path's process events.
    pub listeners: ListenerTable,
}

impl WallpaperManager {
    /// Some wallpaper is registered under the id.
    pub open spec fn spec_has_id(self, id: u128) -> bool {
        exists|i: int| 0 <= i < self.hosts@.len() && (#[trigger] self.hosts@[i]).0 == id
    }

    /// Well-formedness: ids unique; every host well formed, live and keyed
    /// by its own id; the listener table well formed; and every wallpaper
    /// subscribed under its configuration's target path.
    pub open spec fn wf(self) -> bool {
        &&& forall|i: int, j: int|
            0 <= i < j < self.hosts@.len() ==> (#[trigger] self.hosts@[i]).0 != (
            #[trigger] self.hosts@[j]).0
        &&& forall|i: int|
            0 <= i < self.hosts@.len() ==> {
                let entry = #[trigger] self.hosts@[i];
                &&& entry.1.wf()
                &&& !entry.1.stopped
                &&& entry.1.id == entry.0
            }
        &&& self.listeners.wf()
        &&& forall|i: int|
            0 <= i < self.hosts@.len() ==> (#[trigger] self.listeners.spec_subscribers(
                self.hosts@[i].1.config.application_name@,
            )).contains(self.hosts@[i].0)
    }

    /// An empty registry.
    pub fn new() -> (r: WallpaperManager)
        ensures
            r.wf(),
            r.hosts@.len() == 0,
    {
        WallpaperManager { hosts: Vec::new(), listeners: ListenerTable::new() }
    }

    /// The index of a wallpaper's entry, if registered.
    fn find_id(&self, id: u128) -> (r: Option<usize>)
        ensures
            match r {
                Some(i) => i < self.hosts@.len() && self.hosts@[i as int].0 == id,
                None => !self.spec_has_id(id),
            },
    {
        let hosts_len = self.hosts.len();
        let mut i: usize = 0;
        while i < hosts_len
            invariant
                hosts_len == self.hosts@.len(),
                0 <= i <= hosts_len,
                forall|j: int| 0 <= j < i ==> (#[trigger] self.hosts@[j]).0 != id,
            decreases hosts_len - i,
        {
            if self.hosts[i].0 == id {
                return Some(i);
            }
            i = i + 1;
        }
        None
    }

    /// The stored configuration of a wallpaper, read back for display;
    /// `None` for an unknown id.
    pub fn config_of(&self, id: u128) -> (r: Option<Wallpaper>)
        ensures
            r is Some <==> self.spec_has_id(id),
            r matches Some(c) ==> exists|i: int|
                0 <= i < self.hosts@.len() && (#[trigger] self.hosts@[i]).0 == id && c@
                    == self.hosts@[i].1.config@,
    {
        match self.find_id(id) {
            Some(i) => {
                let c = self.hosts[i].1.config.clone();
                Some(c)
            },
            None => None,
        }
    }

    /// Registers a new wallpaper: creates its host and subscribes it to
    /// the application observer under its target path. Reports `false`
    /// without touching anything when the id is already registered.
    pub fn add_wallpaper(&mut self, id: u128, payload: Wallpaper) -> (r: bool)
        requires
            old(self).wf(),
            payload.wf(),
        ensures
            final(self).wf(),
            r == !old(self).spec_has_id(id),
            final(self).spec_has_id(id),
            !r ==> *final(self) == *old(self),
            r ==> {
                &&& final(self).hosts@.len() == old(self).hosts@.len() + 1
                &&& final(self).hosts@.drop_last() == old(self).hosts@
                &&& final(self).hosts@.last().0 == id
                &&& final(self).hosts@.last().1.id == id
                &&& final(self).hosts@.last().1.config == payload
                &&& final(self).hosts@.last().1.overlay_hosts@.len() == 0
                &&& final(self).listeners.spec_subscribers(payload.application_name@).contains(id)
            },
    {
        match self.find_id(id) {
            Some(_) => false,
            None => {
                let ghost old_self = *self;
                let path = payload.application_name.clone();
                let host = WallpaperHost::new(id, payload);
                self.listeners.listen_application(path, id);
                self.hosts.push((id, host));
                proof {
                    assert(final(self).hosts@.drop_last() =~= old(self).hosts@);
                    assert(final(self).spec_has_id(id)) by {
                        assert(final(self).hosts@[old(self).hosts@.len() as int].0 == id);
                    }
                    assert(final(self).wf()) by {
                        assert forall|i: int|
                            0 <= i < self.hosts@.len() implies (
                        #[trigger] self.listeners.spec_subscribers(
                            self.hosts@[i].1.config.application_name@,
                        )).contains(self.hosts@[i].0) by {
                            if i < old(self).hosts@.len() {
                                assert(self.hosts@[i] == old(self).hosts@[i]);
                                let p = old(self).hosts@[i].1.config.application_name@;
                                assert(old(self).listeners.spec_subscribers(p).contains(
                                    old(self).hosts@[i].0,
                                ));
                            }
                        }
                    }
                }
                true
            },
        }
    }

    /// Removes a wallpaper: unsubscribes it from the application observer,
    /// stops its host and destroys every surface it held. Removing an
    /// unknown id changes nothing.
    pub fn remove_wallpaper(&mut self, id: u128) -> (ops: Vec<SurfaceOp>)
        requires
            old(self).wf(),
        ensures
            final(self).wf(),
            !final(self).spec_has_id(id),
            !old(self).spec_has_id(id) ==> *final(self) == *old(self) && ops@.len() == 0,
            old(self).spec_has_id(id) ==> exists|i: int|
                0 <= i < old(self).hosts@.len() && (#[trigger] old(self).hosts@[i]).0 == id
                    && final(self).hosts@ == old(self).hosts@.remove(i) && ops.deep_view()
                    == Seq::new(
                    spec_total_overlays(old(self).hosts@[i].1.overlay_hosts@),
                    |k: int| SurfaceOpView::Destroy,
                ),
    {
        match self.find_id(id) {
            Some(i) => {
                let ghost old_self = *self;
                let ghost old_hosts = self.hosts@;
                let (_, mut host) = self.hosts.remove(i);
                self.listeners.unlisten_application(&host.config.application_name, id);
                let ops = host.stop();
                proof {
                    assert(self.hosts@ =~= old_hosts.remove(i as int));
                    assert(forall|x: int|
                        0 <= x < self.hosts@.len() ==> #[trigger] self.hosts@[x] == (if x < i {
                            old_hosts[x]
                        } else {
                            old_hosts[x + 1]
                        }));
                    assert(!final(self).spec_has_id(id)) by {
                        if final(self).spec_has_id(id) {
                            let k = choose|k: int|
                                0 <= k < self.hosts@.len() && (#[trigger] self.hosts@[k]).0 == id;
                            if k < i {
                                assert(old_hosts[k].0 == id);
                            } else {
                                assert(old_hosts[k + 1].0 == id);
                            }
                        }
                    }
                    assert(final(self).wf()) by {
                        assert forall|x: int|
                            0 <= x < self.hosts@.len() implies (
                        #[trigger] self.listeners.spec_subscribers(
                            self.hosts@[x].1.config.application_name@,
                        )).contains(self.hosts@[x].0) by {
                            let entry = self.hosts@[x];
                            assert(entry == if x < i {
                                old_hosts[x]
                            } else {
                                old_hosts[x + 1]
                            });
                            assert(old_self.listeners.spec_subscribers(
                                entry.1.config.application_name@,
                            ).contains(entry.0));
                            assert(entry.0 != id);
                        }
                    }
                }
                ops
            },
            None => Vec::new(),
        }
    }

    /// Hands one routed application event to the wallpaper it was
    /// delivered for. An added event carries the windows of the new process
    /// when the window observer could attach, `None` when it was given up.
    /// A delivery for an unregistered wallpaper — its channel died between
    /// routing and dispatch — is dropped without effect.
    pub fn dispatch_application_event(
        &mut self,
        subscriber: u128,
        event: ApplicationEvent,
        windows: Option<&Vec<TargetWindow>>,
    ) -> (ops: Vec<SurfaceOp>)
        requires
            old(self).wf(),
            windows matches Some(ws) ==> forall|i: int, j: int|
                0 <= i < j < ws@.len() ==> #[trigger] ws@[i].id != #[trigger] ws@[j].id,
        ensures
            final(self).wf(),
            !old(self).spec_has_id(subscriber) ==> *final(self) == *old(self) && ops@.len() == 0,
            old(self).spec_has_id(subscriber) ==> exists|i: int|
                0 <= i < old(self).hosts@.len() && (#[trigger] old(self).hosts@[i]).0
                    == subscriber && final(self).hosts@.len() == old(self).hosts@.len() && (
                forall|j: int|
                    0 <= j < old(self).hosts@.len() && j != i ==> #[trigger] final(self).hosts@[j]
                        == old(self).hosts@[j]) && final(self).hosts@[i].0 == subscriber && (
                match event {
                    ApplicationEvent::Added(pid) => (windows is Some ==> spec_count_pid_of(
                        final(self).hosts@[i].1,
                        pid,
                    ) == 1) && (windows matches Some(ws) ==> !old(
                        self,
                    ).hosts@[i].1.spec_has_pid(pid) ==> ops.deep_view()
                        == crate::overlay_host::spec_created_ops(
                        old(self).hosts@[i].1.id,
                        pid,
                        old(self).hosts@[i].1.config@.filters,
                        old(self).hosts@[i].1.config@.source,
                        old(self).hosts@[i].1.config.opacity,
                        ws.deep_view(),
                    )) && ((old(self).hosts@[i].1.spec_has_pid(pid) || windows is None)
                        ==> ops@.len() == 0),
                    ApplicationEvent::Removed(pid) => spec_count_pid_of(
                        final(self).hosts@[i].1,
                        pid,
                    ) == 0 && (!old(self).hosts@[i].1.spec_has_pid(pid) ==> ops@.len() == 0),
                }),
    {
        match self.find_id(subscriber) {
            Some(i) => {
                let ghost old_hosts = self.hosts@;
                let pair = &mut self.hosts[i];
                let ops = match event {
                    ApplicationEvent::Added(pid) => pair.1.on_application_added(pid, windows),
                    ApplicationEvent::Removed(pid) => pair.1.on_application_removed(pid),
                };
                proof {
                    assert(forall|j: int|
                        0 <= j < self.hosts@.len() && j != i ==> #[trigger] self.hosts@[j]
                            == old_hosts[j]);
                    if let ApplicationEvent::Added(pid) = event {
                        if windows is Some {
                        if !old_hosts[i as int].1.spec_has_pid(pid) {
                            assert(self.hosts@[i as int].1.overlay_hosts@.last().pid == pid);
                            assert(self.hosts@[i as int].1.spec_has_pid(pid)) by {
                                let n = self.hosts@[i as int].1.overlay_hosts@.len() - 1;
                                assert((self.hosts@[i as int].1.overlay_hosts@[n]).pid == pid);
                            }
                        } else {
                            assert(self.hosts@[i as int].1.overlay_hosts@
                                == old_hosts[i as int].1.overlay_hosts@);
                        }
                        crate::wallpaper_host::lemma_count_has(
                            self.hosts@[i as int].1.overlay_hosts@,
                            pid,
                        );
                        }
                    }
                    assert(final(self).wf()) by {
                        assert forall|x: int|
                            0 <= x < self.hosts@.len() implies (
                        #[trigger] self.listeners.spec_subscribers(
                            self.hosts@[x].1.config.application_name@,
                        )).contains(self.hosts@[x].0) by {
                            if x != i {
                                assert(self.hosts@[x] == old_hosts[x]);
                            } else {
                                assert(self.hosts@[i as int].1.config
                                    == old_hosts[i as int].1.config);
                            }
                        }
                    }
                }
                ops
            },
            None => Vec::new(),
        }
    }

    /// Applies a partial update to a registered wallpaper: merges it into
    /// the stored configuration and pushes it to the live overlay hosts. A
    /// changed target path stops every overlay host of that wallpaper,
    /// moves its subscription to the new path, and reports `true` so that
    /// the caller rebuilds from the processes already running there. The
    /// one failure is an unknown id.
    pub fn apply_wallpaper(&mut self, id: u128, payload: ApplyWallpaper) -> (r: Result<
        (Vec<SurfaceOp>, bool),
        CommandError,
    >)
        requires
            old(self).wf(),
            payload.wf(),
        ensures
            final(self).wf(),
            r is Ok <==> old(self).spec_has_id(id),
            r matches Err(e) ==> e.code@ == "wallpaper_not_found"@ && *final(self) == *old(self),
            r matches Ok(okr) ==> exists|i: int|
                0 <= i < old(self).hosts@.len() && (#[trigger] old(self).hosts@[i]).0 == id && {
                    let new_host = final(self).hosts@[i].1;
                    let old_host = old(self).hosts@[i].1;
                    &&& final(self).hosts@.len() == old(self).hosts@.len()
                    &&& (forall|j: int|
                        0 <= j < old(self).hosts@.len() && j != i
                            ==> #[trigger] final(self).hosts@[j] == old(self).hosts@[j])
                    &&& final(self).hosts@[i].0 == id
                    &&& new_host.config@ == spec_apply_update(old_host.config@, payload@)
                    &&& okr.1 == (payload.application_name matches Some(n) && n@
                        != old_host.config.application_name@)
                    &&& (okr.1 ==> new_host.overlay_hosts@.len() == 0 && okr.0.deep_view()
                        == Seq::new(
                        spec_total_overlays(old_host.overlay_hosts@),
                        |k: int| crate::overlay::SurfaceOpView::Destroy,
                    ))
                    &&& (!okr.1 ==> okr.0.deep_view()
                        == crate::wallpaper_host::spec_hosts_apply_ops(
                        old_host.overlay_hosts@,
                        payload@.opacity,
                        payload@.source,
                    ))
                    &&& final(self).listeners.spec_subscribers(
                        new_host.config.application_name@,
                    ).contains(id)
                },
    {
        match self.find_id(id) {
            Some(i) => {
                let ghost old_hosts = self.hosts@;
                let old_name = self.hosts[i].1.config.application_name.clone();
                let pair = &mut self.hosts[i];
                let (ops, application_changed) = pair.1.apply_wallpaper(payload);
                proof {
                    assert(forall|j: int|
                        0 <= j < self.hosts@.len() && j != i ==> #[trigger] self.hosts@[j]
                            == old_hosts[j]);
                    assert(self.hosts@[i as int].0 == id);
                }
                if application_changed {
                    let new_name = self.hosts[i].1.config.application_name.clone();
                    let ghost before_listeners = self.listeners;
                    self.listeners.unlisten_application(&old_name, id);
                    let ghost mid_listeners = self.listeners;
                    self.listeners.listen_application(new_name, id);
                    proof {
                        assert(final(self).wf()) by {
                            assert forall|x: int|
                                0 <= x < self.hosts@.len() implies (
                            #[trigger] self.listeners.spec_subscribers(
                                self.hosts@[x].1.config.application_name@,
                            )).contains(self.hosts@[x].0) by {
                                let p = self.hosts@[x].1.config.application_name@;
                                let s = self.hosts@[x].0;
                                if x == i {
                                    assert(self.listeners.spec_subscribers(p).contains(s));
                                } else {
                                    assert(self.hosts@[x] == old_hosts[x]);
                                    assert(before_listeners.spec_subscribers(p).contains(s));
                                    assert(s != id);
                                    assert(mid_listeners.spec_subscribers(p).contains(s));
                                }
                            }
                        }
                    }
                    Ok((ops, true))
                } else {
                    proof {
                        assert(final(self).wf()) by {
                            assert forall|x: int|
                                0 <= x < self.hosts@.len() implies (
                            #[trigger] self.listeners.spec_subscribers(
                                self.hosts@[x].1.config.application_name@,
                            )).contains(self.hosts@[x].0) by {
                                if x == i {
                                    assert(self.hosts@[i as int].1.config.application_name@
                                        == old_hosts[i as int].1.config.application_name@);
                                } else {
                                    assert(self.hosts@[x] == old_hosts[x]);
                                }
                            }
                        }
                    }
                    Ok((ops, false))
                }
            },
            None => {
                let code = String::from_str("wallpaper_not_found");
                Err(CommandError { code, detail: None })
            },
        }
    }
}

} // verus!
