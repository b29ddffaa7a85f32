//! One wallpaper's live set of overlay hosts.
//!
//! A [`WallpaperHost`] bridges one wallpaper configuration to the processes
//! that currently match its target application: for every matching process
//! that appears it gains an overlay host, for every one that goes away it
//! loses one, and live configuration edits are merged field by field. A
//! change of target application is a hard reset: every overlay host is
//! stopped, the application subscription moves to the new path, and hosts
//! are rebuilt from the processes already running there — a bootstrap that
//! cannot wait for a future added event.

use vstd::prelude::*;

use crate::config::{ApplyWallpaper, Wallpaper, WallpaperView, spec_apply_update};
use crate::overlay_host::{
    spec_created_overlays, spec_created_ops, spec_repeat_apply_ops, OverlayHost,
};
use crate::overlay::{SurfaceOp, SurfaceOpView};
use crate::window::TargetWindow;

verus! {

/// How many of these overlay hosts follow the given process id.
pub open spec fn spec_count_pid(hosts: Seq<OverlayHost>, pid: u32) -> nat
    decreases hosts.len(),
{
    if hosts.len() == 0 {
        0
    } else {
        spec_count_pid(hosts.drop_last(), pid) + (if hosts.last().pid == pid {
            1nat
        } else {
            0nat
        })
    }
}

/// A count of zero means no host carries the pid, and conversely.
pub proof fn lemma_count_zero(hosts: Seq<OverlayHost>, pid: u32)
    ensures
        (spec_count_pid(hosts, pid) == 0) <==> (forall|i: int|
            0 <= i < hosts.len() ==> (#[trigger] hosts[i]).pid != pid),
    decreases hosts.len(),
{
    if hosts.len() > 0 {
        lemma_count_zero(hosts.drop_last(), pid);
        if spec_count_pid(hosts, pid) == 0 {
            assert forall|i: int| 0 <= i < hosts.len() implies (#[trigger] hosts[i]).pid
                != pid by {
                if i < hosts.len() - 1 {
                    assert(hosts.drop_last()[i] == hosts[i]);
                }
            }
        } else {
        }
        if forall|i: int| 0 <= i < hosts.len() ==> (#[trigger] hosts[i]).pid != pid {
            assert forall|i: int| 0 <= i < hosts.drop_last().len() implies (#[trigger] hosts
                .drop_last()[i]).pid != pid by {
                assert(hosts.drop_last()[i] == hosts[i]);
            }
        }
    }
}

/// Pairwise-distinct pids bound the count for any pid by one.
pub proof fn lemma_count_distinct(hosts: Seq<OverlayHost>, pid: u32)
    requires
        forall|i: int, j: int|
            0 <= i < j < hosts.len() ==> (#[trigger] hosts[i]).pid != (#[trigger] hosts[j]).pid,
    ensures
        spec_count_pid(hosts, pid) <= 1,
    decreases hosts.len(),
{
    if hosts.len() > 0 {
        let rest = hosts.drop_last();
        assert(forall|i: int, j: int|
            0 <= i < j < rest.len() ==> (#[trigger] rest[i]).pid != (#[trigger] rest[j]).pid) by {
            assert(forall|i: int| 0 <= i < rest.len() ==> #[trigger] rest[i] == hosts[i]);
        }
        lemma_count_distinct(rest, pid);
        if hosts.last().pid == pid {
            lemma_count_zero(rest, pid);
            assert forall|i: int| 0 <= i < rest.len() implies (#[trigger] rest[i]).pid != pid by {
                assert(rest[i] == hosts[i]);
                assert(hosts[i].pid != hosts[hosts.len() - 1].pid);
            }
        }
    }
}

/// How many overlays all these hosts hold together.
pub open spec fn spec_total_overlays(hosts: Seq<OverlayHost>) -> nat
    decreases hosts.len(),
{
    if hosts.len() == 0 {
        0
    } else {
        spec_total_overlays(hosts.drop_last()) + hosts.last().ov().len()
    }
}

/// The surface mutations pushing one configuration edit to each host in
/// turn: per host, one burst per overlay it holds.
pub open spec fn spec_hosts_apply_ops(
    hosts: Seq<OverlayHost>,
    opacity: Option<u32>,
    source: Option<crate::config::SourceView>,
) -> Seq<SurfaceOpView>
    decreases hosts.len(),
{
    if hosts.len() == 0 {
        Seq::empty()
    } else {
        spec_hosts_apply_ops(hosts.drop_last(), opacity, source) + spec_repeat_apply_ops(
            hosts.last().ov().len(),
            opacity,
            source,
        )
    }
}

/// The surface mutations rebuilding hosts for the given processes asks for:
/// one creation burst per process, in list order.
pub open spec fn spec_rebuild_ops(
    wallpaper_id: u128,
    config: WallpaperView,
    processes: Seq<(u32, Seq<crate::window::TargetWindowView>)>,
) -> Seq<SurfaceOpView>
    decreases processes.len(),
{
    if processes.len() == 0 {
        Seq::empty()
    } else {
        spec_rebuild_ops(wallpaper_id, config, processes.drop_last()) + spec_created_ops(
            wallpaper_id,
            processes.last().0,
            config.filters,
            config.source,
            config.opacity,
            processes.last().1,
        )
    }
}

/// The host of one wallpaper: its configuration and the overlay hosts of
/// the processes currently matching the target application.
#[derive(Debug)]
pub struct WallpaperHost {
    /// Stable identity of the wallpaper; never changes.
    pub id: u128,
    /// The wallpaper's configuration; hot-swappable except for the id.
    pub config: Wallpaper,
    /// One overlay host per live matching process.
    pub overlay_hosts: Vec<OverlayHost>,
    /// Whether the host has been stopped for good.
    pub stopped: bool,
}

impl WallpaperHost {
    /// Some overlay host follows the given process id.
    pub open spec fn spec_has_pid(self, pid: u32) -> bool {
        exists|i: int|
            0 <= i < self.overlay_hosts@.len() && (#[trigger] self.overlay_hosts@[i]).pid == pid
    }

    /// Well-formedness: the configuration is well formed; every overlay
    /// host is well formed, live, and owned by this wallpaper; process ids
    /// are pairwise distinct; a stopped host keeps no overlay hosts.
    pub open spec fn wf(self) -> bool {
        &&& self.config.wf()
        &&& forall|i: int|
            0 <= i < self.overlay_hosts@.len() ==> {
                let h = #[trigger] self.overlay_hosts@[i];
                &&& h.wf()
                &&& !h.stopped
                &&& h.wallpaper_id == self.id
            }
        &&& forall|i: int, j: int|
            0 <= i < j < self.overlay_hosts@.len() ==> (#[trigger] self.overlay_hosts@[i]).pid
                != (#[trigger] self.overlay_hosts@[j]).pid
        &&& self.stopped ==> self.overlay_hosts@.len() == 0
    }

    /// Creates the host for one wallpaper configuration. It starts with no
    /// overlay hosts; its owner registers it with the application observer
    /// under the configuration's target path, and matching processes arrive
    /// as added events.
    pub fn new(id: u128, config: Wallpaper) -> (r: WallpaperHost)
        requires
            config.wf(),
        ensures
            r.wf(),
            r.id == id,
            r.config == config,
            r.overlay_hosts@.len() == 0,
            !r.stopped,
    {
        WallpaperHost { id, config, overlay_hosts: Vec::new(), stopped: false }
    }

    /// A matching process appeared. When the window observer could attach,
    /// `windows` carries the process's currently existing windows and an
    /// overlay host is built over them; `None` means the attach was given
    /// up and this process gets no host. A process that already has a host
    /// keeps it unchanged, so no pid ever has two.
    pub fn on_application_added(
        &mut self,
        pid: u32,
        windows: Option<&Vec<TargetWindow>>,
    ) -> (ops: Vec<SurfaceOp>)
        requires
            old(self).wf(),
            !old(self).stopped,
            windows matches Some(ws) ==> forall|i: int, j: int|
                0 <= i < j < ws@.len() ==> #[trigger] ws@[i].id != #[trigger] ws@[j].id,
        ensures
            final(self).wf(),
            final(self).id == old(self).id,
            final(self).config == old(self).config,
            final(self).stopped == old(self).stopped,
            spec_count_pid(final(self).overlay_hosts@, pid) <= 1,
            old(self).spec_has_pid(pid) || windows is None ==> final(self).overlay_hosts@ == old(
                self,
            ).overlay_hosts@ && ops@.len() == 0,
            windows matches Some(ws) ==> !old(self).spec_has_pid(pid) ==> {
                &&& final(self).overlay_hosts@.len() == old(self).overlay_hosts@.len() + 1
                &&& final(self).overlay_hosts@.drop_last() == old(self).overlay_hosts@
                &&& final(self).overlay_hosts@.last().pid == pid
                &&& final(self).overlay_hosts@.last().wallpaper_id == old(self).id
                &&& !final(self).overlay_hosts@.last().stopped
                &&& final(self).overlay_hosts@.last().ov() == spec_created_overlays(
                    old(self).id,
                    pid,
                    old(self).config@.filters,
                    old(self).config@.source,
                    old(self).config.opacity,
                    ws.deep_view(),
                )
                &&& ops.deep_view() == spec_created_ops(
                    old(self).id,
                    pid,
                    old(self).config@.filters,
                    old(self).config@.source,
                    old(self).config.opacity,
                    ws.deep_view(),
                )
            },
    {
        proof {
            lemma_count_distinct(old(self).overlay_hosts@, pid);
        }
        if self.has_pid(pid) {
            let ops: Vec<SurfaceOp> = Vec::new();
            return ops;
        }
        match windows {
            Some(ws) => {
                let (host, ops) = OverlayHost::start(self.id, pid, &self.config, ws);
                self.overlay_hosts.push(host);
                proof {
                    assert(final(self).overlay_hosts@.drop_last() =~= old(self).overlay_hosts@);
                    lemma_count_distinct(final(self).overlay_hosts@, pid);
                }
                ops
            },
            None => Vec::new(),
        }
    }

    /// A matching process went away: its overlay host, if any, is stopped
    /// and dropped, destroying its surfaces. Afterwards no host follows the
    /// pid, whatever came before.
    pub fn on_application_removed(&mut self, pid: u32) -> (ops: Vec<SurfaceOp>)
        requires
            old(self).wf(),
            !old(self).stopped,
        ensures
            final(self).wf(),
            final(self).id == old(self).id,
            final(self).config == old(self).config,
            final(self).stopped == old(self).stopped,
            !final(self).spec_has_pid(pid),
            spec_count_pid(final(self).overlay_hosts@, pid) == 0,
            old(self).spec_has_pid(pid) ==> exists|i: int|
                0 <= i < old(self).overlay_hosts@.len() && (#[trigger] old(
                    self,
                ).overlay_hosts@[i]).pid == pid && final(self).overlay_hosts@ == old(
                    self,
                ).overlay_hosts@.remove(i) && ops.deep_view() == Seq::new(
                    old(self).overlay_hosts@[i].ov().len(),
                    |k: int| SurfaceOpView::Destroy,
                ),
            !old(self).spec_has_pid(pid) ==> final(self).overlay_hosts@ == old(
                self,
            ).overlay_hosts@ && ops@.len() == 0,
    {
        let hosts_len = self.overlay_hosts.len();
        let mut i: usize = 0;
        while i < hosts_len
            invariant
                hosts_len == self.overlay_hosts@.len(),
                0 <= i <= hosts_len,
                old(self).wf(),
                *self == *old(self),
                forall|j: int| 0 <= j < i ==> (#[trigger] self.overlay_hosts@[j]).pid != pid,
            decreases hosts_len - i,
        {
            if self.overlay_hosts[i].pid() == pid {
                let ghost old_hosts = self.overlay_hosts@;
                let mut host = self.overlay_hosts.remove(i);
                let ops = host.stop();
                proof {
                    assert(self.overlay_hosts@ =~= old_hosts.remove(i as int));
                    assert forall|x: int, y: int|
                        0 <= x < y < self.overlay_hosts@.len() implies (
                    #[trigger] self.overlay_hosts@[x]).pid != (
                    #[trigger] self.overlay_hosts@[y]).pid by {
                        assert(self.overlay_hosts@[x] == if x < i {
                            old_hosts[x]
                        } else {
                            old_hosts[x + 1]
                        });
                        assert(self.overlay_hosts@[y] == if y < i {
                            old_hosts[y]
                        } else {
                            old_hosts[y + 1]
                        });
                    }
                    assert(!final(self).spec_has_pid(pid)) by {
                        if final(self).spec_has_pid(pid) {
                            let k = choose|k: int|
                                0 <= k < self.overlay_hosts@.len() && (
                                #[trigger] self.overlay_hosts@[k]).pid == pid;
                            assert(self.overlay_hosts@[k] == if k < i {
                                old_hosts[k]
                            } else {
                                old_hosts[k + 1]
                            });
                        }
                    }
                    lemma_count_zero(self.overlay_hosts@, pid);
                }
                return ops;
            }
            i = i + 1;
        }
        proof {
            assert(!old(self).spec_has_pid(pid));
            lemma_count_zero(self.overlay_hosts@, pid);
        }
        Vec::new()
    }

    /// Whether some overlay host follows the pid.
    fn has_pid(&self, pid: u32) -> (r: bool)
        ensures
            r == self.spec_has_pid(pid),
    {
        let hosts_len = self.overlay_hosts.len();
        let mut i: usize = 0;
        while i < hosts_len
            invariant
                hosts_len == self.overlay_hosts@.len(),
                0 <= i <= hosts_len,
                forall|j: int| 0 <= j < i ==> (#[trigger] self.overlay_hosts@[j]).pid != pid,
            decreases hosts_len - i,
        {
            if self.overlay_hosts[i].pid() == pid {
                return true;
            }
            i = i + 1;
        }
        false
    }

    /// Merges a live configuration edit and reports whether the target
    /// application changed. When it did, every overlay host is stopped (the
    /// returned mutations destroy their surfaces) and the caller must move
    /// the application subscription to the new path and rebuild from the
    /// processes already running there; nothing else is pushed, because the
    /// rebuilt hosts are created under the merged configuration. When it
    /// did not, opacity, source and filter changes are pushed to every
    /// overlay host.
    pub fn apply_wallpaper(&mut self, payload: ApplyWallpaper) -> (r: (Vec<SurfaceOp>, bool))
        requires
            old(self).wf(),
            !old(self).stopped,
            payload.wf(),
        ensures
            final(self).wf(),
            final(self).id == old(self).id,
            final(self).stopped == old(self).stopped,
            final(self).config@ == spec_apply_update(old(self).config@, payload@),
            r.1 == (payload.application_name matches Some(n) && n@ != old(
                self,
            ).config.application_name@),
            r.1 ==> final(self).overlay_hosts@.len() == 0 && r.0.deep_view() == Seq::new(
                spec_total_overlays(old(self).overlay_hosts@),
                |k: int| SurfaceOpView::Destroy,
            ),
            !r.1 ==> r.0.deep_view() == spec_hosts_apply_ops(
                old(self).overlay_hosts@,
                payload@.opacity,
                payload@.source,
            ),
            !r.1 ==> final(self).overlay_hosts@.len() == old(self).overlay_hosts@.len()
                && (forall|i: int|
                0 <= i < final(self).overlay_hosts@.len() ==> {
                    let h = #[trigger] final(self).overlay_hosts@[i];
                    &&& h.pid == old(self).overlay_hosts@[i].pid
                    &&& h.wallpaper_id == old(self).overlay_hosts@[i].wallpaper_id
                    &&& h.stopped == old(self).overlay_hosts@[i].stopped
                    &&& h.opacity == (match payload.opacity {
                        Some(o) => o,
                        None => old(self).overlay_hosts@[i].opacity,
                    })
                    &&& h.source@ == (match payload@.source {
                        Some(s) => s,
                        None => old(self).overlay_hosts@[i].source@,
                    })
                    &&& h.ov().len() == old(self).overlay_hosts@[i].ov().len()
                }),
    {
        let application_changed = match &payload.application_name {
            Some(n) => !n.eq(&self.config.application_name),
            None => false,
        };
        let ghost payload_v = payload@;
        let opacity = payload.opacity;
        let source_for_hosts = match &payload.source {
            Some(s) => Some(s.clone()),
            None => None,
        };
        let filters_for_hosts = match &payload.filters {
            Some(f) => Some(crate::filter::clone_filters(f)),
            None => None,
        };
        crate::config::update_wallpaper_config(&mut self.config, payload);
        if application_changed {
            let ops = self.stop_overlay_hosts();
            return (ops, true);
        }
        let mut ops: Vec<SurfaceOp> = Vec::new();
        let hosts_len = self.overlay_hosts.len();
        let mut i: usize = 0;
        while i < hosts_len
            invariant
                hosts_len == self.overlay_hosts@.len(),
                hosts_len == old(self).overlay_hosts@.len(),
                0 <= i <= hosts_len,
                self.id == old(self).id,
                self.stopped == old(self).stopped,
                self.config.wf(),
                self.config@ == spec_apply_update(old(self).config@, payload_v),
                opacity matches Some(o) ==> o <= crate::config::OPACITY_OPAQUE,
                opacity == payload_v.opacity,
                source_for_hosts.deep_view() == payload_v.source,
                filters_for_hosts matches Some(f) ==> payload_v.filters matches Some(fv)
                    && f.deep_view() == fv,
                filters_for_hosts is None <==> payload_v.filters is None,
                forall|j: int|
                    0 <= j < hosts_len ==> ((#[trigger] old(self).overlay_hosts@[j]).wf() && !old(
                        self,
                    ).overlay_hosts@[j].stopped && old(self).overlay_hosts@[j].wallpaper_id == old(
                        self,
                    ).id),
                forall|j: int|
                    i <= j < hosts_len ==> #[trigger] self.overlay_hosts@[j] == old(
                        self,
                    ).overlay_hosts@[j],
                forall|j: int|
                    0 <= j < i ==> {
                        let h = #[trigger] self.overlay_hosts@[j];
                        &&& h.wf()
                        &&& h.pid == old(self).overlay_hosts@[j].pid
                        &&& h.wallpaper_id == old(self).overlay_hosts@[j].wallpaper_id
                        &&& h.stopped == old(self).overlay_hosts@[j].stopped
                        &&& h.opacity == (match payload_v.opacity {
                            Some(o) => o,
                            None => old(self).overlay_hosts@[j].opacity,
                        })
                        &&& h.source@ == (match payload_v.source {
                            Some(s) => s,
                            None => old(self).overlay_hosts@[j].source@,
                        })
                        &&& h.ov().len() == old(self).overlay_hosts@[j].ov().len()
                    },
                ops.deep_view() == spec_hosts_apply_ops(
                    old(self).overlay_hosts@.subrange(0, i as int),
                    payload_v.opacity,
                    payload_v.source,
                ),
            decreases hosts_len - i,
        {
            let ghost hosts_prefix = old(self).overlay_hosts@.subrange(0, i as int);
            let ghost hosts_next = old(self).overlay_hosts@.subrange(0, i as int + 1);
            assert(hosts_next.drop_last() =~= hosts_prefix);
            assert(hosts_next.last() == old(self).overlay_hosts@[i as int]);
            let ghost ops_before = ops.deep_view();
            let source_clone = match &source_for_hosts {
                Some(s) => Some(s.clone()),
                None => None,
            };
            let filters_clone = match &filters_for_hosts {
                Some(f) => Some(crate::filter::clone_filters(f)),
                None => None,
            };
            let host = &mut self.overlay_hosts[i];
            let mut host_ops = host.apply_wallpaper(opacity, source_clone, filters_clone);
            ops.append(&mut host_ops);
            assert(ops.deep_view() =~= ops_before + spec_repeat_apply_ops(
                old(self).overlay_hosts@[i as int].ov().len(),
                payload_v.opacity,
                payload_v.source,
            ));
            i = i + 1;
        }
        proof {
            assert(old(self).overlay_hosts@.subrange(0, hosts_len as int) =~= old(
                self,
            ).overlay_hosts@);
            assert(self.config@ == spec_apply_update(old(self).config@, payload_v));
        }
        (ops, false)
    }

    /// Rebuilds the overlay hosts after a target-application change, from
    /// the matching processes already running: one overlay host per process
    /// whose observer could attach. This bootstrap cannot rely on future
    /// added events, because a matching process may already be running.
    pub fn rebuild_overlay_hosts(
        &mut self,
        processes: &Vec<(u32, Vec<TargetWindow>)>,
    ) -> (ops: Vec<SurfaceOp>)
        requires
            old(self).wf(),
            !old(self).stopped,
            old(self).overlay_hosts@.len() == 0,
            forall|i: int, j: int|
                0 <= i < j < processes@.len() ==> #[trigger] processes@[i].0
                    != #[trigger] processes@[j].0,
            forall|i: int, x: int, y: int|
                0 <= i < processes@.len() && 0 <= x < y < processes@[i].1@.len()
                    ==> #[trigger] processes@[i].1@[x].id != #[trigger] processes@[i].1@[y].id,
        ensures
            final(self).wf(),
            final(self).id == old(self).id,
            final(self).config == old(self).config,
            final(self).stopped == old(self).stopped,
            final(self).overlay_hosts@.len() == processes@.len(),
            forall|i: int|
                0 <= i < processes@.len() ==> {
                    let h = #[trigger] final(self).overlay_hosts@[i];
                    &&& h.pid == processes@[i].0
                    &&& h.wallpaper_id == old(self).id
                    &&& !h.stopped
                    &&& h.ov() == spec_created_overlays(
                        old(self).id,
                        processes@[i].0,
                        old(self).config@.filters,
                        old(self).config@.source,
                        old(self).config.opacity,
                        processes@[i].1.deep_view(),
                    )
                },
            ops.deep_view() == spec_rebuild_ops(
                old(self).id,
                old(self).config@,
                Seq::new(processes@.len() as nat, |k: int| (processes@[k].0, processes@[k].1.deep_view())),
            ),
    {
        let ghost entries_v = Seq::new(
            processes@.len() as nat,
            |k: int| (processes@[k].0, processes@[k].1.deep_view()),
        );
        let mut ops: Vec<SurfaceOp> = Vec::new();
        let processes_len = processes.len();
        let mut i: usize = 0;
        while i < processes_len
            invariant
                processes_len == processes@.len(),
                0 <= i <= processes_len,
                self.id == old(self).id,
                self.config == old(self).config,
                self.config.wf(),
                self.stopped == old(self).stopped,
                !self.stopped,
                self.overlay_hosts@.len() == i,
                forall|x: int, y: int|
                    0 <= x < y < processes@.len() ==> #[trigger] processes@[x].0
                        != #[trigger] processes@[y].0,
                forall|x: int, s: int, t: int|
                    0 <= x < processes@.len() && 0 <= s < t < processes@[x].1@.len()
                        ==> #[trigger] processes@[x].1@[s].id != #[trigger] processes@[x].1@[t].id,
                forall|j: int|
                    0 <= j < i ==> {
                        let h = #[trigger] self.overlay_hosts@[j];
                        &&& h.wf()
                        &&& !h.stopped
                        &&& h.wallpaper_id == old(self).id
                        &&& h.pid == processes@[j].0
                        &&& h.ov() == spec_created_overlays(
                            old(self).id,
                            processes@[j].0,
                            old(self).config@.filters,
                            old(self).config@.source,
                            old(self).config.opacity,
                            processes@[j].1.deep_view(),
                        )
                    },
                ops.deep_view() == spec_rebuild_ops(
                    old(self).id,
                    old(self).config@,
                    entries_v.subrange(0, i as int),
                ),
                entries_v == Seq::new(
                    processes@.len() as nat,
                    |k: int| (processes@[k].0, processes@[k].1.deep_view()),
                ),
            decreases processes_len - i,
        {
            let ghost entries_prefix = entries_v.subrange(0, i as int);
            let ghost entries_next = entries_v.subrange(0, i as int + 1);
            assert(entries_next.drop_last() =~= entries_prefix);
            assert(entries_next.last() == entries_v[i as int]);
            let ghost ops_before = ops.deep_view();
            let entry = &processes[i];
            let (host, mut host_ops) = OverlayHost::start(self.id, entry.0, &self.config, &entry.1);
            self.overlay_hosts.push(host);
            ops.append(&mut host_ops);
            assert(ops.deep_view() =~= ops_before + spec_created_ops(
                old(self).id,
                entries_v[i as int].0,
                old(self).config@.filters,
                old(self).config@.source,
                old(self).config.opacity,
                entries_v[i as int].1,
            ));
            i = i + 1;
        }
        assert(entries_v.subrange(0, processes_len as int) =~= entries_v);
        proof {
            assert forall|x: int, y: int|
                0 <= x < y < self.overlay_hosts@.len() implies (
            #[trigger] self.overlay_hosts@[x]).pid != (#[trigger] self.overlay_hosts@[y]).pid by {
                assert(self.overlay_hosts@[x].pid == processes@[x].0);
                assert(self.overlay_hosts@[y].pid == processes@[y].0);
            }
        }
        ops
    }

    /// Stops every overlay host and empties the list.
    fn stop_overlay_hosts(&mut self) -> (ops: Vec<SurfaceOp>)
        requires
            forall|i: int|
                0 <= i < old(self).overlay_hosts@.len() ==> (#[trigger] old(
                    self,
                ).overlay_hosts@[i]).wf(),
        ensures
            final(self).id == old(self).id,
            final(self).config == old(self).config,
            final(self).stopped == old(self).stopped,
            final(self).overlay_hosts@.len() == 0,
            ops.deep_view() == Seq::new(
                spec_total_overlays(old(self).overlay_hosts@),
                |k: int| SurfaceOpView::Destroy,
            ),
    {
        let mut ops: Vec<SurfaceOp> = Vec::new();
        proof {
            lemma_total_overlays_bound(old(self).overlay_hosts@, old(self).overlay_hosts@.len() as int);
        }
        while self.overlay_hosts.len() > 0
            invariant
                self.id == old(self).id,
                self.config == old(self).config,
                self.stopped == old(self).stopped,
                self.overlay_hosts@.len() <= old(self).overlay_hosts@.len(),
                self.overlay_hosts@ == old(self).overlay_hosts@.subrange(
                    0,
                    self.overlay_hosts@.len() as int,
                ),
                forall|i: int|
                    0 <= i < self.overlay_hosts@.len() ==> (
                    #[trigger] self.overlay_hosts@[i]).wf(),
                ops.deep_view() == Seq::new(
                    (spec_total_overlays(old(self).overlay_hosts@) - spec_total_overlays(
                        self.overlay_hosts@,
                    )) as nat,
                    |k: int| SurfaceOpView::Destroy,
                ),
                spec_total_overlays(self.overlay_hosts@) <= spec_total_overlays(
                    old(self).overlay_hosts@,
                ),
            decreases self.overlay_hosts@.len(),
        {
            let ghost before_hosts = self.overlay_hosts@;
            let ghost ops_before = ops.deep_view();
            match self.overlay_hosts.pop() {
                Some(mut host) => {
                    let ghost popped = host;
                    proof {
                        assert(popped == before_hosts[before_hosts.len() - 1]);
                        assert(popped.wf());
                        assert(before_hosts.drop_last() =~= self.overlay_hosts@);
                    }
                    let mut host_ops = host.stop();
                    proof {
                        assert(spec_total_overlays(before_hosts) == spec_total_overlays(
                            self.overlay_hosts@,
                        ) + popped.ov().len());
                        lemma_total_overlays_bound(
                            old(self).overlay_hosts@,
                            self.overlay_hosts@.len() as int,
                        );
                        assert(self.overlay_hosts@ =~= old(self).overlay_hosts@.subrange(
                            0,
                            self.overlay_hosts@.len() as int,
                        ));
                    }
                    let ghost host_ops_v = host_ops.deep_view();
                    ops.append(&mut host_ops);
                    proof {
                        assert(ops@.len() == ops_before.len() + host_ops_v.len());
                        assert forall|k: int| 0 <= k < ops@.len() implies ops@[k]@
                            == SurfaceOpView::Destroy by {
                            if k < ops_before.len() {
                                assert(ops_before[k] == SurfaceOpView::Destroy);
                                assert(ops@[k]@ == ops_before[k]);
                            } else {
                                assert(host_ops_v[k - ops_before.len()]
                                    == SurfaceOpView::Destroy);
                                assert(ops@[k]@ == host_ops_v[k - ops_before.len()]);
                            }
                        }
                        assert(ops.deep_view() =~= Seq::new(
                            (spec_total_overlays(old(self).overlay_hosts@) - spec_total_overlays(
                                self.overlay_hosts@,
                            )) as nat,
                            |k: int| SurfaceOpView::Destroy,
                        ));
                    }
                },
                None => {
                    assert(false);
                },
            }
        }
        proof {
            assert(spec_total_overlays(self.overlay_hosts@) == 0);
        }
        assert(ops.deep_view() =~= Seq::new(
            spec_total_overlays(old(self).overlay_hosts@),
            |k: int| SurfaceOpView::Destroy,
        ));
        ops
    }

    /// Stops the wallpaper: every overlay host is stopped and dropped, and
    /// the host stops for good. Its owner unregisters it from the
    /// application observer. Stopping twice changes nothing the second
    /// time.
    pub fn stop(&mut self) -> (ops: Vec<SurfaceOp>)
        requires
            old(self).wf(),
        ensures
            final(self).wf(),
            final(self).id == old(self).id,
            final(self).config == old(self).config,
            final(self).stopped,
            final(self).overlay_hosts@.len() == 0,
            ops.deep_view() == Seq::new(
                spec_total_overlays(old(self).overlay_hosts@),
                |k: int| SurfaceOpView::Destroy,
            ),
            old(self).stopped ==> *final(self) == *old(self) && ops@.len() == 0,
    {
        if self.stopped {
            let ops: Vec<SurfaceOp> = Vec::new();
            assert(ops.deep_view() =~= Seq::new(
                spec_total_overlays(old(self).overlay_hosts@),
                |k: int| SurfaceOpView::Destroy,
            ));
            return ops;
        }
        let ops = self.stop_overlay_hosts();
        self.stopped = true;
        ops
    }
}

/// With pairwise-distinct pids, a pid some host follows is followed by
/// exactly one.
pub proof fn lemma_count_has(hosts: Seq<OverlayHost>, pid: u32)
    requires
        forall|i: int, j: int|
            0 <= i < j < hosts.len() ==> (#[trigger] hosts[i]).pid != (#[trigger] hosts[j]).pid,
        exists|i: int| 0 <= i < hosts.len() && (#[trigger] hosts[i]).pid == pid,
    ensures
        spec_count_pid(hosts, pid) == 1,
{
    lemma_count_distinct(hosts, pid);
    lemma_count_zero(hosts, pid);
}

/// The overlays of a prefix of hosts are no more than those of the whole.
proof fn lemma_total_overlays_bound(hosts: Seq<OverlayHost>, n: int)
    requires
        0 <= n <= hosts.len(),
    ensures
        spec_total_overlays(hosts.subrange(0, n)) <= spec_total_overlays(hosts),
    decreases hosts.len() - n,
{
    if n == hosts.len() {
        assert(hosts.subrange(0, n) =~= hosts);
    } else {
        lemma_total_overlays_bound(hosts, n + 1);
        assert(hosts.subrange(0, n + 1).drop_last() =~= hosts.subrange(0, n));
        assert(spec_total_overlays(hosts.subrange(0, n + 1)) == spec_total_overlays(
            hosts.subrange(0, n),
        ) + hosts.subrange(0, n + 1).last().ov().len());
    }
}

/// However the added and removed events of one process id interleave, a
/// well-formed wallpaper host never follows that pid with more than one
/// overlay host; processing keeps well-formedness, and a removed event
/// leaves the count at zero until a later added event.
pub proof fn lemma_at_most_one_host_per_pid(host: WallpaperHost, pid: u32)
    requires
        host.wf(),
    ensures
        spec_count_pid(host.overlay_hosts@, pid) <= 1,
{
    lemma_count_distinct(host.overlay_hosts@, pid);
}

} // verus!
