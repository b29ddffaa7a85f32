//! The overlay collection for one process of the target application.
//!
//! An [`OverlayHost`] owns the window-id → overlay map for a single process
//! id, together with a snapshot of the wallpaper configuration it binds
//! overlays under. It is created when a matching process appears (populating
//! overlays for the windows that already exist), reacts to each window event
//! reported for that process, and is stopped when the process goes away.
//! Stopping is idempotent: the second stop changes nothing and asks nothing
//! of the surface collaborator.

use vstd::prelude::*;

use crate::config::{SourceView, Wallpaper, WallpaperSource, OPACITY_OPAQUE};
use crate::filter::{clone_filters, Filter, FilterView};
use crate::overlay::{
    spec_apply_ops, spec_bind, spec_event_ops, spec_new_ops, spec_should_handle, Overlay,
    OverlayState, OverlayView, SurfaceOp, SurfaceOpView,
};
use crate::window::{TargetWindow, TargetWindowView, WindowEvent};

verus! {

/// Whether a candidate window belongs to this host's process and qualifies
/// for an overlay under the given filters.
pub open spec fn spec_accepts(pid: u32, filters: Seq<FilterView>, w: TargetWindowView) -> bool {
    w.pid == pid && spec_should_handle(w, filters)
}

/// The window-id → overlay entries a fresh host builds from the windows that
/// already exist, in enumeration order.
pub open spec fn spec_created_overlays(
    wallpaper_id: u128,
    pid: u32,
    filters: Seq<FilterView>,
    source: SourceView,
    opacity: u32,
    windows: Seq<TargetWindowView>,
) -> Seq<(u64, OverlayView)>
    decreases windows.len(),
{
    if windows.len() == 0 {
        Seq::empty()
    } else {
        let rest = spec_created_overlays(
            wallpaper_id,
            pid,
            filters,
            source,
            opacity,
            windows.drop_last(),
        );
        let w = windows.last();
        if spec_accepts(pid, filters, w) {
            rest.push((w.id, spec_bind(wallpaper_id, w, source, opacity)))
        } else {
            rest
        }
    }
}

/// The surface mutations a fresh host asks for, one creation burst per
/// accepted window, in enumeration order.
pub open spec fn spec_created_ops(
    wallpaper_id: u128,
    pid: u32,
    filters: Seq<FilterView>,
    source: SourceView,
    opacity: u32,
    windows: Seq<TargetWindowView>,
) -> Seq<SurfaceOpView>
    decreases windows.len(),
{
    if windows.len() == 0 {
        Seq::empty()
    } else {
        let rest = spec_created_ops(
            wallpaper_id,
            pid,
            filters,
            source,
            opacity,
            windows.drop_last(),
        );
        let w = windows.last();
        if spec_accepts(pid, filters, w) {
            rest + spec_new_ops(
                wallpaper_id,
                w,
                source,
                opacity,
                spec_bind(wallpaper_id, w, source, opacity).bounds,
            )
        } else {
            rest
        }
    }
}

/// `count` repetitions of the surface mutations one configuration update
/// asks of one overlay.
pub open spec fn spec_repeat_apply_ops(
    count: nat,
    opacity: Option<u32>,
    source: Option<SourceView>,
) -> Seq<SurfaceOpView>
    decreases count,
{
    if count == 0 {
        Seq::empty()
    } else {
        spec_repeat_apply_ops((count - 1) as nat, opacity, source) + spec_apply_ops(
            opacity,
            source,
        )
    }
}

/// Manages the overlays of one wallpaper for one process id: the filter
/// snapshot overlays are evaluated under, the content and opacity they are
/// created with, and the live window-id → overlay map.
#[derive(Debug)]
pub struct OverlayHost {
    /// The wallpaper this host works for.
    pub wallpaper_id: u128,
    /// The process whose windows this host follows.
    pub pid: u32,
    /// Filter snapshot; new windows are evaluated against it. Replacing it
    /// affects future discovery only, never already-bound overlays.
    pub filters: Vec<Filter>,
    /// Content source for overlays this host creates.
    pub source: WallpaperSource,
    /// Opacity for overlays this host creates, in thousandths.
    pub opacity: u32,
    /// The live window-id → overlay map, in creation order.
    pub overlays: Vec<(u64, Overlay)>,
    /// Whether the host has been stopped; stopping closed every overlay.
    pub stopped: bool,
}

impl OverlayHost {
    /// The window-id → overlay entries, as mathematical values.
    pub open spec fn ov(self) -> Seq<(u64, OverlayView)> {
        Seq::new(self.overlays@.len(), |i: int| (self.overlays@[i].0, self.overlays@[i].1@))
    }

    /// Some overlay is bound to the given window id.
    pub open spec fn spec_has_window(self, window_id: u64) -> bool {
        exists|i: int| 0 <= i < self.ov().len() && #[trigger] self.ov()[i].0 == window_id
    }

    /// Well-formedness: opacity in range; each overlay keyed by its own
    /// window id, owned by this wallpaper, within opacity range and not yet
    /// closed (closed overlays are removed from the map); keys unique; and
    /// a stopped host holds no overlays.
    pub open spec fn wf(self) -> bool {
        &&& self.opacity <= OPACITY_OPAQUE
        &&& forall|i: int|
            0 <= i < self.ov().len() ==> {
                let entry = #[trigger] self.ov()[i];
                &&& entry.1.target_window_id == entry.0
                &&& entry.1.wallpaper_id == self.wallpaper_id
                &&& entry.1.opacity <= OPACITY_OPAQUE
                &&& entry.1.state != OverlayState::Closed
            }
        &&& forall|i: int, j: int|
            0 <= i < j < self.ov().len() ==> #[trigger] self.ov()[i].0 != #[trigger] self.ov()[
                j
            ].0
        &&& self.stopped ==> self.ov().len() == 0
    }

    /// The process this host follows.
    pub fn pid(&self) -> (r: u32)
        ensures
            r == self.pid,
    {
        self.pid
    }

    /// Creates the host for a process that just matched the wallpaper's
    /// target application, binding overlays for every currently existing
    /// qualifying window of that process.
    pub fn start(
        wallpaper_id: u128,
        pid: u32,
        config: &Wallpaper,
        windows: &Vec<TargetWindow>,
    ) -> (r: (OverlayHost, Vec<SurfaceOp>))
        requires
            config.wf(),
            forall|i: int, j: int|
                0 <= i < j < windows@.len() ==> #[trigger] windows@[i].id != #[trigger] windows@[
                    j
                ].id,
        ensures
            r.0.wf(),
            r.0.wallpaper_id == wallpaper_id,
            r.0.pid == pid,
            !r.0.stopped,
            r.0.filters.deep_view() == config.filters.deep_view(),
            r.0.source@ == config.source@,
            r.0.opacity == config.opacity,
            r.0.ov() == spec_created_overlays(
                wallpaper_id,
                pid,
                config@.filters,
                config@.source,
                config.opacity,
                windows.deep_view(),
            ),
            r.1.deep_view() == spec_created_ops(
                wallpaper_id,
                pid,
                config@.filters,
                config@.source,
                config.opacity,
                windows.deep_view(),
            ),
    {
        let ghost filters_v = config@.filters;
        let ghost source_v = config@.source;
        let mut host = OverlayHost {
            wallpaper_id,
            pid,
            filters: clone_filters(&config.filters),
            source: config.source.clone(),
            opacity: config.opacity,
            overlays: Vec::new(),
            stopped: false,
        };
        let mut ops: Vec<SurfaceOp> = Vec::new();
        let windows_len = windows.len();
        let mut i: usize = 0;
        while i < windows_len
            invariant
                config.wf(),
                windows_len == windows@.len(),
                0 <= i <= windows_len,
                host.wallpaper_id == wallpaper_id,
                host.pid == pid,
                host.opacity == config.opacity,
                !host.stopped,
                host.filters.deep_view() == filters_v,
                host.source@ == source_v,
                filters_v == config@.filters,
                source_v == config@.source,
                host.ov() == spec_created_overlays(
                    wallpaper_id,
                    pid,
                    filters_v,
                    source_v,
                    config.opacity,
                    windows.deep_view().subrange(0, i as int),
                ),
                ops.deep_view() == spec_created_ops(
                    wallpaper_id,
                    pid,
                    filters_v,
                    source_v,
                    config.opacity,
                    windows.deep_view().subrange(0, i as int),
                ),
            decreases windows_len - i,
        {
            let ghost prefix = windows.deep_view().subrange(0, i as int);
            let ghost next_prefix = windows.deep_view().subrange(0, i as int + 1);
            assert(next_prefix.drop_last() =~= prefix);
            assert(next_prefix.last() == windows.deep_view()[i as int]);
            let w = &windows[i];
            assert(w.deep_view() == windows.deep_view()[i as int]);
            if w.pid == pid {
                match Overlay::new(wallpaper_id, w, &host.source, host.opacity, host.filters.as_slice()) {
                    Some((overlay, mut new_ops)) => {
                        let ghost old_ov = host.ov();
                        let ghost old_ops = ops.deep_view();
                        host.overlays.push((w.id, overlay));
                        ops.append(&mut new_ops);
                        assert(host.ov() =~= old_ov.push(
                            (w@.id, spec_bind(wallpaper_id, w@, source_v, config.opacity)),
                        ));
                        assert(ops.deep_view() =~= old_ops + spec_new_ops(
                            wallpaper_id,
                            w@,
                            source_v,
                            config.opacity,
                            spec_bind(wallpaper_id, w@, source_v, config.opacity).bounds,
                        ));
                    },
                    None => {
                        assert(!spec_accepts(pid, filters_v, windows.deep_view()[i as int]));
                    },
                }
            } else {
                assert(!spec_accepts(pid, filters_v, windows.deep_view()[i as int]));
            }
            i = i + 1;
        }
        assert(windows.deep_view().subrange(0, windows_len as int) =~= windows.deep_view());
        proof {
            lemma_created_overlays_wf(
                wallpaper_id,
                pid,
                filters_v,
                source_v,
                config.opacity,
                windows.deep_view(),
            );
        }
        (host, ops)
    }

    /// The index of the overlay bound to a window id, if any.
    fn find_index(&self, window_id: u64) -> (r: Option<usize>)
        ensures
            match r {
                Some(i) => i < self.ov().len() && self.ov()[i as int].0 == window_id,
                None => !self.spec_has_window(window_id),
            },
    {
        let overlays_len = self.overlays.len();
        let mut j: usize = 0;
        while j < overlays_len
            invariant
                overlays_len == self.overlays@.len(),
                0 <= j <= overlays_len,
                forall|m: int| 0 <= m < j ==> #[trigger] self.ov()[m].0 != window_id,
            decreases overlays_len - j,
        {
            if self.overlays[j].0 == window_id {
                return Some(j);
            }
            j = j + 1;
        }
        None
    }

    /// Reacts to one window event reported for this host's process.
    ///
    /// A created report evaluates the newly available window and binds an
    /// overlay when it qualifies; a closed report removes and destroys the
    /// matching overlay; any other report is forwarded to the overlay bound
    /// to that window id. A report about an unknown window id that is not a
    /// creation is stale and ignored without error; so is a creation report
    /// for a window id that is already bound.
    pub fn handle_window_event(
        &mut self,
        window_id: u64,
        event: WindowEvent,
        window: Option<&TargetWindow>,
    ) -> (ops: Vec<SurfaceOp>)
        requires
            old(self).wf(),
            !old(self).stopped,
            window matches Some(w) ==> w.id == window_id && w.pid == old(self).pid,
        ensures
            final(self).wf(),
            final(self).wallpaper_id == old(self).wallpaper_id,
            final(self).pid == old(self).pid,
            final(self).filters == old(self).filters,
            final(self).source == old(self).source,
            final(self).opacity == old(self).opacity,
            final(self).stopped == old(self).stopped,
            ({
                let known = old(self).spec_has_window(window_id);
                match event {
                    WindowEvent::Created => {
                        if known {
                            final(self).ov() == old(self).ov() && ops.deep_view()
                                == Seq::<SurfaceOpView>::empty()
                        } else {
                            match window {
                                Some(w) => {
                                    if spec_accepts(
                                        old(self).pid,
                                        old(self).filters.deep_view(),
                                        w@,
                                    ) {
                                        final(self).ov() == old(self).ov().push(
                                            (
                                                window_id,
                                                spec_bind(
                                                    old(self).wallpaper_id,
                                                    w@,
                                                    old(self).source@,
                                                    old(self).opacity,
                                                ),
                                            ),
                                        ) && ops.deep_view() == spec_new_ops(
                                            old(self).wallpaper_id,
                                            w@,
                                            old(self).source@,
                                            old(self).opacity,
                                            spec_bind(
                                                old(self).wallpaper_id,
                                                w@,
                                                old(self).source@,
                                                old(self).opacity,
                                            ).bounds,
                                        )
                                    } else {
                                        final(self).ov() == old(self).ov() && ops.deep_view()
                                            == Seq::<SurfaceOpView>::empty()
                                    }
                                },
                                None => final(self).ov() == old(self).ov() && ops.deep_view()
                                    == Seq::<SurfaceOpView>::empty(),
                            }
                        }
                    },
                    WindowEvent::Closed => {
                        &&& (if known {
                            exists|i: int|
                                0 <= i < old(self).ov().len() && #[trigger] old(self).ov()[i].0
                                    == window_id && final(self).ov() == old(self).ov().remove(i)
                        } else {
                            final(self).ov() == old(self).ov()
                        })
                        &&& ops.deep_view() == (if known {
                            seq![SurfaceOpView::Destroy]
                        } else {
                            Seq::<SurfaceOpView>::empty()
                        })
                    },
                    _ => {
                        if known {
                            exists|i: int|
                                0 <= i < old(self).ov().len() && #[trigger] old(self).ov()[i].0
                                    == window_id && final(self).ov() == old(self).ov().update(
                                    i,
                                    (
                                        window_id,
                                        (OverlayView {
                                            state: crate::overlay::spec_state_after(
                                                old(self).ov()[i].1.state,
                                                event,
                                            ),
                                            bounds: crate::overlay::spec_bounds_after(
                                                old(self).ov()[i].1.bounds,
                                                event,
                                            ),
                                            ..old(self).ov()[i].1
                                        }),
                                    ),
                                ) && ops.deep_view() == spec_event_ops(window_id, event)
                        } else {
                            final(self).ov() == old(self).ov() && ops.deep_view()
                                == Seq::<SurfaceOpView>::empty()
                        }
                    },
                }
            }),
    {
        let found = self.find_index(window_id);
        match event {
            WindowEvent::Created => {
                match found {
                    Some(_) => Vec::new(),
                    None => {
                        match window {
                            Some(w) => {
                                if w.pid == self.pid {
                                    match Overlay::new(
                                        self.wallpaper_id,
                                        w,
                                        &self.source,
                                        self.opacity,
                                        self.filters.as_slice(),
                                    ) {
                                        Some((overlay, new_ops)) => {
                                            let ghost old_ov = self.ov();
                                            self.overlays.push((window_id, overlay));
                                            assert(self.ov() =~= old_ov.push(
                                                (
                                                    window_id,
                                                    spec_bind(
                                                        self.wallpaper_id,
                                                        w@,
                                                        self.source@,
                                                        self.opacity,
                                                    ),
                                                ),
                                            ));
                                            new_ops
                                        },
                                        None => Vec::new(),
                                    }
                                } else {
                                    Vec::new()
                                }
                            },
                            None => Vec::new(),
                        }
                    },
                }
            },
            WindowEvent::Closed => {
                match found {
                    Some(i) => {
                        let ghost old_ov = self.ov();
                        let (_, mut overlay) = self.overlays.remove(i);
                        let ops = overlay.close();
                        assert(self.ov() =~= old_ov.remove(i as int));
                        ops
                    },
                    None => Vec::new(),
                }
            },
            _ => {
                match found {
                    Some(i) => {
                        let ghost old_ov = self.ov();
                        let pair = &mut self.overlays[i];
                        let ops = pair.1.handle_target_window_event(event);
                        assert(self.ov() =~= old_ov.update(
                            i as int,
                            (
                                window_id,
                                (OverlayView {
                                    state: crate::overlay::spec_state_after(
                                        old_ov[i as int].1.state,
                                        event,
                                    ),
                                    bounds: crate::overlay::spec_bounds_after(
                                        old_ov[i as int].1.bounds,
                                        event,
                                    ),
                                    ..old_ov[i as int].1
                                }),
                            ),
                        ));
                        ops
                    },
                    None => Vec::new(),
                }
            },
        }
    }

    /// Applies a live configuration edit to this host: replaces the filter
    /// snapshot (future discovery only) and pushes opacity and content
    /// changes to every bound overlay.
    pub fn apply_wallpaper(
        &mut self,
        opacity: Option<u32>,
        source: Option<WallpaperSource>,
        filters: Option<Vec<Filter>>,
    ) -> (ops: Vec<SurfaceOp>)
        requires
            old(self).wf(),
            opacity matches Some(o) ==> o <= OPACITY_OPAQUE,
        ensures
            final(self).wf(),
            final(self).wallpaper_id == old(self).wallpaper_id,
            final(self).pid == old(self).pid,
            final(self).stopped == old(self).stopped,
            final(self).opacity == (match opacity {
                Some(o) => o,
                None => old(self).opacity,
            }),
            final(self).source@ == (match source {
                Some(s) => s@,
                None => old(self).source@,
            }),
            final(self).filters.deep_view() == (match filters {
                Some(f) => f.deep_view(),
                None => old(self).filters.deep_view(),
            }),
            final(self).ov() == Seq::new(
                old(self).ov().len(),
                |i: int|
                    (
                        old(self).ov()[i].0,
                        (OverlayView {
                            opacity: match opacity {
                                Some(o) => o,
                                None => old(self).ov()[i].1.opacity,
                            },
                            source: match source {
                                Some(s) => s@,
                                None => old(self).ov()[i].1.source,
                            },
                            ..old(self).ov()[i].1
                        }),
                    ),
            ),
            ops.deep_view() == spec_repeat_apply_ops(
                old(self).ov().len(),
                opacity,
                match source {
                    Some(s) => Some(s@),
                    None => None,
                },
            ),
    {
        let ghost source_v = source.deep_view();
        if let Some(f) = filters {
            self.filters = f;
        }
        if let Some(o) = opacity {
            self.opacity = o;
        }
        match &source {
            Some(s) => {
                self.source = s.clone();
            },
            None => {},
        }
        let mut ops: Vec<SurfaceOp> = Vec::new();
        let overlays_len = self.overlays.len();
        let mut i: usize = 0;
        while i < overlays_len
            invariant
                overlays_len == self.overlays@.len(),
                overlays_len == old(self).ov().len(),
                0 <= i <= overlays_len,
                self.wallpaper_id == old(self).wallpaper_id,
                self.pid == old(self).pid,
                self.stopped == old(self).stopped,
                self.opacity == (match opacity {
                    Some(o) => o,
                    None => old(self).opacity,
                }),
                self.source@ == (match source_v {
                    Some(s) => s,
                    None => old(self).source@,
                }),
                self.filters.deep_view() == (match filters {
                    Some(f) => f.deep_view(),
                    None => old(self).filters.deep_view(),
                }),
                opacity matches Some(o) ==> o <= OPACITY_OPAQUE,
                forall|j: int|
                    0 <= j < overlays_len ==> #[trigger] old(self).ov()[j].1.opacity
                        <= OPACITY_OPAQUE,
                forall|j: int|
                    i <= j < overlays_len ==> #[trigger] self.ov()[j] == old(self).ov()[j],
                forall|j: int|
                    0 <= j < i ==> #[trigger] self.ov()[j] == (
                    old(self).ov()[j].0,
                    (OverlayView {
                        opacity: match opacity {
                            Some(o) => o,
                            None => old(self).ov()[j].1.opacity,
                        },
                        source: match source_v {
                            Some(s) => s,
                            None => old(self).ov()[j].1.source,
                        },
                        ..old(self).ov()[j].1
                    }),
                    ),
                source.deep_view() == source_v,
                ops.deep_view() == spec_repeat_apply_ops(i as nat, opacity, source_v),
            decreases overlays_len - i,
        {
            let source_clone = match &source {
                Some(s) => Some(s.clone()),
                None => None,
            };
            let ghost ops_before = ops.deep_view();
            let ghost ov_before = self.ov();
            assert(self.ov()[i as int] == old(self).ov()[i as int]);
            assert(self.overlays@[i as int].1.opacity <= OPACITY_OPAQUE);
            let pair = &mut self.overlays[i];
            let mut overlay_ops = pair.1.apply_wallpaper(opacity, source_clone);
            ops.append(&mut overlay_ops);
            assert(forall|j: int|
                0 <= j < overlays_len && j != i ==> #[trigger] self.ov()[j] == ov_before[j]);
            assert(self.ov()[i as int] == (
                old(self).ov()[i as int].0,
                (OverlayView {
                    opacity: match opacity {
                        Some(o) => o,
                        None => old(self).ov()[i as int].1.opacity,
                    },
                    source: match source_v {
                        Some(s) => s,
                        None => old(self).ov()[i as int].1.source,
                    },
                    ..old(self).ov()[i as int].1
                }),
            ));
            assert(ops.deep_view() =~= ops_before + spec_apply_ops(opacity, source_v));
            assert(spec_repeat_apply_ops((i + 1) as nat, opacity, source_v)
                == spec_repeat_apply_ops(i as nat, opacity, source_v) + spec_apply_ops(
                opacity,
                source_v,
            ));
            i = i + 1;
        }
        assert(self.ov() =~= Seq::new(
            old(self).ov().len(),
            |j: int|
                (
                    old(self).ov()[j].0,
                    (OverlayView {
                        opacity: match opacity {
                            Some(o) => o,
                            None => old(self).ov()[j].1.opacity,
                        },
                        source: match source_v {
                            Some(s) => s,
                            None => old(self).ov()[j].1.source,
                        },
                        ..old(self).ov()[j].1
                    }),
                ),
        ));
        ops
    }

    /// Stops the host: closes every overlay and empties the map. Safe to
    /// call again; a second stop changes nothing and asks nothing of the
    /// surface collaborator.
    pub fn stop(&mut self) -> (ops: Vec<SurfaceOp>)
        requires
            old(self).wf(),
        ensures
            final(self).wf(),
            final(self).wallpaper_id == old(self).wallpaper_id,
            final(self).pid == old(self).pid,
            final(self).filters == old(self).filters,
            final(self).source == old(self).source,
            final(self).opacity == old(self).opacity,
            final(self).stopped,
            final(self).ov().len() == 0,
            ops.deep_view() == Seq::new(old(self).ov().len(), |i: int| SurfaceOpView::Destroy),
            old(self).stopped ==> *final(self) == *old(self) && ops@.len() == 0,
    {
        if self.stopped {
            let ops: Vec<SurfaceOp> = Vec::new();
            assert(ops.deep_view() =~= Seq::new(
                old(self).ov().len(),
                |i: int| SurfaceOpView::Destroy,
            ));
            return ops;
        }
        self.stopped = true;
        let mut ops: Vec<SurfaceOp> = Vec::new();
        let overlays_len = self.overlays.len();
        let mut i: usize = 0;
        while i < overlays_len
            invariant
                overlays_len == old(self).ov().len(),
                self.overlays@.len() + i == overlays_len,
                0 <= i <= overlays_len,
                self.wallpaper_id == old(self).wallpaper_id,
                self.pid == old(self).pid,
                self.filters == old(self).filters,
                self.source == old(self).source,
                self.opacity == old(self).opacity,
                self.stopped,
                ops.deep_view() == Seq::new(i as nat, |j: int| SurfaceOpView::Destroy),
            decreases overlays_len - i,
        {
            let ghost ops_before = ops.deep_view();
            match self.overlays.pop() {
                Some((_, mut overlay)) => {
                    let mut destroy_ops = overlay.close();
                    assert(destroy_ops@.len() == 1 && destroy_ops@[0]@ == SurfaceOpView::Destroy)
                        by {
                        assert(destroy_ops.deep_view().len() == 1);
                        assert(destroy_ops.deep_view()[0] == SurfaceOpView::Destroy);
                    }
                    assert(ops@.len() == i) by {
                        assert(ops.deep_view().len() == i as nat);
                    }
                    ops.append(&mut destroy_ops);
                },
                None => {
                    assert(false);
                },
            }
            proof {
                assert(ops@.len() == i + 1);
                assert forall|j: int| 0 <= j < i + 1 implies ops@[j]@ == SurfaceOpView::Destroy by {
                    if j < i {
                        assert(ops_before[j] == SurfaceOpView::Destroy);
                        assert(ops_before[j] == ops@[j]@);
                    }
                }
                assert(ops.deep_view() =~= Seq::new(
                    (i + 1) as nat,
                    |j: int| SurfaceOpView::Destroy,
                ));
            }
            i = i + 1;
        }
        assert(self.ov() =~= Seq::<(u64, OverlayView)>::empty());
        ops
    }
}

/// The overlays a fresh host builds are well formed: each entry is keyed by
/// its overlay's window id, carries the host's wallpaper and opacity, is not
/// closed, its key is the id of an accepted window, and keys are unique when
/// window ids are.
proof fn lemma_created_overlays_wf(
    wallpaper_id: u128,
    pid: u32,
    filters: Seq<FilterView>,
    source: SourceView,
    opacity: u32,
    windows: Seq<TargetWindowView>,
)
    requires
        opacity <= OPACITY_OPAQUE,
        forall|i: int, j: int|
            0 <= i < j < windows.len() ==> #[trigger] windows[i].id != #[trigger] windows[j].id,
    ensures
        ({
            let s = spec_created_overlays(wallpaper_id, pid, filters, source, opacity, windows);
            &&& forall|i: int|
                0 <= i < s.len() ==> {
                    let entry = #[trigger] s[i];
                    &&& entry.1.target_window_id == entry.0
                    &&& entry.1.wallpaper_id == wallpaper_id
                    &&& entry.1.opacity <= OPACITY_OPAQUE
                    &&& entry.1.state != OverlayState::Closed
                }
            &&& forall|i: int|
                0 <= i < s.len() ==> exists|j: int|
                    0 <= j < windows.len() && #[trigger] s[i].0 == windows[j].id
            &&& forall|i: int, j: int| 0 <= i < j < s.len() ==> #[trigger] s[i].0 != #[trigger] s[j].0
        }),
    decreases windows.len(),
{
    if windows.len() == 0 {
    } else {
        lemma_created_overlays_wf(
            wallpaper_id,
            pid,
            filters,
            source,
            opacity,
            windows.drop_last(),
        );
    }
}

} // verus!
