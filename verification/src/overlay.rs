//! One overlay bound to one target window.
//!
//! Discovery of a candidate window first evaluates whether it qualifies:
//! every configured filter must match its title and its geometry must be
//! non-degenerate. A qualifying window gets an [`Overlay`], which owns the
//! intended state of one synthetic surface and reacts to the window's events
//! by emitting [`SurfaceOp`]s — the mutations an external surface collaborator
//! must perform. An overlay is `Active` while its window is in the
//! foreground (surface forced topmost) and `Inactive` otherwise (surface
//! restored to normal stacking, reordered to sit just above the window);
//! `Closed` is terminal.

use vstd::prelude::*;

use crate::config::{SourceView, WallpaperSource, OPACITY_OPAQUE};
use crate::filter::{spec_wallpaper_filter, Filter, FilterView};
use crate::window::{Bounds, TargetWindow, TargetWindowView, WindowEvent};

verus! {

/// A mutation of an overlay surface, to be performed by the surface
/// collaborator. Reordering after a deactivation is attempted, waited on,
/// and attempted again, because some platforms have not settled stacking
/// order immediately; the pair of attempts around [`SurfaceOp::SettleDelay`]
/// preserves that accommodation.
#[derive(Debug)]
pub enum SurfaceOp {
    /// Create a transparent, input-transparent, non-resizable surface
    /// rendering the source's content at the given opacity.
    CreateSurface { wallpaper_id: u128, target_window: u64, source: WallpaperSource, opacity: u32 },
    /// Move the surface.
    SetPosition { x: i64, y: i64 },
    /// Resize the surface.
    SetSize { width: u64, height: u64 },
    /// Change the surface's opacity, in thousandths.
    SetOpacity { opacity: u32 },
    /// Reload the surface with the content of a new source.
    ReplaceContent { source: WallpaperSource },
    /// Force the surface to the topmost stacking layer, or restore it.
    SetTopmost { topmost: bool },
    /// Reorder the surface to sit immediately above its target window.
    OrderAboveTarget { target: u64 },
    /// Wait briefly for the platform's stacking order to settle.
    SettleDelay,
    /// Destroy the surface and release its resources.
    Destroy,
}

/// The mathematical content of a [`SurfaceOp`].
pub enum SurfaceOpView {
    CreateSurface { wallpaper_id: u128, target_window: u64, source: SourceView, opacity: u32 },
    SetPosition { x: i64, y: i64 },
    SetSize { width: u64, height: u64 },
    SetOpacity { opacity: u32 },
    ReplaceContent { source: SourceView },
    SetTopmost { topmost: bool },
    OrderAboveTarget { target: u64 },
    SettleDelay,
    Destroy,
}

impl View for SurfaceOp {
    type V = SurfaceOpView;

    open spec fn view(&self) -> SurfaceOpView {
        match self {
            SurfaceOp::CreateSurface { wallpaper_id, target_window, source, opacity } => (
            SurfaceOpView::CreateSurface {
                wallpaper_id: *wallpaper_id,
                target_window: *target_window,
                source: source@,
                opacity: *opacity,
            }),
            SurfaceOp::SetPosition { x, y } => SurfaceOpView::SetPosition { x: *x, y: *y },
            SurfaceOp::SetSize { width, height } => SurfaceOpView::SetSize {
                width: *width,
                height: *height,
            },
            SurfaceOp::SetOpacity { opacity } => SurfaceOpView::SetOpacity { opacity: *opacity },
            SurfaceOp::ReplaceContent { source } => SurfaceOpView::ReplaceContent {
                source: source@,
            },
            SurfaceOp::SetTopmost { topmost } => SurfaceOpView::SetTopmost { topmost: *topmost },
            SurfaceOp::OrderAboveTarget { target } => SurfaceOpView::OrderAboveTarget {
                target: *target,
            },
            SurfaceOp::SettleDelay => SurfaceOpView::SettleDelay,
            SurfaceOp::Destroy => SurfaceOpView::Destroy,
        }
    }
}

impl DeepView for SurfaceOp {
    type V = SurfaceOpView;

    open spec fn deep_view(&self) -> SurfaceOpView {
        self.view()
    }
}

/// Where an overlay stands in its life: mirroring the foreground state of a
/// live target window, or closed for good.
#[derive(Debug, Clone, Copy, PartialEq, Eq, Structural)]
pub enum OverlayState {
    /// The target window is in the foreground; the surface is kept topmost.
    Active,
    /// The target window is in the background; the surface sits immediately
    /// above it in normal stacking.
    Inactive,
    /// The target window closed; the surface is destroyed. Terminal.
    Closed,
}

/// One synthetic overlay surface bound to one target window, described by
/// the state the surface is meant to be in.
#[derive(Debug)]
pub struct Overlay {
    /// The wallpaper this overlay belongs to.
    pub wallpaper_id: u128,
    /// The window the surface shadows.
    pub target_window_id: u64,
    /// The geometry the surface is meant to have.
    pub bounds: Bounds,
    /// The opacity the surface is meant to have, in thousandths.
    pub opacity: u32,
    /// The content the surface is meant to render.
    pub source: WallpaperSource,
    /// Lifecycle state.
    pub state: OverlayState,
}

/// The mathematical content of an [`Overlay`].
pub struct OverlayView {
    pub wallpaper_id: u128,
    pub target_window_id: u64,
    pub bounds: Bounds,
    pub opacity: u32,
    pub source: SourceView,
    pub state: OverlayState,
}

impl View for Overlay {
    type V = OverlayView;

    open spec fn view(&self) -> OverlayView {
        OverlayView {
            wallpaper_id: self.wallpaper_id,
            target_window_id: self.target_window_id,
            bounds: self.bounds,
            opacity: self.opacity,
            source: self.source@,
            state: self.state,
        }
    }
}

impl DeepView for Overlay {
    type V = OverlayView;

    open spec fn deep_view(&self) -> OverlayView {
        self.view()
    }
}

/// The overlay bound to a qualifying window: surface geometry from the
/// window's bounds, opacity and content from the configuration, initial
/// activity from the window's foreground state.
pub open spec fn spec_bind(
    wallpaper_id: u128,
    w: TargetWindowView,
    source: SourceView,
    opacity: u32,
) -> OverlayView {
    OverlayView {
        wallpaper_id,
        target_window_id: w.id,
        bounds: match w.bounds {
            Some(b) => b,
            None => Bounds { x: 0, y: 0, width: 0, height: 0 },
        },
        opacity,
        source,
        state: spec_initial_state(w.frontmost),
    }
}

/// Whether a candidate window qualifies for an overlay: its title is
/// obtainable, every configured filter matches the title, and its geometry
/// is obtainable and non-degenerate.
pub open spec fn spec_should_handle(w: TargetWindowView, filters: Seq<FilterView>) -> bool {
    &&& w.title is Some
    &&& spec_wallpaper_filter(w.title, filters)
    &&& w.bounds matches Some(b) && b.width > 0 && b.height > 0
}

/// The overlay state bound to a window whose foreground query answered
/// `frontmost`: active only when the window is known to be in front.
pub open spec fn spec_initial_state(frontmost: Option<bool>) -> OverlayState {
    if frontmost == Some(true) {
        OverlayState::Active
    } else {
        OverlayState::Inactive
    }
}

/// The reorder-above sequence: attempt, brief wait, attempt again.
pub open spec fn spec_set_order_ops(target: u64) -> Seq<SurfaceOpView> {
    seq![
        SurfaceOpView::OrderAboveTarget { target },
        SurfaceOpView::SettleDelay,
        SurfaceOpView::OrderAboveTarget { target },
    ]
}

/// Surface mutations that make an overlay active: reorder above the target,
/// then force topmost.
pub open spec fn spec_activate_ops(target: u64) -> Seq<SurfaceOpView> {
    spec_set_order_ops(target) + seq![SurfaceOpView::SetTopmost { topmost: true }]
}

/// Surface mutations that make an overlay inactive: release topmost, then
/// reorder above the target.
pub open spec fn spec_deactivate_ops(target: u64) -> Seq<SurfaceOpView> {
    seq![SurfaceOpView::SetTopmost { topmost: false }] + spec_set_order_ops(target)
}

/// The stacking mutations that establish a fresh overlay's initial order.
pub open spec fn spec_initial_order_ops(target: u64, frontmost: Option<bool>) -> Seq<
    SurfaceOpView,
> {
    match frontmost {
        Some(true) => spec_activate_ops(target),
        Some(false) => spec_deactivate_ops(target),
        None => Seq::empty(),
    }
}

/// Everything a fresh overlay asks of the surface collaborator: create the
/// surface, establish initial stacking, then match the window's geometry.
pub open spec fn spec_new_ops(
    wallpaper_id: u128,
    w: TargetWindowView,
    source: SourceView,
    opacity: u32,
    b: Bounds,
) -> Seq<SurfaceOpView> {
    seq![
        SurfaceOpView::CreateSurface { wallpaper_id, target_window: w.id, source, opacity },
    ] + spec_initial_order_ops(w.id, w.frontmost) + seq![
        SurfaceOpView::SetPosition { x: b.x, y: b.y },
        SurfaceOpView::SetSize { width: b.width, height: b.height },
    ]
}

/// The overlay state after one window event: foreground reports move it
/// between active and inactive; geometry reports leave it alone.
pub open spec fn spec_state_after(s: OverlayState, event: WindowEvent) -> OverlayState {
    match event {
        WindowEvent::Activated => OverlayState::Active,
        WindowEvent::Deactivated => OverlayState::Inactive,
        _ => s,
    }
}

/// The intended geometry after one window event: a move report repositions,
/// a resize report rescales, anything else leaves geometry alone.
pub open spec fn spec_bounds_after(b: Bounds, event: WindowEvent) -> Bounds {
    match event {
        WindowEvent::Moved { bounds } => Bounds {
            x: bounds.x,
            y: bounds.y,
            width: b.width,
            height: b.height,
        },
        WindowEvent::Resized { bounds } => Bounds {
            x: b.x,
            y: b.y,
            width: bounds.width,
            height: bounds.height,
        },
        _ => b,
    }
}

/// The surface mutations one window event asks for; created and closed
/// reports are the host's business and ask nothing of a bound overlay.
pub open spec fn spec_event_ops(target: u64, event: WindowEvent) -> Seq<SurfaceOpView> {
    match event {
        WindowEvent::Moved { bounds } => seq![
            SurfaceOpView::SetPosition { x: bounds.x, y: bounds.y },
        ],
        WindowEvent::Resized { bounds } => seq![
            SurfaceOpView::SetSize { width: bounds.width, height: bounds.height },
        ],
        WindowEvent::Activated => spec_activate_ops(target),
        WindowEvent::Deactivated => spec_deactivate_ops(target),
        _ => Seq::empty(),
    }
}

/// The surface mutations a configuration update asks of one overlay.
pub open spec fn spec_apply_ops(
    opacity: Option<u32>,
    source: Option<SourceView>,
) -> Seq<SurfaceOpView> {
    (match opacity {
        Some(o) => seq![SurfaceOpView::SetOpacity { opacity: o }],
        None => Seq::empty(),
    }) + (match source {
        Some(s) => seq![SurfaceOpView::ReplaceContent { source: s }],
        None => Seq::empty(),
    })
}

impl Overlay {
    /// An overlay is well formed while its opacity lies in range.
    pub open spec fn wf(self) -> bool {
        self.opacity <= OPACITY_OPAQUE
    }

    /// Decides whether an overlay should be created for the given candidate
    /// window under the given filters; a window that fails any check is
    /// ignored, with no error propagated.
    pub fn should_handle(target_window: &TargetWindow, filters: &[Filter]) -> (r: bool)
        ensures
            r == spec_should_handle(target_window@, filters.deep_view()),
    {
        let title_ok = match &target_window.title {
            Some(title) => crate::filter::wallpaper_filter(Some(title.clone()), filters),
            None => false,
        };
        if !title_ok {
            return false;
        }
        match &target_window.bounds {
            Some(bounds) => bounds.width > 0 && bounds.height > 0,
            None => false,
        }
    }

    /// Evaluates a candidate window and, when it qualifies, binds a fresh
    /// overlay to it, returning the overlay together with the surface
    /// mutations that realize it; `None` when the window is rejected.
    pub fn new(
        wallpaper_id: u128,
        target_window: &TargetWindow,
        source: &WallpaperSource,
        opacity: u32,
        filters: &[Filter],
    ) -> (r: Option<(Overlay, Vec<SurfaceOp>)>)
        requires
            opacity <= OPACITY_OPAQUE,
        ensures
            r is Some <==> spec_should_handle(target_window@, filters.deep_view()),
            r matches Some((overlay, ops)) ==> {
                &&& overlay.wallpaper_id == wallpaper_id
                &&& overlay.target_window_id == target_window.id
                &&& Some(overlay.bounds) == target_window.bounds
                &&& overlay.opacity == opacity
                &&& overlay.source@ == source@
                &&& overlay.state == spec_initial_state(target_window@.frontmost)
                &&& overlay@ == spec_bind(wallpaper_id, target_window@, source@, opacity)
                &&& overlay.wf()
                &&& ops.deep_view() == spec_new_ops(
                    wallpaper_id,
                    target_window@,
                    source@,
                    opacity,
                    overlay.bounds,
                )
            },
    {
        if !Self::should_handle(target_window, filters) {
            return None;
        }
        let bounds = match &target_window.bounds {
            Some(bounds) => *bounds,
            None => {
                return None;
            },
        };
        let mut overlay = Overlay {
            wallpaper_id,
            target_window_id: target_window.id,
            bounds,
            opacity,
            source: source.clone(),
            state: OverlayState::Inactive,
        };
        let mut ops: Vec<SurfaceOp> = Vec::new();
        ops.push(SurfaceOp::CreateSurface {
            wallpaper_id,
            target_window: target_window.id,
            source: source.clone(),
            opacity,
        });
        match &target_window.frontmost {
            Some(true) => {
                let mut order_ops = overlay.activate();
                ops.append(&mut order_ops);
            },
            Some(false) => {
                let mut order_ops = overlay.deactivate();
                ops.append(&mut order_ops);
            },
            None => {},
        }
        ops.push(SurfaceOp::SetPosition { x: bounds.x, y: bounds.y });
        ops.push(SurfaceOp::SetSize { width: bounds.width, height: bounds.height });
        assert(overlay@ == spec_bind(wallpaper_id, target_window@, source@, opacity));
        assert(ops.deep_view() =~= spec_new_ops(
            wallpaper_id,
            target_window@,
            source@,
            opacity,
            bounds,
        ));
        Some((overlay, ops))
    }

    /// Reacts to one event about the bound target window: geometry reports
    /// reposition or rescale the surface, foreground reports move the
    /// overlay between active and inactive.
    pub fn handle_target_window_event(&mut self, event: WindowEvent) -> (ops: Vec<SurfaceOp>)
        ensures
            final(self).wallpaper_id == old(self).wallpaper_id,
            final(self).target_window_id == old(self).target_window_id,
            final(self).opacity == old(self).opacity,
            final(self).source == old(self).source,
            final(self).state == spec_state_after(old(self).state, event),
            final(self).bounds == spec_bounds_after(old(self).bounds, event),
            ops.deep_view() == spec_event_ops(old(self).target_window_id, event),
    {
        match event {
            WindowEvent::Moved { bounds } => {
                let ops = self.move_(bounds);
                assert(ops.deep_view() =~= spec_event_ops(self.target_window_id, event));
                ops
            },
            WindowEvent::Resized { bounds } => {
                let ops = self.resize(bounds);
                assert(ops.deep_view() =~= spec_event_ops(self.target_window_id, event));
                ops
            },
            WindowEvent::Activated => self.activate(),
            WindowEvent::Deactivated => self.deactivate(),
            _ => {
                let ops: Vec<SurfaceOp> = Vec::new();
                assert(ops.deep_view() =~= Seq::<SurfaceOpView>::empty());
                ops
            },
        }
    }

    /// Repositions the surface to the window's reported position.
    pub fn move_(&mut self, bounds: Bounds) -> (ops: Vec<SurfaceOp>)
        ensures
            *final(self) == (Overlay {
                bounds: Bounds {
                    x: bounds.x,
                    y: bounds.y,
                    width: old(self).bounds.width,
                    height: old(self).bounds.height,
                },
                ..*old(self)
            }),
            ops.deep_view() =~= seq![SurfaceOpView::SetPosition { x: bounds.x, y: bounds.y }],
    {
        self.bounds = Bounds { x: bounds.x, y: bounds.y, ..self.bounds };
        let mut ops: Vec<SurfaceOp> = Vec::new();
        ops.push(SurfaceOp::SetPosition { x: bounds.x, y: bounds.y });
        ops
    }

    /// Rescales the surface to the window's reported size.
    pub fn resize(&mut self, bounds: Bounds) -> (ops: Vec<SurfaceOp>)
        ensures
            *final(self) == (Overlay {
                bounds: Bounds {
                    x: old(self).bounds.x,
                    y: old(self).bounds.y,
                    width: bounds.width,
                    height: bounds.height,
                },
                ..*old(self)
            }),
            ops.deep_view() =~= seq![
                SurfaceOpView::SetSize { width: bounds.width, height: bounds.height },
            ],
    {
        self.bounds = Bounds { width: bounds.width, height: bounds.height, ..self.bounds };
        let mut ops: Vec<SurfaceOp> = Vec::new();
        ops.push(SurfaceOp::SetSize { width: bounds.width, height: bounds.height });
        ops
    }

    /// The target window came to the foreground: reorder, then keep the
    /// surface topmost.
    pub fn activate(&mut self) -> (ops: Vec<SurfaceOp>)
        ensures
            *final(self) == (Overlay { state: OverlayState::Active, ..*old(self) }),
            ops.deep_view() == spec_activate_ops(old(self).target_window_id),
    {
        self.state = OverlayState::Active;
        let mut ops = self.set_order();
        ops.push(SurfaceOp::SetTopmost { topmost: true });
        assert(ops.deep_view() =~= spec_activate_ops(self.target_window_id));
        ops
    }

    /// The target window left the foreground: release topmost, then reorder
    /// the surface to sit immediately above the window.
    pub fn deactivate(&mut self) -> (ops: Vec<SurfaceOp>)
        ensures
            *final(self) == (Overlay { state: OverlayState::Inactive, ..*old(self) }),
            ops.deep_view() == spec_deactivate_ops(old(self).target_window_id),
    {
        self.state = OverlayState::Inactive;
        let mut ops: Vec<SurfaceOp> = Vec::new();
        ops.push(SurfaceOp::SetTopmost { topmost: false });
        let mut order_ops = self.set_order();
        ops.append(&mut order_ops);
        assert(ops.deep_view() =~= spec_deactivate_ops(self.target_window_id));
        ops
    }

    /// The reorder-above operation, attempted twice around a brief wait
    /// because stacking may not have settled yet.
    pub fn set_order(&self) -> (ops: Vec<SurfaceOp>)
        ensures
            ops.deep_view() == spec_set_order_ops(self.target_window_id),
    {
        let mut ops: Vec<SurfaceOp> = Vec::new();
        ops.push(SurfaceOp::OrderAboveTarget { target: self.target_window_id });
        ops.push(SurfaceOp::SettleDelay);
        ops.push(SurfaceOp::OrderAboveTarget { target: self.target_window_id });
        assert(ops.deep_view() =~= spec_set_order_ops(self.target_window_id));
        ops
    }

    /// Applies a live configuration edit: an opacity update changes the
    /// surface's alpha directly; a source update triggers a full content
    /// reload.
    pub fn apply_wallpaper(
        &mut self,
        opacity: Option<u32>,
        source: Option<WallpaperSource>,
    ) -> (ops: Vec<SurfaceOp>)
        requires
            opacity matches Some(o) ==> o <= OPACITY_OPAQUE,
            old(self).wf(),
        ensures
            final(self).wallpaper_id == old(self).wallpaper_id,
            final(self).target_window_id == old(self).target_window_id,
            final(self).bounds == old(self).bounds,
            final(self).state == old(self).state,
            final(self).opacity == (match opacity {
                Some(o) => o,
                None => old(self).opacity,
            }),
            final(self).source@ == (match source {
                Some(s) => s@,
                None => old(self).source@,
            }),
            final(self).wf(),
            ops.deep_view() == spec_apply_ops(opacity, source.deep_view()),
    {
        let mut ops: Vec<SurfaceOp> = Vec::new();
        if let Some(o) = opacity {
            self.opacity = o;
            ops.push(SurfaceOp::SetOpacity { opacity: o });
        }
        if let Some(s) = source {
            let replace = SurfaceOp::ReplaceContent { source: s.clone() };
            self.source = s;
            ops.push(replace);
        }
        assert(ops.deep_view() =~= spec_apply_ops(opacity, source.deep_view()));
        ops
    }

    /// The target window closed: destroy the surface and end the overlay's
    /// life. No further surface mutations follow a close.
    pub fn close(&mut self) -> (ops: Vec<SurfaceOp>)
        ensures
            *final(self) == (Overlay { state: OverlayState::Closed, ..*old(self) }),
            ops.deep_view() == seq![SurfaceOpView::Destroy],
    {
        self.state = OverlayState::Closed;
        let mut ops: Vec<SurfaceOp> = Vec::new();
        ops.push(SurfaceOp::Destroy);
        assert(ops.deep_view() =~= seq![SurfaceOpView::Destroy]);
        ops
    }
}

/// A window with zero width or zero height never qualifies for an overlay:
/// evaluation rejects it whatever the filters say.
pub proof fn lemma_degenerate_window_rejected(w: TargetWindowView, filters: Seq<FilterView>)
    requires
        w.bounds matches Some(b) ==> b.width == 0 || b.height == 0,
    ensures
        !spec_should_handle(w, filters),
{
}

} // verus!
