//! Wallpaper configurations and live partial updates.
//!
//! A [`Wallpaper`] describes one wallpaper: the target application it follows,
//! the title filters its windows must pass, the content source shown, and the
//! overlay opacity. An [`ApplyWallpaper`] payload carries a partial update;
//! [`update_wallpaper_config`] merges it field by field into a stored
//! configuration without touching the fields the payload leaves out.

use vstd::prelude::*;

use crate::filter::{Filter, FilterView};

verus! {

/// Opacity values are thousandths of full opacity: `0` is fully transparent
/// and `OPACITY_OPAQUE` fully opaque.
pub const OPACITY_OPAQUE: u32 = 1000;

/// Where a wallpaper's content comes from.
#[derive(Debug)]
pub enum WallpaperSource {
    RemoteWebPage { location: String },
    LocalWebPage { location: String },
    Picture { location: String },
    Video { location: String },
}

/// The mathematical content of a [`WallpaperSource`].
pub enum SourceView {
    RemoteWebPage { location: Seq<char> },
    LocalWebPage { location: Seq<char> },
    Picture { location: Seq<char> },
    Video { location: Seq<char> },
}

impl View for WallpaperSource {
    type V = SourceView;

    open spec fn view(&self) -> SourceView {
        match self {
            WallpaperSource::RemoteWebPage { location } => SourceView::RemoteWebPage {
                location: location@,
            },
            WallpaperSource::LocalWebPage { location } => SourceView::LocalWebPage {
                location: location@,
            },
            WallpaperSource::Picture { location } => SourceView::Picture { location: location@ },
            WallpaperSource::Video { location } => SourceView::Video { location: location@ },
        }
    }
}

impl DeepView for WallpaperSource {
    type V = SourceView;

    open spec fn deep_view(&self) -> SourceView {
        self.view()
    }
}

impl Clone for WallpaperSource {
    fn clone(&self) -> (r: Self)
        ensures
            r@ == self@,
    {
        match self {
            WallpaperSource::RemoteWebPage { location } => WallpaperSource::RemoteWebPage {
                location: location.clone(),
            },
            WallpaperSource::LocalWebPage { location } => WallpaperSource::LocalWebPage {
                location: location.clone(),
            },
            WallpaperSource::Picture { location } => WallpaperSource::Picture {
                location: location.clone(),
            },
            WallpaperSource::Video { location } => WallpaperSource::Video {
                location: location.clone(),
            },
        }
    }
}

/// One wallpaper configuration. The identity that names it is kept by its
/// owner (the manager keys hosts by id); everything here is hot-swappable.
#[derive(Debug)]
pub struct Wallpaper {
    /// Display name of the wallpaper.
    pub name: String,
    /// Executable name of the target application; the key the application
    /// observer matches process paths against.
    pub application_name: String,
    /// Title filters a window must pass to receive an overlay.
    pub filters: Vec<Filter>,
    /// Content shown on each overlay surface.
    pub source: WallpaperSource,
    /// Overlay opacity in thousandths; at most [`OPACITY_OPAQUE`].
    pub opacity: u32,
}

/// The mathematical content of a [`Wallpaper`].
pub struct WallpaperView {
    pub name: Seq<char>,
    pub application_name: Seq<char>,
    pub filters: Seq<FilterView>,
    pub source: SourceView,
    pub opacity: u32,
}

impl View for Wallpaper {
    type V = WallpaperView;

    open spec fn view(&self) -> WallpaperView {
        WallpaperView {
            name: self.name@,
            application_name: self.application_name@,
            filters: self.filters.deep_view(),
            source: self.source@,
            opacity: self.opacity,
        }
    }
}

impl Wallpaper {
    /// A configuration is well formed when its opacity lies in range.
    pub open spec fn wf(self) -> bool {
        self.opacity <= OPACITY_OPAQUE
    }
}

impl Clone for Wallpaper {
    fn clone(&self) -> (r: Self)
        ensures
            r@ == self@,
    {
        let filters = crate::filter::clone_filters(&self.filters);
        let r = Wallpaper {
            name: self.name.clone(),
            application_name: self.application_name.clone(),
            filters,
            source: self.source.clone(),
            opacity: self.opacity,
        };
        assert(r@ =~= self@);
        r
    }
}

/// A partial update to a wallpaper configuration: each field present replaces
/// the stored one, each field absent leaves it untouched.
#[derive(Debug)]
pub struct ApplyWallpaper {
    pub name: Option<String>,
    pub application_name: Option<String>,
    pub filters: Option<Vec<Filter>>,
    pub opacity: Option<u32>,
    pub source: Option<WallpaperSource>,
}

/// The mathematical content of an [`ApplyWallpaper`] payload.
pub struct ApplyWallpaperView {
    pub name: Option<Seq<char>>,
    pub application_name: Option<Seq<char>>,
    pub filters: Option<Seq<FilterView>>,
    pub opacity: Option<u32>,
    pub source: Option<SourceView>,
}

impl View for ApplyWallpaper {
    type V = ApplyWallpaperView;

    open spec fn view(&self) -> ApplyWallpaperView {
        ApplyWallpaperView {
            name: self.name.deep_view(),
            application_name: self.application_name.deep_view(),
            filters: match self.filters {
                Some(f) => Some(f.deep_view()),
                None => None,
            },
            opacity: self.opacity,
            source: self.source.deep_view(),
        }
    }
}

impl ApplyWallpaper {
    /// A payload is well formed when a present opacity lies in range.
    pub open spec fn wf(self) -> bool {
        self.opacity matches Some(o) ==> o <= OPACITY_OPAQUE
    }
}

/// What merging a partial update into a configuration yields: each present
/// payload field replaces the stored field, each absent one is kept.
pub open spec fn spec_apply_update(w: WallpaperView, p: ApplyWallpaperView) -> WallpaperView {
    WallpaperView {
        name: match p.name {
            Some(n) => n,
            None => w.name,
        },
        application_name: match p.application_name {
            Some(a) => a,
            None => w.application_name,
        },
        filters: match p.filters {
            Some(f) => f,
            None => w.filters,
        },
        source: match p.source {
            Some(s) => s,
            None => w.source,
        },
        opacity: match p.opacity {
            Some(o) => o,
            None => w.opacity,
        },
    }
}

/// Merges a partial update into the stored configuration, field by field.
pub fn update_wallpaper_config(wallpaper: &mut Wallpaper, payload: ApplyWallpaper)
    requires
        old(wallpaper).wf(),
        payload.wf(),
    ensures
        final(wallpaper)@ == spec_apply_update(old(wallpaper)@, payload@),
        final(wallpaper).wf(),
{
    let ApplyWallpaper { name, application_name, filters, opacity, source } = payload;
    if let Some(name) = name {
        wallpaper.name = name;
    }
    if let Some(application_name) = application_name {
        wallpaper.application_name = application_name;
    }
    if let Some(filters) = filters {
        wallpaper.filters = filters;
    }
    if let Some(opacity) = opacity {
        wallpaper.opacity = opacity;
    }
    if let Some(source) = source {
        wallpaper.source = source;
    }
    assert(wallpaper@ =~= spec_apply_update(old(wallpaper)@, payload@));
}

/// An update that carries only an opacity leaves every other field of the
/// configuration unchanged and sets the opacity to the carried value.
pub proof fn lemma_opacity_only_update(w: WallpaperView, p: ApplyWallpaperView, o: u32)
    requires
        p.name is None,
        p.application_name is None,
        p.filters is None,
        p.source is None,
        p.opacity == Some(o),
    ensures
        spec_apply_update(w, p).name == w.name,
        spec_apply_update(w, p).application_name == w.application_name,
        spec_apply_update(w, p).filters == w.filters,
        spec_apply_update(w, p).source == w.source,
        spec_apply_update(w, p).opacity == o,
{
}

} // verus!

