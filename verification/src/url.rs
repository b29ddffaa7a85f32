//! Content descriptors for overlay surfaces.
//!
//! The rendering surface is an external collaborator that accepts a URL; this
//! module builds that URL from a wallpaper's content source. Built-in picture
//! and video wallpapers become query URLs into the application's own page;
//! local pages become asset URLs over the canonicalized file path; remote
//! pages pass through unchanged.

use vstd::prelude::*;

use crate::config::{SourceView, WallpaperSource};

verus! {

/// What `percent_encoding::utf8_percent_encode` returns for the given
/// characters when every non-alphanumeric byte is escaped.
pub uninterp spec fn percent_encoded(s: Seq<char>) -> Seq<char>;

/// Relies on `percent_encoding::utf8_percent_encode` with the
/// `NON_ALPHANUMERIC` set: the result is a function of the input characters
/// alone, and nothing of an empty input is left to encode.
#[verifier::external_body]
fn percent_encode_str(s: &str) -> (r: String)
    ensures
        r@ == percent_encoded(s@),
        s@.len() == 0 ==> r@.len() == 0,
{
    percent_encoding::utf8_percent_encode(s, percent_encoding::NON_ALPHANUMERIC).to_string()
}

/// Relies on `dunce::canonicalize`: what it yields depends on the file
/// system at the time of the call, so nothing is promised of the result;
/// `None` reports that the path could not be resolved.
#[verifier::external_body]
fn canonicalize_file_path(path: &str) -> (r: Option<String>)
{
    match dunce::canonicalize(path) {
        Ok(canonical) => Some(canonical.to_string_lossy().into_owned()),
        Err(_) => None,
    }
}

/// The asset URL serving a canonicalized local file path.
pub open spec fn spec_file_src_url(canonical: Seq<char>) -> Seq<char> {
    "asset://localhost/"@ + percent_encoded(canonical)
}

/// The query URL rendering a built-in wallpaper of the given kind
/// (`"picture"` or `"video"`) from the given file location.
pub open spec fn spec_app_url(kind: Seq<char>, location: Seq<char>) -> Seq<char> {
    "?wallpaper="@ + kind + "&path="@ + percent_encoded(location)
}

/// Builds the asset URL for a file path that has already been canonicalized.
pub fn file_src_url(canonical: &str) -> (r: String)
    ensures
        r@ == spec_file_src_url(canonical@),
{
    let mut url = String::from_str("asset://localhost/");
    let encoded = percent_encode_str(canonical);
    url.append(encoded.as_str());
    url
}

/// Resolves a local file path and builds the asset URL serving it; `None`
/// when the path cannot be resolved on this machine.
pub fn convert_file_src(path: &str) -> (r: Option<String>)
    ensures
        r matches Some(u) ==> exists|c: Seq<char>| u@ == spec_file_src_url(c),
{
    match canonicalize_file_path(path) {
        Some(canonical) => {
            let url = file_src_url(canonical.as_str());
            assert(url@ == spec_file_src_url(canonical@));
            Some(url)
        },
        None => None,
    }
}

fn app_url(kind: &str, location: &str) -> (r: String)
    ensures
        r@ == spec_app_url(kind@, location@),
{
    let mut url = String::from_str("?wallpaper=");
    url.append(kind);
    url.append("&path=");
    let encoded = percent_encode_str(location);
    url.append(encoded.as_str());
    url
}

/// The URL a bound overlay surface renders for each content source, where a
/// URL can be built without looking at the machine: remote pages pass their
/// location through, built-in pictures and videos become query URLs.
pub open spec fn spec_wallpaper_url(source: SourceView) -> Option<Seq<char>> {
    match source {
        SourceView::RemoteWebPage { location } => Some(location),
        SourceView::Picture { location } => Some(spec_app_url("picture"@, location)),
        SourceView::Video { location } => Some(spec_app_url("video"@, location)),
        SourceView::LocalWebPage { .. } => None,
    }
}

/// Builds the URL an overlay surface renders for the given content source.
/// Remote pages, pictures and videos always yield a URL; a local page yields
/// one only if its path resolves on this machine.
pub fn get_wallpaper_url(source: &WallpaperSource) -> (r: Option<String>)
    ensures
        source@ !is LocalWebPage ==> (match (r, spec_wallpaper_url(source@)) {
            (Some(u), Some(s)) => u@ == s,
            _ => false,
        }),
        source@ matches SourceView::LocalWebPage { .. } ==> (r matches Some(u)
            ==> exists|c: Seq<char>| u@ == spec_file_src_url(c)),
{
    match source {
        WallpaperSource::RemoteWebPage { location } => Some(location.clone()),
        WallpaperSource::LocalWebPage { location } => convert_file_src(location.as_str()),
        WallpaperSource::Picture { location } => Some(app_url("picture", location.as_str())),
        WallpaperSource::Video { location } => Some(app_url("video", location.as_str())),
    }
}

} // verus!
