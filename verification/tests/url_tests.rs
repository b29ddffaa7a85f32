use overkami::config::WallpaperSource;
use overkami::retry::{retry_decision, AttachOutcome, RetryDecision, RETRY_CEILING_MS, RETRY_DELAY_MS};
use overkami::url::{convert_file_src, file_src_url, get_wallpaper_url};

#[test]
fn picture_source_becomes_query_url() {
    let source = WallpaperSource::Picture { location: String::from("pics/cat.png") };
    let url = get_wallpaper_url(&source).unwrap();
    assert_eq!(url, "?wallpaper=picture&path=pics%2Fcat%2Epng");
}

#[test]
fn video_source_becomes_query_url() {
    let source = WallpaperSource::Video { location: String::from("a b.mp4") };
    let url = get_wallpaper_url(&source).unwrap();
    assert_eq!(url, "?wallpaper=video&path=a%20b%2Emp4");
}

#[test]
fn remote_page_passes_through() {
    let source = WallpaperSource::RemoteWebPage {
        location: String::from("https://example.invalid/w"),
    };
    let url = get_wallpaper_url(&source).unwrap();
    assert_eq!(url, "https://example.invalid/w");
}

#[test]
fn asset_url_wraps_canonical_path() {
    assert_eq!(file_src_url("tmp"), "asset://localhost/tmp");
    assert_eq!(file_src_url("a/b c"), "asset://localhost/a%2Fb%20c");
}

#[test]
fn local_page_resolves_through_the_file_system() {
    // the current directory always resolves; its URL carries the asset base
    let url = convert_file_src(".").unwrap();
    assert!(url.starts_with("asset://localhost/"));
    // a path that does not exist cannot be resolved
    assert!(convert_file_src("no/such/path/exists/here").is_none());
}

#[test]
fn attach_retry_decisions() {
    assert_eq!(retry_decision(0, &AttachOutcome::Started), RetryDecision::Attached);
    assert_eq!(
        retry_decision(0, &AttachOutcome::InvalidProcessId),
        RetryDecision::RetryAfterDelay { delay_ms: RETRY_DELAY_MS }
    );
    assert_eq!(retry_decision(0, &AttachOutcome::NotSupported), RetryDecision::Abandon);
    assert_eq!(retry_decision(0, &AttachOutcome::OtherError), RetryDecision::Fail);
}

#[test]
fn attach_retry_gives_up_after_ceiling() {
    assert_eq!(
        retry_decision(RETRY_CEILING_MS + 1, &AttachOutcome::InvalidProcessId),
        RetryDecision::Abandon
    );
    assert_eq!(
        retry_decision(RETRY_CEILING_MS, &AttachOutcome::InvalidProcessId),
        RetryDecision::RetryAfterDelay { delay_ms: RETRY_DELAY_MS }
    );
    assert_eq!(
        retry_decision(RETRY_CEILING_MS + 1, &AttachOutcome::Started),
        RetryDecision::Abandon
    );
}
