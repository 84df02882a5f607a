use media_resolver_core::normalize::{dimensions_from_url, image_mime_type};
use media_resolver_core::remote::{original_image_url, validate_source_key, RemoteAdapter};
use media_resolver_core::{InputDescriptor, ResolveError};

#[test]
fn remote_identifies_supported_status_paths() {
    let input = RemoteAdapter::inspect("https://x.com/example/status/2011590242474893548/photo/1?x=1")
        .expect("supported input");
    assert_eq!(input.source_key, "2011590242474893548");
}

#[test]
fn remote_rejects_oversized_source_key() {
    let source = "1".repeat(20);
    assert_eq!(validate_source_key(&source), Err(ResolveError::InvalidInput));
}

#[test]
fn builds_original_image_variant() {
    let output = original_image_url("https://pbs.twimg.com/media/example.jpg").unwrap();
    assert_eq!(output, "https://pbs.twimg.com/media/example?format=jpg&name=orig");
}

#[test]
fn upgrades_query_style_image_to_original_size() {
    let output =
        original_image_url("https://pbs.twimg.com/media/example?format=png&name=small").unwrap();
    assert_eq!(output, "https://pbs.twimg.com/media/example?format=png&name=orig");
}

#[test]
fn detects_query_style_image_mime_type() {
    assert_eq!(
        image_mime_type("https://pbs.twimg.com/media/example?format=png&name=small").as_deref(),
        Some("image/png")
    );
}

#[test]
fn parses_dimensions_from_variant_url() {
    assert_eq!(
        dimensions_from_url("https://video.twimg.com/path/vid/avc1/1280x720/file.mp4"),
        Some((Some(1280), Some(720)))
    );
}

#[test]
fn remote_keys_may_be_short_but_not_long() {
    assert_eq!(validate_source_key("1"), Ok(()));
    assert_eq!(validate_source_key("1234567890123456789"), Ok(()));
    assert_eq!(validate_source_key(""), Err(ResolveError::InvalidInput));
    assert_eq!(validate_source_key("12a"), Err(ResolveError::InvalidInput));
}

fn descriptor(key: &str) -> InputDescriptor {
    InputDescriptor {
        source_key: key.to_owned(),
        normalized_input: format!("https://x.com/i/status/{key}"),
    }
}

#[test]
fn remote_request_carries_key_language_and_token() {
    let request = RemoteAdapter::prepare(&descriptor("20"), "abc").unwrap();
    assert_eq!(request.route_key, "20");
    assert!(request.url.starts_with("https://cdn.syndication.twimg.com/tweet-result?id=20&lang=en&features="));
    assert!(request.url.ends_with("&token=abc"));
    assert_eq!(RemoteAdapter::prepare(&descriptor("x"), "abc"), Err(ResolveError::InvalidInput));
}

#[test]
fn remote_process_maps_statuses_and_documents() {
    let d = descriptor("20");
    assert_eq!(RemoteAdapter::process(&d, 404, b"{}"), Err(ResolveError::RemoteNotFound));
    assert_eq!(RemoteAdapter::process(&d, 429, b"{}"), Err(ResolveError::RateLimited));
    assert_eq!(RemoteAdapter::process(&d, 503, b"{}"), Err(ResolveError::RemoteRejected));
    assert_eq!(RemoteAdapter::process(&d, 200, b"{}"), Err(ResolveError::RemoteNotFound));
    assert_eq!(RemoteAdapter::process(&d, 200, b"nope"), Err(ResolveError::InvalidResponse));
    assert_eq!(
        RemoteAdapter::process(&d, 200, br#"{"__typename":"TweetTombstone"}"#),
        Err(ResolveError::RemoteNotFound)
    );
    assert_eq!(
        RemoteAdapter::process(&d, 200, br#"{"__typename":"Tweet","mediaDetails":[]}"#),
        Err(ResolveError::NoResources)
    );
    let only_hls = br#"{"mediaDetails":[{"type":"video","video_info":{"variants":[
        {"content_type":"application/x-mpegURL","url":"https://video.twimg.com/a/pl.m3u8"}]}}]}"#;
    assert_eq!(RemoteAdapter::process(&d, 200, only_hls), Err(ResolveError::InvalidResponse));
    let video = br#"{"mediaDetails":[{"type":"animated_gif","video_info":{"variants":[
        {"content_type":"application/x-mpegURL","url":"https://video.twimg.com/a/pl.m3u8"},
        {"content_type":"VIDEO/MP4","bitrate":10,"url":"https://video.twimg.com/a/320x240/b.mp4"},
        {"content_type":"video/mp4","bitrate":5,"url":"https://video.twimg.com/a/160x120/c.mp4"}]}}]}"#;
    let bundle = RemoteAdapter::process(&d, 200, video).unwrap();
    let item = &bundle.resources[0];
    assert_eq!(item.id, "20:1");
    assert_eq!(item.variants.len(), 2);
    assert_eq!(item.variants[0].url, "https://video.twimg.com/a/320x240/b.mp4");
    assert_eq!(item.preferred_url, "https://video.twimg.com/a/160x120/c.mp4");
    assert_eq!(item.width, Some(160));
}
