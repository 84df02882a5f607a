use media_resolver_core::{
    accept_response, accept_transport_failure, inspect_input, start_resolution,
    start_resolution_from_key, PreparedRequest, ResolutionOptions, ResolutionSession,
    ResolutionStep, ResolveError, ResolveErrorCode, ResourceKind, RuntimeProfile,
    TransportFailure,
};
use media_resolver_core::{JsonValue, PublicResponse};

/// The body read as the public route's response record, for bodies whose
/// top level is an object: `code` as a `u16`, `status` as a document, a
/// null member counting as absent.
fn record(body: &[u8]) -> Option<PublicResponse> {
    let value: serde_json::Value = serde_json::from_slice(body).ok()?;
    let fields = value.as_object()?;
    let code = match fields.get("code") {
        None | Some(serde_json::Value::Null) => None,
        Some(c) => Some(u16::try_from(c.as_u64()?).ok()?),
    };
    let status = match fields.get("status") {
        None | Some(serde_json::Value::Null) => None,
        Some(v) => Some(json_value(v.clone())),
    };
    Some(PublicResponse { code, status })
}

fn json_value(value: serde_json::Value) -> JsonValue {
    match value {
        serde_json::Value::Null => JsonValue::Null,
        serde_json::Value::Bool(b) => JsonValue::Bool(b),
        serde_json::Value::Number(n) => JsonValue::Number(n.to_string(), n.as_f64().map(f64::to_bits)),
        serde_json::Value::String(s) => JsonValue::Str(s),
        serde_json::Value::Array(items) => JsonValue::Array(items.into_iter().map(json_value).collect()),
        serde_json::Value::Object(entries) => {
            JsonValue::Object(entries.into_iter().map(|(k, v)| (k, json_value(v))).collect())
        }
    }
}

const INPUT_CANONICAL: &str = "https://x.com/example/status/2011590242474893548\n";
const INPUT_ALTERNATE: &str =
    "https://mobile.twitter.com/example/status/2011590242474893548/photo/1?s=20\n";
const INPUT_UNSUPPORTED: &str = "https://example.com/example/status/2011590242474893548\n";
const INPUT_INVALID_KEY: &str = "https://x.com/example/status/not-a-key\n";
const INPUT_MISSING_KEY: &str = "https://x.com/example\n";

/// The embed token that the command line computes for 2011590242474893548.
const TOKEN: &str = "4vjlhvle61f";

const PUBLIC_IMAGE: &[u8] = br#"{
  "code": 200,
  "message": "OK",
  "status": {
    "type": "status",
    "id": "2011590242474893548",
    "media": {
      "all": [
        {"type": "photo", "url": "https://pbs.twimg.com/media/example.jpg", "width": 1200, "height": 800}
      ],
      "photos": [
        {"type": "photo", "url": "https://pbs.twimg.com/media/example.jpg", "width": 1200, "height": 800}
      ]
    }
  }
}"#;

const PUBLIC_IMAGES: &[u8] = br#"{
  "code": 200,
  "message": "OK",
  "status": {
    "type": "status",
    "id": "2011590242474893548",
    "media": {
      "all": [
        {"type": "photo", "url": "https://pbs.twimg.com/media/first.jpg", "width": 1200, "height": 800},
        {"type": "photo", "url": "https://pbs.twimg.com/media/second.png", "width": 640, "height": 480}
      ]
    }
  }
}"#;

const PUBLIC_VIDEO: &[u8] = br#"{
  "code": 200,
  "message": "OK",
  "status": {
    "type": "status",
    "id": "2011590242474893548",
    "media": {
      "all": [
        {
          "type": "video",
          "url": "https://video.twimg.com/ext_tw_video/1/pu/vid/avc1/1280x720/clip.mp4",
          "width": 1280,
          "height": 720,
          "thumbnail_url": "https://pbs.twimg.com/ext_tw_video_thumb/1/pu/img/thumb.jpg",
          "duration": 12.345,
          "filesize": 4096,
          "formats": [
            {"container": "webm", "codec": "vp9", "bitrate": 1000000, "url": "https://video.twimg.com/ext_tw_video/1/pu/vid/vp9/1280x720/clip.webm", "height": 720, "width": 1280},
            {"container": "mp4", "codec": "H264", "bitrate": 2176000, "url": "https://video.twimg.com/ext_tw_video/1/pu/vid/avc1/1280x720/clip.mp4", "size": 4096, "height": 720, "width": 1280},
            {"container": "m3u8", "url": "https://video.twimg.com/ext_tw_video/1/pu/pl/playlist.m3u8"}
          ]
        }
      ]
    }
  }
}"#;

const PUBLIC_ANIMATION: &[u8] = br#"{
  "code": 200,
  "message": "OK",
  "status": {
    "type": "status",
    "id": "2011590242474893548",
    "media": {
      "all": [
        {
          "type": "gif",
          "url": "https://video.twimg.com/tweet_video/anim.mp4",
          "width": 480,
          "height": 270,
          "thumbnail_url": "https://pbs.twimg.com/tweet_video_thumb/anim.jpg",
          "formats": [
            {"container": "mp4", "url": "https://video.twimg.com/tweet_video/anim.mp4", "width": 480, "height": 270}
          ]
        }
      ]
    }
  }
}"#;

const PUBLIC_ANIMATION_TRANSCODE: &[u8] = br#"{
  "code": 200,
  "message": "OK",
  "status": {
    "type": "status",
    "id": "2011590242474893548",
    "media": {
      "all": [
        {
          "type": "gif",
          "url": "https://pbs.twimg.com/tweet_video_thumb/animation.jpg",
          "width": 480,
          "height": 270,
          "transcode_url": "https://video.twimg.com/tweet_video/animation.mp4"
        }
      ]
    }
  }
}"#;

const PUBLIC_NO_MEDIA: &[u8] = br#"{
  "code": 200,
  "message": "OK",
  "status": {"type": "status", "id": "2011590242474893548", "text": "no media here"}
}"#;

const PUBLIC_UNAVAILABLE: &[u8] =
    br#"{"code": 200, "message": "OK", "status": {"type": "tombstone", "reason": "unavailable"}}"#;
const PUBLIC_PRIVATE: &[u8] =
    br#"{"code": 200, "message": "OK", "status": {"type": "tombstone", "reason": "private"}}"#;
const PUBLIC_DELETED: &[u8] =
    br#"{"code": 200, "message": "OK", "status": {"type": "tombstone", "reason": "deleted"}}"#;
const PUBLIC_BLOCKED: &[u8] =
    br#"{"code": 200, "message": "OK", "status": {"type": "tombstone", "reason": "blocked"}}"#;
const PUBLIC_SUSPENDED: &[u8] =
    br#"{"code": 200, "message": "OK", "status": {"type": "tombstone", "reason": "suspended"}}"#;

const PUBLIC_VIDEO_FALLBACK: &[u8] = br#"{
  "code": 200,
  "message": "OK",
  "status": {
    "type": "status",
    "id": "2011590242474893548",
    "media": {
      "all": [],
      "videos": [
        {
          "type": "video",
          "url": "https://video.twimg.com/ext_tw_video/3/pu/vid/avc1/720x1280/clip.mp4",
          "width": 720,
          "height": 1280,
          "formats": [
            {"container": "mp4", "bitrate": 950000, "url": "https://video.twimg.com/ext_tw_video/3/pu/vid/avc1/720x1280/clip.mp4"}
          ]
        }
      ]
    }
  }
}"#;

const EMBED_IMAGE: &[u8] = br#"{
  "__typename": "Tweet",
  "mediaDetails": [
    {
      "type": "photo",
      "media_url_https": "https://pbs.twimg.com/media/embed.jpg",
      "original_info": {"width": 1024, "height": 768}
    }
  ]
}"#;

const EMBED_VIDEO: &[u8] = br#"{
  "__typename": "Tweet",
  "mediaDetails": [
    {
      "type": "video",
      "media_url_https": "https://pbs.twimg.com/ext_tw_video_thumb/2/pu/img/thumb.jpg",
      "original_info": {"width": 1280, "height": 720},
      "video_info": {
        "duration_millis": 9000,
        "variants": [
          {"content_type": "application/x-mpegURL", "url": "https://video.twimg.com/ext_tw_video/2/pu/pl/playlist.m3u8"},
          {"bitrate": 832000, "content_type": "video/mp4", "url": "https://video.twimg.com/ext_tw_video/2/pu/vid/avc1/640x360/low.mp4"},
          {"bitrate": 2176000, "content_type": "video/mp4", "url": "https://video.twimg.com/ext_tw_video/2/pu/vid/avc1/1280x720/high.mp4"}
        ]
      }
    }
  ]
}"#;

const EMBED_TOMBSTONE: &[u8] =
    br#"{"__typename": "TweetTombstone", "tombstone": {"text": "This post is unavailable."}}"#;

const GATEWAY_BUNDLE: &[u8] = br#"{
  "schemaVersion": 1,
  "sourceKey": "2011590242474893548",
  "resources": [
    {
      "id": "2011590242474893548:1",
      "kind": "image",
      "preferredUrl": "https://assets.example.invalid/a.jpg",
      "previewUrl": "https://assets.example.invalid/a-small.jpg",
      "width": 1200,
      "height": 800,
      "variants": [{"url": "https://assets.example.invalid/a.jpg", "mimeType": "image/jpeg"}]
    }
  ]
}"#;

const GATEWAY_RESTRICTED: &[u8] = br#"{"error": {"code": "remote_restricted"}}"#;

const MALFORMED: &[u8] = b"{\"status\": [unterminated";

fn options(gateway: Option<&str>) -> ResolutionOptions {
    ResolutionOptions {
        profile: RuntimeProfile::Browser,
        gateway_endpoint: gateway.map(str::to_owned),
    }
}

fn start(gateway: Option<&str>) -> ResolutionStep {
    start_resolution(INPUT_CANONICAL.trim(), options(gateway), TOKEN).unwrap()
}

fn request(step: ResolutionStep) -> (ResolutionSession, PreparedRequest) {
    match step {
        ResolutionStep::Request { session, request, .. } => (session, *request),
        other => panic!("expected request step, got {other:?}"),
    }
}

fn failed_code(step: ResolutionStep) -> ResolveErrorCode {
    match step {
        ResolutionStep::Failed { error } => error.code,
        other => panic!("expected failed step, got {other:?}"),
    }
}

#[test]
fn accepts_alternate_host_query_and_suffix() {
    let parsed = inspect_input(INPUT_ALTERNATE.trim()).unwrap();
    assert_eq!(parsed.source_key, "2011590242474893548");
    assert!(parsed.normalized_input.ends_with("/i/status/2011590242474893548"));
}

#[test]
fn rejects_invalid_and_unsupported_inputs() {
    assert_eq!(inspect_input("not a url"), Err(ResolveError::InvalidInput));
    assert_eq!(inspect_input(INPUT_UNSUPPORTED.trim()), Err(ResolveError::UnsupportedInput));
    assert_eq!(inspect_input(INPUT_INVALID_KEY.trim()), Err(ResolveError::InvalidInput));
    assert_eq!(inspect_input(INPUT_MISSING_KEY.trim()), Err(ResolveError::UnsupportedInput));
}

#[test]
fn can_start_resolution_from_a_valid_source_key() {
    let step = start_resolution_from_key("2011590242474893548", options(None), TOKEN).unwrap();
    let (_, request) = request(step);
    assert_eq!(request.route_key, "r0");
    assert!(request.url.contains("/2/status/2011590242474893548"));
}

#[test]
fn rejects_invalid_source_key_for_direct_start() {
    assert_eq!(
        start_resolution_from_key("not-a-key", options(None), TOKEN),
        Err(ResolveError::InvalidInput)
    );
}

#[test]
fn public_route_is_first_and_resolves_images() {
    let (session, first) = request(start(None));
    assert_eq!(first.route_key, "r0");
    assert!(first.url.contains("/2/status/2011590242474893548"));
    let result = accept_response(session, 200, PUBLIC_IMAGE, record(PUBLIC_IMAGE)).unwrap();
    match result {
        ResolutionStep::Resolved { result } => {
            assert_eq!(result.resources.len(), 1);
            assert_eq!(result.resources[0].kind, ResourceKind::Image);
            assert!(result.resources[0].preferred_url.contains("name=orig"));
        }
        other => panic!("expected resolved step, got {other:?}"),
    }
}

#[test]
fn public_route_preserves_multiple_images() {
    let (session, _) = request(start(None));
    let result = accept_response(session, 200, PUBLIC_IMAGES, record(PUBLIC_IMAGES)).unwrap();
    match result {
        ResolutionStep::Resolved { result } => assert_eq!(result.resources.len(), 2),
        other => panic!("expected resolved step, got {other:?}"),
    }
}

#[test]
fn public_video_preserves_mp4_webm_hls_and_metadata() {
    let (session, _) = request(start(None));
    let result = accept_response(session, 200, PUBLIC_VIDEO, record(PUBLIC_VIDEO)).unwrap();
    match result {
        ResolutionStep::Resolved { result } => {
            let item = &result.resources[0];
            assert_eq!(item.kind, ResourceKind::Video);
            assert_eq!(item.duration_ms, Some(12_345));
            assert!(item.variants.iter().any(|v| v.container.as_deref() == Some("mp4")));
            assert!(item.variants.iter().any(|v| v.container.as_deref() == Some("webm")));
            assert!(item.variants.iter().any(|v| v.container.as_deref() == Some("m3u8")));
            assert_eq!(item.variants[0].container.as_deref(), Some("mp4"));
            assert_eq!(item.variants[0].codec.as_deref(), Some("h264"));
            assert_eq!(item.preferred_url, item.variants[0].url);
        }
        other => panic!("expected resolved step, got {other:?}"),
    }
}

#[test]
fn public_animation_is_normalized_as_animation() {
    let (session, _) = request(start(None));
    let result = accept_response(session, 200, PUBLIC_ANIMATION, record(PUBLIC_ANIMATION)).unwrap();
    match result {
        ResolutionStep::Resolved { result } => {
            assert_eq!(result.resources[0].kind, ResourceKind::Animation);
            assert_eq!(result.resources[0].variants[0].container.as_deref(), Some("mp4"));
        }
        other => panic!("expected resolved step, got {other:?}"),
    }
}

#[test]
fn public_animation_transcode_is_normalized_as_animation() {
    let (session, _) = request(start(None));
    let result = accept_response(session, 200, PUBLIC_ANIMATION_TRANSCODE, record(PUBLIC_ANIMATION_TRANSCODE)).unwrap();
    match result {
        ResolutionStep::Resolved { result } => {
            let item = &result.resources[0];
            assert_eq!(item.kind, ResourceKind::Animation);
            assert_eq!(item.variants[0].container.as_deref(), Some("mp4"));
            assert!(item.preferred_url.ends_with("animation.mp4"));
        }
        other => panic!("expected resolved step, got {other:?}"),
    }
}

#[test]
fn public_unavailable_falls_back_to_managed_gateway() {
    let (session, _) = request(start(Some("https://gateway.example.invalid")));
    let next = accept_response(session, 200, PUBLIC_UNAVAILABLE, record(PUBLIC_UNAVAILABLE)).unwrap();
    let (session, request) = request(next);
    assert_eq!(request.route_key, "r1");
    assert_eq!(request.url, "https://gateway.example.invalid/v1/resources/2011590242474893548");
    let result = accept_response(session, 200, GATEWAY_BUNDLE, record(GATEWAY_BUNDLE)).unwrap();
    assert!(matches!(result, ResolutionStep::Resolved { .. }));
}

#[test]
fn managed_unavailable_falls_back_to_legacy_route() {
    let (session, _) = request(start(Some("https://gateway.example.invalid")));
    let next = accept_response(session, 200, PUBLIC_UNAVAILABLE, record(PUBLIC_UNAVAILABLE)).unwrap();
    let (session, managed) = request(next);
    assert_eq!(managed.route_key, "r1");
    let gateway_error = br#"{"error":{"code":"remote_unavailable"}}"#;
    let next = accept_response(session, 200, gateway_error, record(gateway_error)).unwrap();
    let (session, legacy) = request(next);
    assert_eq!(legacy.route_key, "r2");
    let result = accept_response(session, 200, EMBED_IMAGE, record(EMBED_IMAGE)).unwrap();
    assert!(matches!(result, ResolutionStep::Resolved { .. }));
}

#[test]
fn managed_restricted_is_terminal() {
    let (session, _) = request(start(Some("https://gateway.example.invalid")));
    let next = accept_response(session, 200, PUBLIC_UNAVAILABLE, record(PUBLIC_UNAVAILABLE)).unwrap();
    let (session, _) = request(next);
    let result = accept_response(session, 200, GATEWAY_RESTRICTED, record(GATEWAY_RESTRICTED)).unwrap();
    assert_eq!(failed_code(result), ResolveErrorCode::RemoteRestricted);
}

#[test]
fn malformed_routes_aggregate_to_invalid_response() {
    let (session, _) = request(start(None));
    let next = accept_response(session, 200, MALFORMED, record(MALFORMED)).unwrap();
    let (session, _) = request(next);
    let result = accept_response(session, 200, MALFORMED, record(MALFORMED)).unwrap();
    assert_eq!(failed_code(result), ResolveErrorCode::InvalidResponse);
}

#[test]
fn public_private_is_terminal_and_does_not_fallback() {
    let (session, _) = request(start(Some("https://gateway.example.invalid")));
    let result = accept_response(session, 200, PUBLIC_PRIVATE, record(PUBLIC_PRIVATE)).unwrap();
    assert_eq!(failed_code(result), ResolveErrorCode::RemoteRestricted);
}

#[test]
fn public_blocked_is_terminal_and_does_not_fallback() {
    let (session, _) = request(start(Some("https://gateway.example.invalid")));
    let result = accept_response(session, 200, PUBLIC_BLOCKED, record(PUBLIC_BLOCKED)).unwrap();
    assert_eq!(failed_code(result), ResolveErrorCode::RemoteRestricted);
}

#[test]
fn public_suspended_is_terminal_unavailable() {
    let (session, _) = request(start(Some("https://gateway.example.invalid")));
    let result = accept_response(session, 200, PUBLIC_SUSPENDED, record(PUBLIC_SUSPENDED)).unwrap();
    assert_eq!(failed_code(result), ResolveErrorCode::RemoteUnavailable);
}

#[test]
fn public_falls_back_to_typed_media_lists_when_all_is_empty() {
    let (session, _) = request(start(None));
    let result = accept_response(session, 200, PUBLIC_VIDEO_FALLBACK, record(PUBLIC_VIDEO_FALLBACK)).unwrap();
    match result {
        ResolutionStep::Resolved { result } => {
            assert_eq!(result.resources.len(), 1);
            assert_eq!(result.resources[0].kind, ResourceKind::Video);
            assert_eq!(result.resources[0].variants[0].container.as_deref(), Some("mp4"));
        }
        other => panic!("expected resolved step, got {other:?}"),
    }
}

#[test]
fn public_deleted_is_terminal_not_found() {
    let (session, _) = request(start(None));
    let result = accept_response(session, 200, PUBLIC_DELETED, record(PUBLIC_DELETED)).unwrap();
    assert_eq!(failed_code(result), ResolveErrorCode::RemoteNotFound);
}

#[test]
fn access_blocked_advances_to_next_route() {
    let (session, _) = request(start(None));
    let next = accept_transport_failure(session, TransportFailure::AccessBlocked).unwrap();
    let (_, request) = request(next);
    assert_eq!(request.route_key, "r1");
}

#[test]
fn exhausted_rate_limit_falls_back() {
    let (session, _) = request(start(None));
    let next = accept_response(session, 429, b"{}", record(b"{}")).unwrap();
    let (_, request) = request(next);
    assert_eq!(request.route_key, "r1");
}

#[test]
fn legacy_tombstone_is_unavailable_not_not_found() {
    let (session, _) = request(start(None));
    let next = accept_response(session, 200, PUBLIC_UNAVAILABLE, record(PUBLIC_UNAVAILABLE)).unwrap();
    let (session, _) = request(next);
    let result = accept_response(session, 200, EMBED_TOMBSTONE, record(EMBED_TOMBSTONE)).unwrap();
    assert_eq!(failed_code(result), ResolveErrorCode::RemoteUnavailable);
}

#[test]
fn all_not_found_aggregates_to_not_found() {
    let (session, _) = request(start(None));
    let next = accept_response(session, 404, b"{}", record(b"{}")).unwrap();
    let (session, _) = request(next);
    let result = accept_response(session, 404, b"{}", record(b"{}")).unwrap();
    assert_eq!(failed_code(result), ResolveErrorCode::RemoteNotFound);
}

#[test]
fn normal_document_without_media_wins_over_unavailable_fallback() {
    let (session, _) = request(start(None));
    let next = accept_response(session, 200, PUBLIC_NO_MEDIA, record(PUBLIC_NO_MEDIA)).unwrap();
    let (session, _) = request(next);
    let result = accept_response(session, 200, EMBED_TOMBSTONE, record(EMBED_TOMBSTONE)).unwrap();
    assert_eq!(failed_code(result), ResolveErrorCode::NoResources);
}

#[test]
fn legacy_video_is_still_supported_and_keeps_hls() {
    let (session, _) = request(start(None));
    let next = accept_response(session, 200, PUBLIC_UNAVAILABLE, record(PUBLIC_UNAVAILABLE)).unwrap();
    let (session, _) = request(next);
    let result = accept_response(session, 200, EMBED_VIDEO, record(EMBED_VIDEO)).unwrap();
    match result {
        ResolutionStep::Resolved { result } => {
            let item = &result.resources[0];
            assert!(item.variants.iter().any(|v| v.container.as_deref() == Some("m3u8")));
            assert_eq!(item.preferred_url, item.variants[0].url);
        }
        other => panic!("expected resolved step, got {other:?}"),
    }
}

#[test]
fn managed_gateway_allows_loopback_http_for_local_development() {
    let result =
        start_resolution(INPUT_CANONICAL.trim(), options(Some("http://127.0.0.1:8787")), TOKEN);
    assert!(result.is_ok());
}

#[test]
fn managed_gateway_requires_a_safe_https_endpoint() {
    let result = start_resolution(
        INPUT_CANONICAL.trim(),
        options(Some("http://gateway.example.invalid?target=anything")),
        TOKEN,
    );
    assert_eq!(result, Err(ResolveError::Internal));
}

#[test]
fn managed_gateway_rejects_mismatched_source_key() {
    let (session, _) = request(start(Some("https://gateway.example.invalid")));
    let next = accept_response(session, 200, PUBLIC_UNAVAILABLE, record(PUBLIC_UNAVAILABLE)).unwrap();
    let (session, _) = request(next);
    let body = br#"{
        "schemaVersion": 1,
        "sourceKey": "999",
        "resources": [{
            "id": "r",
            "kind": "image",
            "preferredUrl": "https://assets.invalid/a.jpg",
            "variants": []
        }]
    }"#;
    let next = accept_response(session, 200, body, record(body)).unwrap();
    let (_, request) = request(next);
    assert_eq!(request.route_key, "r2");
}
