use media_resolver_core::adapter::{classify_http_status, AdapterOutcome, RouteFailure};
use media_resolver_core::duration::duration_ms_from_seconds;
use media_resolver_core::normalize::{
    container_from_url, ensure_item_urls, image_mime_type, mime_for_container, preferred_variant,
    require_https, sort_variants,
};
use media_resolver_core::routes::embed_v1::{container_from_mime_type, EmbedV1Adapter};
use media_resolver_core::routes::managed_v1::{validate_endpoint, ManagedV1Adapter};
use media_resolver_core::routes::public_v2::PublicV2Adapter;
use media_resolver_core::{InputDescriptor, ResolveError, ResourceVariant};
use media_resolver_core::{JsonValue, PublicResponse};

/// The body read as the public route's response record, for bodies whose
/// top level is an object: `code` as a `u16`, `status` as a document, a
/// null member counting as absent.
fn record(body: &[u8]) -> Option<PublicResponse> {
    let value: serde_json::Value = serde_json::from_slice(body).ok()?;
    let fields = value.as_object()?;
    let code = match fields.get("code") {
        None | Some(serde_json::Value::Null) => None,
        Some(c) => Some(u16::try_from(c.as_u64()?).ok()?),
    };
    let status = match fields.get("status") {
        None | Some(serde_json::Value::Null) => None,
        Some(v) => Some(json_value(v.clone())),
    };
    Some(PublicResponse { code, status })
}

fn json_value(value: serde_json::Value) -> JsonValue {
    match value {
        serde_json::Value::Null => JsonValue::Null,
        serde_json::Value::Bool(b) => JsonValue::Bool(b),
        serde_json::Value::Number(n) => JsonValue::Number(n.to_string(), n.as_f64().map(f64::to_bits)),
        serde_json::Value::String(s) => JsonValue::Str(s),
        serde_json::Value::Array(items) => JsonValue::Array(items.into_iter().map(json_value).collect()),
        serde_json::Value::Object(entries) => {
            JsonValue::Object(entries.into_iter().map(|(k, v)| (k, json_value(v))).collect())
        }
    }
}

fn descriptor(key: &str) -> InputDescriptor {
    InputDescriptor {
        source_key: key.to_owned(),
        normalized_input: format!("https://x.com/i/status/{key}"),
    }
}

fn fallback(o: AdapterOutcome) -> RouteFailure {
    match o {
        AdapterOutcome::Fallback(f) => f,
        other => panic!("expected fallback, got {other:?}"),
    }
}

#[test]
fn statuses_are_classified_before_bodies() {
    assert!(classify_http_status(200).is_none());
    assert!(classify_http_status(299).is_none());
    assert_eq!(fallback(classify_http_status(404).unwrap()), RouteFailure::NotFound);
    assert_eq!(fallback(classify_http_status(429).unwrap()), RouteFailure::RateLimited);
    assert_eq!(fallback(classify_http_status(410).unwrap()), RouteFailure::Rejected);
    assert_eq!(fallback(classify_http_status(500).unwrap()), RouteFailure::Unavailable);
    assert_eq!(fallback(classify_http_status(302).unwrap()), RouteFailure::Rejected);
    assert_eq!(fallback(classify_http_status(100).unwrap()), RouteFailure::Rejected);
}

#[test]
fn public_request_pushes_the_key_as_a_segment() {
    let request = PublicV2Adapter.prepare(&descriptor("20"), "r0").unwrap();
    assert_eq!(request.url, "https://api.fxtwitter.com/2/status/20");
    assert_eq!(request.route_key, "r0");
    assert!(request.headers.is_empty());
    assert_eq!(request.retry_policy.max_attempts, 2);
    assert_eq!(request.retry_policy.retry_delay_ms, 500);
}

#[test]
fn public_codes_in_the_body_are_classified() {
    let d = descriptor("20");
    let body = br#"{"code":404,"message":"NOT_FOUND"}"#;
    assert_eq!(fallback(PublicV2Adapter.process(&d, 200, &record(body))), RouteFailure::NotFound);
    let no_status = br#"{"code":200}"#;
    assert_eq!(fallback(PublicV2Adapter.process(&d, 200, &record(no_status))), RouteFailure::InvalidResponse);
    let odd = br#"{"status":{"type":"poll"}}"#;
    assert_eq!(fallback(PublicV2Adapter.process(&d, 200, &record(odd))), RouteFailure::InvalidResponse);
}

#[test]
fn public_records_decide_in_order() {
    let d = descriptor("20");
    assert_eq!(fallback(PublicV2Adapter.process(&d, 200, &None)), RouteFailure::InvalidResponse);
    assert_eq!(fallback(PublicV2Adapter.process(&d, 503, &None)), RouteFailure::Unavailable);
    let coded = Some(PublicResponse { code: Some(429), status: Some(JsonValue::Null) });
    assert_eq!(fallback(PublicV2Adapter.process(&d, 200, &coded)), RouteFailure::RateLimited);
    let empty = Some(PublicResponse { code: Some(200), status: None });
    assert_eq!(fallback(PublicV2Adapter.process(&d, 200, &empty)), RouteFailure::InvalidResponse);
    let tombstone = Some(PublicResponse {
        code: None,
        status: Some(JsonValue::Object(vec![
            ("type".to_owned(), JsonValue::Str("tombstone".to_owned())),
            ("reason".to_owned(), JsonValue::Str("deleted".to_owned())),
        ])),
    });
    assert!(matches!(PublicV2Adapter.process(&d, 200, &tombstone), AdapterOutcome::Terminal(_)));
}

#[test]
fn public_quotes_are_followed_two_levels() {
    let d = descriptor("20");
    let photo = r#"{"media":{"all":[{"type":"photo","url":"https://pbs.twimg.com/media/q.png","width":2,"height":3}]},"type":"status"}"#;
    let one = format!(r#"{{"status":{{"type":"status","quote":{photo}}}}}"#);
    match PublicV2Adapter.process(&d, 200, &record(one.as_bytes())) {
        AdapterOutcome::Resolved(b) => {
            assert_eq!(b.resources[0].id, "20:1");
            assert_eq!(b.resources[0].preferred_url, "https://pbs.twimg.com/media/q?format=png&name=orig");
            assert_eq!(b.resources[0].variants[0].mime_type.as_deref(), Some("image/png"));
        }
        other => panic!("expected resolved, got {other:?}"),
    }
    let three = format!(
        r#"{{"status":{{"type":"status","quote":{{"type":"status","quote":{{"type":"status","quote":{photo}}}}}}}}}"#
    );
    assert_eq!(fallback(PublicV2Adapter.process(&d, 200, &record(three.as_bytes()))), RouteFailure::NoResources);
}

#[test]
fn gateway_requests_use_the_trimmed_endpoint() {
    let adapter = ManagedV1Adapter::new("https://gw.example.invalid/base//");
    let request = adapter.prepare(&descriptor("77"), "r1").unwrap();
    assert_eq!(request.url, "https://gw.example.invalid/base/v1/resources/77");
    assert_eq!(validate_endpoint("https://gw.example.invalid?x=1"), Err(ResolveError::Internal));
    assert_eq!(validate_endpoint("https://:pw@gw.example.invalid"), Err(ResolveError::Internal));
    assert_eq!(validate_endpoint("https://gw.example.invalid"), Ok(()));
    assert_eq!(ManagedV1Adapter::new("ftp://gw").prepare(&descriptor("77"), "r1"), Err(ResolveError::Internal));
}

#[test]
fn gateway_errors_and_bundles_are_read() {
    let d = descriptor("77");
    let g = ManagedV1Adapter::new("https://gw.example.invalid");
    let code = |c: &str| fallback(g.process(&d, 200, format!(r#"{{"error":{{"code":"{c}"}}}}"#).as_bytes()));
    assert_eq!(code("remote_not_found"), RouteFailure::NotFound);
    assert_eq!(code("no_resources"), RouteFailure::NoResources);
    assert_eq!(code("rate_limited"), RouteFailure::RateLimited);
    assert_eq!(code("network_error"), RouteFailure::NetworkUnavailable);
    assert_eq!(code("network_unavailable"), RouteFailure::NetworkUnavailable);
    assert_eq!(code("remote_rejected"), RouteFailure::Rejected);
    assert_eq!(code("invalid_response"), RouteFailure::InvalidResponse);
    assert_eq!(code("something_else"), RouteFailure::InvalidResponse);
    assert_eq!(fallback(g.process(&d, 500, br#"{"error":{"code":"rate_limited"}}"#)), RouteFailure::RateLimited);
    assert_eq!(fallback(g.process(&d, 500, b"{}")), RouteFailure::Unavailable);
    let empty = br#"{"schemaVersion":1,"sourceKey":"77","resources":[]}"#;
    assert_eq!(fallback(g.process(&d, 200, empty)), RouteFailure::NoResources);
    let wrong_schema = br#"{"schemaVersion":2,"sourceKey":"77","resources":[]}"#;
    assert_eq!(fallback(g.process(&d, 200, wrong_schema)), RouteFailure::InvalidResponse);
    let http = br#"{"schemaVersion":1,"sourceKey":"77","resources":[{"id":"a","kind":"video","preferredUrl":"http://a.invalid/v.mp4","variants":[]}]}"#;
    assert_eq!(fallback(g.process(&d, 200, http)), RouteFailure::InvalidResponse);
    let tagged = br#"{"schemaVersion":1,"sourceKey":"77","resources":[{"id":"a","kind":{"animation":null},"preferredUrl":"https://a.invalid/v.mp4","variants":[]}]}"#;
    match g.process(&d, 200, tagged) {
        AdapterOutcome::Resolved(b) => assert_eq!(b.resources[0].kind, media_resolver_core::ResourceKind::Animation),
        other => panic!("expected resolved, got {other:?}"),
    }
    match g.process(&d, 200, br#"{"error":{"code":"remote_restricted"}}"#) {
        AdapterOutcome::Terminal(e) => assert_eq!(e, ResolveError::RemoteRestricted),
        other => panic!("expected terminal, got {other:?}"),
    }
}

#[test]
fn embed_documents_are_read() {
    let d = descriptor("20");
    assert_eq!(fallback(EmbedV1Adapter.process(&d, 200, b"{}")), RouteFailure::NotFound);
    assert_eq!(fallback(EmbedV1Adapter.process(&d, 200, b"[]")), RouteFailure::InvalidResponse);
    let quoted = br#"{"mediaDetails":[],"quoted_tweet":{"mediaDetails":[
        {"type":"animated_gif","media_url_https":"https://pbs.twimg.com/t.jpg",
         "video_info":{"variants":[{"url":"https://video.twimg.com/g/a.mp4"}]}}]}}"#;
    match EmbedV1Adapter.process(&d, 200, quoted) {
        AdapterOutcome::Resolved(b) => {
            let item = &b.resources[0];
            assert_eq!(item.kind, media_resolver_core::ResourceKind::Animation);
            assert_eq!(item.variants[0].container.as_deref(), Some("mp4"));
            assert_eq!(item.variants[0].mime_type.as_deref(), Some("video/mp4"));
            assert_eq!(item.preview_url.as_deref(), Some("https://pbs.twimg.com/t.jpg"));
        }
        other => panic!("expected resolved, got {other:?}"),
    }
    assert!(EmbedV1Adapter.prepare(&descriptor("1"), "r1", "t").is_err());
}

#[test]
fn containers_and_mime_types() {
    assert_eq!(container_from_url("https://v.example/a/B.MP4?x=1"), Some("mp4".to_owned()));
    assert_eq!(container_from_url("https://v.example/a/b.m3u8"), Some("m3u8".to_owned()));
    assert_eq!(container_from_url("https://v.example/a/b.mov"), None);
    assert_eq!(mime_for_container(&Some("webm".to_owned())), Some("video/webm".to_owned()));
    assert_eq!(mime_for_container(&Some("m3u8".to_owned())), Some("application/x-mpegURL".to_owned()));
    assert_eq!(container_from_mime_type("Application/VND.Apple.MpegURL"), Some("m3u8".to_owned()));
    assert_eq!(container_from_mime_type("video/WEBM"), Some("webm".to_owned()));
    assert_eq!(container_from_mime_type("text/plain"), None);
    assert_eq!(image_mime_type("https://pbs.twimg.com/media/a.JPEG"), Some("image/jpeg".to_owned()));
    assert_eq!(image_mime_type("https://pbs.twimg.com/media/a.gif"), None);
}

#[test]
fn addresses_are_exposed_in_serialised_form() {
    assert_eq!(require_https("HTTPS://Example.COM/a b"), Ok("https://example.com/a%20b".to_owned()));
    assert_eq!(require_https("http://example.com/"), Err(ResolveError::InvalidResponse));
    assert_eq!(require_https("no"), Err(ResolveError::InvalidResponse));
}

fn variant(url: &str, bitrate: Option<u64>, width: Option<u32>, mime: Option<&str>) -> ResourceVariant {
    ResourceVariant {
        url: url.to_owned(),
        mime_type: mime.map(str::to_owned),
        container: None,
        codec: None,
        bitrate,
        size_bytes: None,
        width,
        height: None,
    }
}

#[test]
fn variants_sort_by_bitrate_then_size_and_keep_ties_in_order() {
    let mut v = vec![
        variant("a", None, Some(100), None),
        variant("b", Some(5), None, None),
        variant("c", Some(5), Some(10), None),
        variant("d", Some(9), None, None),
        variant("e", None, Some(100), None),
    ];
    sort_variants(&mut v);
    let order: Vec<&str> = v.iter().map(|x| x.url.as_str()).collect();
    assert_eq!(order, vec!["d", "c", "b", "a", "e"]);
    assert_eq!(preferred_variant(&v), Some(0));
    let mut w = vec![variant("x", Some(9), None, None), variant("y", Some(1), None, Some("VIDEO/MP4"))];
    sort_variants(&mut w);
    assert_eq!(preferred_variant(&w), Some(1));
    assert_eq!(preferred_variant(&Vec::new()), None);
}

fn float_ms(seconds: f64) -> Option<u64> {
    if !seconds.is_finite() || seconds < 0.0 {
        return None;
    }
    Some((seconds * 1_000.0).round() as u64)
}

#[test]
fn durations_round_as_the_double_product_does() {
    let ms = |x: f64| duration_ms_from_seconds(x.to_bits());
    assert_eq!(ms(4.0005), Some(4000));
    assert_eq!(ms(12.345), Some(12345));
    assert_eq!(ms(2.0), Some(2000));
    assert_eq!(ms(0.0004), Some(0));
    assert_eq!(ms(0.0005), Some(1));
    assert_eq!(ms(-0.0), Some(0));
    assert_eq!(ms(-1.0), None);
    assert_eq!(ms(f64::INFINITY), None);
    assert_eq!(ms(f64::NAN), None);
    assert_eq!(ms(1e300), Some(u64::MAX));
    assert_eq!(ms(f64::MAX), Some(u64::MAX));
    assert_eq!(ms(5e-324), Some(0));
    for &x in &[
        0.001, 0.0015, 0.0025, 1.0005, 1.2345, 9.9995, 59.9995, 123.4565, 1e-3, 4503.5995,
        1.8446744073709552e16, 1.8446744073709550e16, 9007199254740.993, 3.5e-7, 2.5e-4,
        0.49999999999999994, 1e15, 123456789.0125,
    ] {
        assert_eq!(ms(x), float_ms(x), "{x}");
    }
    let mut bits: u64 = 0x3ff0_0000_0000_0000;
    for _ in 0..20000 {
        bits = bits.wrapping_mul(6364136223846793005).wrapping_add(1442695040888963407);
        let x = f64::from_bits(bits);
        assert_eq!(ms(x), float_ms(x), "{x}");
        let y = f64::from_bits((bits % 0x4340_0000_0000_0000) & 0x7fff_ffff_ffff_ffff);
        assert_eq!(ms(y), float_ms(y), "{y}");
    }
}

#[test]
fn failing_addresses_leave_earlier_ones_normalised() {
    let mut item = media_resolver_core::ResourceItem {
        id: "a".to_owned(),
        kind: media_resolver_core::ResourceKind::Video,
        preferred_url: "HTTPS://A.example/p".to_owned(),
        preview_url: None,
        width: Some(1),
        height: None,
        duration_ms: Some(5),
        variants: vec![
            variant("HTTPS://A.example/1", Some(1), None, None),
            variant("http://a.example/2", Some(2), None, None),
            variant("HTTPS://A.example/3", Some(3), None, None),
        ],
    };
    assert_eq!(ensure_item_urls(&mut item), Err(ResolveError::InvalidResponse));
    assert_eq!(item.preferred_url, "https://a.example/p");
    assert_eq!(item.variants.len(), 3);
    assert_eq!(item.variants[0].url, "https://a.example/1");
    assert_eq!(item.variants[1].url, "http://a.example/2");
    assert_eq!(item.variants[2].url, "HTTPS://A.example/3");
    assert_eq!(item.variants[2].bitrate, Some(3));
    assert_eq!(item.duration_ms, Some(5));
}
