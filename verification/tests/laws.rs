use media_resolver_core::adapter::RouteFailure;
use media_resolver_core::registry::{build_routes, RouteDescriptor};
use media_resolver_core::{
    accept_response, accept_transport_failure, start_resolution, PreparedRequest,
    ResolutionOptions, ResolutionSession, ResolutionStep, ResolveError, ResolveErrorCode,
    RuntimeProfile, TransportFailure,
};
use media_resolver_core::{JsonValue, PublicResponse};

/// The body read as the public route's response record, for bodies whose
/// top level is an object: `code` as a `u16`, `status` as a document, a
/// null member counting as absent.
fn record(body: &[u8]) -> Option<PublicResponse> {
    let value: serde_json::Value = serde_json::from_slice(body).ok()?;
    let fields = value.as_object()?;
    let code = match fields.get("code") {
        None | Some(serde_json::Value::Null) => None,
        Some(c) => Some(u16::try_from(c.as_u64()?).ok()?),
    };
    let status = match fields.get("status") {
        None | Some(serde_json::Value::Null) => None,
        Some(v) => Some(json_value(v.clone())),
    };
    Some(PublicResponse { code, status })
}

fn json_value(value: serde_json::Value) -> JsonValue {
    match value {
        serde_json::Value::Null => JsonValue::Null,
        serde_json::Value::Bool(b) => JsonValue::Bool(b),
        serde_json::Value::Number(n) => JsonValue::Number(n.to_string(), n.as_f64().map(f64::to_bits)),
        serde_json::Value::String(s) => JsonValue::Str(s),
        serde_json::Value::Array(items) => JsonValue::Array(items.into_iter().map(json_value).collect()),
        serde_json::Value::Object(entries) => {
            JsonValue::Object(entries.into_iter().map(|(k, v)| (k, json_value(v))).collect())
        }
    }
}

const INPUT: &str = "https://x.com/example/status/2011590242474893548";
const TOKEN: &str = "4vjlhvle61f";

fn options(gateway: Option<&str>) -> ResolutionOptions {
    ResolutionOptions { profile: RuntimeProfile::Native, gateway_endpoint: gateway.map(str::to_owned) }
}

fn request(step: ResolutionStep) -> (ResolutionSession, PreparedRequest) {
    match step {
        ResolutionStep::Request { session, request, .. } => (session, *request),
        other => panic!("expected request step, got {other:?}"),
    }
}

#[test]
fn routes_are_public_then_gateway_then_embed() {
    let plain = build_routes(&None).unwrap();
    assert_eq!(
        plain,
        vec![
            RouteDescriptor::PublicV2 { route_key: "r0".to_owned() },
            RouteDescriptor::EmbedV1 { route_key: "r1".to_owned() },
        ]
    );
    let blank = build_routes(&Some("   ".to_owned())).unwrap();
    assert_eq!(blank, plain);
    let with_gateway = build_routes(&Some(" https://gw.example.invalid/ ".to_owned())).unwrap();
    assert_eq!(
        with_gateway,
        vec![
            RouteDescriptor::PublicV2 { route_key: "r0".to_owned() },
            RouteDescriptor::ManagedV1 {
                route_key: "r1".to_owned(),
                endpoint: "https://gw.example.invalid/".to_owned(),
            },
            RouteDescriptor::EmbedV1 { route_key: "r2".to_owned() },
        ]
    );
    assert_eq!(build_routes(&Some("https://user@gw.example.invalid".to_owned())), Err(ResolveError::Internal));
    assert_eq!(build_routes(&Some("https://gw.example.invalid/#top".to_owned())), Err(ResolveError::Internal));
    assert_eq!(build_routes(&Some("not an address".to_owned())), Err(ResolveError::Internal));
    assert!(build_routes(&Some("http://localhost:8080".to_owned())).is_ok());
    assert!(build_routes(&Some("http://[::1]:8080".to_owned())).is_ok());
}

#[test]
fn each_step_moves_one_route_further_and_records_the_failure() {
    let (session, first) = request(start_resolution(INPUT, options(Some("https://gw.example.invalid")), TOKEN).unwrap());
    assert_eq!(session.route_index, 0);
    assert!(session.failures.is_empty());
    assert_eq!(first.route_key, "r0");
    let (next, second) = request(accept_response(session.clone(), 429, b"", record(b"")).unwrap());
    assert_eq!(next.route_index, 1);
    assert_eq!(next.failures, vec![RouteFailure::RateLimited]);
    assert_eq!(next.descriptor, session.descriptor);
    assert_eq!(next.routes, session.routes);
    assert_eq!(next.embed_token, TOKEN);
    assert_eq!(second.route_key, "r1");
    let (last, third) = request(accept_transport_failure(next, TransportFailure::Timeout).unwrap());
    assert_eq!(last.failures, vec![RouteFailure::RateLimited, RouteFailure::NetworkUnavailable]);
    assert_eq!(third.route_key, "r2");
    assert!(third.url.starts_with("https://cdn.syndication.twimg.com/tweet-result?id=2011590242474893548&lang=en&features=tfw_timeline_list%3A%3Btfw_follower_count_sunset%3Atrue"));
    assert!(third.url.ends_with("&token=4vjlhvle61f"));
    match accept_response(last, 503, b"", record(b"")).unwrap() {
        ResolutionStep::Failed { error } => {
            assert_eq!(error.code, ResolveErrorCode::RateLimited);
            assert_eq!(error.message, "too many requests");
        }
        other => panic!("expected failed step, got {other:?}"),
    }
}

#[test]
fn transport_failures_are_all_alike() {
    let (session, _) = request(start_resolution(INPUT, options(None), TOKEN).unwrap());
    let a = accept_transport_failure(session.clone(), TransportFailure::Network).unwrap();
    let b = accept_transport_failure(session.clone(), TransportFailure::AccessBlocked).unwrap();
    let c = accept_transport_failure(session, TransportFailure::Timeout).unwrap();
    assert_eq!(a, b);
    assert_eq!(b, c);
}

#[test]
fn final_error_follows_the_most_telling_failure() {
    for (first, second, code) in [
        (429u16, 404u16, ResolveErrorCode::RemoteNotFound),
        (404, 429, ResolveErrorCode::RemoteNotFound),
        (403, 503, ResolveErrorCode::RemoteRejected),
        (503, 503, ResolveErrorCode::RemoteUnavailable),
        (429, 403, ResolveErrorCode::RateLimited),
    ] {
        let (session, _) = request(start_resolution(INPUT, options(None), TOKEN).unwrap());
        let (session, _) = request(accept_response(session, first, b"", record(b"")).unwrap());
        match accept_response(session, second, b"", record(b"")).unwrap() {
            ResolutionStep::Failed { error } => assert_eq!(error.code, code),
            other => panic!("expected failed step, got {other:?}"),
        }
    }
    let (session, _) = request(start_resolution(INPUT, options(None), TOKEN).unwrap());
    let (session, _) = request(accept_transport_failure(session, TransportFailure::Network).unwrap());
    match accept_transport_failure(session, TransportFailure::Network).unwrap() {
        ResolutionStep::Failed { error } => {
            assert_eq!(error.code, ResolveErrorCode::NetworkUnavailable);
            assert_eq!(error.message, "the network is unavailable");
        }
        other => panic!("expected failed step, got {other:?}"),
    }
}

#[test]
fn resolved_addresses_are_https_only() {
    let (session, _) = request(start_resolution(INPUT, options(None), TOKEN).unwrap());
    let plain_http = br#"{"code":200,"status":{"type":"status","media":{"all":[
        {"type":"photo","url":"http://pbs.twimg.com/media/a.jpg","width":1,"height":1}]}}}"#;
    let (_, next) = request(accept_response(session, 200, plain_http, record(plain_http)).unwrap());
    assert_eq!(next.route_key, "r1");

    let (session, _) = request(start_resolution(INPUT, options(None), TOKEN).unwrap());
    let mixed = br#"{"code":200,"status":{"type":"status","media":{"all":[
        {"type":"video","url":"https://video.twimg.com/a/1280x720/v.mp4","width":1280,"height":720,
         "thumbnail_url":"https://pbs.twimg.com/t.jpg","formats":[
           {"container":"mp4","bitrate":5,"url":"HTTPS://VIDEO.twimg.com/a/1280x720/v.mp4"}]}]}}}"#;
    match accept_response(session, 200, mixed, record(mixed)).unwrap() {
        ResolutionStep::Resolved { result } => {
            assert_eq!(result.schema_version, 1);
            assert_eq!(result.source_key, "2011590242474893548");
            for item in &result.resources {
                assert!(item.preferred_url.starts_with("https://"));
                for variant in &item.variants {
                    assert!(variant.url.starts_with("https://"));
                }
            }
            assert_eq!(result.resources[0].variants[0].url, "https://video.twimg.com/a/1280x720/v.mp4");
        }
        other => panic!("expected resolved step, got {other:?}"),
    }
}

#[test]
fn a_finished_session_cannot_take_more_steps() {
    let (mut session, _) = request(start_resolution(INPUT, options(None), TOKEN).unwrap());
    session.route_index = 2;
    assert_eq!(accept_response(session.clone(), 200, b"{}", record(b"{}")), Err(ResolveError::Internal));
    assert_eq!(accept_transport_failure(session, TransportFailure::Network), Err(ResolveError::Internal));
}

#[test]
fn error_codes_are_distinct_names() {
    let errors = [
        ResolveError::InvalidInput,
        ResolveError::UnsupportedInput,
        ResolveError::RemoteNotFound,
        ResolveError::RemoteRestricted,
        ResolveError::RemoteUnavailable,
        ResolveError::NetworkUnavailable,
        ResolveError::RemoteRejected,
        ResolveError::RateLimited,
        ResolveError::InvalidResponse,
        ResolveError::NoResources,
        ResolveError::Internal,
    ];
    let names: Vec<&str> = errors.iter().map(|e| e.code().as_str()).collect();
    for (i, a) in names.iter().enumerate() {
        for b in &names[i + 1..] {
            assert_ne!(a, b);
        }
    }
    assert_eq!(ResolveError::RemoteRestricted.code(), ResolveErrorCode::RemoteRestricted);
    assert_eq!(ResolveErrorCode::NoResources.as_str(), "no_resources");
    assert_eq!(ResolveError::InvalidResponse.message(), "the remote source returned an unexpected response");
}
