//! The managed gateway route: an optional route to a gateway that the
//! caller configures, tried between the public and the embed routes.
use crate::adapter::{
    classify_http_status, spec_classify_status, AdapterOutcome, OutcomeView, RouteFailure,
};
use crate::error::ResolveError;
use crate::json::{json_parse, parse_json};
use crate::model::{
    get_request, items_view, new_get_request, BundleView, InputDescriptor, ItemView,
    PreparedRequest, RequestView, ResourceBundle,
};
use crate::normalize::{
    ensure_item_urls, item_urls_exposed, lemma_ensured_item_exposed, spec_ensure_item,
};
use crate::routes::{bundle_exposed, result_request};
use crate::schema::managed_v1::{
    decode_bundle, decode_envelope, spec_decode_bundle, spec_decode_envelope,
};
use crate::text::{chars_are, chars_of, join, same_chars, slice, string_of};
use crate::weburl::{parse_url, url_parse, UrlView};
use vstd::prelude::*;

verus! {

/// The hosts on which a gateway may be reached over plain `http`, for local
/// development.
pub open spec fn is_loopback_host(h: Seq<char>) -> bool {
    ||| h == "127.0.0.1"@
    ||| h == "localhost"@
    ||| h == "[::1]"@
}

/// A safe gateway address: `https` (or `http` on a loopback host), with a
/// host, and without credentials, query or fragment.
pub open spec fn endpoint_ok(u: UrlView) -> bool {
    &&& u.host is Some
    &&& (u.scheme == "https"@ || (u.scheme == "http"@ && is_loopback_host(u.host->0)))
    &&& u.username.len() == 0
    &&& u.password is None
    &&& u.query is None
    &&& u.fragment is None
}

/// `validate_endpoint`: an address that does not parse, or is not safe, is
/// a configuration error of the caller.
pub open spec fn spec_validate_endpoint(endpoint: Seq<char>) -> Result<(), ResolveError> {
    match url_parse(endpoint) {
        Some(u) => if endpoint_ok(u) {
            Ok(())
        } else {
            Err(ResolveError::Internal)
        },
        None => Err(ResolveError::Internal),
    }
}

pub fn validate_endpoint(endpoint: &str) -> (r: Result<(), ResolveError>)
    ensures
        r == spec_validate_endpoint(endpoint@),
{
    let u = match parse_url(endpoint) {
        Some(u) => u,
        None => {
            return Err(ResolveError::Internal);
        },
    };
    let host = match &u.host {
        Some(h) => chars_of(h.as_str()),
        None => {
            return Err(ResolveError::Internal);
        },
    };
    let scheme = chars_of(u.scheme.as_str());
    let loopback = chars_are(&host, "127.0.0.1") || chars_are(&host, "localhost") || chars_are(
        &host,
        "[::1]",
    );
    let scheme_ok = chars_are(&scheme, "https") || (chars_are(&scheme, "http") && loopback);
    if !scheme_ok || !u.username.as_str().is_empty() || u.password.is_some() || u.query.is_some()
        || u.fragment.is_some() {
        return Err(ResolveError::Internal);
    }
    Ok(())
}

/// The text without its trailing slashes (`trim_end_matches('/')`).
pub open spec fn trim_end_slashes(s: Seq<char>) -> Seq<char>
    decreases s.len(),
{
    if s.len() > 0 && s.last() == '/' {
        trim_end_slashes(s.drop_last())
    } else {
        s
    }
}

/// The address of a source's bundle on the gateway.
pub open spec fn managed_url(endpoint: Seq<char>, key: Seq<char>) -> Seq<char> {
    trim_end_slashes(endpoint) + "/v1/resources/"@ + key
}

pub open spec fn spec_managed_prepare(endpoint: Seq<char>, key: Seq<char>, route_key: Seq<char>) -> Result<
    RequestView,
    ResolveError,
> {
    match spec_validate_endpoint(endpoint) {
        Err(e) => Err(e),
        Ok(_) => Ok(get_request(route_key, managed_url(endpoint, key))),
    }
}

pub fn trim_end_slashes_chars(s: &Vec<char>) -> (r: Vec<char>)
    ensures
        r@ == trim_end_slashes(s@),
{
    let mut n = s.len();
    assert(s@.subrange(0, n as int) =~= s@);
    while n > 0 && s[n - 1] == '/'
        invariant
            n <= s@.len(),
            trim_end_slashes(s@) == trim_end_slashes(s@.subrange(0, n as int)),
        decreases n,
    {
        assert(s@.subrange(0, n as int).drop_last() =~= s@.subrange(0, n as int - 1));
        n = n - 1;
    }
    assert(s@.subrange(0, n as int).len() == 0 || s@.subrange(0, n as int).last() != '/');
    slice(s, 0, n)
}

/// `classify_error_code`: what a gateway's error code means for the
/// resolution.
pub open spec fn spec_classify_error_code(code: Seq<char>) -> OutcomeView {
    if code == "remote_restricted"@ {
        OutcomeView::Terminal(ResolveError::RemoteRestricted)
    } else if code == "remote_not_found"@ {
        OutcomeView::Fallback(RouteFailure::NotFound)
    } else if code == "no_resources"@ {
        OutcomeView::Fallback(RouteFailure::NoResources)
    } else if code == "rate_limited"@ {
        OutcomeView::Fallback(RouteFailure::RateLimited)
    } else if code == "remote_unavailable"@ {
        OutcomeView::Fallback(RouteFailure::Unavailable)
    } else if code == "network_unavailable"@ || code == "network_error"@ {
        OutcomeView::Fallback(RouteFailure::NetworkUnavailable)
    } else if code == "invalid_response"@ {
        OutcomeView::Fallback(RouteFailure::InvalidResponse)
    } else if code == "remote_rejected"@ {
        OutcomeView::Fallback(RouteFailure::Rejected)
    } else {
        OutcomeView::Fallback(RouteFailure::InvalidResponse)
    }
}

pub fn classify_error_code(code: &str) -> (r: AdapterOutcome)
    ensures
        r@ == spec_classify_error_code(code@),
{
    let c = chars_of(code);
    if chars_are(&c, "remote_restricted") {
        AdapterOutcome::Terminal(ResolveError::RemoteRestricted)
    } else if chars_are(&c, "remote_not_found") {
        AdapterOutcome::Fallback(RouteFailure::NotFound)
    } else if chars_are(&c, "no_resources") {
        AdapterOutcome::Fallback(RouteFailure::NoResources)
    } else if chars_are(&c, "rate_limited") {
        AdapterOutcome::Fallback(RouteFailure::RateLimited)
    } else if chars_are(&c, "remote_unavailable") {
        AdapterOutcome::Fallback(RouteFailure::Unavailable)
    } else if chars_are(&c, "network_unavailable") || chars_are(&c, "network_error") {
        AdapterOutcome::Fallback(RouteFailure::NetworkUnavailable)
    } else if chars_are(&c, "invalid_response") {
        AdapterOutcome::Fallback(RouteFailure::InvalidResponse)
    } else if chars_are(&c, "remote_rejected") {
        AdapterOutcome::Fallback(RouteFailure::Rejected)
    } else {
        AdapterOutcome::Fallback(RouteFailure::InvalidResponse)
    }
}

/// Whether every resource passes `ensure_item_urls`.
pub open spec fn all_ensured(items: Seq<ItemView>) -> bool {
    forall|k: int| 0 <= k < items.len() ==> spec_ensure_item(#[trigger] items[k]) is Ok
}

pub open spec fn ensured_items(items: Seq<ItemView>) -> Seq<ItemView> {
    items.map_values(|i: ItemView| spec_ensure_item(i)->Ok_0)
}

/// `process` of the managed route: an error envelope decides first,
/// whatever the status; then the status; then the bundle, which must be of
/// schema 1, for the requested key, non-empty, and with HTTPS addresses.
pub open spec fn spec_managed_process(key: Seq<char>, status: u16, body: Seq<u8>) -> OutcomeView {
    let parsed = json_parse(body);
    if parsed is Some && spec_decode_envelope(parsed->0) is Some {
        spec_classify_error_code(spec_decode_envelope(parsed->0)->0)
    } else {
        match spec_classify_status(status) {
            Some(f) => OutcomeView::Fallback(f),
            None => match parsed {
                None => OutcomeView::Fallback(RouteFailure::InvalidResponse),
                Some(t) => match spec_decode_bundle(t) {
                    None => OutcomeView::Fallback(RouteFailure::InvalidResponse),
                    Some(b) => if b.schema_version != 1 || b.source_key != key {
                        OutcomeView::Fallback(RouteFailure::InvalidResponse)
                    } else if b.resources.len() == 0 {
                        OutcomeView::Fallback(RouteFailure::NoResources)
                    } else if !all_ensured(b.resources) {
                        OutcomeView::Fallback(RouteFailure::InvalidResponse)
                    } else {
                        OutcomeView::Resolved(
                            BundleView {
                                schema_version: 1,
                                source_key: key,
                                resources: ensured_items(b.resources),
                            },
                        )
                    },
                },
            },
        }
    }
}

/// The managed gateway route, for one configured endpoint.
pub struct ManagedV1Adapter<'a> {
    pub endpoint: &'a str,
}

impl<'a> ManagedV1Adapter<'a> {
    pub fn new(endpoint: &'a str) -> (r: Self)
        ensures
            r.endpoint@ == endpoint@,
    {
        ManagedV1Adapter { endpoint }
    }

    pub fn prepare(&self, input: &InputDescriptor, route_key: &str) -> (r: Result<
        PreparedRequest,
        ResolveError,
    >)
        ensures
            result_request(r) == spec_managed_prepare(
                self.endpoint@,
                input.source_key@,
                route_key@,
            ),
    {
        if let Err(e) = validate_endpoint(self.endpoint) {
            return Err(e);
        }
        let base = trim_end_slashes_chars(&chars_of(self.endpoint));
        let with_path = join(&base, &chars_of("/v1/resources/"));
        let url = join(&with_path, &chars_of(input.source_key.as_str()));
        Ok(new_get_request(route_key.to_owned(), string_of(&url)))
    }

    pub fn process(&self, input: &InputDescriptor, status: u16, body: &[u8]) -> (r: AdapterOutcome)
        ensures
            r@ == spec_managed_process(input.source_key@, status, body@),
    {
        let parsed = parse_json(body);
        if let Some(value) = &parsed {
            if let Some(code) = decode_envelope(value) {
                return classify_error_code(code.as_str());
            }
        }
        if let Some(outcome) = classify_http_status(status) {
            return outcome;
        }
        let value = match parsed {
            Some(v) => v,
            None => {
                return AdapterOutcome::Fallback(RouteFailure::InvalidResponse);
            },
        };
        let bundle = match decode_bundle(&value) {
            Some(b) => b,
            None => {
                return AdapterOutcome::Fallback(RouteFailure::InvalidResponse);
            },
        };
        if bundle.schema_version != 1 || !same_chars(
            &chars_of(bundle.source_key.as_str()),
            &chars_of(input.source_key.as_str()),
        ) {
            return AdapterOutcome::Fallback(RouteFailure::InvalidResponse);
        }
        if bundle.resources.len() == 0 {
            return AdapterOutcome::Fallback(RouteFailure::NoResources);
        }
        let ghost original = items_view(bundle.resources@);
        let mut resources = bundle.resources;
        let n = resources.len();
        let ghost outcome = if all_ensured(original) {
            OutcomeView::Resolved(
                BundleView {
                    schema_version: 1,
                    source_key: input.source_key@,
                    resources: ensured_items(original),
                },
            )
        } else {
            OutcomeView::Fallback(RouteFailure::InvalidResponse)
        };
        assert(spec_managed_process(input.source_key@, status, body@) == outcome);
        let mut i: usize = 0;
        while i < n
            invariant
                spec_managed_process(input.source_key@, status, body@) == outcome,
                outcome == (if all_ensured(original) {
                    OutcomeView::Resolved(
                        BundleView {
                            schema_version: 1,
                            source_key: input.source_key@,
                            resources: ensured_items(original),
                        },
                    )
                } else {
                    OutcomeView::Fallback(RouteFailure::InvalidResponse)
                }),
                n == resources@.len(),
                original.len() == n,
                i <= n,
                forall|k: int| 0 <= k < i ==> spec_ensure_item(#[trigger] original[k]) is Ok,
                forall|k: int|
                    0 <= k < i ==> (#[trigger] resources@[k])@ == spec_ensure_item(
                        original[k],
                    )->Ok_0,
                forall|k: int| i <= k < n ==> (#[trigger] resources@[k])@ == original[k],
            decreases n - i,
        {
            let ghost before = resources@;
            assert(before[i as int]@ == original[i as int]);
            let ok = ensure_item_urls(&mut resources[i]).is_ok();
            if !ok {
                assert(spec_ensure_item(original[i as int]) is Err);
                assert(!all_ensured(original));
                return AdapterOutcome::Fallback(RouteFailure::InvalidResponse);
            }
            assert forall|k: int| 0 <= k < n && k != i implies resources@[k] == before[k] by {}
            i = i + 1;
        }
        assert(items_view(resources@) =~= ensured_items(original));
        AdapterOutcome::Resolved(
            ResourceBundle { schema_version: 1, source_key: input.source_key.clone(), resources },
        )
    }
}

/// Whatever the response, a bundle that the managed route resolves holds
/// only exposed addresses, for the requested key.
pub proof fn lemma_managed_resolved_exposed(key: Seq<char>, status: u16, body: Seq<u8>)
    ensures
        spec_managed_process(key, status, body) matches OutcomeView::Resolved(b) ==> bundle_exposed(
            b,
            key,
        ),
{
    broadcast use lemma_ensured_item_exposed;

    if let Some(t) = json_parse(body) {
        if let Some(b) = spec_decode_bundle(t) {
            if all_ensured(b.resources) {
                let items = ensured_items(b.resources);
                assert forall|k: int| 0 <= k < items.len() implies item_urls_exposed(
                    #[trigger] items[k],
                ) by {
                    assert(spec_ensure_item(b.resources[k]) is Ok);
                }
            }
        }
    }
}

/// A gateway's error envelope decides the route whatever the status, each
/// code by its own meaning: `remote_restricted` ends the resolution as
/// restricted; `remote_not_found`, `no_resources`, `rate_limited`,
/// `remote_unavailable`, `network_unavailable` and `network_error`,
/// `invalid_response` and `remote_rejected` fall back with the failure of
/// that name; any other code falls back as an invalid response.
pub proof fn lemma_gateway_error_codes(key: Seq<char>, status: u16, body: Seq<u8>, code: Seq<char>)
    requires
        json_parse(body) is Some,
        spec_decode_envelope(json_parse(body)->0) == Some(code),
    ensures
        code == "remote_restricted"@ ==> spec_managed_process(key, status, body)
            == OutcomeView::Terminal(ResolveError::RemoteRestricted),
        code == "remote_not_found"@ ==> spec_managed_process(key, status, body)
            == OutcomeView::Fallback(RouteFailure::NotFound),
        code == "no_resources"@ ==> spec_managed_process(key, status, body) == OutcomeView::Fallback(
            RouteFailure::NoResources,
        ),
        code == "rate_limited"@ ==> spec_managed_process(key, status, body) == OutcomeView::Fallback(
            RouteFailure::RateLimited,
        ),
        code == "remote_unavailable"@ ==> spec_managed_process(key, status, body)
            == OutcomeView::Fallback(RouteFailure::Unavailable),
        code == "network_unavailable"@ || code == "network_error"@ ==> spec_managed_process(
            key,
            status,
            body,
        ) == OutcomeView::Fallback(RouteFailure::NetworkUnavailable),
        code == "invalid_response"@ ==> spec_managed_process(key, status, body)
            == OutcomeView::Fallback(RouteFailure::InvalidResponse),
        code == "remote_rejected"@ ==> spec_managed_process(key, status, body)
            == OutcomeView::Fallback(RouteFailure::Rejected),
        code != "remote_restricted"@ && code != "remote_not_found"@ && code != "no_resources"@
            && code != "rate_limited"@ && code != "remote_unavailable"@ && code
            != "network_unavailable"@ && code != "network_error"@ && code != "invalid_response"@
            && code != "remote_rejected"@ ==> spec_managed_process(key, status, body)
            == OutcomeView::Fallback(RouteFailure::InvalidResponse),
{
    reveal_strlit("remote_restricted");
    reveal_strlit("remote_not_found");
    reveal_strlit("no_resources");
    reveal_strlit("rate_limited");
    reveal_strlit("remote_unavailable");
    reveal_strlit("network_unavailable");
    reveal_strlit("network_error");
    reveal_strlit("invalid_response");
    reveal_strlit("remote_rejected");
    assert("remote_restricted"@.len() != "remote_not_found"@.len());
    assert("remote_restricted"@.len() != "no_resources"@.len());
    assert("remote_restricted"@.len() != "rate_limited"@.len());
    assert("remote_restricted"@.len() != "remote_unavailable"@.len());
    assert("remote_restricted"@.len() != "network_unavailable"@.len());
    assert("remote_restricted"@.len() != "network_error"@.len());
    assert("remote_restricted"@.len() != "invalid_response"@.len());
    assert("remote_restricted"@.len() != "remote_rejected"@.len());
    assert("remote_not_found"@.len() != "no_resources"@.len());
    assert("remote_not_found"@.len() != "rate_limited"@.len());
    assert("remote_not_found"@.len() != "remote_unavailable"@.len());
    assert("remote_not_found"@.len() != "network_unavailable"@.len());
    assert("remote_not_found"@.len() != "network_error"@.len());
    assert("remote_not_found"@[0] != "invalid_response"@[0]);
    assert("remote_not_found"@.len() != "remote_rejected"@.len());
    assert("no_resources"@[0] != "rate_limited"@[0]);
    assert("no_resources"@.len() != "remote_unavailable"@.len());
    assert("no_resources"@.len() != "network_unavailable"@.len());
    assert("no_resources"@.len() != "network_error"@.len());
    assert("no_resources"@.len() != "invalid_response"@.len());
    assert("no_resources"@.len() != "remote_rejected"@.len());
    assert("rate_limited"@.len() != "remote_unavailable"@.len());
    assert("rate_limited"@.len() != "network_unavailable"@.len());
    assert("rate_limited"@.len() != "network_error"@.len());
    assert("rate_limited"@.len() != "invalid_response"@.len());
    assert("rate_limited"@.len() != "remote_rejected"@.len());
    assert("remote_unavailable"@.len() != "network_unavailable"@.len());
    assert("remote_unavailable"@.len() != "network_error"@.len());
    assert("remote_unavailable"@.len() != "invalid_response"@.len());
    assert("remote_unavailable"@.len() != "remote_rejected"@.len());
    assert("network_unavailable"@.len() != "network_error"@.len());
    assert("network_unavailable"@.len() != "invalid_response"@.len());
    assert("network_unavailable"@.len() != "remote_rejected"@.len());
    assert("network_error"@.len() != "invalid_response"@.len());
    assert("network_error"@.len() != "remote_rejected"@.len());
    assert("invalid_response"@.len() != "remote_rejected"@.len());
}

} // verus!
