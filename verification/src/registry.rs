//! The routes of a resolution, in the order they are tried, and the
//! dispatch of requests and responses to them.
use crate::adapter::{AdapterOutcome, OutcomeView, RouteFailure};
use crate::error::ResolveError;
use crate::model::{InputDescriptor, PreparedRequest, RequestView};
use crate::routes::embed_v1::{spec_embed_prepare, spec_embed_process, EmbedV1Adapter};
use crate::routes::managed_v1::{
    spec_managed_prepare, spec_managed_process, spec_validate_endpoint, validate_endpoint,
    ManagedV1Adapter,
};
use crate::routes::result_request;
use crate::routes::public_v2::{spec_public_prepare, spec_public_process, PublicV2Adapter};
use crate::schema::public_v2::{opt_response, PublicResponse, ResponseView};
use crate::text::{chars_of, decimal, decimal_chars, join, string_of, trim, trim_chars};
use vstd::prelude::*;

verus! {

/// One route of a resolution.
#[derive(Debug, Clone, PartialEq, Eq)]
pub enum RouteDescriptor {
    PublicV2 { route_key: String },
    ManagedV1 { route_key: String, endpoint: String },
    EmbedV1 { route_key: String },
}

pub enum RouteView {
    PublicV2 { route_key: Seq<char> },
    ManagedV1 { route_key: Seq<char>, endpoint: Seq<char> },
    EmbedV1 { route_key: Seq<char> },
}

impl View for RouteDescriptor {
    type V = RouteView;

    open spec fn view(&self) -> RouteView {
        match self {
            RouteDescriptor::PublicV2 { route_key } => RouteView::PublicV2 { route_key: route_key@ },
            RouteDescriptor::ManagedV1 { route_key, endpoint } => RouteView::ManagedV1 {
                route_key: route_key@,
                endpoint: endpoint@,
            },
            RouteDescriptor::EmbedV1 { route_key } => RouteView::EmbedV1 { route_key: route_key@ },
        }
    }
}

pub open spec fn routes_view(routes: Seq<RouteDescriptor>) -> Seq<RouteView> {
    routes.map_values(|r: RouteDescriptor| r@)
}

/// The key of the route at `index`: `r` and the index in decimal.
pub open spec fn route_key_of(index: nat) -> Seq<char> {
    "r"@ + decimal(index)
}

pub open spec fn key_of_route(r: RouteView) -> Seq<char> {
    match r {
        RouteView::PublicV2 { route_key } => route_key,
        RouteView::ManagedV1 { route_key, .. } => route_key,
        RouteView::EmbedV1 { route_key } => route_key,
    }
}

/// The configured gateway: the trimmed address, when it is not empty.
pub open spec fn gateway_of(gateway: Option<Seq<char>>) -> Option<Seq<char>> {
    match gateway {
        Some(g) => if trim(g).len() > 0 {
            Some(trim(g))
        } else {
            None
        },
        None => None,
    }
}

/// `build_routes`: the public route first, the managed route when a gateway
/// is configured (and safe), the embed route last; each keyed by its
/// position.
pub open spec fn spec_build_routes(gateway: Option<Seq<char>>) -> Result<
    Seq<RouteView>,
    ResolveError,
> {
    match gateway_of(gateway) {
        None => Ok(
            seq![
                RouteView::PublicV2 { route_key: route_key_of(0) },
                RouteView::EmbedV1 { route_key: route_key_of(1) },
            ],
        ),
        Some(e) => match spec_validate_endpoint(e) {
            Err(x) => Err(x),
            Ok(_) => Ok(
                seq![
                    RouteView::PublicV2 { route_key: route_key_of(0) },
                    RouteView::ManagedV1 { route_key: route_key_of(1), endpoint: e },
                    RouteView::EmbedV1 { route_key: route_key_of(2) },
                ],
            ),
        },
    }
}

/// A list of routes as `build_routes` makes them: the public route first,
/// the embed route last, at most one validated gateway between them, and
/// each route keyed by its position.
pub open spec fn routes_wf(routes: Seq<RouteView>) -> bool {
    &&& 2 <= routes.len() <= 3
    &&& routes[0] is PublicV2
    &&& routes.last() is EmbedV1
    &&& routes.len() == 3 ==> (routes[1] matches RouteView::ManagedV1 { endpoint, .. }
        && spec_validate_endpoint(endpoint) is Ok)
    &&& forall|i: int| 0 <= i < routes.len() ==> key_of_route(#[trigger] routes[i]) == route_key_of(
        i as nat,
    )
}

pub fn route_key(index: usize) -> (r: String)
    ensures
        r@ == route_key_of(index as nat),
{
    let prefix = chars_of("r");
    let digits = decimal_chars(index as u128);
    string_of(&join(&prefix, &digits))
}

pub open spec fn result_routes(r: Result<Vec<RouteDescriptor>, ResolveError>) -> Result<
    Seq<RouteView>,
    ResolveError,
> {
    match r {
        Ok(v) => Ok(routes_view(v@)),
        Err(e) => Err(e),
    }
}

pub fn build_routes(gateway_endpoint: &Option<String>) -> (r: Result<
    Vec<RouteDescriptor>,
    ResolveError,
>)
    ensures
        result_routes(r) == spec_build_routes(
            match gateway_endpoint {
                Some(g) => Some(g@),
                None => None,
            },
        ),
{
    let mut routes: Vec<RouteDescriptor> = Vec::new();
    routes.push(RouteDescriptor::PublicV2 { route_key: route_key(0) });
    if let Some(g) = gateway_endpoint {
        let trimmed = trim_chars(&chars_of(g.as_str()));
        if trimmed.len() > 0 {
            let endpoint = string_of(&trimmed);
            if let Err(e) = validate_endpoint(endpoint.as_str()) {
                return Err(e);
            }
            routes.push(RouteDescriptor::ManagedV1 { route_key: route_key(1), endpoint });
        }
    }
    let n = routes.len();
    routes.push(RouteDescriptor::EmbedV1 { route_key: route_key(n) });
    proof {
        let gv = match gateway_endpoint {
            Some(g) => Some(g@),
            None => None,
        };
        assert(routes_view(routes@) =~= spec_build_routes(gv)->Ok_0);
    }
    Ok(routes)
}

/// The request of a route for a source key; the embed route also sends the
/// caller's token.
pub open spec fn spec_route_prepare(
    route: RouteView,
    key: Seq<char>,
    token: Seq<char>,
) -> Result<RequestView, ResolveError> {
    match route {
        RouteView::PublicV2 { route_key } => spec_public_prepare(key, route_key),
        RouteView::ManagedV1 { route_key, endpoint } => spec_managed_prepare(
            endpoint,
            key,
            route_key,
        ),
        RouteView::EmbedV1 { route_key } => spec_embed_prepare(key, route_key, token),
    }
}

/// What a route makes of a response for a source key.
/// The public route reads the body as its response record (`record`); the
/// other routes read the body itself.
pub open spec fn spec_route_process(
    route: RouteView,
    key: Seq<char>,
    status: u16,
    body: Seq<u8>,
    record: Option<ResponseView>,
) -> OutcomeView {
    match route {
        RouteView::PublicV2 { .. } => spec_public_process(key, status, record),
        RouteView::ManagedV1 { endpoint, .. } => spec_managed_process(key, status, body),
        RouteView::EmbedV1 { .. } => spec_embed_process(key, status, body),
    }
}

pub fn prepare(route: &RouteDescriptor, input: &InputDescriptor, token: &str) -> (r: Result<
    PreparedRequest,
    ResolveError,
>)
    ensures
        result_request(r) == spec_route_prepare(route@, input.source_key@, token@),
{
    match route {
        RouteDescriptor::PublicV2 { route_key } => PublicV2Adapter.prepare(input, route_key.as_str()),
        RouteDescriptor::ManagedV1 { route_key, endpoint } => ManagedV1Adapter::new(
            endpoint.as_str(),
        ).prepare(input, route_key.as_str()),
        RouteDescriptor::EmbedV1 { route_key } => EmbedV1Adapter.prepare(
            input,
            route_key.as_str(),
            token,
        ),
    }
}

pub fn process(
    route: &RouteDescriptor,
    input: &InputDescriptor,
    status: u16,
    body: &[u8],
    record: &Option<PublicResponse>,
) -> (r: AdapterOutcome)
    ensures
        r@ == spec_route_process(route@, input.source_key@, status, body@, opt_response(*record)),
{
    match route {
        RouteDescriptor::PublicV2 { .. } => PublicV2Adapter.process(input, status, record),
        RouteDescriptor::ManagedV1 { endpoint, .. } => ManagedV1Adapter::new(
            endpoint.as_str(),
        ).process(input, status, body),
        RouteDescriptor::EmbedV1 { .. } => EmbedV1Adapter.process(input, status, body),
    }
}

/// The routes that `build_routes` makes are well formed.
pub proof fn lemma_built_routes_wf(gateway: Option<Seq<char>>)
    ensures
        spec_build_routes(gateway) matches Ok(routes) ==> routes_wf(routes),
{
    if let Ok(routes) = spec_build_routes(gateway) {
        assert forall|i: int| 0 <= i < routes.len() implies key_of_route(#[trigger] routes[i])
            == route_key_of(i as nat) by {
            if routes.len() == 2 {
                assert(i == 0 || i == 1);
            } else {
                assert(i == 0 || i == 1 || i == 2);
            }
        }
    }
}

/// The public and embed routes read the status before the body: a missing
/// source (404) falls back as not found, a rate limit (429) as rate limited,
/// a server error (5xx) as unavailable, and any other status outside 2xx as
/// rejected, whatever the body.
pub proof fn lemma_status_decides_first(
    route: RouteView,
    key: Seq<char>,
    status: u16,
    body: Seq<u8>,
    record: Option<ResponseView>,
)
    requires
        route is PublicV2 || route is EmbedV1,
    ensures
        status == 404 ==> spec_route_process(route, key, status, body, record)
            == OutcomeView::Fallback(RouteFailure::NotFound),
        status == 429 ==> spec_route_process(route, key, status, body, record)
            == OutcomeView::Fallback(RouteFailure::RateLimited),
        500 <= status <= 599 ==> spec_route_process(route, key, status, body, record)
            == OutcomeView::Fallback(RouteFailure::Unavailable),
        (status < 200 || (300 <= status < 500 && status != 404 && status != 429) || 600 <= status)
            ==> spec_route_process(route, key, status, body, record) == OutcomeView::Fallback(
            RouteFailure::Rejected,
        ),
{
}

} // verus!
