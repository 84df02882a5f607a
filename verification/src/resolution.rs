//! The resolution state machine: a session walks the routes in order; each
//! step either asks the caller to perform a request, or ends with a result
//! or a failure.
use crate::adapter::{AdapterOutcome, OutcomeView, RouteFailure};
use crate::error::{error_code, error_message, ResolveError, ResolveErrorCode};
use crate::model::{
    BundleView, DescriptorView, InputDescriptor, PreparedRequest, RequestView, ResourceBundle,
};
use crate::registry::{
    build_routes, key_of_route, lemma_built_routes_wf, prepare, process, route_key_of, routes_view,
    routes_wf, spec_build_routes, spec_route_prepare, spec_route_process, RouteDescriptor,
    RouteView,
};
use crate::normalize::items_listed;
use crate::routes::embed_v1::lemma_embed_resolved_exposed;
use crate::routes::managed_v1::lemma_managed_resolved_exposed;
use crate::routes::bundle_exposed;
use crate::routes::public_v2::lemma_public_resolved_exposed;
use crate::schema::public_v2::{opt_response, PublicResponse, ResponseView};
use crate::source::{
    canonical_link, descriptor_from_key, inspect_source, key_is_valid,
    lemma_inspect_gives_canonical, spec_descriptor_from_key, spec_inspect_source,
    MAX_SOURCE_KEY_LENGTH, MIN_SOURCE_KEY_LENGTH,
};
use crate::text::{chars_are, chars_of};
use vstd::prelude::*;

verus! {

/// Where the resolver runs; informational for the routes.
#[derive(Debug, Clone, Copy, PartialEq, Eq, Structural)]
pub enum RuntimeProfile {
    Browser,
    Native,
}

/// How a resolution is set up by its caller.
#[derive(Debug, Clone, PartialEq, Eq)]
pub struct ResolutionOptions {
    pub profile: RuntimeProfile,
    pub gateway_endpoint: Option<String>,
}

impl Default for ResolutionOptions {
    fn default() -> (r: ResolutionOptions)
        ensures
            r.profile == RuntimeProfile::Browser,
            r.gateway_endpoint is None,
    {
        ResolutionOptions { profile: RuntimeProfile::Browser, gateway_endpoint: None }
    }
}

/// How a request failed in the caller's transport.
#[derive(Debug, Clone, Copy, PartialEq, Eq, Structural)]
pub enum TransportFailure {
    Network,
    AccessBlocked,
    Timeout,
}

/// The transport failure that a caller names by its snake_case name.
pub open spec fn spec_transport_failure_named(kind: Seq<char>) -> Option<TransportFailure> {
    if kind == "network"@ {
        Some(TransportFailure::Network)
    } else if kind == "access_blocked"@ {
        Some(TransportFailure::AccessBlocked)
    } else if kind == "timeout"@ {
        Some(TransportFailure::Timeout)
    } else {
        None
    }
}

pub fn transport_failure_named(kind: &str) -> (r: Option<TransportFailure>)
    ensures
        r == spec_transport_failure_named(kind@),
{
    let k = chars_of(kind);
    if chars_are(&k, "network") {
        Some(TransportFailure::Network)
    } else if chars_are(&k, "access_blocked") {
        Some(TransportFailure::AccessBlocked)
    } else if chars_are(&k, "timeout") {
        Some(TransportFailure::Timeout)
    } else {
        None
    }
}

/// A final failure as it is shown to users: a stable code and its message.
#[derive(Debug, Clone, PartialEq, Eq)]
pub struct ResolveFailure {
    pub code: ResolveErrorCode,
    pub message: String,
}

pub struct FailureView {
    pub code: ResolveErrorCode,
    pub message: Seq<char>,
}

impl View for ResolveFailure {
    type V = FailureView;

    open spec fn view(&self) -> FailureView {
        FailureView { code: self.code, message: self.message@ }
    }
}

/// The failure that an error is shown as.
pub open spec fn failure_of(e: ResolveError) -> FailureView {
    FailureView { code: error_code(e), message: error_message(e) }
}

impl ResolveFailure {
    pub fn from_error(error: ResolveError) -> (r: ResolveFailure)
        ensures
            r@ == failure_of(error),
    {
        ResolveFailure { code: error.code(), message: error.message() }
    }
}

/// The state of one resolution between two steps.
#[derive(Debug, Clone, PartialEq, Eq)]
pub struct ResolutionSession {
    pub schema_version: u32,
    pub descriptor: InputDescriptor,
    pub profile: RuntimeProfile,
    pub route_index: usize,
    pub routes: Vec<RouteDescriptor>,
    pub failures: Vec<RouteFailure>,
    pub embed_token: String,
}

pub struct SessionView {
    pub schema_version: u32,
    pub descriptor: DescriptorView,
    pub profile: RuntimeProfile,
    pub route_index: nat,
    pub routes: Seq<RouteView>,
    pub failures: Seq<RouteFailure>,
    pub embed_token: Seq<char>,
}

impl View for ResolutionSession {
    type V = SessionView;

    open spec fn view(&self) -> SessionView {
        SessionView {
            schema_version: self.schema_version,
            descriptor: self.descriptor@,
            profile: self.profile,
            route_index: self.route_index as nat,
            routes: routes_view(self.routes@),
            failures: self.failures@,
            embed_token: self.embed_token@,
        }
    }
}

/// One step of a resolution.
#[derive(Debug, Clone, PartialEq, Eq)]
pub enum ResolutionStep {
    Request {
        session: ResolutionSession,
        request: Box<PreparedRequest>,
        source_key: String,
        normalized_input: String,
    },
    Resolved { result: ResourceBundle },
    Failed { error: ResolveFailure },
}

pub enum StepView {
    Request {
        session: SessionView,
        request: RequestView,
        source_key: Seq<char>,
        normalized_input: Seq<char>,
    },
    Resolved { result: BundleView },
    Failed { error: FailureView },
}

impl View for ResolutionStep {
    type V = StepView;

    open spec fn view(&self) -> StepView {
        match self {
            ResolutionStep::Request { session, request, source_key, normalized_input } => {
                StepView::Request {
                    session: session@,
                    request: (**request)@,
                    source_key: source_key@,
                    normalized_input: normalized_input@,
                }
            },
            ResolutionStep::Resolved { result } => StepView::Resolved { result: result@ },
            ResolutionStep::Failed { error } => StepView::Failed { error: error@ },
        }
    }
}

pub open spec fn result_step(r: Result<ResolutionStep, ResolveError>) -> Result<
    StepView,
    ResolveError,
> {
    match r {
        Ok(s) => Ok(s@),
        Err(e) => Err(e),
    }
}

pub open spec fn failed_view(e: ResolveError) -> StepView {
    StepView::Failed { error: failure_of(e) }
}

/// `final_error`: the error of an exhausted resolution, by the most telling
/// of the routes' failures.
pub open spec fn spec_final_error(failures: Seq<RouteFailure>) -> ResolveError {
    if failures.contains(RouteFailure::NotFound) {
        ResolveError::RemoteNotFound
    } else if failures.contains(RouteFailure::NoResources) {
        ResolveError::NoResources
    } else if failures.contains(RouteFailure::RateLimited) {
        ResolveError::RateLimited
    } else if failures.contains(RouteFailure::Rejected) {
        ResolveError::RemoteRejected
    } else if failures.contains(RouteFailure::Unavailable) {
        ResolveError::RemoteUnavailable
    } else if failures.contains(RouteFailure::NetworkUnavailable) {
        ResolveError::NetworkUnavailable
    } else if failures.contains(RouteFailure::InvalidResponse) {
        ResolveError::InvalidResponse
    } else {
        ResolveError::Internal
    }
}

/// How telling a route failure is: a missing source says most, then a
/// source without resources, a rate limit, a refusal, an unavailable source,
/// an unavailable network, and last an unreadable response.
pub open spec fn failure_rank(f: RouteFailure) -> nat {
    match f {
        RouteFailure::NotFound => 7,
        RouteFailure::NoResources => 6,
        RouteFailure::RateLimited => 5,
        RouteFailure::Rejected => 4,
        RouteFailure::Unavailable => 3,
        RouteFailure::NetworkUnavailable => 2,
        RouteFailure::InvalidResponse => 1,
    }
}

/// The error that reports a route failure at the end of a resolution.
pub open spec fn error_for(f: RouteFailure) -> ResolveError {
    match f {
        RouteFailure::NotFound => ResolveError::RemoteNotFound,
        RouteFailure::NoResources => ResolveError::NoResources,
        RouteFailure::RateLimited => ResolveError::RateLimited,
        RouteFailure::Rejected => ResolveError::RemoteRejected,
        RouteFailure::Unavailable => ResolveError::RemoteUnavailable,
        RouteFailure::NetworkUnavailable => ResolveError::NetworkUnavailable,
        RouteFailure::InvalidResponse => ResolveError::InvalidResponse,
    }
}

/// The final error reports the most telling of the recorded failures: it is
/// the error of one of them, and no recorded failure is more telling. With
/// no failure recorded it is `Internal`.
pub proof fn lemma_final_error_is_most_telling(failures: Seq<RouteFailure>)
    ensures
        failures.len() == 0 ==> spec_final_error(failures) == ResolveError::Internal,
        failures.len() > 0 ==> exists|i: int|
            0 <= i < failures.len() && spec_final_error(failures) == error_for(failures[i])
                && forall|j: int|
                0 <= j < failures.len() ==> failure_rank(#[trigger] failures[j]) <= failure_rank(
                    failures[i],
                ),
{
    if failures.len() > 0 {
        let top = if failures.contains(RouteFailure::NotFound) {
            RouteFailure::NotFound
        } else if failures.contains(RouteFailure::NoResources) {
            RouteFailure::NoResources
        } else if failures.contains(RouteFailure::RateLimited) {
            RouteFailure::RateLimited
        } else if failures.contains(RouteFailure::Rejected) {
            RouteFailure::Rejected
        } else if failures.contains(RouteFailure::Unavailable) {
            RouteFailure::Unavailable
        } else if failures.contains(RouteFailure::NetworkUnavailable) {
            RouteFailure::NetworkUnavailable
        } else {
            RouteFailure::InvalidResponse
        };
        if !failures.contains(top) {
            assert(failures.contains(failures[0]));
            assert(false);
        }
        let i = choose|i: int| 0 <= i < failures.len() && failures[i] == top;
        assert forall|j: int| 0 <= j < failures.len() implies failure_rank(
            #[trigger] failures[j],
        ) <= failure_rank(failures[i]) by {
            assert(failures.contains(failures[j]));
        }
    }
}

/// `request_current`: the request of the current route.
pub open spec fn request_step(s: SessionView) -> Result<StepView, ResolveError> {
    if s.route_index >= s.routes.len() {
        Err(ResolveError::Internal)
    } else {
        match spec_route_prepare(
            s.routes[s.route_index as int],
            s.descriptor.source_key,
            s.embed_token,
        ) {
            Err(e) => Err(e),
            Ok(req) => Ok(
                StepView::Request {
                    session: s,
                    request: req,
                    source_key: s.descriptor.source_key,
                    normalized_input: s.descriptor.normalized_input,
                },
            ),
        }
    }
}

/// The session after its current route failed.
pub open spec fn advanced(s: SessionView, f: RouteFailure) -> SessionView {
    SessionView {
        schema_version: s.schema_version,
        descriptor: s.descriptor,
        profile: s.profile,
        route_index: s.route_index + 1,
        routes: s.routes,
        failures: s.failures.push(f),
        embed_token: s.embed_token,
    }
}

/// `advance`: the failure is recorded and the next route asked; after the
/// last route, the resolution fails with the final error.
pub open spec fn spec_advance(s: SessionView, f: RouteFailure) -> Result<StepView, ResolveError> {
    if s.route_index >= s.routes.len() {
        Err(ResolveError::Internal)
    } else {
        let n = advanced(s, f);
        if n.route_index < n.routes.len() {
            request_step(n)
        } else {
            Ok(failed_view(spec_final_error(n.failures)))
        }
    }
}

/// `accept_response`: the current route reads the response; a result or a
/// terminal error ends the resolution, a fallback moves to the next route.
pub open spec fn spec_accept_response(
    s: SessionView,
    status: u16,
    body: Seq<u8>,
    record: Option<ResponseView>,
) -> Result<StepView, ResolveError> {
    if s.route_index >= s.routes.len() {
        Err(ResolveError::Internal)
    } else {
        match spec_route_process(
            s.routes[s.route_index as int],
            s.descriptor.source_key,
            status,
            body,
            record,
        ) {
            OutcomeView::Resolved(b) => Ok(StepView::Resolved { result: b }),
            OutcomeView::Terminal(e) => Ok(failed_view(e)),
            OutcomeView::Fallback(f) => spec_advance(s, f),
        }
    }
}

/// `accept_transport_failure`: whatever the transport failure, the current
/// route failed for want of the network.
pub open spec fn spec_accept_transport_failure(s: SessionView, failure: TransportFailure) -> Result<
    StepView,
    ResolveError,
> {
    spec_advance(s, RouteFailure::NetworkUnavailable)
}

/// The session that a resolution starts with.
pub open spec fn initial_session(
    d: DescriptorView,
    profile: RuntimeProfile,
    routes: Seq<RouteView>,
    token: Seq<char>,
) -> SessionView {
    SessionView {
        schema_version: 1,
        descriptor: d,
        profile,
        route_index: 0,
        routes,
        failures: Seq::empty(),
        embed_token: token,
    }
}

pub open spec fn opt_gateway(o: Option<String>) -> Option<Seq<char>> {
    match o {
        Some(g) => Some(g@),
        None => None,
    }
}

/// The first step for a recognised descriptor.
pub open spec fn start_with(
    d: Result<DescriptorView, ResolveError>,
    profile: RuntimeProfile,
    gateway: Option<Seq<char>>,
    token: Seq<char>,
) -> Result<StepView, ResolveError> {
    match d {
        Err(e) => Err(e),
        Ok(d) => match spec_build_routes(gateway) {
            Err(e) => Err(e),
            Ok(routes) => request_step(initial_session(d, profile, routes, token)),
        },
    }
}

/// `start_resolution`: the input is recognised, the routes are built, and
/// the first route's request is prepared.
pub open spec fn spec_start(
    input: Seq<char>,
    profile: RuntimeProfile,
    gateway: Option<Seq<char>>,
    token: Seq<char>,
) -> Result<StepView, ResolveError> {
    start_with(spec_inspect_source(input), profile, gateway, token)
}

/// `start_resolution_from_key`: as `start_resolution`, from a source key.
pub open spec fn spec_start_from_key(
    key: Seq<char>,
    profile: RuntimeProfile,
    gateway: Option<Seq<char>>,
    token: Seq<char>,
) -> Result<StepView, ResolveError> {
    start_with(spec_descriptor_from_key(key), profile, gateway, token)
}

pub fn failed_step(error: ResolveError) -> (r: ResolutionStep)
    ensures
        r@ == failed_view(error),
{
    ResolutionStep::Failed { error: ResolveFailure::from_error(error) }
}

fn contains_failure(failures: &Vec<RouteFailure>, f: RouteFailure) -> (r: bool)
    ensures
        r == failures@.contains(f),
{
    let mut i: usize = 0;
    while i < failures.len()
        invariant
            i <= failures@.len(),
            forall|k: int| 0 <= k < i ==> failures@[k] != f,
        decreases failures@.len() - i,
    {
        if failures[i] == f {
            assert(failures@[i as int] == f);
            return true;
        }
        i = i + 1;
    }
    false
}

pub fn final_error(failures: &Vec<RouteFailure>) -> (r: ResolveError)
    ensures
        r == spec_final_error(failures@),
{
    if contains_failure(failures, RouteFailure::NotFound) {
        ResolveError::RemoteNotFound
    } else if contains_failure(failures, RouteFailure::NoResources) {
        ResolveError::NoResources
    } else if contains_failure(failures, RouteFailure::RateLimited) {
        ResolveError::RateLimited
    } else if contains_failure(failures, RouteFailure::Rejected) {
        ResolveError::RemoteRejected
    } else if contains_failure(failures, RouteFailure::Unavailable) {
        ResolveError::RemoteUnavailable
    } else if contains_failure(failures, RouteFailure::NetworkUnavailable) {
        ResolveError::NetworkUnavailable
    } else if contains_failure(failures, RouteFailure::InvalidResponse) {
        ResolveError::InvalidResponse
    } else {
        ResolveError::Internal
    }
}

pub fn request_current(session: ResolutionSession) -> (r: Result<ResolutionStep, ResolveError>)
    ensures
        result_step(r) == request_step(session@),
{
    if session.route_index >= session.routes.len() {
        return Err(ResolveError::Internal);
    }
    let request = match prepare(
        &session.routes[session.route_index],
        &session.descriptor,
        session.embed_token.as_str(),
    ) {
        Ok(q) => q,
        Err(e) => {
            return Err(e);
        },
    };
    let source_key = session.descriptor.source_key.clone();
    let normalized_input = session.descriptor.normalized_input.clone();
    Ok(ResolutionStep::Request { session, request: Box::new(request), source_key, normalized_input })
}

pub fn advance(session: ResolutionSession, failure: RouteFailure) -> (r: Result<
    ResolutionStep,
    ResolveError,
>)
    ensures
        result_step(r) == spec_advance(session@, failure),
{
    if session.route_index >= session.routes.len() {
        return Err(ResolveError::Internal);
    }
    let mut session = session;
    session.failures.push(failure);
    session.route_index = session.route_index + 1;
    if session.route_index < session.routes.len() {
        request_current(session)
    } else {
        Ok(failed_step(final_error(&session.failures)))
    }
}

pub fn start_resolution(input_value: &str, options: ResolutionOptions, embed_token: &str) -> (r:
    Result<ResolutionStep, ResolveError>)
    ensures
        result_step(r) == spec_start(
            input_value@,
            options.profile,
            opt_gateway(options.gateway_endpoint),
            embed_token@,
        ),
{
    let descriptor = match inspect_source(input_value) {
        Ok(d) => d,
        Err(e) => {
            return Err(e);
        },
    };
    start_with_descriptor(descriptor, options, embed_token)
}

pub fn start_resolution_from_key(source_key: &str, options: ResolutionOptions, embed_token: &str) -> (r:
    Result<ResolutionStep, ResolveError>)
    ensures
        result_step(r) == spec_start_from_key(
            source_key@,
            options.profile,
            opt_gateway(options.gateway_endpoint),
            embed_token@,
        ),
{
    let descriptor = match descriptor_from_key(source_key) {
        Ok(d) => d,
        Err(e) => {
            return Err(e);
        },
    };
    start_with_descriptor(descriptor, options, embed_token)
}

fn start_with_descriptor(
    descriptor: InputDescriptor,
    options: ResolutionOptions,
    embed_token: &str,
) -> (r: Result<ResolutionStep, ResolveError>)
    ensures
        result_step(r) == start_with(
            Ok(descriptor@),
            options.profile,
            opt_gateway(options.gateway_endpoint),
            embed_token@,
        ),
{
    let routes = match build_routes(&options.gateway_endpoint) {
        Ok(r) => r,
        Err(e) => {
            return Err(e);
        },
    };
    let session = ResolutionSession {
        schema_version: 1,
        descriptor,
        profile: options.profile,
        route_index: 0,
        routes,
        failures: Vec::new(),
        embed_token: embed_token.to_owned(),
    };
    assert(session@.failures =~= Seq::<RouteFailure>::empty());
    request_current(session)
}

/// Hands the current route its response: the status, the body, and the body
/// read as the public route's response record (`None` when it is not one).
/// The public route reads the record, the other routes the body.
pub fn accept_response(
    session: ResolutionSession,
    status: u16,
    body: &[u8],
    record: Option<PublicResponse>,
) -> (r: Result<ResolutionStep, ResolveError>)
    ensures
        result_step(r) == spec_accept_response(session@, status, body@, opt_response(record)),
{
    if session.route_index >= session.routes.len() {
        return Err(ResolveError::Internal);
    }
    let outcome = process(
        &session.routes[session.route_index],
        &session.descriptor,
        status,
        body,
        &record,
    );
    match outcome {
        AdapterOutcome::Resolved(result) => Ok(ResolutionStep::Resolved { result }),
        AdapterOutcome::Terminal(error) => Ok(failed_step(error)),
        AdapterOutcome::Fallback(failure) => advance(session, failure),
    }
}

pub fn accept_transport_failure(session: ResolutionSession, failure: TransportFailure) -> (r: Result<
    ResolutionStep,
    ResolveError,
>)
    ensures
        result_step(r) == spec_accept_transport_failure(session@, failure),
{
    advance(session, RouteFailure::NetworkUnavailable)
}

/// A session as the library hands it out: schema 1, well-formed routes, a
/// current route, one recorded failure per route already tried, and a
/// valid key with its canonical link.
pub open spec fn session_wf(s: SessionView) -> bool {
    &&& s.schema_version == 1
    &&& routes_wf(s.routes)
    &&& s.route_index < s.routes.len()
    &&& s.failures.len() == s.route_index
    &&& key_is_valid(
        s.descriptor.source_key,
        MIN_SOURCE_KEY_LENGTH as nat,
        MAX_SOURCE_KEY_LENGTH as nat,
    )
    &&& s.descriptor.normalized_input == canonical_link(s.descriptor.source_key)
}

/// A request step as the library hands it out: a well-formed session, a
/// request keyed by the position of its route, and the session's key and
/// canonical link.
pub open spec fn request_wf(step: StepView) -> bool {
    match step {
        StepView::Request { session, request, source_key, normalized_input } => {
            &&& session_wf(session)
            &&& request.route_key == route_key_of(session.route_index)
            &&& source_key == session.descriptor.source_key
            &&& normalized_input == session.descriptor.normalized_input
        },
        _ => true,
    }
}

/// The next session continues the previous one: same key, routes and token,
/// one route further, with one more failure recorded.
pub open spec fn continues(n: SessionView, s: SessionView, f: RouteFailure) -> bool {
    &&& n.route_index == s.route_index + 1
    &&& n.failures == s.failures.push(f)
    &&& n.descriptor == s.descriptor
    &&& n.routes == s.routes
    &&& n.embed_token == s.embed_token
    &&& n.profile == s.profile
}

proof fn lemma_prepare_keeps_route_key(route: RouteView, key: Seq<char>, token: Seq<char>)
    ensures
        spec_route_prepare(route, key, token) matches Ok(req) ==> req.route_key == key_of_route(
            route,
        ),
{
}

proof fn lemma_request_step_wf(s: SessionView)
    requires
        session_wf(s),
    ensures
        request_step(s) matches Ok(step) ==> step is Request && request_wf(step),
{
    lemma_prepare_keeps_route_key(s.routes[s.route_index as int], s.descriptor.source_key, s.embed_token);
}

proof fn lemma_advance_wf(s: SessionView, f: RouteFailure)
    requires
        session_wf(s),
    ensures
        spec_advance(s, f) matches Ok(step) ==> request_wf(step),
        spec_advance(s, f) matches Ok(StepView::Request { session, .. }) ==> continues(session, s, f),
        s.route_index + 1 == s.routes.len() ==> spec_advance(s, f) == Ok::<StepView, ResolveError>(
            failed_view(spec_final_error(s.failures.push(f))),
        ),
{
    let n = advanced(s, f);
    if n.route_index < n.routes.len() {
        lemma_request_step_wf(n);
    }
}

/// Every resolution starts at its first route with no failure recorded,
/// with a well-formed session for the recognised key.
pub proof fn lemma_start_wf(
    input: Seq<char>,
    profile: RuntimeProfile,
    gateway: Option<Seq<char>>,
    token: Seq<char>,
)
    ensures
        spec_start(input, profile, gateway, token) matches Ok(step) ==> {
            &&& request_wf(step)
            &&& step matches StepView::Request { session, .. } && session.route_index == 0
                && session.failures.len() == 0 && spec_inspect_source(input) == Ok::<
                DescriptorView,
                ResolveError,
            >(session.descriptor)
        },
        spec_start_from_key(input, profile, gateway, token) matches Ok(step) ==> {
            &&& request_wf(step)
            &&& step matches StepView::Request { session, .. } && session.route_index == 0
                && session.failures.len() == 0 && session.descriptor.source_key == input
        },
{
    lemma_inspect_gives_canonical(input);
    lemma_built_routes_wf(gateway);
    if let Ok(d) = spec_inspect_source(input) {
        if let Ok(routes) = spec_build_routes(gateway) {
            lemma_request_step_wf(initial_session(d, profile, routes, token));
        }
    }
    if let Ok(d) = spec_descriptor_from_key(input) {
        if let Ok(routes) = spec_build_routes(gateway) {
            lemma_request_step_wf(initial_session(d, profile, routes, token));
        }
    }
}

/// Each step of a well-formed session keeps it well formed: a further
/// request comes from the next route, for the same key, with the failure of
/// the current route recorded. After the last route, a fallback ends the
/// resolution with the final error of all recorded failures.
pub proof fn lemma_step_wf(
    s: SessionView,
    status: u16,
    body: Seq<u8>,
    record: Option<ResponseView>,
    failure: TransportFailure,
)
    requires
        session_wf(s),
    ensures
        spec_accept_response(s, status, body, record) matches Ok(step) ==> request_wf(step),
        spec_accept_response(s, status, body, record) matches Ok(StepView::Request { session, .. }) ==> {
            spec_route_process(
                s.routes[s.route_index as int],
                s.descriptor.source_key,
                status,
                body,
                record,
            )
                matches OutcomeView::Fallback(f) && continues(session, s, f)
        },
        spec_accept_transport_failure(s, failure) matches Ok(step) ==> request_wf(step),
        spec_accept_transport_failure(s, failure) matches Ok(StepView::Request { session, .. })
            ==> continues(session, s, RouteFailure::NetworkUnavailable),
        s.route_index + 1 == s.routes.len() ==> spec_accept_transport_failure(s, failure) == Ok::<
            StepView,
            ResolveError,
        >(failed_view(spec_final_error(s.failures.push(RouteFailure::NetworkUnavailable)))),
{
    lemma_advance_wf(s, RouteFailure::NetworkUnavailable);
    let o = spec_route_process(
                s.routes[s.route_index as int],
                s.descriptor.source_key,
                status,
                body,
                record,
            );
    if let OutcomeView::Fallback(f) = o {
        lemma_advance_wf(s, f);
    }
}

/// Every bundle that a resolution resolves is of schema 1, for the
/// session's key, non-empty, and holds only HTTPS addresses in their
/// serialised form; unless a gateway supplied it, each resource's preferred
/// address is one of its variants'.
pub proof fn lemma_resolved_bundles_exposed(
    s: SessionView,
    status: u16,
    body: Seq<u8>,
    record: Option<ResponseView>,
)
    ensures
        spec_accept_response(s, status, body, record) matches Ok(StepView::Resolved { result })
            ==> bundle_exposed(result, s.descriptor.source_key),
        spec_accept_response(s, status, body, record) matches Ok(StepView::Resolved { result })
            ==> (s.routes[s.route_index as int] is ManagedV1 || items_listed(result.resources)),
{
    if s.route_index < s.routes.len() {
        let key = s.descriptor.source_key;
        lemma_public_resolved_exposed(key, status, record);
        lemma_managed_resolved_exposed(key, status, body);
        lemma_embed_resolved_exposed(key, status, body);
    }
}

/// A terminal outcome of the current route ends the resolution at once
/// with that error; no further route is asked.
pub proof fn lemma_terminal_ends(
    s: SessionView,
    status: u16,
    body: Seq<u8>,
    record: Option<ResponseView>,
    e: ResolveError,
)
    requires
        s.route_index < s.routes.len(),
        spec_route_process(
                s.routes[s.route_index as int],
                s.descriptor.source_key,
                status,
                body,
                record,
            )
            == OutcomeView::Terminal(e),
    ensures
        spec_accept_response(s, status, body, record) == Ok::<StepView, ResolveError>(failed_view(e)),
{
}

/// All transport failures are alike: each counts as the current route
/// failing for want of the network.
pub proof fn lemma_transport_failures_alike(s: SessionView, a: TransportFailure, b: TransportFailure)
    ensures
        spec_accept_transport_failure(s, a) == spec_accept_transport_failure(s, b),
        spec_accept_transport_failure(s, a) == spec_advance(s, RouteFailure::NetworkUnavailable),
{
}

/// The final error depends only on which failures occurred, not on their
/// order or number.
pub proof fn lemma_final_error_by_kinds(a: Seq<RouteFailure>, b: Seq<RouteFailure>)
    requires
        forall|f: RouteFailure| a.contains(f) == b.contains(f),
    ensures
        spec_final_error(a) == spec_final_error(b),
{
    assert(a.contains(RouteFailure::NotFound) == b.contains(RouteFailure::NotFound));
    assert(a.contains(RouteFailure::NoResources) == b.contains(RouteFailure::NoResources));
    assert(a.contains(RouteFailure::RateLimited) == b.contains(RouteFailure::RateLimited));
    assert(a.contains(RouteFailure::Rejected) == b.contains(RouteFailure::Rejected));
    assert(a.contains(RouteFailure::Unavailable) == b.contains(RouteFailure::Unavailable));
    assert(a.contains(RouteFailure::NetworkUnavailable) == b.contains(
        RouteFailure::NetworkUnavailable,
    ));
    assert(a.contains(RouteFailure::InvalidResponse) == b.contains(RouteFailure::InvalidResponse));
}

/// A failed step shows the stable code of its error with that error's
/// fixed message, never a remote text.
pub proof fn lemma_failed_steps_are_neutral(
    s: SessionView,
    status: u16,
    body: Seq<u8>,
    record: Option<ResponseView>,
    failure: TransportFailure,
)
    ensures
        spec_accept_response(s, status, body, record) matches Ok(StepView::Failed { error }) ==> exists|
            e: ResolveError,
        | #[trigger] failure_of(e) == error,
        spec_accept_transport_failure(s, failure) matches Ok(StepView::Failed { error }) ==> exists|
            e: ResolveError,
        | #[trigger] failure_of(e) == error,
{
    if let Ok(StepView::Failed { error }) = spec_accept_transport_failure(s, failure) {
        let e = spec_final_error(advanced(s, RouteFailure::NetworkUnavailable).failures);
        assert(failure_of(e) == error);
    }
    match spec_accept_response(s, status, body, record) {
        Ok(StepView::Failed { error }) => {
            let o = spec_route_process(
                s.routes[s.route_index as int],
                s.descriptor.source_key,
                status,
                body,
                record,
            );
            match o {
                OutcomeView::Terminal(e) => {
                    assert(failure_of(e) == error);
                },
                OutcomeView::Fallback(f) => {
                    let e = spec_final_error(advanced(s, f).failures);
                    assert(failure_of(e) == error);
                },
                _ => {},
            }
        },
        _ => {},
    }
}

} // verus!
