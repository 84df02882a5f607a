//! The public entry points of the resolver.
use crate::error::ResolveError;
use crate::model::InputDescriptor;
use crate::resolution::{
    opt_gateway, result_step, spec_accept_response, spec_accept_transport_failure, spec_start,
    spec_start_from_key, ResolutionOptions, ResolutionSession, ResolutionStep, TransportFailure,
};
use crate::schema::public_v2::{opt_response, PublicResponse};
use crate::source::{inspect_source, result_descriptor, spec_inspect_source};
use vstd::prelude::*;

verus! {

/// Recognises a supported link: its source key and canonical link.
pub fn inspect_input(input: &str) -> (r: Result<InputDescriptor, ResolveError>)
    ensures
        result_descriptor(r) == spec_inspect_source(input@),
{
    inspect_source(input)
}

/// Starts a resolution of a link. The embed token is the one the caller
/// computed for the link's source key; it is sent with the embed route's
/// request.
pub fn start_resolution(input: &str, options: ResolutionOptions, embed_token: &str) -> (r: Result<
    ResolutionStep,
    ResolveError,
>)
    ensures
        result_step(r) == spec_start(
            input@,
            options.profile,
            opt_gateway(options.gateway_endpoint),
            embed_token@,
        ),
{
    crate::resolution::start_resolution(input, options, embed_token)
}

/// Starts a resolution of a source key.
pub fn start_resolution_from_key(
    source_key: &str,
    options: ResolutionOptions,
    embed_token: &str,
) -> (r: Result<ResolutionStep, ResolveError>)
    ensures
        result_step(r) == spec_start_from_key(
            source_key@,
            options.profile,
            opt_gateway(options.gateway_endpoint),
            embed_token@,
        ),
{
    crate::resolution::start_resolution_from_key(source_key, options, embed_token)
}

/// Hands the response to the current request to the resolution: its status,
/// its body, and the body read as the public route's response record
/// (`None` when the body is not one).
pub fn accept_response(
    session: ResolutionSession,
    status: u16,
    body: &[u8],
    record: Option<PublicResponse>,
) -> (r: Result<ResolutionStep, ResolveError>)
    ensures
        result_step(r) == spec_accept_response(session@, status, body@, opt_response(record)),
{
    crate::resolution::accept_response(session, status, body, record)
}

/// Tells the resolution that the current request failed in transport.
pub fn accept_transport_failure(session: ResolutionSession, failure: TransportFailure) -> (r: Result<
    ResolutionStep,
    ResolveError,
>)
    ensures
        result_step(r) == spec_accept_transport_failure(session@, failure),
{
    crate::resolution::accept_transport_failure(session, failure)
}

} // verus!
