//! Resolver core for supported links: input validation, protocol handling,
//! response parsing and resource normalization.

pub mod error;
pub mod text;
pub mod model;
pub mod json;
pub mod weburl;
pub mod normalize;
pub mod duration;
pub mod source;
pub mod adapter;
pub mod schema;
pub mod routes;
pub mod registry;
pub mod resolution;
pub mod api;
pub mod remote;
pub mod cli;

pub use api::{
    accept_response, accept_transport_failure, inspect_input, start_resolution,
    start_resolution_from_key,
};
pub use error::{ResolveError, ResolveErrorCode};
pub use model::{
    InputDescriptor, PreparedRequest, RequestHeader, RequestMethod, ResourceBundle, ResourceItem,
    ResourceKind, ResourceVariant, RetryPolicy,
};
pub use schema::public_v2::PublicResponse;
pub use json::JsonValue;
pub use resolution::{
    ResolutionOptions, ResolutionSession, ResolutionStep, ResolveFailure, RuntimeProfile,
    TransportFailure,
};
