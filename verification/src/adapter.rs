//! What one route makes of a response: a result, a reason to fall back to
//! the next route, or a final error.
use crate::error::ResolveError;
use crate::model::{BundleView, ResourceBundle};
use vstd::prelude::*;

verus! {

/// Why a route could not produce a result.
#[derive(Debug, Clone, Copy, PartialEq, Eq, Structural)]
pub enum RouteFailure {
    NotFound,
    NoResources,
    RateLimited,
    Unavailable,
    NetworkUnavailable,
    InvalidResponse,
    Rejected,
}

/// The outcome of processing one response.
#[derive(Debug)]
pub enum AdapterOutcome {
    Resolved(ResourceBundle),
    Fallback(RouteFailure),
    Terminal(ResolveError),
}

pub enum OutcomeView {
    Resolved(BundleView),
    Fallback(RouteFailure),
    Terminal(ResolveError),
}

impl View for AdapterOutcome {
    type V = OutcomeView;

    open spec fn view(&self) -> OutcomeView {
        match self {
            AdapterOutcome::Resolved(b) => OutcomeView::Resolved(b@),
            AdapterOutcome::Fallback(f) => OutcomeView::Fallback(*f),
            AdapterOutcome::Terminal(e) => OutcomeView::Terminal(*e),
        }
    }
}

/// `classify_http_status`: success statuses go on to the body; the others
/// fall back with a reason.
pub open spec fn spec_classify_status(status: u16) -> Option<RouteFailure> {
    if 200 <= status <= 299 {
        None
    } else if status == 404 {
        Some(RouteFailure::NotFound)
    } else if status == 429 {
        Some(RouteFailure::RateLimited)
    } else if 400 <= status <= 499 {
        Some(RouteFailure::Rejected)
    } else if 500 <= status <= 599 {
        Some(RouteFailure::Unavailable)
    } else {
        Some(RouteFailure::Rejected)
    }
}

pub fn classify_http_status(status: u16) -> (r: Option<AdapterOutcome>)
    ensures
        match spec_classify_status(status) {
            Some(f) => r matches Some(o) && o@ == OutcomeView::Fallback(f),
            None => r is None,
        },
{
    if 200 <= status && status <= 299 {
        None
    } else if status == 404 {
        Some(AdapterOutcome::Fallback(RouteFailure::NotFound))
    } else if status == 429 {
        Some(AdapterOutcome::Fallback(RouteFailure::RateLimited))
    } else if 400 <= status && status <= 499 {
        Some(AdapterOutcome::Fallback(RouteFailure::Rejected))
    } else if 500 <= status && status <= 599 {
        Some(AdapterOutcome::Fallback(RouteFailure::Unavailable))
    } else {
        Some(AdapterOutcome::Fallback(RouteFailure::Rejected))
    }
}

} // verus!
