//! The source-neutral resource model and its mathematical views.
use vstd::prelude::*;

verus! {

/// An optional text, viewed as an optional character sequence.
pub open spec fn opt_chars(o: Option<String>) -> Option<Seq<char>> {
    match o {
        Some(s) => Some(s@),
        None => None,
    }
}

pub fn clone_opt(o: &Option<String>) -> (r: Option<String>)
    ensures
        opt_chars(r) == opt_chars(*o),
{
    match o {
        Some(s) => Some(s.clone()),
        None => None,
    }
}

/// A validated input: the source key and the canonical form of the link.
#[derive(Debug, Clone, PartialEq, Eq)]
pub struct InputDescriptor {
    pub source_key: String,
    pub normalized_input: String,
}

pub struct DescriptorView {
    pub source_key: Seq<char>,
    pub normalized_input: Seq<char>,
}

impl View for InputDescriptor {
    type V = DescriptorView;

    open spec fn view(&self) -> DescriptorView {
        DescriptorView { source_key: self.source_key@, normalized_input: self.normalized_input@ }
    }
}

#[derive(Debug, Clone, Copy, PartialEq, Eq, Structural)]
pub enum RequestMethod {
    Get,
}

#[derive(Debug, Clone, PartialEq, Eq)]
pub struct RequestHeader {
    pub name: String,
    pub value: String,
}

/// How often a caller may repeat a request that failed in transport.
#[derive(Debug, Clone, Copy, PartialEq, Eq, Structural)]
pub struct RetryPolicy {
    pub max_attempts: u32,
    pub retry_delay_ms: u64,
}

impl RetryPolicy {
    pub open spec fn spec_default() -> RetryPolicy {
        RetryPolicy { max_attempts: 2, retry_delay_ms: 500 }
    }
}

impl Default for RetryPolicy {
    fn default() -> (r: RetryPolicy)
        ensures
            r == RetryPolicy::spec_default(),
    {
        RetryPolicy { max_attempts: 2, retry_delay_ms: 500 }
    }
}

/// A request that the caller's transport performs on behalf of the resolver.
#[derive(Debug, Clone, PartialEq, Eq)]
pub struct PreparedRequest {
    pub route_key: String,
    pub url: String,
    pub method: RequestMethod,
    pub headers: Vec<RequestHeader>,
    pub retry_policy: RetryPolicy,
}

pub struct RequestView {
    pub route_key: Seq<char>,
    pub url: Seq<char>,
    pub method: RequestMethod,
    pub headers: Seq<(Seq<char>, Seq<char>)>,
    pub retry_policy: RetryPolicy,
}

impl View for PreparedRequest {
    type V = RequestView;

    open spec fn view(&self) -> RequestView {
        RequestView {
            route_key: self.route_key@,
            url: self.url@,
            method: self.method,
            headers: self.headers@.map_values(|h: RequestHeader| (h.name@, h.value@)),
            retry_policy: self.retry_policy,
        }
    }
}

/// A plain GET request without headers and with the default retry policy.
pub open spec fn get_request(route_key: Seq<char>, url: Seq<char>) -> RequestView {
    RequestView {
        route_key,
        url,
        method: RequestMethod::Get,
        headers: Seq::empty(),
        retry_policy: RetryPolicy::spec_default(),
    }
}

pub fn new_get_request(route_key: String, url: String) -> (r: PreparedRequest)
    ensures
        r@ == get_request(route_key@, url@),
{
    let r = PreparedRequest {
        route_key,
        url,
        method: RequestMethod::Get,
        headers: Vec::new(),
        retry_policy: RetryPolicy::default(),
    };
    assert(r@.headers =~= Seq::<(Seq<char>, Seq<char>)>::empty());
    r
}

#[derive(Debug, Clone, Copy, PartialEq, Eq, Structural)]
pub enum ResourceKind {
    Image,
    Video,
    Animation,
}

/// One retrievable form of a resource.
#[derive(Debug, Clone, PartialEq, Eq)]
pub struct ResourceVariant {
    pub url: String,
    pub mime_type: Option<String>,
    pub container: Option<String>,
    pub codec: Option<String>,
    pub bitrate: Option<u64>,
    pub size_bytes: Option<u64>,
    pub width: Option<u32>,
    pub height: Option<u32>,
}

pub struct VariantView {
    pub url: Seq<char>,
    pub mime_type: Option<Seq<char>>,
    pub container: Option<Seq<char>>,
    pub codec: Option<Seq<char>>,
    pub bitrate: Option<u64>,
    pub size_bytes: Option<u64>,
    pub width: Option<u32>,
    pub height: Option<u32>,
}

impl View for ResourceVariant {
    type V = VariantView;

    open spec fn view(&self) -> VariantView {
        VariantView {
            url: self.url@,
            mime_type: opt_chars(self.mime_type),
            container: opt_chars(self.container),
            codec: opt_chars(self.codec),
            bitrate: self.bitrate,
            size_bytes: self.size_bytes,
            width: self.width,
            height: self.height,
        }
    }
}

impl ResourceVariant {
    pub fn duplicate(&self) -> (r: ResourceVariant)
        ensures
            r@ == self@,
    {
        ResourceVariant {
            url: self.url.clone(),
            mime_type: clone_opt(&self.mime_type),
            container: clone_opt(&self.container),
            codec: clone_opt(&self.codec),
            bitrate: self.bitrate,
            size_bytes: self.size_bytes,
            width: self.width,
            height: self.height,
        }
    }
}

pub open spec fn variants_view(v: Seq<ResourceVariant>) -> Seq<VariantView> {
    v.map_values(|x: ResourceVariant| x@)
}

/// One resource (an image, a video or an animation) with its variants.
#[derive(Debug, Clone, PartialEq, Eq)]
pub struct ResourceItem {
    pub id: String,
    pub kind: ResourceKind,
    pub preferred_url: String,
    pub preview_url: Option<String>,
    pub width: Option<u32>,
    pub height: Option<u32>,
    pub duration_ms: Option<u64>,
    pub variants: Vec<ResourceVariant>,
}

pub struct ItemView {
    pub id: Seq<char>,
    pub kind: ResourceKind,
    pub preferred_url: Seq<char>,
    pub preview_url: Option<Seq<char>>,
    pub width: Option<u32>,
    pub height: Option<u32>,
    pub duration_ms: Option<u64>,
    pub variants: Seq<VariantView>,
}

impl View for ResourceItem {
    type V = ItemView;

    open spec fn view(&self) -> ItemView {
        ItemView {
            id: self.id@,
            kind: self.kind,
            preferred_url: self.preferred_url@,
            preview_url: opt_chars(self.preview_url),
            width: self.width,
            height: self.height,
            duration_ms: self.duration_ms,
            variants: variants_view(self.variants@),
        }
    }
}

pub open spec fn items_view(v: Seq<ResourceItem>) -> Seq<ItemView> {
    v.map_values(|x: ResourceItem| x@)
}

/// The resources found for one source.
#[derive(Debug, Clone, PartialEq, Eq)]
pub struct ResourceBundle {
    pub schema_version: u32,
    pub source_key: String,
    pub resources: Vec<ResourceItem>,
}

pub struct BundleView {
    pub schema_version: u32,
    pub source_key: Seq<char>,
    pub resources: Seq<ItemView>,
}

impl View for ResourceBundle {
    type V = BundleView;

    open spec fn view(&self) -> BundleView {
        BundleView {
            schema_version: self.schema_version,
            source_key: self.source_key@,
            resources: items_view(self.resources@),
        }
    }
}

} // verus!
