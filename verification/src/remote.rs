//! The standalone single-route adapter: recognition with its own key bounds, the
//! embed request, and a response read straight into a bundle or an error.
use crate::error::ResolveError;
use crate::json::{is_empty_object, json_is_empty_object, json_parse, parse_json};
use crate::model::{
    clone_opt, get_request, new_get_request, variants_view, BundleView, InputDescriptor, ItemView,
    PreparedRequest, RequestView, ResourceBundle, ResourceItem, ResourceKind, ResourceVariant,
    VariantView,
};
use crate::normalize::{
    dimensions_from_url, ensure_item_urls, image_mime_type, items_listed,
    lemma_ensured_item_exposed, lemma_ensured_keeps_listing, original_image_url_for_host,
    preferred_listed, sort_variants, sorted_variants, spec_dimensions_from_url, spec_ensure_item,
    spec_image_mime_type, spec_original_image_url, MAX_URL_CHARS,
};
use crate::routes::embed_v1::{embed_endpoint, embed_pairs, embed_query_pairs, or_else};
use crate::routes::{
    bundle_exposed, bundle_of, fallback_id, image_host, item_sound, items_sound, lemma_items_sound,
    lemma_push_sound, make_bundle, make_fallback_id, result_item, result_items, result_request,
};
use crate::schema::embed_v1::{
    decode_document, document_view, spec_decode_document, EmbedMedia, EmbedMediaView, EmbedVariant,
    EmbedVariantView,
};
use crate::source::{inspect_with, key_is_valid, key_valid, result_descriptor, spec_inspect_with};
use crate::text::{chars_are, chars_are_ignore_case, chars_of, eq_ignore_case};
use crate::weburl::{append_url_pairs, url_appended_pairs};
use vstd::prelude::*;

verus! {

/// The longest source key of the standalone adapter.
pub const REMOTE_MAX_KEY_LENGTH: usize = 19;

/// The shortest source key of the standalone adapter.
pub const REMOTE_MIN_KEY_LENGTH: usize = 1;

/// `validate_source_key` of the standalone adapter: one to nineteen digits.
pub fn validate_source_key(source_key: &str) -> (r: Result<(), ResolveError>)
    ensures
        r is Ok <==> key_is_valid(
            source_key@,
            REMOTE_MIN_KEY_LENGTH as nat,
            REMOTE_MAX_KEY_LENGTH as nat,
        ),
        r is Err ==> r == Err::<(), ResolveError>(ResolveError::InvalidInput),
{
    if key_valid(&chars_of(source_key), REMOTE_MIN_KEY_LENGTH, REMOTE_MAX_KEY_LENGTH) {
        Ok(())
    } else {
        Err(ResolveError::InvalidInput)
    }
}

/// `original_image_url` of the standalone adapter: the original size of an
/// image on the image host.
pub fn original_image_url(input: &str) -> (r: Result<String, ResolveError>)
    ensures
        match spec_original_image_url(input@, image_host()) {
            Ok(u) => r matches Ok(s) && s@ == u,
            Err(e) => r == Err::<String, ResolveError>(e),
        },
{
    proof {
        reveal_strlit("pbs.twimg.com");
    }
    original_image_url_for_host(input, "pbs.twimg.com")
}

/// The status check of the standalone adapter.
pub open spec fn spec_remote_status(status: u16) -> Option<ResolveError> {
    if 200 <= status <= 299 {
        None
    } else if status == 404 {
        Some(ResolveError::RemoteNotFound)
    } else if status == 429 {
        Some(ResolveError::RateLimited)
    } else {
        Some(ResolveError::RemoteRejected)
    }
}

/// A variant of the standalone adapter: only direct MP4 files are kept.
pub open spec fn remote_variant(v: EmbedVariantView) -> Option<VariantView> {
    match v.content_type {
        Some(m) => if eq_ignore_case(m, "video/mp4"@) {
            let dims = spec_dimensions_from_url(v.url);
            Some(
                VariantView {
                    url: v.url,
                    mime_type: Some(m),
                    container: None,
                    codec: None,
                    bitrate: v.bitrate,
                    size_bytes: None,
                    width: match dims {
                        Some((w, _)) => Some(w),
                        None => None,
                    },
                    height: match dims {
                        Some((_, h)) => Some(h),
                        None => None,
                    },
                },
            )
        } else {
            None
        },
        None => None,
    }
}

/// The kept variants, in order.
pub open spec fn remote_variants(vs: Seq<EmbedVariantView>) -> Seq<VariantView>
    decreases vs.len(),
{
    if vs.len() == 0 {
        Seq::empty()
    } else {
        let rest = remote_variants(vs.drop_last());
        match remote_variant(vs.last()) {
            Some(x) => rest.push(x),
            None => rest,
        }
    }
}

/// The first variant from `from` on whose MIME type is exactly `video/mp4`.
pub open spec fn first_exact_mp4(s: Seq<VariantView>, from: int) -> Option<int>
    decreases s.len() - from,
{
    if from < 0 || from >= s.len() {
        None
    } else if s[from].mime_type == Some("video/mp4"@) {
        Some(from)
    } else {
        first_exact_mp4(s, from + 1)
    }
}

/// The preferred variant of the standalone adapter.
pub open spec fn remote_preferred(s: Seq<VariantView>) -> Option<int> {
    match first_exact_mp4(s, 0) {
        Some(i) => Some(i),
        None => if s.len() > 0 {
            Some(0)
        } else {
            None
        },
    }
}

/// `normalize_media` of the standalone adapter; a video without a usable
/// variant is an invalid response.
pub open spec fn spec_remote_media(key: Seq<char>, index: nat, m: EmbedMediaView) -> Result<
    Option<ItemView>,
    ResolveError,
> {
    let (w, h) = match m.original_info {
        Some(d) => d,
        None => (None, None),
    };
    if m.kind == "photo"@ {
        match m.media_url_https {
            None => Ok(None),
            Some(src) => match spec_original_image_url(src, image_host()) {
                Err(e) => Err(e),
                Ok(preferred) => Ok(
                    Some(
                        ItemView {
                            id: fallback_id(key, index),
                            kind: ResourceKind::Image,
                            preferred_url: preferred,
                            preview_url: Some(src),
                            width: w,
                            height: h,
                            duration_ms: None,
                            variants: seq![
                                VariantView {
                                    url: preferred,
                                    mime_type: spec_image_mime_type(src),
                                    container: None,
                                    codec: None,
                                    bitrate: None,
                                    size_bytes: None,
                                    width: w,
                                    height: h,
                                },
                            ],
                        },
                    ),
                ),
            },
        }
    } else if m.kind == "video"@ || m.kind == "animated_gif"@ {
        match m.video_info {
            None => Ok(None),
            Some(vi) => {
                let variants = sorted_variants(remote_variants(vi.variants));
                match remote_preferred(variants) {
                    None => Err(ResolveError::InvalidResponse),
                    Some(i) => Ok(
                        Some(
                            ItemView {
                                id: fallback_id(key, index),
                                kind: if m.kind == "animated_gif"@ {
                                    ResourceKind::Animation
                                } else {
                                    ResourceKind::Video
                                },
                                preferred_url: variants[i].url,
                                preview_url: m.media_url_https,
                                width: or_else(w, variants[i].width),
                                height: or_else(h, variants[i].height),
                                duration_ms: vi.duration_millis,
                                variants,
                            },
                        ),
                    ),
                }
            },
        }
    } else {
        Ok(None)
    }
}

/// The resources of the first `n` media, each with HTTPS addresses; the
/// first error ends the walk.
pub open spec fn remote_collect(key: Seq<char>, media: Seq<EmbedMediaView>, n: nat) -> Result<
    Seq<ItemView>,
    ResolveError,
>
    decreases n,
{
    if n == 0 {
        Ok(Seq::empty())
    } else {
        match remote_collect(key, media, (n - 1) as nat) {
            Err(e) => Err(e),
            Ok(acc) => match spec_remote_media(key, (n - 1) as nat, media[n - 1]) {
                Err(e) => Err(e),
                Ok(None) => Ok(acc),
                Ok(Some(it)) => match spec_ensure_item(it) {
                    Err(e) => Err(e),
                    Ok(x) => Ok(acc.push(x)),
                },
            },
        }
    }
}

/// `process` of the standalone adapter.
pub open spec fn spec_remote_process(key: Seq<char>, status: u16, body: Seq<u8>) -> Result<
    BundleView,
    ResolveError,
> {
    match spec_remote_status(status) {
        Some(e) => Err(e),
        None => match json_parse(body) {
            None => Err(ResolveError::InvalidResponse),
            Some(t) => if is_empty_object(t) {
                Err(ResolveError::RemoteNotFound)
            } else {
                match spec_decode_document(t) {
                    None => Err(ResolveError::InvalidResponse),
                    Some(d) => if d.typename == Some("TweetTombstone"@) {
                        Err(ResolveError::RemoteNotFound)
                    } else {
                        match remote_collect(key, d.media_details, d.media_details.len()) {
                            Err(e) => Err(e),
                            Ok(items) => {
                                let found = if items.len() == 0 && d.quoted_tweet is Some {
                                    remote_collect(
                                        key,
                                        d.quoted_tweet->0.media_details,
                                        d.quoted_tweet->0.media_details.len(),
                                    )
                                } else {
                                    Ok(items)
                                };
                                match found {
                                    Err(e) => Err(e),
                                    Ok(all) => if all.len() == 0 {
                                        Err(ResolveError::NoResources)
                                    } else {
                                        Ok(bundle_of(key, all))
                                    },
                                }
                            },
                        }
                    },
                }
            },
        },
    }
}

/// `prepare` of the standalone adapter: the embed request, keyed by the source
/// key, with the caller's token.
pub open spec fn spec_remote_prepare(key: Seq<char>, token: Seq<char>) -> Result<
    RequestView,
    ResolveError,
> {
    if !key_is_valid(key, REMOTE_MIN_KEY_LENGTH as nat, REMOTE_MAX_KEY_LENGTH as nat) {
        Err(ResolveError::InvalidInput)
    } else if token.len() > MAX_URL_CHARS {
        Err(ResolveError::Internal)
    } else {
        match url_appended_pairs(embed_endpoint(), embed_pairs(key, token)) {
            Some(u) => Ok(get_request(key, u)),
            None => Err(ResolveError::Internal),
        }
    }
}

pub fn normalize_variant(variant: &EmbedVariant) -> (r: Option<ResourceVariant>)
    ensures
        match remote_variant(variant@) {
            Some(v) => r matches Some(x) && x@ == v,
            None => r is None,
        },
{
    let mime = match &variant.content_type {
        Some(m) => m,
        None => {
            return None;
        },
    };
    if !chars_are_ignore_case(&chars_of(mime.as_str()), "video/mp4") {
        return None;
    }
    let (width, height) = match dimensions_from_url(variant.url.as_str()) {
        Some(d) => d,
        None => (None, None),
    };
    Some(
        ResourceVariant {
            url: variant.url.clone(),
            mime_type: Some(mime.clone()),
            container: None,
            codec: None,
            bitrate: variant.bitrate,
            size_bytes: None,
            width,
            height,
        },
    )
}

proof fn lemma_first_exact_mp4(s: Seq<VariantView>, from: int)
    requires
        0 <= from <= s.len(),
    ensures
        first_exact_mp4(s, from) matches Some(i) ==> from <= i < s.len(),
    decreases s.len() - from,
{
    if from < s.len() && s[from].mime_type != Some("video/mp4"@) {
        lemma_first_exact_mp4(s, from + 1);
    }
}

fn preferred_exact(variants: &Vec<ResourceVariant>) -> (r: Option<usize>)
    ensures
        match r {
            Some(i) => remote_preferred(variants_view(variants@)) == Some(i as int) && i
                < variants@.len(),
            None => remote_preferred(variants_view(variants@)) is None,
        },
{
    let ghost s = variants_view(variants@);
    proof {
        lemma_first_exact_mp4(s, 0);
    }
    let mut i: usize = 0;
    while i < variants.len()
        invariant
            i <= variants@.len(),
            s == variants_view(variants@),
            first_exact_mp4(s, 0) == first_exact_mp4(s, i as int),
        decreases variants@.len() - i,
    {
        let exact = match &variants[i].mime_type {
            Some(m) => chars_are(&chars_of(m.as_str()), "video/mp4"),
            None => false,
        };
        assert(s[i as int] == variants@[i as int]@);
        if exact {
            return Some(i);
        }
        i = i + 1;
    }
    if variants.len() > 0 {
        Some(0)
    } else {
        None
    }
}

pub fn normalize_media(key: &str, index: usize, media: &EmbedMedia) -> (r: Result<
    Option<ResourceItem>,
    ResolveError,
>)
    ensures
        result_item(r) == spec_remote_media(key@, index as nat, media@),
{
    let (w, h) = match media.original_info {
        Some(d) => d,
        None => (None, None),
    };
    let kind = chars_of(media.kind.as_str());
    if chars_are(&kind, "photo") {
        let src = match &media.media_url_https {
            Some(s) => s,
            None => {
                return Ok(None);
            },
        };
        let preferred_url = match original_image_url(src.as_str()) {
            Ok(u) => u,
            Err(e) => {
                return Err(e);
            },
        };
        let mut variants: Vec<ResourceVariant> = Vec::new();
        variants.push(
            ResourceVariant {
                url: preferred_url.clone(),
                mime_type: image_mime_type(src.as_str()),
                container: None,
                codec: None,
                bitrate: None,
                size_bytes: None,
                width: w,
                height: h,
            },
        );
        let item = ResourceItem {
            id: make_fallback_id(key, index),
            kind: ResourceKind::Image,
            preferred_url,
            preview_url: Some(src.clone()),
            width: w,
            height: h,
            duration_ms: None,
            variants,
        };
        assert(item@.variants =~= seq![item@.variants[0]]);
        Ok(Some(item))
    } else if chars_are(&kind, "video") || chars_are(&kind, "animated_gif") {
        let info = match &media.video_info {
            Some(v) => v,
            None => {
                return Ok(None);
            },
        };
        let ghost source = info@.variants;
        let mut variants: Vec<ResourceVariant> = Vec::new();
        let mut i: usize = 0;
        while i < info.variants.len()
            invariant
                i <= info.variants@.len(),
                source == info@.variants,
                source.len() == info.variants@.len(),
                variants_view(variants@) == remote_variants(source.subrange(0, i as int)),
            decreases info.variants@.len() - i,
        {
            let ghost before = variants_view(variants@);
            assert(source[i as int] == info.variants@[i as int]@);
            assert(source.subrange(0, i as int + 1).drop_last() =~= source.subrange(0, i as int));
            match normalize_variant(&info.variants[i]) {
                Some(v) => {
                    variants.push(v);
                    assert(variants_view(variants@) =~= before.push(
                        remote_variant(source[i as int])->0,
                    ));
                },
                None => {},
            }
            i = i + 1;
        }
        assert(source.subrange(0, i as int) =~= source);
        sort_variants(&mut variants);
        let preferred = match preferred_exact(&variants) {
            Some(p) => p,
            None => {
                return Err(ResolveError::InvalidResponse);
            },
        };
        assert(variants_view(variants@)[preferred as int] == variants@[preferred as int]@);
        let is_animation = chars_are(&kind, "animated_gif");
        let width = match w {
            Some(x) => Some(x),
            None => variants[preferred].width,
        };
        let height = match h {
            Some(x) => Some(x),
            None => variants[preferred].height,
        };
        let item = ResourceItem {
            id: make_fallback_id(key, index),
            kind: if is_animation {
                ResourceKind::Animation
            } else {
                ResourceKind::Video
            },
            preferred_url: variants[preferred].url.clone(),
            preview_url: clone_opt(&media.media_url_https),
            width,
            height,
            duration_ms: info.duration_millis,
            variants,
        };
        Ok(Some(item))
    } else {
        Ok(None)
    }
}

proof fn lemma_remote_collect_err(key: Seq<char>, media: Seq<EmbedMediaView>, k: nat, n: nat)
    requires
        k <= n,
        remote_collect(key, media, k) is Err,
    ensures
        remote_collect(key, media, n) == remote_collect(key, media, k),
    decreases n - k,
{
    if k < n {
        lemma_remote_collect_err(key, media, k, (n - 1) as nat);
    }
}

pub fn collect_resources(key: &str, media: &Vec<EmbedMedia>) -> (r: Result<
    Vec<ResourceItem>,
    ResolveError,
>)
    ensures
        ({
            let mv = media@.map_values(|m: EmbedMedia| m@);
            result_items(r) == remote_collect(key@, mv, mv.len())
        }),
{
    let ghost mv = media@.map_values(|m: EmbedMedia| m@);
    let mut resources: Vec<ResourceItem> = Vec::new();
    assert(crate::model::items_view(resources@) =~= Seq::<ItemView>::empty());
    let mut i: usize = 0;
    while i < media.len()
        invariant
            i <= media@.len(),
            mv == media@.map_values(|m: EmbedMedia| m@),
            remote_collect(key@, mv, i as nat) == Ok::<Seq<ItemView>, ResolveError>(
                crate::model::items_view(resources@),
            ),
        decreases media@.len() - i,
    {
        assert(mv[i as int] == media@[i as int]@);
        let ghost acc = crate::model::items_view(resources@);
        match normalize_media(key, i, &media[i]) {
            Ok(Some(item)) => {
                let mut item = item;
                match ensure_item_urls(&mut item) {
                    Ok(()) => {
                        let ghost iv = item@;
                        resources.push(item);
                        assert(crate::model::items_view(resources@) =~= acc.push(iv));
                    },
                    Err(e) => {
                        proof {
                            lemma_remote_collect_err(key@, mv, (i + 1) as nat, mv.len());
                        }
                        return Err(e);
                    },
                }
            },
            Ok(None) => {},
            Err(e) => {
                proof {
                    lemma_remote_collect_err(key@, mv, (i + 1) as nat, mv.len());
                }
                return Err(e);
            },
        }
        i = i + 1;
    }
    Ok(resources)
}

pub open spec fn result_bundle(r: Result<ResourceBundle, ResolveError>) -> Result<
    BundleView,
    ResolveError,
> {
    match r {
        Ok(b) => Ok(b@),
        Err(e) => Err(e),
    }
}

/// The standalone adapter.
pub struct RemoteAdapter;

impl RemoteAdapter {
    /// Recognises a supported link, with keys of one to nineteen digits.
    pub fn inspect(input: &str) -> (r: Result<InputDescriptor, ResolveError>)
        ensures
            result_descriptor(r) == spec_inspect_with(
                input@,
                REMOTE_MIN_KEY_LENGTH as nat,
                REMOTE_MAX_KEY_LENGTH as nat,
            ),
    {
        inspect_with(input, REMOTE_MIN_KEY_LENGTH, REMOTE_MAX_KEY_LENGTH)
    }

    pub fn prepare(input: &InputDescriptor, token: &str) -> (r: Result<
        PreparedRequest,
        ResolveError,
    >)
        ensures
            result_request(r) == spec_remote_prepare(input.source_key@, token@),
    {
        if validate_source_key(input.source_key.as_str()).is_err() {
            return Err(ResolveError::InvalidInput);
        }
        if chars_of(token).len() > MAX_URL_CHARS {
            return Err(ResolveError::Internal);
        }
        let pairs = embed_query_pairs(input.source_key.as_str(), token);
        match append_url_pairs("https://cdn.syndication.twimg.com/tweet-result", &pairs) {
            Some(url) => Ok(new_get_request(input.source_key.clone(), url)),
            None => Err(ResolveError::Internal),
        }
    }

    pub fn process(input: &InputDescriptor, status: u16, body: &[u8]) -> (r: Result<
        ResourceBundle,
        ResolveError,
    >)
        ensures
            result_bundle(r) == spec_remote_process(input.source_key@, status, body@),
    {
        if status == 404 {
            return Err(ResolveError::RemoteNotFound);
        } else if status == 429 {
            return Err(ResolveError::RateLimited);
        } else if status < 200 || status > 299 {
            return Err(ResolveError::RemoteRejected);
        }
        let value = match parse_json(body) {
            Some(v) => v,
            None => {
                return Err(ResolveError::InvalidResponse);
            },
        };
        if json_is_empty_object(&value) {
            return Err(ResolveError::RemoteNotFound);
        }
        let document = match decode_document(&value) {
            Some(d) => d,
            None => {
                return Err(ResolveError::InvalidResponse);
            },
        };
        let tombstone = match &document.typename {
            Some(t) => chars_are(&chars_of(t.as_str()), "TweetTombstone"),
            None => false,
        };
        if tombstone {
            return Err(ResolveError::RemoteNotFound);
        }
        let key = input.source_key.as_str();
        let mut resources = match collect_resources(key, &document.media_details) {
            Ok(r) => r,
            Err(e) => {
                return Err(e);
            },
        };
        if resources.len() == 0 {
            if let Some(quoted) = &document.quoted_tweet {
                proof {
                    reveal_with_fuel(document_view, 2);
                }
                assert(quoted.media_details@.map_values(|m: EmbedMedia| m@)
                    == document@.quoted_tweet->0.media_details);
                resources = match collect_resources(key, &quoted.media_details) {
                    Ok(r) => r,
                    Err(e) => {
                        return Err(e);
                    },
                };
            }
        }
        if resources.len() == 0 {
            return Err(ResolveError::NoResources);
        }
        Ok(make_bundle(key, resources))
    }
}

proof fn lemma_remote_media_listed(key: Seq<char>, index: nat, m: EmbedMediaView)
    ensures
        spec_remote_media(key, index, m) matches Ok(Some(it)) ==> preferred_listed(it),
{
    let (w, h) = match m.original_info {
        Some(d) => d,
        None => (None, None),
    };
    if m.kind == "photo"@ {
        if let Some(src) = m.media_url_https {
            if let Ok(preferred) = spec_original_image_url(src, image_host()) {
                let it = ItemView {
                    id: fallback_id(key, index),
                    kind: ResourceKind::Image,
                    preferred_url: preferred,
                    preview_url: Some(src),
                    width: w,
                    height: h,
                    duration_ms: None,
                    variants: seq![
                        VariantView {
                            url: preferred,
                            mime_type: spec_image_mime_type(src),
                            container: None,
                            codec: None,
                            bitrate: None,
                            size_bytes: None,
                            width: w,
                            height: h,
                        },
                    ],
                };
                assert(it.variants[0].url == it.preferred_url);
            }
        }
    } else if m.kind == "video"@ || m.kind == "animated_gif"@ {
        if let Some(vi) = m.video_info {
            let variants = sorted_variants(remote_variants(vi.variants));
            lemma_first_exact_mp4(variants, 0);
            if let Some(i) = remote_preferred(variants) {
                let it = ItemView {
                    id: fallback_id(key, index),
                    kind: if m.kind == "animated_gif"@ {
                        ResourceKind::Animation
                    } else {
                        ResourceKind::Video
                    },
                    preferred_url: variants[i].url,
                    preview_url: m.media_url_https,
                    width: or_else(w, variants[i].width),
                    height: or_else(h, variants[i].height),
                    duration_ms: vi.duration_millis,
                    variants,
                };
                assert(it.variants[i].url == it.preferred_url);
            }
        }
    }
}

proof fn lemma_remote_collect_sound(key: Seq<char>, media: Seq<EmbedMediaView>, n: nat)
    ensures
        remote_collect(key, media, n) matches Ok(items) ==> items_sound(items),
    decreases n,
{
    broadcast use lemma_ensured_item_exposed, lemma_ensured_keeps_listing;

    if n > 0 {
        lemma_remote_collect_sound(key, media, (n - 1) as nat);
        if let Ok(acc) = remote_collect(key, media, (n - 1) as nat) {
            lemma_remote_media_listed(key, (n - 1) as nat, media[n - 1]);
            if let Ok(Some(it)) = spec_remote_media(key, (n - 1) as nat, media[n - 1]) {
                if let Ok(x) = spec_ensure_item(it) {
                    assert(item_sound(x));
                    lemma_push_sound(acc, x);
                }
            }
        }
    }
}

/// A bundle of the standalone adapter is of schema 1, for the requested
/// key, non-empty, holds only exposed addresses, and each resource's
/// preferred address is one of its variants'.
pub proof fn lemma_remote_bundle_exposed(key: Seq<char>, status: u16, body: Seq<u8>)
    ensures
        spec_remote_process(key, status, body) matches Ok(b) ==> bundle_exposed(b, key)
            && items_listed(b.resources),
{
    if let Some(t) = json_parse(body) {
        if let Some(d) = spec_decode_document(t) {
            lemma_remote_collect_sound(key, d.media_details, d.media_details.len());
            if let Some(q) = d.quoted_tweet {
                lemma_remote_collect_sound(key, q.media_details, q.media_details.len());
            }
            if let Ok(b) = spec_remote_process(key, status, body) {
                lemma_items_sound(b.resources);
            }
        }
    }
}

} // verus!
