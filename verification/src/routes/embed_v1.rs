//! The embed route: the last route tried.
use crate::adapter::{
    classify_http_status, spec_classify_status, AdapterOutcome, OutcomeView, RouteFailure,
};
use crate::error::ResolveError;
use crate::json::{is_empty_object, json_is_empty_object, json_parse, parse_json};
use crate::model::{
    clone_opt, get_request, items_view, new_get_request, opt_chars, variants_view, InputDescriptor,
    ItemView, PreparedRequest, RequestView, ResourceItem, ResourceKind, ResourceVariant,
    VariantView,
};
use crate::normalize::{
    container_from_url, dimensions_from_url, ensure_item_urls, image_mime_type, items_listed,
    lemma_ensured_item_exposed, lemma_ensured_keeps_listing, lemma_preferred_in_range,
    mime_for_container, original_image_url_for_host, preferred_listed, preferred_variant,
    sort_variants, sorted_variants, spec_container_from_url, spec_dimensions_from_url,
    spec_ensure_item, spec_image_mime_type, spec_mime_for_container, spec_original_image_url,
    spec_preferred_variant, MAX_URL_CHARS,
};
use crate::routes::{
    bundle_exposed, bundle_of, fallback_id, image_host, item_sound, items_sound, lemma_items_sound,
    lemma_push_sound, make_bundle, make_fallback_id, result_item, result_items, result_request,
};
use crate::schema::embed_v1::{
    decode_document, document_view, spec_decode_document, EmbedMedia, EmbedMediaView, EmbedVariant,
    EmbedVariantView,
};
use crate::source::{
    key_is_valid, validate_source_key, MAX_SOURCE_KEY_LENGTH, MIN_SOURCE_KEY_LENGTH,
};
use crate::text::{chars_are, chars_are_ignore_case, chars_of, eq_ignore_case};
use crate::weburl::{append_url_pairs, pairs_fit, pairs_view, url_appended_pairs};
use vstd::prelude::*;

verus! {

pub open spec fn embed_endpoint() -> Seq<char> {
    "https://cdn.syndication.twimg.com/tweet-result"@
}

/// The feature flags that the embed endpoint is asked for, joined by `;`.
pub open spec fn embed_features() -> Seq<char> {
    "tfw_timeline_list:;tfw_follower_count_sunset:true;tfw_tweet_edit_backend:on;tfw_refsrc_session:on;tfw_fosnr_soft_interventions_enabled:on;tfw_show_birdwatch_pivots_enabled:on;tfw_show_business_verified_badge:on;tfw_duplicate_scribes_to_settings:on;tfw_use_profile_image_shape_enabled:on;tfw_show_blue_verified_badge:on;tfw_legacy_timeline_sunset:true;tfw_show_gov_verified_badge:on;tfw_show_business_affiliate_badge:on;tfw_tweet_edit_frontend:on"@
}

/// The query of an embed request: the key, the language, the features and
/// the token, in that order.
pub open spec fn embed_pairs(key: Seq<char>, token: Seq<char>) -> Seq<(Seq<char>, Seq<char>)> {
    seq![("id"@, key), ("lang"@, "en"@), ("features"@, embed_features()), ("token"@, token)]
}

/// The request of the embed route. The key must be valid; the token, which
/// the caller computes from the key, is sent as it is.
pub open spec fn spec_embed_prepare(key: Seq<char>, route_key: Seq<char>, token: Seq<char>) -> Result<
    RequestView,
    ResolveError,
> {
    if !key_is_valid(key, MIN_SOURCE_KEY_LENGTH as nat, MAX_SOURCE_KEY_LENGTH as nat) {
        Err(ResolveError::InvalidInput)
    } else if token.len() > MAX_URL_CHARS {
        Err(ResolveError::Internal)
    } else {
        match url_appended_pairs(embed_endpoint(), embed_pairs(key, token)) {
            Some(u) => Ok(get_request(route_key, u)),
            None => Err(ResolveError::Internal),
        }
    }
}

/// `container_from_mime_type`.
pub open spec fn spec_container_from_mime(m: Seq<char>) -> Option<Seq<char>> {
    if eq_ignore_case(m, "video/mp4"@) {
        Some("mp4"@)
    } else if eq_ignore_case(m, "video/webm"@) {
        Some("webm"@)
    } else if eq_ignore_case(m, "application/x-mpegURL"@) || eq_ignore_case(
        m,
        "application/vnd.apple.mpegurl"@,
    ) {
        Some("m3u8"@)
    } else {
        None
    }
}

/// The variant that one entry of an embed video stands for: the container
/// from the address or else from the content type, the content type or
/// else the container's MIME type, and the dimensions named by the path.
pub open spec fn embed_variant(v: EmbedVariantView) -> VariantView {
    let container = match spec_container_from_url(v.url) {
        Some(c) => Some(c),
        None => match v.content_type {
            Some(m) => spec_container_from_mime(m),
            None => None,
        },
    };
    let dims = spec_dimensions_from_url(v.url);
    VariantView {
        url: v.url,
        mime_type: match v.content_type {
            Some(m) => Some(m),
            None => spec_mime_for_container(container),
        },
        container,
        codec: None,
        bitrate: v.bitrate,
        size_bytes: None,
        width: match dims {
            Some((w, _)) => Some(w),
            None => None,
        },
        height: match dims {
            Some((_, h)) => Some(h),
            None => None,
        },
    }
}

pub open spec fn or_else(a: Option<u32>, b: Option<u32>) -> Option<u32> {
    match a {
        Some(x) => Some(x),
        None => b,
    }
}

/// `normalize_media` of the embed route: photos at their original size,
/// videos and animations with their sorted variants; other media, and media
/// without an address or video information, are left out.
pub open spec fn spec_embed_media(key: Seq<char>, index: nat, m: EmbedMediaView) -> Result<
    Option<ItemView>,
    ResolveError,
> {
    let (w, h) = match m.original_info {
        Some(d) => d,
        None => (None, None),
    };
    if m.kind == "photo"@ {
        match m.media_url_https {
            None => Ok(None),
            Some(src) => match spec_original_image_url(src, image_host()) {
                Err(e) => Err(e),
                Ok(preferred) => Ok(
                    Some(
                        ItemView {
                            id: fallback_id(key, index),
                            kind: ResourceKind::Image,
                            preferred_url: preferred,
                            preview_url: Some(src),
                            width: w,
                            height: h,
                            duration_ms: None,
                            variants: seq![
                                VariantView {
                                    url: preferred,
                                    mime_type: spec_image_mime_type(src),
                                    container: None,
                                    codec: None,
                                    bitrate: None,
                                    size_bytes: None,
                                    width: w,
                                    height: h,
                                },
                            ],
                        },
                    ),
                ),
            },
        }
    } else if m.kind == "video"@ || m.kind == "animated_gif"@ {
        match m.video_info {
            None => Ok(None),
            Some(vi) => {
                let variants = sorted_variants(
                    vi.variants.map_values(|v: EmbedVariantView| embed_variant(v)),
                );
                match spec_preferred_variant(variants) {
                    None => Ok(None),
                    Some(i) => Ok(
                        Some(
                            ItemView {
                                id: fallback_id(key, index),
                                kind: if m.kind == "animated_gif"@ {
                                    ResourceKind::Animation
                                } else {
                                    ResourceKind::Video
                                },
                                preferred_url: variants[i].url,
                                preview_url: m.media_url_https,
                                width: or_else(w, variants[i].width),
                                height: or_else(h, variants[i].height),
                                duration_ms: vi.duration_millis,
                                variants,
                            },
                        ),
                    ),
                }
            },
        }
    } else {
        Ok(None)
    }
}

/// The resources of the first `n` media, each with its addresses required
/// to be HTTPS; the first error ends the walk.
pub open spec fn embed_collect(key: Seq<char>, media: Seq<EmbedMediaView>, n: nat) -> Result<
    Seq<ItemView>,
    ResolveError,
>
    decreases n,
{
    if n == 0 {
        Ok(Seq::empty())
    } else {
        match embed_collect(key, media, (n - 1) as nat) {
            Err(e) => Err(e),
            Ok(acc) => match spec_embed_media(key, (n - 1) as nat, media[n - 1]) {
                Err(e) => Err(e),
                Ok(None) => Ok(acc),
                Ok(Some(it)) => match spec_ensure_item(it) {
                    Err(e) => Err(e),
                    Ok(x) => Ok(acc.push(x)),
                },
            },
        }
    }
}

/// `collect_resources` of the embed route.
pub open spec fn spec_embed_resources(key: Seq<char>, media: Seq<EmbedMediaView>) -> Result<
    Seq<ItemView>,
    ResolveError,
> {
    embed_collect(key, media, media.len())
}

/// `process` of the embed route: an empty object is a missing source, a
/// tombstone an unavailable one; a document resolves with its media, or with
/// those of the document it quotes, or has no resources.
pub open spec fn spec_embed_process(key: Seq<char>, status: u16, body: Seq<u8>) -> OutcomeView {
    match spec_classify_status(status) {
        Some(f) => OutcomeView::Fallback(f),
        None => match json_parse(body) {
            None => OutcomeView::Fallback(RouteFailure::InvalidResponse),
            Some(t) => if is_empty_object(t) {
                OutcomeView::Fallback(RouteFailure::NotFound)
            } else {
                match spec_decode_document(t) {
                    None => OutcomeView::Fallback(RouteFailure::InvalidResponse),
                    Some(d) => if d.typename == Some("TweetTombstone"@) {
                        OutcomeView::Fallback(RouteFailure::Unavailable)
                    } else {
                        match spec_embed_resources(key, d.media_details) {
                            Err(_) => OutcomeView::Fallback(RouteFailure::InvalidResponse),
                            Ok(items) => {
                                let found = if items.len() == 0 && d.quoted_tweet is Some {
                                    spec_embed_resources(key, d.quoted_tweet->0.media_details)
                                } else {
                                    Ok(items)
                                };
                                match found {
                                    Err(_) => OutcomeView::Fallback(RouteFailure::InvalidResponse),
                                    Ok(all) => if all.len() == 0 {
                                        OutcomeView::Fallback(RouteFailure::NoResources)
                                    } else {
                                        OutcomeView::Resolved(bundle_of(key, all))
                                    },
                                }
                            },
                        }
                    },
                }
            },
        },
    }
}

/// The query pairs of an embed request for a key and a token.
pub fn embed_query_pairs(key: &str, token: &str) -> (r: Vec<(String, String)>)
    requires
        key@.len() <= MAX_URL_CHARS,
        token@.len() <= MAX_URL_CHARS,
    ensures
        pairs_view(r@) == embed_pairs(key@, token@),
        pairs_fit(pairs_view(r@)),
        embed_endpoint().len() <= MAX_URL_CHARS,
{
    let mut pairs: Vec<(String, String)> = Vec::new();
    pairs.push(("id".to_owned(), key.to_owned()));
    pairs.push(("lang".to_owned(), "en".to_owned()));
    pairs.push(("features".to_owned(), "tfw_timeline_list:;tfw_follower_count_sunset:true;tfw_tweet_edit_backend:on;tfw_refsrc_session:on;tfw_fosnr_soft_interventions_enabled:on;tfw_show_birdwatch_pivots_enabled:on;tfw_show_business_verified_badge:on;tfw_duplicate_scribes_to_settings:on;tfw_use_profile_image_shape_enabled:on;tfw_show_blue_verified_badge:on;tfw_legacy_timeline_sunset:true;tfw_show_gov_verified_badge:on;tfw_show_business_affiliate_badge:on;tfw_tweet_edit_frontend:on".to_owned()));
    pairs.push(("token".to_owned(), token.to_owned()));
    proof {
        reveal_strlit("id");
        reveal_strlit("lang");
        reveal_strlit("en");
        reveal_strlit("features");
        reveal_strlit("token");
        reveal_strlit("tfw_timeline_list:;tfw_follower_count_sunset:true;tfw_tweet_edit_backend:on;tfw_refsrc_session:on;tfw_fosnr_soft_interventions_enabled:on;tfw_show_birdwatch_pivots_enabled:on;tfw_show_business_verified_badge:on;tfw_duplicate_scribes_to_settings:on;tfw_use_profile_image_shape_enabled:on;tfw_show_blue_verified_badge:on;tfw_legacy_timeline_sunset:true;tfw_show_gov_verified_badge:on;tfw_show_business_affiliate_badge:on;tfw_tweet_edit_frontend:on");
        reveal_strlit("https://cdn.syndication.twimg.com/tweet-result");
    }
    assert(pairs_view(pairs@) =~= embed_pairs(key@, token@));
    pairs
}

pub fn container_from_mime_type(value: &str) -> (r: Option<String>)
    ensures
        opt_chars(r) == spec_container_from_mime(value@),
{
    let m = chars_of(value);
    if chars_are_ignore_case(&m, "video/mp4") {
        Some("mp4".to_owned())
    } else if chars_are_ignore_case(&m, "video/webm") {
        Some("webm".to_owned())
    } else if chars_are_ignore_case(&m, "application/x-mpegURL") || chars_are_ignore_case(
        &m,
        "application/vnd.apple.mpegurl",
    ) {
        Some("m3u8".to_owned())
    } else {
        None
    }
}

pub fn normalize_variant(variant: &EmbedVariant) -> (r: ResourceVariant)
    ensures
        r@ == embed_variant(variant@),
{
    let container = match container_from_url(variant.url.as_str()) {
        Some(c) => Some(c),
        None => match &variant.content_type {
            Some(m) => container_from_mime_type(m.as_str()),
            None => None,
        },
    };
    let mime_type = match &variant.content_type {
        Some(m) => Some(m.clone()),
        None => mime_for_container(&container),
    };
    let (width, height) = match dimensions_from_url(variant.url.as_str()) {
        Some(d) => d,
        None => (None, None),
    };
    ResourceVariant {
        url: variant.url.clone(),
        mime_type,
        container,
        codec: None,
        bitrate: variant.bitrate,
        size_bytes: None,
        width,
        height,
    }
}

pub fn normalize_media(key: &str, index: usize, media: &EmbedMedia) -> (r: Result<
    Option<ResourceItem>,
    ResolveError,
>)
    ensures
        result_item(r) == spec_embed_media(key@, index as nat, media@),
{
    let (w, h) = match media.original_info {
        Some(d) => d,
        None => (None, None),
    };
    let kind = chars_of(media.kind.as_str());
    if chars_are(&kind, "photo") {
        let src = match &media.media_url_https {
            Some(s) => s,
            None => {
                return Ok(None);
            },
        };
        let preferred_url = match original_image_url_for_host(src.as_str(), "pbs.twimg.com") {
            Ok(u) => u,
            Err(e) => {
                return Err(e);
            },
        };
        let mut variants: Vec<ResourceVariant> = Vec::new();
        variants.push(
            ResourceVariant {
                url: preferred_url.clone(),
                mime_type: image_mime_type(src.as_str()),
                container: None,
                codec: None,
                bitrate: None,
                size_bytes: None,
                width: w,
                height: h,
            },
        );
        let item = ResourceItem {
            id: make_fallback_id(key, index),
            kind: ResourceKind::Image,
            preferred_url,
            preview_url: Some(src.clone()),
            width: w,
            height: h,
            duration_ms: None,
            variants,
        };
        assert(item@.variants =~= seq![item@.variants[0]]);
        Ok(Some(item))
    } else if chars_are(&kind, "video") || chars_are(&kind, "animated_gif") {
        let info = match &media.video_info {
            Some(v) => v,
            None => {
                return Ok(None);
            },
        };
        let ghost source = info@.variants.map_values(|v: EmbedVariantView| embed_variant(v));
        let mut variants: Vec<ResourceVariant> = Vec::new();
        let mut i: usize = 0;
        while i < info.variants.len()
            invariant
                i <= info.variants@.len(),
                source == info@.variants.map_values(|v: EmbedVariantView| embed_variant(v)),
                variants_view(variants@) =~= source.subrange(0, i as int),
            decreases info.variants@.len() - i,
        {
            let ghost before = variants_view(variants@);
            let v = normalize_variant(&info.variants[i]);
            variants.push(v);
            assert(info@.variants[i as int] == info.variants@[i as int]@);
            assert(variants_view(variants@) =~= before.push(source[i as int]));
            assert(source.subrange(0, i as int + 1) =~= source.subrange(0, i as int).push(
                source[i as int],
            ));
            i = i + 1;
        }
        assert(source.subrange(0, i as int) =~= source);
        sort_variants(&mut variants);
        let preferred = match preferred_variant(&variants) {
            Some(p) => p,
            None => {
                return Ok(None);
            },
        };
        assert(variants_view(variants@)[preferred as int] == variants@[preferred as int]@);
        let is_animation = chars_are(&kind, "animated_gif");
        let width = match w {
            Some(x) => Some(x),
            None => variants[preferred].width,
        };
        let height = match h {
            Some(x) => Some(x),
            None => variants[preferred].height,
        };
        let item = ResourceItem {
            id: make_fallback_id(key, index),
            kind: if is_animation {
                ResourceKind::Animation
            } else {
                ResourceKind::Video
            },
            preferred_url: variants[preferred].url.clone(),
            preview_url: clone_opt(&media.media_url_https),
            width,
            height,
            duration_ms: info.duration_millis,
            variants,
        };
        Ok(Some(item))
    } else {
        Ok(None)
    }
}

proof fn lemma_embed_collect_err(key: Seq<char>, media: Seq<EmbedMediaView>, k: nat, n: nat)
    requires
        k <= n,
        embed_collect(key, media, k) is Err,
    ensures
        embed_collect(key, media, n) == embed_collect(key, media, k),
    decreases n - k,
{
    if k < n {
        lemma_embed_collect_err(key, media, k, (n - 1) as nat);
    }
}

pub fn collect_resources(key: &str, media: &Vec<EmbedMedia>) -> (r: Result<
    Vec<ResourceItem>,
    ResolveError,
>)
    ensures
        result_items(r) == spec_embed_resources(key@, media@.map_values(|m: EmbedMedia| m@)),
{
    let ghost mv = media@.map_values(|m: EmbedMedia| m@);
    let mut resources: Vec<ResourceItem> = Vec::new();
    assert(items_view(resources@) =~= Seq::<ItemView>::empty());
    let mut i: usize = 0;
    while i < media.len()
        invariant
            i <= media@.len(),
            mv == media@.map_values(|m: EmbedMedia| m@),
            embed_collect(key@, mv, i as nat) == Ok::<Seq<ItemView>, ResolveError>(
                items_view(resources@),
            ),
        decreases media@.len() - i,
    {
        assert(mv[i as int] == media@[i as int]@);
        let ghost acc = items_view(resources@);
        match normalize_media(key, i, &media[i]) {
            Ok(Some(item)) => {
                let mut item = item;
                match ensure_item_urls(&mut item) {
                    Ok(()) => {
                        let ghost iv = item@;
                        resources.push(item);
                        assert(items_view(resources@) =~= acc.push(iv));
                    },
                    Err(e) => {
                        proof {
                            lemma_embed_collect_err(key@, mv, (i + 1) as nat, mv.len());
                        }
                        return Err(e);
                    },
                }
            },
            Ok(None) => {},
            Err(e) => {
                proof {
                    lemma_embed_collect_err(key@, mv, (i + 1) as nat, mv.len());
                }
                return Err(e);
            },
        }
        i = i + 1;
    }
    Ok(resources)
}

/// The embed route.
pub struct EmbedV1Adapter;

impl EmbedV1Adapter {
    pub fn prepare(&self, input: &InputDescriptor, route_key: &str, token: &str) -> (r: Result<
        PreparedRequest,
        ResolveError,
    >)
        ensures
            result_request(r) == spec_embed_prepare(input.source_key@, route_key@, token@),
    {
        if validate_source_key(input.source_key.as_str()).is_err() {
            return Err(ResolveError::InvalidInput);
        }
        if chars_of(token).len() > MAX_URL_CHARS {
            return Err(ResolveError::Internal);
        }
        let pairs = embed_query_pairs(input.source_key.as_str(), token);
        match append_url_pairs("https://cdn.syndication.twimg.com/tweet-result", &pairs) {
            Some(url) => Ok(new_get_request(route_key.to_owned(), url)),
            None => Err(ResolveError::Internal),
        }
    }

    pub fn process(&self, input: &InputDescriptor, status: u16, body: &[u8]) -> (r: AdapterOutcome)
        ensures
            r@ == spec_embed_process(input.source_key@, status, body@),
    {
        if let Some(outcome) = classify_http_status(status) {
            return outcome;
        }
        let value = match parse_json(body) {
            Some(v) => v,
            None => {
                return AdapterOutcome::Fallback(RouteFailure::InvalidResponse);
            },
        };
        if json_is_empty_object(&value) {
            return AdapterOutcome::Fallback(RouteFailure::NotFound);
        }
        let document = match decode_document(&value) {
            Some(d) => d,
            None => {
                return AdapterOutcome::Fallback(RouteFailure::InvalidResponse);
            },
        };
        let tombstone = match &document.typename {
            Some(t) => chars_are(&chars_of(t.as_str()), "TweetTombstone"),
            None => false,
        };
        if tombstone {
            return AdapterOutcome::Fallback(RouteFailure::Unavailable);
        }
        let key = input.source_key.as_str();
        let mut resources = match collect_resources(key, &document.media_details) {
            Ok(r) => r,
            Err(_) => {
                return AdapterOutcome::Fallback(RouteFailure::InvalidResponse);
            },
        };
        if resources.len() == 0 {
            if let Some(quoted) = &document.quoted_tweet {
                proof {
                    reveal_with_fuel(document_view, 2);
                }
                assert(quoted.media_details@.map_values(|m: EmbedMedia| m@)
                    == document@.quoted_tweet->0.media_details);
                resources = match collect_resources(key, &quoted.media_details) {
                    Ok(r) => r,
                    Err(_) => {
                        return AdapterOutcome::Fallback(RouteFailure::InvalidResponse);
                    },
                };
            }
        }
        if resources.len() == 0 {
            return AdapterOutcome::Fallback(RouteFailure::NoResources);
        }
        AdapterOutcome::Resolved(make_bundle(key, resources))
    }
}

proof fn lemma_embed_media_listed(key: Seq<char>, index: nat, m: EmbedMediaView)
    ensures
        spec_embed_media(key, index, m) matches Ok(Some(it)) ==> preferred_listed(it),
{
    let (w, h) = match m.original_info {
        Some(d) => d,
        None => (None, None),
    };
    if m.kind == "photo"@ {
        if let Some(src) = m.media_url_https {
            if let Ok(preferred) = spec_original_image_url(src, image_host()) {
                let it = ItemView {
                    id: fallback_id(key, index),
                    kind: ResourceKind::Image,
                    preferred_url: preferred,
                    preview_url: Some(src),
                    width: w,
                    height: h,
                    duration_ms: None,
                    variants: seq![
                        VariantView {
                            url: preferred,
                            mime_type: spec_image_mime_type(src),
                            container: None,
                            codec: None,
                            bitrate: None,
                            size_bytes: None,
                            width: w,
                            height: h,
                        },
                    ],
                };
                assert(it.variants[0].url == it.preferred_url);
            }
        }
    } else if m.kind == "video"@ || m.kind == "animated_gif"@ {
        if let Some(vi) = m.video_info {
            let variants = sorted_variants(
                vi.variants.map_values(|v: EmbedVariantView| embed_variant(v)),
            );
            lemma_preferred_in_range(variants);
            if let Some(i) = spec_preferred_variant(variants) {
                let it = ItemView {
                    id: fallback_id(key, index),
                    kind: if m.kind == "animated_gif"@ {
                        ResourceKind::Animation
                    } else {
                        ResourceKind::Video
                    },
                    preferred_url: variants[i].url,
                    preview_url: m.media_url_https,
                    width: or_else(w, variants[i].width),
                    height: or_else(h, variants[i].height),
                    duration_ms: vi.duration_millis,
                    variants,
                };
                assert(it.variants[i].url == it.preferred_url);
            }
        }
    }
}

proof fn lemma_embed_collect_sound(key: Seq<char>, media: Seq<EmbedMediaView>, n: nat)
    ensures
        embed_collect(key, media, n) matches Ok(items) ==> items_sound(items),
    decreases n,
{
    broadcast use lemma_ensured_item_exposed, lemma_ensured_keeps_listing;

    if n > 0 {
        lemma_embed_collect_sound(key, media, (n - 1) as nat);
        if let Ok(acc) = embed_collect(key, media, (n - 1) as nat) {
            lemma_embed_media_listed(key, (n - 1) as nat, media[n - 1]);
            if let Ok(Some(it)) = spec_embed_media(key, (n - 1) as nat, media[n - 1]) {
                if let Ok(x) = spec_ensure_item(it) {
                    assert(item_sound(x));
                    lemma_push_sound(acc, x);
                }
            }
        }
    }
}

/// Whatever the response, a bundle that the embed route resolves holds
/// only exposed addresses, for the requested key, and each resource's
/// preferred address is one of its variants'.
pub proof fn lemma_embed_resolved_exposed(key: Seq<char>, status: u16, body: Seq<u8>)
    ensures
        spec_embed_process(key, status, body) matches OutcomeView::Resolved(b) ==> bundle_exposed(
            b,
            key,
        ) && items_listed(b.resources),
{
    if let Some(t) = json_parse(body) {
        if let Some(d) = spec_decode_document(t) {
            lemma_embed_collect_sound(key, d.media_details, d.media_details.len());
            if let Some(q) = d.quoted_tweet {
                lemma_embed_collect_sound(key, q.media_details, q.media_details.len());
            }
            if let OutcomeView::Resolved(b) = spec_embed_process(key, status, body) {
                lemma_items_sound(b.resources);
            }
        }
    }
}

/// A photo of the embed route is exposed at its original size on
/// `pbs.twimg.com`: its preferred address, and its one variant's, is the
/// source address rewritten to `format=<format>&name=orig` on that host, the
/// source address is its preview, and it keeps the photo's own dimensions;
/// where the source address cannot be rewritten, the route fails.
pub proof fn lemma_embed_photos_at_original_size(
    key: Seq<char>,
    index: nat,
    m: EmbedMediaView,
    src: Seq<char>,
)
    requires
        m.kind == "photo"@,
        m.media_url_https == Some(src),
    ensures
        spec_original_image_url(src, "pbs.twimg.com"@) matches Ok(p) ==> (spec_embed_media(
            key,
            index,
            m,
        ) matches Ok(Some(it)) && it.kind == ResourceKind::Image && it.preferred_url == p
            && it.preview_url == Some(src) && it.variants.len() == 1 && it.variants[0].url == p
            && it.width == (match m.original_info {
            Some(d) => d.0,
            None => None,
        }) && it.height == (match m.original_info {
            Some(d) => d.1,
            None => None,
        })),
        spec_original_image_url(src, "pbs.twimg.com"@) matches Err(e) ==> spec_embed_media(
            key,
            index,
            m,
        ) == Err::<Option<ItemView>, ResolveError>(e),
{
}

/// A video or animated gif of the embed route is an animation exactly when
/// it is an animated gif, is previewed by its source address, lasts the
/// milliseconds its video information gives, and its preferred address is
/// one of its variants'; media of other types give no resource.
pub proof fn lemma_embed_videos(key: Seq<char>, index: nat, m: EmbedMediaView)
    ensures
        m.kind != "photo"@ && m.kind != "video"@ && m.kind != "animated_gif"@ ==> spec_embed_media(
            key,
            index,
            m,
        ) == Ok::<Option<ItemView>, ResolveError>(None),
        (m.kind == "video"@ || m.kind == "animated_gif"@) ==> (spec_embed_media(key, index, m) matches Ok(
            Some(it),
        ) ==> {
            &&& (it.kind == ResourceKind::Animation) == (m.kind == "animated_gif"@)
            &&& it.kind == ResourceKind::Animation || it.kind == ResourceKind::Video
            &&& it.preview_url == m.media_url_https
            &&& m.video_info is Some
            &&& it.duration_ms == m.video_info->0.duration_millis
            &&& exists|i: int| 0 <= i < it.variants.len() && it.variants[i].url == it.preferred_url
        }),
{
    reveal_strlit("photo");
    reveal_strlit("video");
    reveal_strlit("animated_gif");
    assert("photo"@[0] != "video"@[0]);
    assert("photo"@.len() != "animated_gif"@.len());
    assert("video"@.len() != "animated_gif"@.len());
    if (m.kind == "video"@ || m.kind == "animated_gif"@) {
        if let Ok(Some(it)) = spec_embed_media(key, index, m) {
            lemma_preferred_in_range(it.variants);
            let i = spec_preferred_variant(it.variants)->0;
            assert(it.variants[i].url == it.preferred_url);
        }
    }
}

} // verus!
