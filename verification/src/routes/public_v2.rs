//! The public status route: the first route tried.
use crate::adapter::{
    classify_http_status, spec_classify_status, AdapterOutcome, OutcomeView, RouteFailure,
};
use crate::duration::{duration_ms_from_seconds, spec_duration_ms};
use crate::error::ResolveError;
use crate::json::{json_get, tree_get, JsonTree, JsonValue};
use crate::model::{
    clone_opt, get_request, items_view, new_get_request, opt_chars, variants_view, InputDescriptor,
    ItemView, PreparedRequest, RequestView, ResourceItem, ResourceKind, ResourceVariant,
    VariantView,
};
use crate::normalize::{
    container_from_url, ensure_item_urls, image_mime_type, items_listed, lemma_ensured_item_exposed,
    lemma_ensured_keeps_listing, lemma_preferred_in_range, lemma_sorted_variants,
    mime_for_container, original_image_url_for_host, preferred_listed, preferred_variant,
    sort_variants, sorted_variants, spec_container_from_url, spec_ensure_item, spec_image_mime_type,
    spec_mime_for_container, spec_original_image_url, spec_preferred_variant, spec_require_https,
    MAX_URL_CHARS,
};
use crate::schema::public_v2::{
    decode_photo, decode_status, decode_tombstone, decode_video, spec_decode_photo,
    spec_decode_status, spec_decode_tombstone, spec_decode_video, FormatView,
    MediaView, PhotoView, PublicMedia, PublicPhoto, PublicResponse, PublicVideo, PublicVideoFormat,
    ResponseView, VideoView, opt_response,
};
use crate::text::{chars_are, chars_of, decimal, lower_seq, lowercase, string_of};
use crate::weburl::{push_url_segment, url_pushed_segment};
use crate::routes::{
    bundle_exposed, bundle_of, fallback_id, image_host, item_sound, items_sound, lemma_items_sound,
    lemma_push_sound, make_bundle, make_fallback_id, result_item, result_items, result_request,
};
use vstd::prelude::*;

verus! {

pub open spec fn public_endpoint() -> Seq<char> {
    "https://api.fxtwitter.com/2/status"@
}

/// A remote identifier when it is non-empty, else the positional one.
pub open spec fn choose_id(id: Option<Seq<char>>, key: Seq<char>, index: nat) -> Seq<char> {
    match id {
        Some(s) => if s.len() > 0 {
            s
        } else {
            fallback_id(key, index)
        },
        None => fallback_id(key, index),
    }
}

pub fn make_id(id: &Option<String>, key: &str, index: usize) -> (r: String)
    ensures
        r@ == choose_id(opt_chars(*id), key@, index as nat),
{
    match id {
        Some(s) => if !s.as_str().is_empty() {
            s.clone()
        } else {
            make_fallback_id(key, index)
        },
        None => make_fallback_id(key, index),
    }
}

pub open spec fn ensured(i: ItemView) -> Result<Option<ItemView>, ResolveError> {
    match spec_ensure_item(i) {
        Ok(x) => Ok(Some(x)),
        Err(e) => Err(e),
    }
}

/// `normalize_photo` of the public route: an animation when the photo is a
/// `gif` with a transcoded file, otherwise an image at its original size.
pub open spec fn spec_public_photo(key: Seq<char>, index: nat, p: PhotoView) -> Result<
    Option<ItemView>,
    ResolveError,
> {
    let id = choose_id(p.id, key, index);
    if p.kind == "gif"@ && p.transcode_url is Some {
        let tu = p.transcode_url->0;
        let container = spec_container_from_url(tu);
        let variants = sorted_variants(
            seq![
                VariantView {
                    url: tu,
                    mime_type: spec_mime_for_container(container),
                    container,
                    codec: None,
                    bitrate: None,
                    size_bytes: None,
                    width: Some(p.width),
                    height: Some(p.height),
                },
            ],
        );
        match spec_preferred_variant(variants) {
            None => Ok(None),
            Some(i) => ensured(
                ItemView {
                    id,
                    kind: ResourceKind::Animation,
                    preferred_url: variants[i].url,
                    preview_url: Some(p.url),
                    width: Some(p.width),
                    height: Some(p.height),
                    duration_ms: None,
                    variants,
                },
            ),
        }
    } else {
        match spec_original_image_url(p.url, image_host()) {
            Err(e) => Err(e),
            Ok(preferred) => ensured(
                ItemView {
                    id,
                    kind: ResourceKind::Image,
                    preferred_url: preferred,
                    preview_url: Some(p.url),
                    width: Some(p.width),
                    height: Some(p.height),
                    duration_ms: None,
                    variants: seq![
                        VariantView {
                            url: preferred,
                            mime_type: spec_image_mime_type(p.url),
                            container: None,
                            codec: None,
                            bitrate: None,
                            size_bytes: None,
                            width: Some(p.width),
                            height: Some(p.height),
                        },
                    ],
                },
            ),
        }
    }
}

pub fn normalize_photo(key: &str, index: usize, photo: &PublicPhoto) -> (r: Result<
    Option<ResourceItem>,
    ResolveError,
>)
    ensures
        result_item(r) == spec_public_photo(key@, index as nat, photo@),
{
    let id = make_id(&photo.id, key, index);
    let is_gif = chars_are(&chars_of(photo.kind.as_str()), "gif");
    if is_gif {
        if let Some(transcode_url) = &photo.transcode_url {
            let container = container_from_url(transcode_url.as_str());
            let mime_type = mime_for_container(&container);
            let mut variants: Vec<ResourceVariant> = Vec::new();
            variants.push(
                ResourceVariant {
                    url: transcode_url.clone(),
                    mime_type,
                    container,
                    codec: None,
                    bitrate: None,
                    size_bytes: None,
                    width: Some(photo.width),
                    height: Some(photo.height),
                },
            );
            let ghost unsorted = variants_view(variants@);
            assert(unsorted =~= seq![variants@[0]@]);
            sort_variants(&mut variants);
            let preferred = match preferred_variant(&variants) {
                Some(i) => i,
                None => {
                    return Ok(None);
                },
            };
            assert(variants_view(variants@)[preferred as int] == variants@[preferred as int]@);
            let mut item = ResourceItem {
                id,
                kind: ResourceKind::Animation,
                preferred_url: variants[preferred].url.clone(),
                preview_url: Some(photo.url.clone()),
                width: Some(photo.width),
                height: Some(photo.height),
                duration_ms: None,
                variants,
            };
            return match ensure_item_urls(&mut item) {
                Ok(()) => Ok(Some(item)),
                Err(e) => Err(e),
            };
        }
    }
    let preferred_url = original_image_url_for_host(photo.url.as_str(), "pbs.twimg.com")?;
    let mut variants: Vec<ResourceVariant> = Vec::new();
    variants.push(
        ResourceVariant {
            url: preferred_url.clone(),
            mime_type: image_mime_type(photo.url.as_str()),
            container: None,
            codec: None,
            bitrate: None,
            size_bytes: None,
            width: Some(photo.width),
            height: Some(photo.height),
        },
    );
    let mut item = ResourceItem {
        id,
        kind: ResourceKind::Image,
        preferred_url,
        preview_url: Some(photo.url.clone()),
        width: Some(photo.width),
        height: Some(photo.height),
        duration_ms: None,
        variants,
    };
    assert(item@.variants =~= seq![item@.variants[0]]);
    match ensure_item_urls(&mut item) {
        Ok(()) => Ok(Some(item)),
        Err(e) => Err(e),
    }
}

/// The variant that one format of a video stands for.
pub open spec fn format_variant(f: FormatView) -> VariantView {
    let container = match f.container {
        Some(c) => Some(lower_seq(c)),
        None => spec_container_from_url(f.url),
    };
    VariantView {
        url: f.url,
        mime_type: spec_mime_for_container(container),
        container,
        codec: match f.codec {
            Some(c) => Some(lower_seq(c)),
            None => None,
        },
        bitrate: f.bitrate,
        size_bytes: f.size,
        width: f.width,
        height: f.height,
    }
}

pub open spec fn has_url(vs: Seq<VariantView>, u: Seq<char>) -> bool {
    exists|i: int| 0 <= i < vs.len() && (#[trigger] vs[i]).url == u
}

/// The variants of a video: its formats, and its own address when no format
/// has it.
pub open spec fn video_variants(v: VideoView) -> Seq<VariantView> {
    let base = v.formats.map_values(|f: FormatView| format_variant(f));
    if has_url(base, v.url) {
        base
    } else {
        let container = spec_container_from_url(v.url);
        base.push(
            VariantView {
                url: v.url,
                mime_type: spec_mime_for_container(container),
                container,
                codec: None,
                bitrate: None,
                size_bytes: v.filesize,
                width: Some(v.width),
                height: Some(v.height),
            },
        )
    }
}

/// `normalize_video` of the public route.
pub open spec fn spec_public_video(key: Seq<char>, index: nat, v: VideoView) -> Result<
    Option<ItemView>,
    ResolveError,
> {
    let variants = sorted_variants(video_variants(v));
    match spec_preferred_variant(variants) {
        None => Ok(None),
        Some(i) => ensured(
            ItemView {
                id: choose_id(v.id, key, index),
                kind: if v.kind == "gif"@ {
                    ResourceKind::Animation
                } else {
                    ResourceKind::Video
                },
                preferred_url: variants[i].url,
                preview_url: v.thumbnail_url,
                width: Some(v.width),
                height: Some(v.height),
                duration_ms: match v.duration {
                    Some(t) => spec_duration_ms(t),
                    None => None,
                },
                variants,
            },
        ),
    }
}

pub fn lowercase_opt(s: &Option<String>) -> (r: Option<String>)
    ensures
        opt_chars(r) == (match opt_chars(*s) {
            Some(c) => Some(lower_seq(c)),
            None => None,
        }),
{
    match s {
        Some(c) => Some(string_of(&lowercase(&chars_of(c.as_str())))),
        None => None,
    }
}

pub fn variant_of_format(f: &PublicVideoFormat) -> (r: ResourceVariant)
    ensures
        r@ == format_variant(f@),
{
    let container = match &f.container {
        Some(c) => Some(string_of(&lowercase(&chars_of(c.as_str())))),
        None => container_from_url(f.url.as_str()),
    };
    ResourceVariant {
        url: f.url.clone(),
        mime_type: mime_for_container(&container),
        container,
        codec: lowercase_opt(&f.codec),
        bitrate: f.bitrate,
        size_bytes: f.size,
        width: f.width,
        height: f.height,
    }
}

pub fn normalize_video(key: &str, index: usize, video: &PublicVideo) -> (r: Result<
    Option<ResourceItem>,
    ResolveError,
>)
    ensures
        result_item(r) == spec_public_video(key@, index as nat, video@),
{
    let ghost base = video@.formats.map_values(|f: FormatView| format_variant(f));
    let mut variants: Vec<ResourceVariant> = Vec::new();
    let mut present = false;
    let mut i: usize = 0;
    while i < video.formats.len()
        invariant
            i <= video.formats@.len(),
            base == video@.formats.map_values(|f: FormatView| format_variant(f)),
            variants_view(variants@) =~= base.subrange(0, i as int),
            present == has_url(base.subrange(0, i as int), video.url@),
        decreases video.formats@.len() - i,
    {
        let v = variant_of_format(&video.formats[i]);
        let same = v.url == video.url;
        let ghost before = base.subrange(0, i as int);
        variants.push(v);
        proof {
            let after = base.subrange(0, i as int + 1);
            assert(after =~= before.push(format_variant(video@.formats[i as int])));
            if present {
                let k = choose|k: int| 0 <= k < before.len() && (#[trigger] before[k]).url
                    == video.url@;
                assert(after[k] == before[k]);
            }
            if same {
                assert(after[i as int].url == video.url@);
            }
            if has_url(after, video.url@) && !present {
                let k = choose|k: int| 0 <= k < after.len() && (#[trigger] after[k]).url
                    == video.url@;
                if k < i {
                    assert(before[k] == after[k]);
                }
            }
        }
        present = present || same;
        i = i + 1;
    }
    assert(base.subrange(0, i as int) =~= base);
    if !present {
        let container = container_from_url(video.url.as_str());
        let mime_type = mime_for_container(&container);
        variants.push(
            ResourceVariant {
                url: video.url.clone(),
                mime_type,
                container,
                codec: None,
                bitrate: None,
                size_bytes: video.filesize,
                width: Some(video.width),
                height: Some(video.height),
            },
        );
    }
    assert(variants_view(variants@) =~= video_variants(video@));
    sort_variants(&mut variants);
    let preferred = match preferred_variant(&variants) {
        Some(i) => i,
        None => {
            return Ok(None);
        },
    };
    let duration_ms = match &video.duration {
        Some(t) => duration_ms_from_seconds(*t),
        None => None,
    };
    let kind = if chars_are(&chars_of(video.kind.as_str()), "gif") {
        ResourceKind::Animation
    } else {
        ResourceKind::Video
    };
    let mut item = ResourceItem {
        id: make_id(&video.id, key, index),
        kind,
        preferred_url: variants[preferred].url.clone(),
        preview_url: clone_opt(&video.thumbnail_url),
        width: Some(video.width),
        height: Some(video.height),
        duration_ms,
        variants,
    };
    match ensure_item_urls(&mut item) {
        Ok(()) => Ok(Some(item)),
        Err(e) => Err(e),
    }
}

/// The public route never leaves out a photo or a video that it decoded:
/// every one gives a resource or an error.
pub proof fn lemma_public_entries_present(key: Seq<char>, index: nat, p: PhotoView, v: VideoView)
    ensures
        !(spec_public_photo(key, index, p) matches Ok(None)),
        !(spec_public_video(key, index, v) matches Ok(None)),
{
    if p.kind == "gif"@ && p.transcode_url is Some {
        let tu = p.transcode_url->0;
        let container = spec_container_from_url(tu);
        let one = seq![
            VariantView {
                url: tu,
                mime_type: spec_mime_for_container(container),
                container,
                codec: None,
                bitrate: None,
                size_bytes: None,
                width: Some(p.width),
                height: Some(p.height),
            },
        ];
        lemma_sorted_variants(one);
    }
    let all = video_variants(v);
    let base = v.formats.map_values(|f: FormatView| format_variant(f));
    if has_url(base, v.url) {
        let k = choose|k: int| 0 <= k < base.len() && (#[trigger] base[k]).url == v.url;
        assert(all.len() > 0);
    }
    lemma_sorted_variants(all);
}

/// How one entry of the mixed media list is read: photos, videos and
/// animations (as videos when they list formats, else as photos); an entry
/// that does not decode, or of another type, is left out.
pub open spec fn spec_all_entry(key: Seq<char>, index: nat, t: JsonTree) -> Result<
    Option<ItemView>,
    ResolveError,
> {
    match tree_get(t, "type"@) {
        Some(JsonTree::Str(kind)) => if kind == "photo"@ || (kind == "gif"@ && tree_get(
            t,
            "formats"@,
        ) is None) {
            match spec_decode_photo(t) {
                Some(p) => spec_public_photo(key, index, p),
                None => Ok(None),
            }
        } else if kind == "video"@ || kind == "gif"@ {
            match spec_decode_video(t) {
                Some(v) => spec_public_video(key, index, v),
                None => Ok(None),
            }
        } else {
            Ok(None)
        },
        _ => Ok(None),
    }
}

/// The resources of the first `n` entries of the mixed list, numbered from
/// `start.len()` on.
pub open spec fn collect_all(key: Seq<char>, all: Seq<JsonTree>, n: nat) -> Result<
    Seq<ItemView>,
    ResolveError,
>
    decreases n,
{
    if n == 0 {
        Ok(Seq::empty())
    } else {
        match collect_all(key, all, (n - 1) as nat) {
            Err(e) => Err(e),
            Ok(acc) => match spec_all_entry(key, acc.len(), all[n - 1]) {
                Err(e) => Err(e),
                Ok(None) => Ok(acc),
                Ok(Some(it)) => Ok(acc.push(it)),
            },
        }
    }
}

/// The resources of the first `n` typed photos.
pub open spec fn collect_photos(key: Seq<char>, photos: Seq<PhotoView>, n: nat) -> Result<
    Seq<ItemView>,
    ResolveError,
>
    decreases n,
{
    if n == 0 {
        Ok(Seq::empty())
    } else {
        match collect_photos(key, photos, (n - 1) as nat) {
            Err(e) => Err(e),
            Ok(acc) => match spec_public_photo(key, acc.len(), photos[n - 1]) {
                Err(e) => Err(e),
                Ok(None) => Ok(acc),
                Ok(Some(it)) => Ok(acc.push(it)),
            },
        }
    }
}

/// The resources of the first `n` typed videos, after those in `start`.
pub open spec fn collect_videos(
    key: Seq<char>,
    videos: Seq<VideoView>,
    n: nat,
    start: Seq<ItemView>,
) -> Result<Seq<ItemView>, ResolveError>
    decreases n,
{
    if n == 0 {
        Ok(start)
    } else {
        match collect_videos(key, videos, (n - 1) as nat, start) {
            Err(e) => Err(e),
            Ok(acc) => match spec_public_video(key, acc.len(), videos[n - 1]) {
                Err(e) => Err(e),
                Ok(None) => Ok(acc),
                Ok(Some(it)) => Ok(acc.push(it)),
            },
        }
    }
}

proof fn lemma_collect_all_err(key: Seq<char>, all: Seq<JsonTree>, k: nat, n: nat)
    requires
        k <= n,
        collect_all(key, all, k) is Err,
    ensures
        collect_all(key, all, n) == collect_all(key, all, k),
    decreases n - k,
{
    if k < n {
        lemma_collect_all_err(key, all, k, (n - 1) as nat);
    }
}

proof fn lemma_collect_photos_err(key: Seq<char>, photos: Seq<PhotoView>, k: nat, n: nat)
    requires
        k <= n,
        collect_photos(key, photos, k) is Err,
    ensures
        collect_photos(key, photos, n) == collect_photos(key, photos, k),
    decreases n - k,
{
    if k < n {
        lemma_collect_photos_err(key, photos, k, (n - 1) as nat);
    }
}

proof fn lemma_collect_videos_err(
    key: Seq<char>,
    videos: Seq<VideoView>,
    k: nat,
    n: nat,
    start: Seq<ItemView>,
)
    requires
        k <= n,
        collect_videos(key, videos, k, start) is Err,
    ensures
        collect_videos(key, videos, n, start) == collect_videos(key, videos, k, start),
    decreases n - k,
{
    if k < n {
        lemma_collect_videos_err(key, videos, k, (n - 1) as nat, start);
    }
}

pub open spec fn collect_typed(key: Seq<char>, m: MediaView) -> Result<Seq<ItemView>, ResolveError> {
    match collect_photos(key, m.photos, m.photos.len()) {
        Err(e) => Err(e),
        Ok(r) => collect_videos(key, m.videos, m.videos.len(), r),
    }
}

/// `collect_resources` of the public route: the mixed list first; when it
/// gives nothing, the typed photos and then the typed videos.
pub open spec fn spec_collect_public(key: Seq<char>, m: MediaView) -> Result<
    Seq<ItemView>,
    ResolveError,
> {
    if m.all.len() > 0 {
        match collect_all(key, m.all, m.all.len()) {
            Err(e) => Err(e),
            Ok(r) => if r.len() > 0 {
                Ok(r)
            } else {
                collect_typed(key, m)
            },
        }
    } else {
        collect_typed(key, m)
    }
}

pub fn all_entry(key: &str, index: usize, item: &JsonValue) -> (r: Result<
    Option<ResourceItem>,
    ResolveError,
>)
    ensures
        result_item(r) == spec_all_entry(key@, index as nat, item@),
{
    let kind = match json_get(item, "type") {
        Some(JsonValue::Str(k)) => chars_of(k.as_str()),
        _ => {
            return Ok(None);
        },
    };
    let has_formats = json_get(item, "formats").is_some();
    if chars_are(&kind, "photo") || (chars_are(&kind, "gif") && !has_formats) {
        match decode_photo(item) {
            Some(p) => normalize_photo(key, index, &p),
            None => Ok(None),
        }
    } else if chars_are(&kind, "video") || chars_are(&kind, "gif") {
        match decode_video(item) {
            Some(v) => normalize_video(key, index, &v),
            None => Ok(None),
        }
    } else {
        Ok(None)
    }
}

fn collect_typed_exec(key: &str, media: &PublicMedia) -> (r: Result<Vec<ResourceItem>, ResolveError>)
    ensures
        result_items(r) == collect_typed(key@, media@),
{
    let ghost m = media@;
    let mut resources: Vec<ResourceItem> = Vec::new();
    assert(items_view(resources@) =~= Seq::<ItemView>::empty());
    let mut i: usize = 0;
    while i < media.photos.len()
        invariant
            m == media@,
            i <= media.photos@.len(),
            collect_photos(key@, m.photos, i as nat) == Ok::<Seq<ItemView>, ResolveError>(
                items_view(resources@),
            ),
        decreases media.photos@.len() - i,
    {
        assert(m.photos[i as int] == media.photos@[i as int]@);
        let ghost acc = items_view(resources@);
        match normalize_photo(key, resources.len(), &media.photos[i]) {
            Ok(Some(item)) => {
                let ghost iv = item@;
                resources.push(item);
                assert(items_view(resources@) =~= acc.push(iv));
            },
            Ok(None) => {},
            Err(e) => {
                proof {
                    lemma_collect_photos_err(key@, m.photos, (i + 1) as nat, m.photos.len());
                }
                return Err(e);
            },
        }
        i = i + 1;
    }
    let ghost typed_start = items_view(resources@);
    let mut j: usize = 0;
    while j < media.videos.len()
        invariant
            m == media@,
            j <= media.videos@.len(),
            collect_photos(key@, m.photos, m.photos.len()) == Ok::<Seq<ItemView>, ResolveError>(
                typed_start,
            ),
            collect_videos(key@, m.videos, j as nat, typed_start) == Ok::<
                Seq<ItemView>,
                ResolveError,
            >(items_view(resources@)),
        decreases media.videos@.len() - j,
    {
        assert(m.videos[j as int] == media.videos@[j as int]@);
        let ghost acc = items_view(resources@);
        match normalize_video(key, resources.len(), &media.videos[j]) {
            Ok(Some(item)) => {
                let ghost iv = item@;
                resources.push(item);
                assert(items_view(resources@) =~= acc.push(iv));
            },
            Ok(None) => {},
            Err(e) => {
                proof {
                    lemma_collect_videos_err(
                        key@,
                        m.videos,
                        (j + 1) as nat,
                        m.videos.len(),
                        typed_start,
                    );
                }
                return Err(e);
            },
        }
        j = j + 1;
    }
    Ok(resources)
}

pub fn collect_resources(key: &str, media: &PublicMedia) -> (r: Result<
    Vec<ResourceItem>,
    ResolveError,
>)
    ensures
        result_items(r) == spec_collect_public(key@, media@),
{
    let ghost m = media@;
    if media.all.len() > 0 {
        let mut resources: Vec<ResourceItem> = Vec::new();
        assert(items_view(resources@) =~= Seq::<ItemView>::empty());
        let mut i: usize = 0;
        while i < media.all.len()
            invariant
                m == media@,
                i <= media.all@.len(),
                collect_all(key@, m.all, i as nat) == Ok::<Seq<ItemView>, ResolveError>(
                    items_view(resources@),
                ),
            decreases media.all@.len() - i,
        {
            assert(m.all[i as int] == media.all@[i as int]@);
            let ghost acc = items_view(resources@);
            match all_entry(key, resources.len(), media.all[i]) {
                Ok(Some(item)) => {
                    let ghost iv = item@;
                    resources.push(item);
                    assert(items_view(resources@) =~= acc.push(iv));
                },
                Ok(None) => {},
                Err(e) => {
                    proof {
                        lemma_collect_all_err(key@, m.all, (i + 1) as nat, m.all.len());
                    }
                    return Err(e);
                },
            }
            i = i + 1;
        }
        if resources.len() > 0 {
            return Ok(resources);
        }
    }
    collect_typed_exec(key, media)
}

/// `process_status_value`: a tombstone ends the route or the whole
/// resolution by its reason; a status resolves with its media, or with the
/// media of the status it quotes (two levels at most), or has no resources.
pub open spec fn spec_status_value(key: Seq<char>, t: JsonTree, depth: nat) -> OutcomeView
    decreases if depth < 2 {
        2 - depth
    } else {
        0
    },
{
    match tree_get(t, "type"@) {
        Some(JsonTree::Str(kind)) => if kind == "tombstone"@ {
            match spec_decode_tombstone(t) {
                None => OutcomeView::Fallback(RouteFailure::InvalidResponse),
                Some(reason) => if reason == "deleted"@ {
                    OutcomeView::Terminal(ResolveError::RemoteNotFound)
                } else if reason == "suspended"@ {
                    OutcomeView::Terminal(ResolveError::RemoteUnavailable)
                } else if reason == "private"@ || reason == "blocked"@ {
                    OutcomeView::Terminal(ResolveError::RemoteRestricted)
                } else {
                    OutcomeView::Fallback(RouteFailure::Unavailable)
                },
            }
        } else if kind == "status"@ {
            match spec_decode_status(t) {
                None => OutcomeView::Fallback(RouteFailure::InvalidResponse),
                Some(doc) => {
                    let found = match doc.media {
                        Some(m) => spec_collect_public(key, m),
                        None => Ok(Seq::empty()),
                    };
                    match found {
                        Err(_) => OutcomeView::Fallback(RouteFailure::InvalidResponse),
                        Ok(items) => if items.len() > 0 {
                            OutcomeView::Resolved(bundle_of(key, items))
                        } else if depth < 2 && doc.quote is Some && spec_status_value(
                            key,
                            doc.quote->0,
                            depth + 1,
                        ) is Resolved {
                            spec_status_value(key, doc.quote->0, depth + 1)
                        } else {
                            OutcomeView::Fallback(RouteFailure::NoResources)
                        },
                    }
                },
            }
        } else {
            OutcomeView::Fallback(RouteFailure::InvalidResponse)
        },
        _ => OutcomeView::Fallback(RouteFailure::InvalidResponse),
    }
}

pub fn process_status_value(key: &str, value: &JsonValue, depth: usize) -> (r: AdapterOutcome)
    ensures
        r@ == spec_status_value(key@, value@, depth as nat),
    decreases if depth < 2 {
        2 - depth
    } else {
        0
    },
{
    let kind = match json_get(value, "type") {
        Some(JsonValue::Str(k)) => chars_of(k.as_str()),
        _ => {
            return AdapterOutcome::Fallback(RouteFailure::InvalidResponse);
        },
    };
    if chars_are(&kind, "tombstone") {
        let reason = match decode_tombstone(value) {
            Some(r) => chars_of(r.as_str()),
            None => {
                return AdapterOutcome::Fallback(RouteFailure::InvalidResponse);
            },
        };
        if chars_are(&reason, "deleted") {
            AdapterOutcome::Terminal(ResolveError::RemoteNotFound)
        } else if chars_are(&reason, "suspended") {
            AdapterOutcome::Terminal(ResolveError::RemoteUnavailable)
        } else if chars_are(&reason, "private") || chars_are(&reason, "blocked") {
            AdapterOutcome::Terminal(ResolveError::RemoteRestricted)
        } else {
            AdapterOutcome::Fallback(RouteFailure::Unavailable)
        }
    } else if chars_are(&kind, "status") {
        let doc = match decode_status(value) {
            Some(d) => d,
            None => {
                return AdapterOutcome::Fallback(RouteFailure::InvalidResponse);
            },
        };
        let resources = match &doc.media {
            Some(m) => match collect_resources(key, m) {
                Ok(items) => items,
                Err(_) => {
                    return AdapterOutcome::Fallback(RouteFailure::InvalidResponse);
                },
            },
            None => {
                let v: Vec<ResourceItem> = Vec::new();
                assert(items_view(v@) =~= Seq::<ItemView>::empty());
                v
            },
        };
        if resources.len() > 0 {
            return AdapterOutcome::Resolved(make_bundle(key, resources));
        }
        if depth < 2 {
            if let Some(quote) = doc.quote {
                let inner = process_status_value(key, quote, depth + 1);
                if let AdapterOutcome::Resolved(result) = inner {
                    return AdapterOutcome::Resolved(result);
                }
            }
        }
        AdapterOutcome::Fallback(RouteFailure::NoResources)
    } else {
        AdapterOutcome::Fallback(RouteFailure::InvalidResponse)
    }
}

/// The public status route.
pub struct PublicV2Adapter;

/// The request of the public route: the status endpoint with the key as its
/// last path segment.
pub open spec fn spec_public_prepare(key: Seq<char>, route_key: Seq<char>) -> Result<
    RequestView,
    ResolveError,
> {
    if key.len() > MAX_URL_CHARS {
        Err(ResolveError::Internal)
    } else {
        match url_pushed_segment(public_endpoint(), key) {
            Some(u) => Ok(get_request(route_key, u)),
            None => Err(ResolveError::Internal),
        }
    }
}

/// `process` of the public route, over the reply's status and the reply
/// body read as the response record (`None` when the body is not one).
pub open spec fn spec_public_process(
    key: Seq<char>,
    status: u16,
    record: Option<ResponseView>,
) -> OutcomeView {
    match spec_classify_status(status) {
        Some(f) => OutcomeView::Fallback(f),
        None => match record {
            None => OutcomeView::Fallback(RouteFailure::InvalidResponse),
            Some(r) => if r.code is Some && spec_classify_status(r.code->0) is Some {
                OutcomeView::Fallback(spec_classify_status(r.code->0)->0)
            } else {
                match r.status {
                    None => OutcomeView::Fallback(RouteFailure::InvalidResponse),
                    Some(sv) => spec_status_value(key, sv, 0),
                }
            },
        },
    }
}

impl PublicV2Adapter {
    pub fn prepare(&self, input: &InputDescriptor, route_key: &str) -> (r: Result<
        PreparedRequest,
        ResolveError,
    >)
        ensures
            result_request(r) == spec_public_prepare(input.source_key@, route_key@),
    {
        if chars_of(input.source_key.as_str()).len() > MAX_URL_CHARS {
            return Err(ResolveError::Internal);
        }
        proof {
            reveal_strlit("https://api.fxtwitter.com/2/status");
        }
        match push_url_segment("https://api.fxtwitter.com/2/status", input.source_key.as_str()) {
            Some(url) => Ok(new_get_request(route_key.to_owned(), url)),
            None => Err(ResolveError::Internal),
        }
    }

    /// Classifies the reply of the status endpoint from its status and its
    /// body read as the response record.
    pub fn process(&self, input: &InputDescriptor, status: u16, record: &Option<PublicResponse>) -> (r:
        AdapterOutcome)
        ensures
            r@ == spec_public_process(input.source_key@, status, opt_response(*record)),
    {
        if let Some(outcome) = classify_http_status(status) {
            return outcome;
        }
        let response = match record {
            Some(r) => r,
            None => {
                return AdapterOutcome::Fallback(RouteFailure::InvalidResponse);
            },
        };
        if let Some(code) = response.code {
            if let Some(outcome) = classify_http_status(code) {
                return outcome;
            }
        }
        match &response.status {
            Some(v) => process_status_value(input.source_key.as_str(), v, 0),
            None => AdapterOutcome::Fallback(RouteFailure::InvalidResponse),
        }
    }
}

proof fn lemma_all_entry_sound(key: Seq<char>, index: nat, t: JsonTree)
    ensures
        spec_all_entry(key, index, t) matches Ok(Some(it)) ==> item_sound(it),
{
    if let Some(p) = spec_decode_photo(t) {
        lemma_photo_sound(key, index, p);
    }
    if let Some(v) = spec_decode_video(t) {
        lemma_video_sound(key, index, v);
    }
}

proof fn lemma_photo_sound(key: Seq<char>, index: nat, p: PhotoView)
    ensures
        spec_public_photo(key, index, p) matches Ok(Some(it)) ==> item_sound(it),
{
    broadcast use lemma_ensured_item_exposed, lemma_ensured_keeps_listing;

    let id = choose_id(p.id, key, index);
    if p.kind == "gif"@ && p.transcode_url is Some {
        let tu = p.transcode_url->0;
        let container = spec_container_from_url(tu);
        let variants = sorted_variants(
            seq![
                VariantView {
                    url: tu,
                    mime_type: spec_mime_for_container(container),
                    container,
                    codec: None,
                    bitrate: None,
                    size_bytes: None,
                    width: Some(p.width),
                    height: Some(p.height),
                },
            ],
        );
        lemma_preferred_in_range(variants);
        if let Some(i) = spec_preferred_variant(variants) {
            let it = ItemView {
                id,
                kind: ResourceKind::Animation,
                preferred_url: variants[i].url,
                preview_url: Some(p.url),
                width: Some(p.width),
                height: Some(p.height),
                duration_ms: None,
                variants,
            };
            assert(it.variants[i].url == it.preferred_url);
            assert(preferred_listed(it));
        }
    } else if let Ok(preferred) = spec_original_image_url(p.url, image_host()) {
        let it = ItemView {
            id,
            kind: ResourceKind::Image,
            preferred_url: preferred,
            preview_url: Some(p.url),
            width: Some(p.width),
            height: Some(p.height),
            duration_ms: None,
            variants: seq![
                VariantView {
                    url: preferred,
                    mime_type: spec_image_mime_type(p.url),
                    container: None,
                    codec: None,
                    bitrate: None,
                    size_bytes: None,
                    width: Some(p.width),
                    height: Some(p.height),
                },
            ],
        };
        assert(it.variants[0].url == it.preferred_url);
        assert(preferred_listed(it));
    }
}

proof fn lemma_video_sound(key: Seq<char>, index: nat, v: VideoView)
    ensures
        spec_public_video(key, index, v) matches Ok(Some(it)) ==> item_sound(it),
{
    broadcast use lemma_ensured_item_exposed, lemma_ensured_keeps_listing;

    let variants = sorted_variants(video_variants(v));
    lemma_preferred_in_range(variants);
    if let Some(i) = spec_preferred_variant(variants) {
        let it = ItemView {
            id: choose_id(v.id, key, index),
            kind: if v.kind == "gif"@ {
                ResourceKind::Animation
            } else {
                ResourceKind::Video
            },
            preferred_url: variants[i].url,
            preview_url: v.thumbnail_url,
            width: Some(v.width),
            height: Some(v.height),
            duration_ms: match v.duration {
                Some(t) => spec_duration_ms(t),
                None => None,
            },
            variants,
        };
        assert(it.variants[i].url == it.preferred_url);
        assert(preferred_listed(it));
    }
}

proof fn lemma_collect_all_sound(key: Seq<char>, all: Seq<JsonTree>, n: nat)
    ensures
        collect_all(key, all, n) matches Ok(items) ==> items_sound(items),
    decreases n,
{
    if n > 0 {
        lemma_collect_all_sound(key, all, (n - 1) as nat);
        if let Ok(acc) = collect_all(key, all, (n - 1) as nat) {
            lemma_all_entry_sound(key, acc.len(), all[n - 1]);
            if let Ok(Some(it)) = spec_all_entry(key, acc.len(), all[n - 1]) {
                lemma_push_sound(acc, it);
            }
        }
    }
}

proof fn lemma_collect_photos_sound(key: Seq<char>, photos: Seq<PhotoView>, n: nat)
    ensures
        collect_photos(key, photos, n) matches Ok(items) ==> items_sound(items),
    decreases n,
{
    if n > 0 {
        lemma_collect_photos_sound(key, photos, (n - 1) as nat);
        if let Ok(acc) = collect_photos(key, photos, (n - 1) as nat) {
            lemma_photo_sound(key, acc.len(), photos[n - 1]);
            if let Ok(Some(it)) = spec_public_photo(key, acc.len(), photos[n - 1]) {
                lemma_push_sound(acc, it);
            }
        }
    }
}

proof fn lemma_collect_videos_sound(
    key: Seq<char>,
    videos: Seq<VideoView>,
    n: nat,
    start: Seq<ItemView>,
)
    requires
        items_sound(start),
    ensures
        collect_videos(key, videos, n, start) matches Ok(items) ==> items_sound(items),
    decreases n,
{
    if n > 0 {
        lemma_collect_videos_sound(key, videos, (n - 1) as nat, start);
        if let Ok(acc) = collect_videos(key, videos, (n - 1) as nat, start) {
            lemma_video_sound(key, acc.len(), videos[n - 1]);
            if let Ok(Some(it)) = spec_public_video(key, acc.len(), videos[n - 1]) {
                lemma_push_sound(acc, it);
            }
        }
    }
}

proof fn lemma_collect_public_sound(key: Seq<char>, m: MediaView)
    ensures
        spec_collect_public(key, m) matches Ok(items) ==> items_sound(items),
{
    lemma_collect_all_sound(key, m.all, m.all.len());
    lemma_collect_photos_sound(key, m.photos, m.photos.len());
    if let Ok(r) = collect_photos(key, m.photos, m.photos.len()) {
        lemma_collect_videos_sound(key, m.videos, m.videos.len(), r);
    }
}

proof fn lemma_status_value_sound(key: Seq<char>, t: JsonTree, depth: nat)
    ensures
        spec_status_value(key, t, depth) matches OutcomeView::Resolved(b) ==> {
            &&& b.schema_version == 1
            &&& b.source_key == key
            &&& b.resources.len() > 0
            &&& items_sound(b.resources)
        },
    decreases if depth < 2 {
        2 - depth
    } else {
        0
    },
{
    if let Some(doc) = spec_decode_status(t) {
        if let Some(m) = doc.media {
            lemma_collect_public_sound(key, m);
        }
        if depth < 2 && doc.quote is Some {
            lemma_status_value_sound(key, doc.quote->0, depth + 1);
        }
    }
}

/// Whatever the response, a bundle that the public route resolves holds
/// only exposed (HTTPS, serialised) addresses, for the requested key, and
/// each resource's preferred address is one of its variants'.
pub proof fn lemma_public_resolved_exposed(key: Seq<char>, status: u16, record: Option<ResponseView>)
    ensures
        spec_public_process(key, status, record) matches OutcomeView::Resolved(b) ==> bundle_exposed(
            b,
            key,
        ) && items_listed(b.resources),
{
    if let Some(r) = record {
        if let Some(sv) = r.status {
            lemma_status_value_sound(key, sv, 0);
            if let OutcomeView::Resolved(b) = spec_status_value(key, sv, 0) {
                lemma_items_sound(b.resources);
            }
        }
    }
}

/// A video of the public route carries the video's own width and height, is
/// an animation exactly when its type is `gif`, keeps its own non-empty id
/// (else `<key>:<position from 1>`), and lasts the milliseconds of its
/// duration.
pub proof fn lemma_public_video_dimensions(key: Seq<char>, index: nat, v: VideoView)
    ensures
        spec_public_video(key, index, v) matches Ok(Some(it)) ==> {
            &&& it.width == Some(v.width)
            &&& it.height == Some(v.height)
            &&& (it.kind == ResourceKind::Animation) == (v.kind == "gif"@)
            &&& it.kind == ResourceKind::Animation || it.kind == ResourceKind::Video
            &&& it.id == (if v.id matches Some(i) && i.len() > 0 {
                v.id->0
            } else {
                key + ":"@ + decimal(index + 1)
            })
            &&& it.duration_ms == (match v.duration {
                Some(t) => spec_duration_ms(t),
                None => None,
            })
        },
{
}

/// A photo of the public route carries the photo's own width and height;
/// unless it is a transcoded animation, it is exposed at its original size
/// on `pbs.twimg.com`.
pub proof fn lemma_public_photo_dimensions(key: Seq<char>, index: nat, p: PhotoView)
    ensures
        spec_public_photo(key, index, p) matches Ok(Some(it)) ==> it.width == Some(p.width)
            && it.height == Some(p.height),
        !(p.kind == "gif"@ && p.transcode_url is Some) ==> (spec_public_photo(key, index, p) matches Ok(
            Some(it),
        ) ==> spec_original_image_url(p.url, "pbs.twimg.com"@) is Ok && it.preferred_url
            == spec_require_https(spec_original_image_url(p.url, "pbs.twimg.com"@)->Ok_0)->Ok_0),
{
}

/// A tombstone in a successful reply of the public route decides by its
/// reason: a deleted status ends the resolution as not found, a suspended
/// account as unavailable, a private or blocked one as restricted; any other
/// reason falls back as unavailable.
pub proof fn lemma_public_tombstones(key: Seq<char>, status: u16, r: ResponseView, reason: Seq<char>)
    requires
        200 <= status <= 299,
        !(r.code matches Some(c) && (c < 200 || 299 < c)),
        r.status matches Some(sv) && tree_get(sv, "type"@) == Some(JsonTree::Str("tombstone"@))
            && spec_decode_tombstone(sv) == Some(reason),
    ensures
        reason == "deleted"@ ==> spec_public_process(key, status, Some(r)) == OutcomeView::Terminal(
            ResolveError::RemoteNotFound,
        ),
        reason == "suspended"@ ==> spec_public_process(key, status, Some(r))
            == OutcomeView::Terminal(ResolveError::RemoteUnavailable),
        reason == "private"@ || reason == "blocked"@ ==> spec_public_process(key, status, Some(r))
            == OutcomeView::Terminal(ResolveError::RemoteRestricted),
        reason != "deleted"@ && reason != "suspended"@ && reason != "private"@ && reason
            != "blocked"@ ==> spec_public_process(key, status, Some(r)) == OutcomeView::Fallback(
            RouteFailure::Unavailable,
        ),
{
    reveal_strlit("deleted");
    reveal_strlit("suspended");
    reveal_strlit("private");
    reveal_strlit("blocked");
    assert("deleted"@.len() != "suspended"@.len());
    assert("deleted"@[0] != "private"@[0]);
    assert("deleted"@[0] != "blocked"@[0]);
    assert("suspended"@.len() != "private"@.len());
    assert("suspended"@.len() != "blocked"@.len());
    assert("private"@[0] != "blocked"@[0]);
}

} // verus!
