//! Documents of the embed route.
use crate::json::{
    dec_opt_any, dec_opt_str, dec_opt_uint, dec_str, field_at, json_field, json_items, json_opt_any,
    json_opt_str, json_opt_uint, json_record_shape, json_str, lemma_field_smaller, opt_tree_ref,
    record_shape, tree_size, JsonTree, JsonValue,
};
use crate::model::opt_chars;
use crate::schema::public_v2::{narrow_u32, opt_u32, opt_u64};
use vstd::prelude::*;

verus! {

pub struct EmbedVariant {
    pub bitrate: Option<u64>,
    pub content_type: Option<String>,
    pub url: String,
}

pub struct EmbedVariantView {
    pub bitrate: Option<u64>,
    pub content_type: Option<Seq<char>>,
    pub url: Seq<char>,
}

impl View for EmbedVariant {
    type V = EmbedVariantView;

    open spec fn view(&self) -> EmbedVariantView {
        EmbedVariantView {
            bitrate: self.bitrate,
            content_type: opt_chars(self.content_type),
            url: self.url@,
        }
    }
}

pub struct EmbedVideoInfo {
    pub duration_millis: Option<u64>,
    pub variants: Vec<EmbedVariant>,
}

pub struct VideoInfoView {
    pub duration_millis: Option<u64>,
    pub variants: Seq<EmbedVariantView>,
}

impl View for EmbedVideoInfo {
    type V = VideoInfoView;

    open spec fn view(&self) -> VideoInfoView {
        VideoInfoView {
            duration_millis: self.duration_millis,
            variants: self.variants@.map_values(|v: EmbedVariant| v@),
        }
    }
}

pub struct EmbedMedia {
    pub media_url_https: Option<String>,
    pub kind: String,
    pub original_info: Option<(Option<u32>, Option<u32>)>,
    pub video_info: Option<EmbedVideoInfo>,
}

pub struct EmbedMediaView {
    pub media_url_https: Option<Seq<char>>,
    pub kind: Seq<char>,
    pub original_info: Option<(Option<u32>, Option<u32>)>,
    pub video_info: Option<VideoInfoView>,
}

impl View for EmbedMedia {
    type V = EmbedMediaView;

    open spec fn view(&self) -> EmbedMediaView {
        EmbedMediaView {
            media_url_https: opt_chars(self.media_url_https),
            kind: self.kind@,
            original_info: self.original_info,
            video_info: match self.video_info {
                Some(v) => Some(v@),
                None => None,
            },
        }
    }
}

/// A document of the embed route, with the documents it quotes.
pub struct EmbedDocument {
    pub typename: Option<String>,
    pub media_details: Vec<EmbedMedia>,
    pub quoted_tweet: Option<Box<EmbedDocument>>,
}

pub struct DocumentView {
    pub typename: Option<Seq<char>>,
    pub media_details: Seq<EmbedMediaView>,
    pub quoted_tweet: Option<Box<DocumentView>>,
}

pub open spec fn document_view(d: EmbedDocument) -> DocumentView
    decreases d,
{
    DocumentView {
        typename: opt_chars(d.typename),
        media_details: d.media_details@.map_values(|m: EmbedMedia| m@),
        quoted_tweet: match d.quoted_tweet {
            Some(q) => Some(Box::new(document_view(*q))),
            None => None,
        },
    }
}

impl View for EmbedDocument {
    type V = DocumentView;

    open spec fn view(&self) -> DocumentView {
        document_view(*self)
    }
}

/// A variant record: `bitrate`, `content_type`, `url`.
pub open spec fn spec_decode_variant(t: JsonTree) -> Option<EmbedVariantView> {
    if !record_shape(t, seq![false, false, false]) {
        None
    } else {
        match (
            dec_opt_uint(field_at(t, "bitrate"@, 0), u64::MAX as nat),
            dec_opt_str(field_at(t, "content_type"@, 1)),
            dec_str(field_at(t, "url"@, 2)),
        ) {
            (Some(bitrate), Some(content_type), Some(url)) => Some(
                EmbedVariantView { bitrate: opt_u64(bitrate), content_type, url },
            ),
            _ => None,
        }
    }
}

pub fn decode_variant(v: &JsonValue) -> (r: Option<EmbedVariant>)
    ensures
        match spec_decode_variant(v@) {
            Some(p) => r matches Some(x) && x@ == p,
            None => r is None,
        },
{
    let defaults = vec![false, false, false];
    assert(defaults@ =~= seq![false, false, false]);
    if !json_record_shape(v, &defaults) {
        return None;
    }
    let bitrate = json_opt_uint(json_field(v, "bitrate", 0), 0xffff_ffff_ffff_ffff);
    let content_type = json_opt_str(json_field(v, "content_type", 1));
    let url = json_str(json_field(v, "url", 2));
    match (bitrate, content_type, url) {
        (Some(bitrate), Some(content_type), Some(url)) => Some(
            EmbedVariant { bitrate, content_type, url },
        ),
        _ => None,
    }
}

/// A list of variants: absent is empty, otherwise an array of records.
pub open spec fn spec_decode_variants(f: Option<JsonTree>) -> Option<Seq<EmbedVariantView>> {
    match f {
        None => Some(Seq::empty()),
        Some(JsonTree::Array(items)) => if forall|i: int|
            0 <= i < items.len() ==> #[trigger] spec_decode_variant(items[i]) is Some {
            Some(items.map_values(|t: JsonTree| spec_decode_variant(t)->0))
        } else {
            None
        },
        _ => None,
    }
}

pub fn decode_variants(f: Option<&JsonValue>) -> (r: Option<Vec<EmbedVariant>>)
    ensures
        match spec_decode_variants(opt_tree_ref(f)) {
            Some(s) => r matches Some(x) && x@.map_values(|e: EmbedVariant| e@) == s,
            None => r is None,
        },
{
    let v = match f {
        None => {
            let r: Vec<EmbedVariant> = Vec::new();
            assert(r@.map_values(|e: EmbedVariant| e@) =~= Seq::<EmbedVariantView>::empty());
            return Some(r);
        },
        Some(v) => v,
    };
    let items = match json_items(v) {
        Some(items) => items,
        None => {
            return None;
        },
    };
    let ghost trees = match v@ {
        JsonTree::Array(t) => t,
        _ => Seq::empty(),
    };
    let mut out: Vec<EmbedVariant> = Vec::new();
    let mut i: usize = 0;
    while i < items.len()
        invariant
            opt_tree_ref(f) == Some(JsonTree::Array(trees)),
            v@ == JsonTree::Array(trees),
            items@.len() == trees.len(),
            forall|k: int| 0 <= k < trees.len() ==> #[trigger] items@[k]@ == trees[k],
            i <= items@.len(),
            out@.len() == i,
            forall|k: int| 0 <= k < i ==> #[trigger] spec_decode_variant(trees[k]) is Some,
            forall|k: int|
                0 <= k < i ==> #[trigger] out@[k]@ == spec_decode_variant(trees[k])->0,
        decreases items@.len() - i,
    {
        assert(items@[i as int]@ == trees[i as int]);
        match decode_variant(&items[i]) {
            Some(x) => {
                out.push(x);
            },
            None => {
                return None;
            },
        }
        i = i + 1;
    }
    assert(out@.map_values(|e: EmbedVariant| e@) =~= trees.map_values(
        |t: JsonTree| spec_decode_variant(t)->0,
    ));
    Some(out)
}

/// A video information record: `duration_millis`, `variants` (empty when
/// absent).
pub open spec fn spec_decode_video_info(t: JsonTree) -> Option<VideoInfoView> {
    if !record_shape(t, seq![false, true]) {
        None
    } else {
        match (
            dec_opt_uint(field_at(t, "duration_millis"@, 0), u64::MAX as nat),
            spec_decode_variants(field_at(t, "variants"@, 1)),
        ) {
            (Some(d), Some(variants)) => Some(
                VideoInfoView { duration_millis: opt_u64(d), variants },
            ),
            _ => None,
        }
    }
}

pub fn decode_video_info(v: &JsonValue) -> (r: Option<EmbedVideoInfo>)
    ensures
        match spec_decode_video_info(v@) {
            Some(p) => r matches Some(x) && x@ == p,
            None => r is None,
        },
{
    let defaults = vec![false, true];
    assert(defaults@ =~= seq![false, true]);
    if !json_record_shape(v, &defaults) {
        return None;
    }
    let d = json_opt_uint(json_field(v, "duration_millis", 0), 0xffff_ffff_ffff_ffff);
    let variants = decode_variants(json_field(v, "variants", 1));
    match (d, variants) {
        (Some(d), Some(variants)) => Some(EmbedVideoInfo { duration_millis: d, variants }),
        _ => None,
    }
}

/// An original-size record: `width`, `height`.
pub open spec fn spec_decode_original_info(t: JsonTree) -> Option<(Option<u32>, Option<u32>)> {
    if !record_shape(t, seq![false, false]) {
        None
    } else {
        match (
            dec_opt_uint(field_at(t, "width"@, 0), u32::MAX as nat),
            dec_opt_uint(field_at(t, "height"@, 1), u32::MAX as nat),
        ) {
            (Some(w), Some(h)) => Some((opt_u32(w), opt_u32(h))),
            _ => None,
        }
    }
}

pub fn decode_original_info(v: &JsonValue) -> (r: Option<(Option<u32>, Option<u32>)>)
    ensures
        r == spec_decode_original_info(v@),
{
    let defaults = vec![false, false];
    assert(defaults@ =~= seq![false, false]);
    if !json_record_shape(v, &defaults) {
        return None;
    }
    let w = json_opt_uint(json_field(v, "width", 0), 0xffff_ffff);
    let h = json_opt_uint(json_field(v, "height", 1), 0xffff_ffff);
    match (w, h) {
        (Some(w), Some(h)) => Some((narrow_u32(w), narrow_u32(h))),
        _ => None,
    }
}

/// A media record: `media_url_https`, `type`, `original_info`, `video_info`.
pub open spec fn spec_decode_embed_media(t: JsonTree) -> Option<EmbedMediaView> {
    if !record_shape(t, seq![false, false, false, false]) {
        None
    } else {
        let original_info = match dec_opt_any(field_at(t, "original_info"@, 2)) {
            None => Some(None),
            Some(x) => match spec_decode_original_info(x) {
                Some(o) => Some(Some(o)),
                None => None,
            },
        };
        let video_info = match dec_opt_any(field_at(t, "video_info"@, 3)) {
            None => Some(None),
            Some(x) => match spec_decode_video_info(x) {
                Some(o) => Some(Some(o)),
                None => None,
            },
        };
        match (
            dec_opt_str(field_at(t, "media_url_https"@, 0)),
            dec_str(field_at(t, "type"@, 1)),
            original_info,
            video_info,
        ) {
            (Some(media_url_https), Some(kind), Some(original_info), Some(video_info)) => Some(
                EmbedMediaView { media_url_https, kind, original_info, video_info },
            ),
            _ => None,
        }
    }
}

pub fn decode_embed_media(v: &JsonValue) -> (r: Option<EmbedMedia>)
    ensures
        match spec_decode_embed_media(v@) {
            Some(p) => r matches Some(x) && x@ == p,
            None => r is None,
        },
{
    let defaults = vec![false, false, false, false];
    assert(defaults@ =~= seq![false, false, false, false]);
    if !json_record_shape(v, &defaults) {
        return None;
    }
    let original_info = match json_opt_any(json_field(v, "original_info", 2)) {
        None => Some(None),
        Some(x) => match decode_original_info(x) {
            Some(o) => Some(Some(o)),
            None => None,
        },
    };
    let video_info = match json_opt_any(json_field(v, "video_info", 3)) {
        None => Some(None),
        Some(x) => match decode_video_info(x) {
            Some(o) => Some(Some(o)),
            None => None,
        },
    };
    let media_url_https = json_opt_str(json_field(v, "media_url_https", 0));
    let kind = json_str(json_field(v, "type", 1));
    match (media_url_https, kind, original_info, video_info) {
        (Some(media_url_https), Some(kind), Some(original_info), Some(video_info)) => Some(
            EmbedMedia { media_url_https, kind, original_info, video_info },
        ),
        _ => None,
    }
}

/// A list of media: absent is empty, otherwise an array of records.
pub open spec fn spec_decode_media_list(f: Option<JsonTree>) -> Option<Seq<EmbedMediaView>> {
    match f {
        None => Some(Seq::empty()),
        Some(JsonTree::Array(items)) => if forall|i: int|
            0 <= i < items.len() ==> #[trigger] spec_decode_embed_media(items[i]) is Some {
            Some(items.map_values(|t: JsonTree| spec_decode_embed_media(t)->0))
        } else {
            None
        },
        _ => None,
    }
}

pub fn decode_media_list(f: Option<&JsonValue>) -> (r: Option<Vec<EmbedMedia>>)
    ensures
        match spec_decode_media_list(opt_tree_ref(f)) {
            Some(s) => r matches Some(x) && x@.map_values(|e: EmbedMedia| e@) == s,
            None => r is None,
        },
{
    let v = match f {
        None => {
            let r: Vec<EmbedMedia> = Vec::new();
            assert(r@.map_values(|e: EmbedMedia| e@) =~= Seq::<EmbedMediaView>::empty());
            return Some(r);
        },
        Some(v) => v,
    };
    let items = match json_items(v) {
        Some(items) => items,
        None => {
            return None;
        },
    };
    let ghost trees = match v@ {
        JsonTree::Array(t) => t,
        _ => Seq::empty(),
    };
    let mut out: Vec<EmbedMedia> = Vec::new();
    let mut i: usize = 0;
    while i < items.len()
        invariant
            opt_tree_ref(f) == Some(JsonTree::Array(trees)),
            v@ == JsonTree::Array(trees),
            items@.len() == trees.len(),
            forall|k: int| 0 <= k < trees.len() ==> #[trigger] items@[k]@ == trees[k],
            i <= items@.len(),
            out@.len() == i,
            forall|k: int| 0 <= k < i ==> #[trigger] spec_decode_embed_media(trees[k]) is Some,
            forall|k: int|
                0 <= k < i ==> #[trigger] out@[k]@ == spec_decode_embed_media(trees[k])->0,
        decreases items@.len() - i,
    {
        assert(items@[i as int]@ == trees[i as int]);
        match decode_embed_media(&items[i]) {
            Some(x) => {
                out.push(x);
            },
            None => {
                return None;
            },
        }
        i = i + 1;
    }
    assert(out@.map_values(|e: EmbedMedia| e@) =~= trees.map_values(
        |t: JsonTree| spec_decode_embed_media(t)->0,
    ));
    Some(out)
}

/// A document record: `__typename`, `mediaDetails` (empty when absent),
/// `quoted_tweet` (a document record or null).
pub open spec fn spec_decode_document(t: JsonTree) -> Option<DocumentView>
    decreases tree_size(t),
{
    if !record_shape(t, seq![false, true, false]) {
        None
    } else {
        let quoted = match dec_opt_any(field_at(t, "quoted_tweet"@, 2)) {
            None => Some(None),
            Some(x) => {
                proof {
                    lemma_field_smaller(t, "quoted_tweet"@, 2);
                }
                if tree_size(x) < tree_size(t) {
                    match spec_decode_document(x) {
                        Some(d) => Some(Some(Box::new(d))),
                        None => None,
                    }
                } else {
                    None
                }
            },
        };
        match (
            dec_opt_str(field_at(t, "__typename"@, 0)),
            spec_decode_media_list(field_at(t, "mediaDetails"@, 1)),
            quoted,
        ) {
            (Some(typename), Some(media_details), Some(quoted_tweet)) => Some(
                DocumentView { typename, media_details, quoted_tweet },
            ),
            _ => None,
        }
    }
}

pub fn decode_document(v: &JsonValue) -> (r: Option<EmbedDocument>)
    ensures
        match spec_decode_document(v@) {
            Some(p) => r matches Some(x) && x@ == p,
            None => r is None,
        },
    decreases tree_size(v@),
{
    let defaults = vec![false, true, false];
    assert(defaults@ =~= seq![false, true, false]);
    if !json_record_shape(v, &defaults) {
        return None;
    }
    let quoted = match json_opt_any(json_field(v, "quoted_tweet", 2)) {
        None => Some(None),
        Some(x) => {
            proof {
                lemma_field_smaller(v@, "quoted_tweet"@, 2);
            }
            match decode_document(x) {
                Some(d) => Some(Some(Box::new(d))),
                None => None,
            }
        },
    };
    let typename = json_opt_str(json_field(v, "__typename", 0));
    let media_details = decode_media_list(json_field(v, "mediaDetails", 1));
    match (typename, media_details, quoted) {
        (Some(typename), Some(media_details), Some(quoted_tweet)) => Some(
            EmbedDocument { typename, media_details, quoted_tweet },
        ),
        _ => None,
    }
}

} // verus!
