//! Documents of the public status route.
use crate::json::{
    dec_opt_any, dec_opt_number, dec_opt_str, dec_opt_uint, dec_str, dec_str_or_empty, dec_uint,
    field_at, json_field, json_items, json_opt_any, json_opt_number, json_opt_str, json_opt_uint,
    json_record_shape, json_str, json_str_or_empty, json_uint, opt_tree, opt_tree_ref, record_shape,
    JsonTree, JsonValue,
};
use crate::model::opt_chars;
use vstd::prelude::*;

verus! {

/// A photo of the public route.
pub struct PublicPhoto {
    pub id: Option<String>,
    pub kind: String,
    pub url: String,
    pub width: u32,
    pub height: u32,
    pub transcode_url: Option<String>,
}

pub struct PhotoView {
    pub id: Option<Seq<char>>,
    pub kind: Seq<char>,
    pub url: Seq<char>,
    pub width: u32,
    pub height: u32,
    pub transcode_url: Option<Seq<char>>,
}

impl View for PublicPhoto {
    type V = PhotoView;

    open spec fn view(&self) -> PhotoView {
        PhotoView {
            id: opt_chars(self.id),
            kind: self.kind@,
            url: self.url@,
            width: self.width,
            height: self.height,
            transcode_url: opt_chars(self.transcode_url),
        }
    }
}

/// One format of a video of the public route.
pub struct PublicVideoFormat {
    pub container: Option<String>,
    pub codec: Option<String>,
    pub bitrate: Option<u64>,
    pub url: String,
    pub size: Option<u64>,
    pub height: Option<u32>,
    pub width: Option<u32>,
}

pub struct FormatView {
    pub container: Option<Seq<char>>,
    pub codec: Option<Seq<char>>,
    pub bitrate: Option<u64>,
    pub url: Seq<char>,
    pub size: Option<u64>,
    pub height: Option<u32>,
    pub width: Option<u32>,
}

impl View for PublicVideoFormat {
    type V = FormatView;

    open spec fn view(&self) -> FormatView {
        FormatView {
            container: opt_chars(self.container),
            codec: opt_chars(self.codec),
            bitrate: self.bitrate,
            url: self.url@,
            size: self.size,
            height: self.height,
            width: self.width,
        }
    }
}

/// A video (or an animation with formats) of the public route. The duration
/// in seconds, a double, is kept as its IEEE-754 bit pattern.
pub struct PublicVideo {
    pub id: Option<String>,
    pub kind: String,
    pub url: String,
    pub width: u32,
    pub height: u32,
    pub thumbnail_url: Option<String>,
    pub duration: Option<u64>,
    pub filesize: Option<u64>,
    pub formats: Vec<PublicVideoFormat>,
}

pub struct VideoView {
    pub id: Option<Seq<char>>,
    pub kind: Seq<char>,
    pub url: Seq<char>,
    pub width: u32,
    pub height: u32,
    pub thumbnail_url: Option<Seq<char>>,
    pub duration: Option<u64>,
    pub filesize: Option<u64>,
    pub formats: Seq<FormatView>,
}

impl View for PublicVideo {
    type V = VideoView;

    open spec fn view(&self) -> VideoView {
        VideoView {
            id: opt_chars(self.id),
            kind: self.kind@,
            url: self.url@,
            width: self.width,
            height: self.height,
            thumbnail_url: opt_chars(self.thumbnail_url),
            duration: self.duration,
            filesize: self.filesize,
            formats: self.formats@.map_values(|f: PublicVideoFormat| f@),
        }
    }
}

/// The media of a status: the mixed list, then the typed lists.
pub struct PublicMedia<'a> {
    pub all: Vec<&'a JsonValue>,
    pub photos: Vec<PublicPhoto>,
    pub videos: Vec<PublicVideo>,
}

pub struct MediaView {
    pub all: Seq<JsonTree>,
    pub photos: Seq<PhotoView>,
    pub videos: Seq<VideoView>,
}

impl<'a> View for PublicMedia<'a> {
    type V = MediaView;

    open spec fn view(&self) -> MediaView {
        MediaView {
            all: self.all@.map_values(|v: &JsonValue| v@),
            photos: self.photos@.map_values(|p: PublicPhoto| p@),
            videos: self.videos@.map_values(|v: PublicVideo| v@),
        }
    }
}

/// A status with its media and the quoted status, if any.
pub struct PublicStatus<'a> {
    pub media: Option<PublicMedia<'a>>,
    pub quote: Option<&'a JsonValue>,
}

pub struct StatusView {
    pub media: Option<MediaView>,
    pub quote: Option<JsonTree>,
}

impl<'a> View for PublicStatus<'a> {
    type V = StatusView;

    open spec fn view(&self) -> StatusView {
        StatusView {
            media: match self.media {
                Some(m) => Some(m@),
                None => None,
            },
            quote: opt_tree_ref(self.quote),
        }
    }
}

pub open spec fn photo_defaults() -> Seq<bool> {
    seq![false, true, false, false, false, false]
}

/// A photo record: `id`, `type` (empty when absent), `url`, `width`,
/// `height`, `transcode_url`.
pub open spec fn spec_decode_photo(t: JsonTree) -> Option<PhotoView> {
    if !record_shape(t, photo_defaults()) {
        None
    } else {
        match (
            dec_opt_str(field_at(t, "id"@, 0)),
            dec_str_or_empty(field_at(t, "type"@, 1)),
            dec_str(field_at(t, "url"@, 2)),
            dec_uint(field_at(t, "width"@, 3), u32::MAX as nat),
            dec_uint(field_at(t, "height"@, 4), u32::MAX as nat),
            dec_opt_str(field_at(t, "transcode_url"@, 5)),
        ) {
            (Some(id), Some(kind), Some(url), Some(width), Some(height), Some(transcode_url)) => Some(
                PhotoView {
                    id,
                    kind,
                    url,
                    width: width as u32,
                    height: height as u32,
                    transcode_url,
                },
            ),
            _ => None,
        }
    }
}

pub fn decode_photo(v: &JsonValue) -> (r: Option<PublicPhoto>)
    ensures
        match spec_decode_photo(v@) {
            Some(p) => r matches Some(x) && x@ == p,
            None => r is None,
        },
{
    let defaults = vec![false, true, false, false, false, false];
    assert(defaults@ =~= photo_defaults());
    if !json_record_shape(v, &defaults) {
        return None;
    }
    let id = json_opt_str(json_field(v, "id", 0));
    let kind = json_str_or_empty(json_field(v, "type", 1));
    let url = json_str(json_field(v, "url", 2));
    let width = json_uint(json_field(v, "width", 3), 0xffff_ffff);
    let height = json_uint(json_field(v, "height", 4), 0xffff_ffff);
    let transcode_url = json_opt_str(json_field(v, "transcode_url", 5));
    match (id, kind, url, width, height, transcode_url) {
        (Some(id), Some(kind), Some(url), Some(width), Some(height), Some(transcode_url)) => Some(
            PublicPhoto {
                id,
                kind,
                url,
                width: width as u32,
                height: height as u32,
                transcode_url,
            },
        ),
        _ => None,
    }
}

/// A format record: `container`, `codec`, `bitrate`, `url`, `size`,
/// `height`, `width`.
pub open spec fn spec_decode_format(t: JsonTree) -> Option<FormatView> {
    if !record_shape(t, seq![false, false, false, false, false, false, false]) {
        None
    } else {
        match (
            dec_opt_str(field_at(t, "container"@, 0)),
            dec_opt_str(field_at(t, "codec"@, 1)),
            dec_opt_uint(field_at(t, "bitrate"@, 2), u64::MAX as nat),
            dec_str(field_at(t, "url"@, 3)),
            dec_opt_uint(field_at(t, "size"@, 4), u64::MAX as nat),
            dec_opt_uint(field_at(t, "height"@, 5), u32::MAX as nat),
            dec_opt_uint(field_at(t, "width"@, 6), u32::MAX as nat),
        ) {
            (
                Some(container),
                Some(codec),
                Some(bitrate),
                Some(url),
                Some(size),
                Some(height),
                Some(width),
            ) => Some(
                FormatView {
                    container,
                    codec,
                    bitrate: opt_u64(bitrate),
                    url,
                    size: opt_u64(size),
                    height: opt_u32(height),
                    width: opt_u32(width),
                },
            ),
            _ => None,
        }
    }
}

pub open spec fn opt_u64(n: Option<nat>) -> Option<u64> {
    match n {
        Some(v) => Some(v as u64),
        None => None,
    }
}

pub open spec fn opt_u32(n: Option<nat>) -> Option<u32> {
    match n {
        Some(v) => Some(v as u32),
        None => None,
    }
}

pub fn narrow_u32(n: Option<u64>) -> (r: Option<u32>)
    requires
        n matches Some(v) ==> v <= u32::MAX,
    ensures
        r == (match n {
            Some(v) => Some(v as u32),
            None => None::<u32>,
        }),
{
    match n {
        Some(v) => Some(v as u32),
        None => None,
    }
}

pub fn decode_format(v: &JsonValue) -> (r: Option<PublicVideoFormat>)
    ensures
        match spec_decode_format(v@) {
            Some(p) => r matches Some(x) && x@ == p,
            None => r is None,
        },
{
    let defaults = vec![false, false, false, false, false, false, false];
    assert(defaults@ =~= seq![false, false, false, false, false, false, false]);
    if !json_record_shape(v, &defaults) {
        return None;
    }
    let container = json_opt_str(json_field(v, "container", 0));
    let codec = json_opt_str(json_field(v, "codec", 1));
    let bitrate = json_opt_uint(json_field(v, "bitrate", 2), 0xffff_ffff_ffff_ffff);
    let url = json_str(json_field(v, "url", 3));
    let size = json_opt_uint(json_field(v, "size", 4), 0xffff_ffff_ffff_ffff);
    let height = json_opt_uint(json_field(v, "height", 5), 0xffff_ffff);
    let width = json_opt_uint(json_field(v, "width", 6), 0xffff_ffff);
    match (container, codec, bitrate, url, size, height, width) {
        (
            Some(container),
            Some(codec),
            Some(bitrate),
            Some(url),
            Some(size),
            Some(height),
            Some(width),
        ) => Some(
            PublicVideoFormat {
                container,
                codec,
                bitrate,
                url,
                size,
                height: narrow_u32(height),
                width: narrow_u32(width),
            },
        ),
        _ => None,
    }
}

/// A list of formats: absent is empty, otherwise an array of records.
pub open spec fn spec_decode_formats(f: Option<JsonTree>) -> Option<Seq<FormatView>> {
    match f {
        None => Some(Seq::empty()),
        Some(JsonTree::Array(items)) => if forall|i: int|
            0 <= i < items.len() ==> #[trigger] spec_decode_format(items[i]) is Some {
            Some(items.map_values(|t: JsonTree| spec_decode_format(t)->0))
        } else {
            None
        },
        _ => None,
    }
}

pub fn decode_formats(f: Option<&JsonValue>) -> (r: Option<Vec<PublicVideoFormat>>)
    ensures
        match spec_decode_formats(opt_tree_ref(f)) {
            Some(s) => r matches Some(x) && x@.map_values(|e: PublicVideoFormat| e@) == s,
            None => r is None,
        },
{
    let v = match f {
        None => {
            let r: Vec<PublicVideoFormat> = Vec::new();
            assert(r@.map_values(|e: PublicVideoFormat| e@) =~= Seq::<FormatView>::empty());
            return Some(r);
        },
        Some(v) => v,
    };
    let items = match json_items(v) {
        Some(items) => items,
        None => {
            return None;
        },
    };
    let ghost trees = match v@ {
        JsonTree::Array(t) => t,
        _ => Seq::empty(),
    };
    let mut out: Vec<PublicVideoFormat> = Vec::new();
    let mut i: usize = 0;
    while i < items.len()
        invariant
            opt_tree_ref(f) == Some(JsonTree::Array(trees)),
            v@ == JsonTree::Array(trees),
            items@.len() == trees.len(),
            forall|k: int| 0 <= k < trees.len() ==> #[trigger] items@[k]@ == trees[k],
            i <= items@.len(),
            out@.len() == i,
            forall|k: int| 0 <= k < i ==> #[trigger] spec_decode_format(trees[k]) is Some,
            forall|k: int|
                0 <= k < i ==> #[trigger] out@[k]@ == spec_decode_format(trees[k])->0,
        decreases items@.len() - i,
    {
        assert(items@[i as int]@ == trees[i as int]);
        match decode_format(&items[i]) {
            Some(x) => {
                out.push(x);
            },
            None => {
                return None;
            },
        }
        i = i + 1;
    }
    assert(out@.map_values(|e: PublicVideoFormat| e@) =~= trees.map_values(
        |t: JsonTree| spec_decode_format(t)->0,
    ));
    Some(out)
}

pub open spec fn video_defaults() -> Seq<bool> {
    seq![false, false, false, false, false, false, false, false, true]
}

/// A video record: `id`, `type`, `url`, `width`, `height`, `thumbnail_url`,
/// `duration`, `filesize`, `formats` (empty when absent).
pub open spec fn spec_decode_video(t: JsonTree) -> Option<VideoView> {
    if !record_shape(t, video_defaults()) {
        None
    } else {
        match (
            dec_opt_str(field_at(t, "id"@, 0)),
            dec_str(field_at(t, "type"@, 1)),
            dec_str(field_at(t, "url"@, 2)),
            dec_uint(field_at(t, "width"@, 3), u32::MAX as nat),
            dec_uint(field_at(t, "height"@, 4), u32::MAX as nat),
            dec_opt_str(field_at(t, "thumbnail_url"@, 5)),
            dec_opt_number(field_at(t, "duration"@, 6)),
            dec_opt_uint(field_at(t, "filesize"@, 7), u64::MAX as nat),
            spec_decode_formats(field_at(t, "formats"@, 8)),
        ) {
            (
                Some(id),
                Some(kind),
                Some(url),
                Some(width),
                Some(height),
                Some(thumbnail_url),
                Some(duration),
                Some(filesize),
                Some(formats),
            ) => Some(
                VideoView {
                    id,
                    kind,
                    url,
                    width: width as u32,
                    height: height as u32,
                    thumbnail_url,
                    duration,
                    filesize: opt_u64(filesize),
                    formats,
                },
            ),
            _ => None,
        }
    }
}

pub fn decode_video(v: &JsonValue) -> (r: Option<PublicVideo>)
    ensures
        match spec_decode_video(v@) {
            Some(p) => r matches Some(x) && x@ == p,
            None => r is None,
        },
{
    let defaults = vec![false, false, false, false, false, false, false, false, true];
    assert(defaults@ =~= video_defaults());
    if !json_record_shape(v, &defaults) {
        return None;
    }
    let id = json_opt_str(json_field(v, "id", 0));
    let kind = json_str(json_field(v, "type", 1));
    let url = json_str(json_field(v, "url", 2));
    let width = json_uint(json_field(v, "width", 3), 0xffff_ffff);
    let height = json_uint(json_field(v, "height", 4), 0xffff_ffff);
    let thumbnail_url = json_opt_str(json_field(v, "thumbnail_url", 5));
    let duration = json_opt_number(json_field(v, "duration", 6));
    let filesize = json_opt_uint(json_field(v, "filesize", 7), 0xffff_ffff_ffff_ffff);
    let formats = decode_formats(json_field(v, "formats", 8));
    match (id, kind, url, width, height, thumbnail_url, duration, filesize, formats) {
        (
            Some(id),
            Some(kind),
            Some(url),
            Some(width),
            Some(height),
            Some(thumbnail_url),
            Some(duration),
            Some(filesize),
            Some(formats),
        ) => Some(
            PublicVideo {
                id,
                kind,
                url,
                width: width as u32,
                height: height as u32,
                thumbnail_url,
                duration,
                filesize,
                formats,
            },
        ),
        _ => None,
    }
}

/// A list of photos: absent is empty, otherwise an array of records.
pub open spec fn spec_decode_photos(f: Option<JsonTree>) -> Option<Seq<PhotoView>> {
    match f {
        None => Some(Seq::empty()),
        Some(JsonTree::Array(items)) => if forall|i: int|
            0 <= i < items.len() ==> #[trigger] spec_decode_photo(items[i]) is Some {
            Some(items.map_values(|t: JsonTree| spec_decode_photo(t)->0))
        } else {
            None
        },
        _ => None,
    }
}

pub fn decode_photos(f: Option<&JsonValue>) -> (r: Option<Vec<PublicPhoto>>)
    ensures
        match spec_decode_photos(opt_tree_ref(f)) {
            Some(s) => r matches Some(x) && x@.map_values(|e: PublicPhoto| e@) == s,
            None => r is None,
        },
{
    let v = match f {
        None => {
            let r: Vec<PublicPhoto> = Vec::new();
            assert(r@.map_values(|e: PublicPhoto| e@) =~= Seq::<PhotoView>::empty());
            return Some(r);
        },
        Some(v) => v,
    };
    let items = match json_items(v) {
        Some(items) => items,
        None => {
            return None;
        },
    };
    let ghost trees = match v@ {
        JsonTree::Array(t) => t,
        _ => Seq::empty(),
    };
    let mut out: Vec<PublicPhoto> = Vec::new();
    let mut i: usize = 0;
    while i < items.len()
        invariant
            opt_tree_ref(f) == Some(JsonTree::Array(trees)),
            v@ == JsonTree::Array(trees),
            items@.len() == trees.len(),
            forall|k: int| 0 <= k < trees.len() ==> #[trigger] items@[k]@ == trees[k],
            i <= items@.len(),
            out@.len() == i,
            forall|k: int| 0 <= k < i ==> #[trigger] spec_decode_photo(trees[k]) is Some,
            forall|k: int| 0 <= k < i ==> #[trigger] out@[k]@ == spec_decode_photo(trees[k])->0,
        decreases items@.len() - i,
    {
        assert(items@[i as int]@ == trees[i as int]);
        match decode_photo(&items[i]) {
            Some(x) => {
                out.push(x);
            },
            None => {
                return None;
            },
        }
        i = i + 1;
    }
    assert(out@.map_values(|e: PublicPhoto| e@) =~= trees.map_values(
        |t: JsonTree| spec_decode_photo(t)->0,
    ));
    Some(out)
}

/// A list of videos: absent is empty, otherwise an array of records.
pub open spec fn spec_decode_videos(f: Option<JsonTree>) -> Option<Seq<VideoView>> {
    match f {
        None => Some(Seq::empty()),
        Some(JsonTree::Array(items)) => if forall|i: int|
            0 <= i < items.len() ==> #[trigger] spec_decode_video(items[i]) is Some {
            Some(items.map_values(|t: JsonTree| spec_decode_video(t)->0))
        } else {
            None
        },
        _ => None,
    }
}

pub fn decode_videos(f: Option<&JsonValue>) -> (r: Option<Vec<PublicVideo>>)
    ensures
        match spec_decode_videos(opt_tree_ref(f)) {
            Some(s) => r matches Some(x) && x@.map_values(|e: PublicVideo| e@) == s,
            None => r is None,
        },
{
    let v = match f {
        None => {
            let r: Vec<PublicVideo> = Vec::new();
            assert(r@.map_values(|e: PublicVideo| e@) =~= Seq::<VideoView>::empty());
            return Some(r);
        },
        Some(v) => v,
    };
    let items = match json_items(v) {
        Some(items) => items,
        None => {
            return None;
        },
    };
    let ghost trees = match v@ {
        JsonTree::Array(t) => t,
        _ => Seq::empty(),
    };
    let mut out: Vec<PublicVideo> = Vec::new();
    let mut i: usize = 0;
    while i < items.len()
        invariant
            opt_tree_ref(f) == Some(JsonTree::Array(trees)),
            v@ == JsonTree::Array(trees),
            items@.len() == trees.len(),
            forall|k: int| 0 <= k < trees.len() ==> #[trigger] items@[k]@ == trees[k],
            i <= items@.len(),
            out@.len() == i,
            forall|k: int| 0 <= k < i ==> #[trigger] spec_decode_video(trees[k]) is Some,
            forall|k: int| 0 <= k < i ==> #[trigger] out@[k]@ == spec_decode_video(trees[k])->0,
        decreases items@.len() - i,
    {
        assert(items@[i as int]@ == trees[i as int]);
        match decode_video(&items[i]) {
            Some(x) => {
                out.push(x);
            },
            None => {
                return None;
            },
        }
        i = i + 1;
    }
    assert(out@.map_values(|e: PublicVideo| e@) =~= trees.map_values(
        |t: JsonTree| spec_decode_video(t)->0,
    ));
    Some(out)
}

/// A list of arbitrary values: absent is empty, otherwise an array.
pub open spec fn spec_decode_values(f: Option<JsonTree>) -> Option<Seq<JsonTree>> {
    match f {
        None => Some(Seq::empty()),
        Some(JsonTree::Array(items)) => Some(items),
        _ => None,
    }
}

pub fn decode_values<'a>(f: Option<&'a JsonValue>) -> (r: Option<Vec<&'a JsonValue>>)
    ensures
        match spec_decode_values(opt_tree_ref(f)) {
            Some(s) => r matches Some(x) && x@.map_values(|e: &JsonValue| e@) == s,
            None => r is None,
        },
{
    let v = match f {
        None => {
            let r: Vec<&'a JsonValue> = Vec::new();
            assert(r@.map_values(|e: &JsonValue| e@) =~= Seq::<JsonTree>::empty());
            return Some(r);
        },
        Some(v) => v,
    };
    let items = match json_items(v) {
        Some(items) => items,
        None => {
            return None;
        },
    };
    let ghost trees = match v@ {
        JsonTree::Array(t) => t,
        _ => Seq::empty(),
    };
    let mut out: Vec<&'a JsonValue> = Vec::new();
    let mut i: usize = 0;
    while i < items.len()
        invariant
            opt_tree_ref(f) == Some(JsonTree::Array(trees)),
            v@ == JsonTree::Array(trees),
            items@.len() == trees.len(),
            forall|k: int| 0 <= k < trees.len() ==> #[trigger] items@[k]@ == trees[k],
            i <= items@.len(),
            out@.len() == i,
            forall|k: int| 0 <= k < i ==> #[trigger] out@[k]@ == trees[k],
        decreases items@.len() - i,
    {
        out.push(&items[i]);
        i = i + 1;
    }
    assert(out@.map_values(|e: &JsonValue| e@) =~= trees);
    Some(out)
}

/// A media record: `all`, `photos`, `videos`, each empty when absent.
pub open spec fn spec_decode_media(t: JsonTree) -> Option<MediaView> {
    if !record_shape(t, seq![true, true, true]) {
        None
    } else {
        match (
            spec_decode_values(field_at(t, "all"@, 0)),
            spec_decode_photos(field_at(t, "photos"@, 1)),
            spec_decode_videos(field_at(t, "videos"@, 2)),
        ) {
            (Some(all), Some(photos), Some(videos)) => Some(MediaView { all, photos, videos }),
            _ => None,
        }
    }
}

pub fn decode_media<'a>(v: &'a JsonValue) -> (r: Option<PublicMedia<'a>>)
    ensures
        match spec_decode_media(v@) {
            Some(p) => r matches Some(x) && x@ == p,
            None => r is None,
        },
{
    let defaults = vec![true, true, true];
    assert(defaults@ =~= seq![true, true, true]);
    if !json_record_shape(v, &defaults) {
        return None;
    }
    let all = decode_values(json_field(v, "all", 0));
    let photos = decode_photos(json_field(v, "photos", 1));
    let videos = decode_videos(json_field(v, "videos", 2));
    match (all, photos, videos) {
        (Some(all), Some(photos), Some(videos)) => Some(PublicMedia { all, photos, videos }),
        _ => None,
    }
}

/// A status record: `media` (a media record or null), `quote` (any value).
pub open spec fn spec_decode_status(t: JsonTree) -> Option<StatusView> {
    if !record_shape(t, seq![false, false]) {
        None
    } else {
        let media = match dec_opt_any(field_at(t, "media"@, 0)) {
            None => Some(None),
            Some(m) => match spec_decode_media(m) {
                Some(x) => Some(Some(x)),
                None => None,
            },
        };
        match media {
            Some(media) => Some(
                StatusView { media, quote: dec_opt_any(field_at(t, "quote"@, 1)) },
            ),
            None => None,
        }
    }
}

pub fn decode_status<'a>(v: &'a JsonValue) -> (r: Option<PublicStatus<'a>>)
    ensures
        match spec_decode_status(v@) {
            Some(p) => r matches Some(x) && x@ == p,
            None => r is None,
        },
{
    let defaults = vec![false, false];
    assert(defaults@ =~= seq![false, false]);
    if !json_record_shape(v, &defaults) {
        return None;
    }
    let media = match json_opt_any(json_field(v, "media", 0)) {
        None => None,
        Some(m) => match decode_media(m) {
            Some(x) => Some(x),
            None => {
                return None;
            },
        },
    };
    let quote = json_opt_any(json_field(v, "quote", 1));
    Some(PublicStatus { media, quote })
}

/// A tombstone record: its `reason`.
pub open spec fn spec_decode_tombstone(t: JsonTree) -> Option<Seq<char>> {
    if !record_shape(t, seq![false]) {
        None
    } else {
        dec_str(field_at(t, "reason"@, 0))
    }
}

pub fn decode_tombstone(v: &JsonValue) -> (r: Option<String>)
    ensures
        opt_chars(r) == spec_decode_tombstone(v@),
{
    let defaults = vec![false];
    assert(defaults@ =~= seq![false]);
    if !json_record_shape(v, &defaults) {
        return None;
    }
    json_str(json_field(v, "reason", 0))
}

/// The response record of the status endpoint: its `code`, and its
/// `status` as a JSON document. The caller reads it from the reply body
/// with serde's record reader, which skips members it does not know and
/// refuses a repeated `code` or `status`.
#[derive(Debug)]
pub struct PublicResponse {
    pub code: Option<u16>,
    pub status: Option<JsonValue>,
}

pub struct ResponseView {
    pub code: Option<u16>,
    pub status: Option<JsonTree>,
}

impl View for PublicResponse {
    type V = ResponseView;

    open spec fn view(&self) -> ResponseView {
        ResponseView { code: self.code, status: opt_tree(self.status) }
    }
}

/// The view of a record that may be missing.
pub open spec fn opt_response(r: Option<PublicResponse>) -> Option<ResponseView> {
    match r {
        Some(x) => Some(x@),
        None => None,
    }
}

} // verus!
