//! Documents of the managed gateway route: an error envelope, or a resource
//! bundle in the library's own camelCase form.
use crate::json::{
    dec_opt_str, dec_opt_uint, dec_str, dec_uint, field_at, json_field, json_items, json_opt_str,
    json_opt_uint, json_record_shape, json_str, json_uint, lemma_entry_trees_of, opt_tree_ref,
    record_shape, JsonTree, JsonValue,
};
use crate::model::{
    items_view, opt_chars, variants_view, BundleView, ItemView, ResourceBundle, ResourceItem,
    ResourceKind, ResourceVariant, VariantView,
};
use crate::schema::public_v2::{narrow_u32, opt_u32, opt_u64};
use crate::text::{chars_are, chars_of};
use vstd::prelude::*;

verus! {

/// The error envelope `{"error": {"code": …}}`: its code.
pub open spec fn spec_decode_envelope(t: JsonTree) -> Option<Seq<char>> {
    if !record_shape(t, seq![false]) {
        None
    } else {
        match field_at(t, "error"@, 0) {
            Some(e) => if record_shape(e, seq![false]) {
                dec_str(field_at(e, "code"@, 0))
            } else {
                None
            },
            None => None,
        }
    }
}

pub fn decode_envelope(v: &JsonValue) -> (r: Option<String>)
    ensures
        opt_chars(r) == spec_decode_envelope(v@),
{
    let one = vec![false];
    assert(one@ =~= seq![false]);
    if !json_record_shape(v, &one) {
        return None;
    }
    match json_field(v, "error", 0) {
        Some(e) => if json_record_shape(e, &one) {
            json_str(json_field(e, "code", 0))
        } else {
            None
        },
        None => None,
    }
}

/// A resource kind by its snake_case name.
pub open spec fn kind_named(s: Seq<char>) -> Option<ResourceKind> {
    if s == "image"@ {
        Some(ResourceKind::Image)
    } else if s == "video"@ {
        Some(ResourceKind::Video)
    } else if s == "animation"@ {
        Some(ResourceKind::Animation)
    } else {
        None
    }
}

/// A resource kind: its name, or an object whose only member is the name
/// with `null`.
pub open spec fn spec_decode_kind(f: Option<JsonTree>) -> Option<ResourceKind> {
    match f {
        Some(JsonTree::Str(s)) => kind_named(s),
        Some(JsonTree::Object(e)) => if e.len() == 1 && e[0].1 == JsonTree::Null {
            kind_named(e[0].0)
        } else {
            None
        },
        _ => None,
    }
}

fn kind_of(s: &String) -> (r: Option<ResourceKind>)
    ensures
        r == kind_named(s@),
{
    let c = chars_of(s.as_str());
    if chars_are(&c, "image") {
        Some(ResourceKind::Image)
    } else if chars_are(&c, "video") {
        Some(ResourceKind::Video)
    } else if chars_are(&c, "animation") {
        Some(ResourceKind::Animation)
    } else {
        None
    }
}

pub fn decode_kind(f: Option<&JsonValue>) -> (r: Option<ResourceKind>)
    ensures
        r == spec_decode_kind(opt_tree_ref(f)),
{
    match f {
        Some(JsonValue::Str(s)) => kind_of(s),
        Some(JsonValue::Object(entries)) => {
            proof {
                lemma_entry_trees_of(entries@, 0);
            }
            if entries.len() == 1 {
                match &entries[0].1 {
                    JsonValue::Null => kind_of(&entries[0].0),
                    _ => None,
                }
            } else {
                None
            }
        },
        _ => None,
    }
}

pub open spec fn eight_required() -> Seq<bool> {
    seq![false, false, false, false, false, false, false, false]
}

/// A variant record: `url`, `mimeType`, `container`, `codec`, `bitrate`,
/// `sizeBytes`, `width`, `height`.
pub open spec fn spec_decode_variant(t: JsonTree) -> Option<VariantView> {
    let url = dec_str(field_at(t, "url"@, 0));
    let mime_type = dec_opt_str(field_at(t, "mimeType"@, 1));
    let container = dec_opt_str(field_at(t, "container"@, 2));
    let codec = dec_opt_str(field_at(t, "codec"@, 3));
    let bitrate = dec_opt_uint(field_at(t, "bitrate"@, 4), u64::MAX as nat);
    let size_bytes = dec_opt_uint(field_at(t, "sizeBytes"@, 5), u64::MAX as nat);
    let width = dec_opt_uint(field_at(t, "width"@, 6), u32::MAX as nat);
    let height = dec_opt_uint(field_at(t, "height"@, 7), u32::MAX as nat);
    if record_shape(t, eight_required()) && url is Some && mime_type is Some && container is Some
        && codec is Some && bitrate is Some && size_bytes is Some && width is Some && height is Some {
        Some(
            VariantView {
                url: url->0,
                mime_type: mime_type->0,
                container: container->0,
                codec: codec->0,
                bitrate: opt_u64(bitrate->0),
                size_bytes: opt_u64(size_bytes->0),
                width: opt_u32(width->0),
                height: opt_u32(height->0),
            },
        )
    } else {
        None
    }
}

fn eight_required_flags() -> (r: Vec<bool>)
    ensures
        r@ == eight_required(),
{
    let r = vec![false, false, false, false, false, false, false, false];
    assert(r@ =~= eight_required());
    r
}

pub fn decode_variant(v: &JsonValue) -> (r: Option<ResourceVariant>)
    ensures
        match spec_decode_variant(v@) {
            Some(p) => r matches Some(x) && x@ == p,
            None => r is None,
        },
{
    if !json_record_shape(v, &eight_required_flags()) {
        return None;
    }
    let url = match json_str(json_field(v, "url", 0)) {
        Some(x) => x,
        None => {
            return None;
        },
    };
    let mime_type = match json_opt_str(json_field(v, "mimeType", 1)) {
        Some(x) => x,
        None => {
            return None;
        },
    };
    let container = match json_opt_str(json_field(v, "container", 2)) {
        Some(x) => x,
        None => {
            return None;
        },
    };
    let codec = match json_opt_str(json_field(v, "codec", 3)) {
        Some(x) => x,
        None => {
            return None;
        },
    };
    let bitrate = match json_opt_uint(json_field(v, "bitrate", 4), 0xffff_ffff_ffff_ffff) {
        Some(x) => x,
        None => {
            return None;
        },
    };
    let size_bytes = match json_opt_uint(json_field(v, "sizeBytes", 5), 0xffff_ffff_ffff_ffff) {
        Some(x) => x,
        None => {
            return None;
        },
    };
    let width = match json_opt_uint(json_field(v, "width", 6), 0xffff_ffff) {
        Some(x) => x,
        None => {
            return None;
        },
    };
    let height = match json_opt_uint(json_field(v, "height", 7), 0xffff_ffff) {
        Some(x) => x,
        None => {
            return None;
        },
    };
    Some(
        ResourceVariant {
            url,
            mime_type,
            container,
            codec,
            bitrate,
            size_bytes,
            width: narrow_u32(width),
            height: narrow_u32(height),
        },
    )
}

/// A required list of variants.
pub open spec fn spec_decode_variant_list(f: Option<JsonTree>) -> Option<Seq<VariantView>> {
    match f {
        Some(JsonTree::Array(items)) => if forall|i: int|
            0 <= i < items.len() ==> #[trigger] spec_decode_variant(items[i]) is Some {
            Some(items.map_values(|t: JsonTree| spec_decode_variant(t)->0))
        } else {
            None
        },
        _ => None,
    }
}

pub fn decode_variant_list(f: Option<&JsonValue>) -> (r: Option<Vec<ResourceVariant>>)
    ensures
        match spec_decode_variant_list(opt_tree_ref(f)) {
            Some(s) => r matches Some(x) && variants_view(x@) == s,
            None => r is None,
        },
{
    let v = match f {
        Some(v) => v,
        None => {
            return None;
        },
    };
    let items = match json_items(v) {
        Some(items) => items,
        None => {
            return None;
        },
    };
    let ghost trees = match v@ {
        JsonTree::Array(t) => t,
        _ => Seq::empty(),
    };
    let mut out: Vec<ResourceVariant> = Vec::new();
    let mut i: usize = 0;
    while i < items.len()
        invariant
            opt_tree_ref(f) == Some(JsonTree::Array(trees)),
            items@.len() == trees.len(),
            forall|k: int| 0 <= k < trees.len() ==> #[trigger] items@[k]@ == trees[k],
            i <= items@.len(),
            out@.len() == i,
            forall|k: int| 0 <= k < i ==> #[trigger] spec_decode_variant(trees[k]) is Some,
            forall|k: int| 0 <= k < i ==> #[trigger] out@[k]@ == spec_decode_variant(trees[k])->0,
        decreases items@.len() - i,
    {
        assert(items@[i as int]@ == trees[i as int]);
        match decode_variant(&items[i]) {
            Some(x) => {
                out.push(x);
            },
            None => {
                return None;
            },
        }
        i = i + 1;
    }
    assert(variants_view(out@) =~= trees.map_values(|t: JsonTree| spec_decode_variant(t)->0));
    Some(out)
}

/// A resource record: `id`, `kind`, `preferredUrl`, `previewUrl`, `width`,
/// `height`, `durationMs`, `variants`.
pub open spec fn spec_decode_item(t: JsonTree) -> Option<ItemView> {
    let id = dec_str(field_at(t, "id"@, 0));
    let kind = spec_decode_kind(field_at(t, "kind"@, 1));
    let preferred_url = dec_str(field_at(t, "preferredUrl"@, 2));
    let preview_url = dec_opt_str(field_at(t, "previewUrl"@, 3));
    let width = dec_opt_uint(field_at(t, "width"@, 4), u32::MAX as nat);
    let height = dec_opt_uint(field_at(t, "height"@, 5), u32::MAX as nat);
    let duration_ms = dec_opt_uint(field_at(t, "durationMs"@, 6), u64::MAX as nat);
    let variants = spec_decode_variant_list(field_at(t, "variants"@, 7));
    if record_shape(t, eight_required()) && id is Some && kind is Some && preferred_url is Some
        && preview_url is Some && width is Some && height is Some && duration_ms is Some
        && variants is Some {
        Some(
            ItemView {
                id: id->0,
                kind: kind->0,
                preferred_url: preferred_url->0,
                preview_url: preview_url->0,
                width: opt_u32(width->0),
                height: opt_u32(height->0),
                duration_ms: opt_u64(duration_ms->0),
                variants: variants->0,
            },
        )
    } else {
        None
    }
}

pub fn decode_item(v: &JsonValue) -> (r: Option<ResourceItem>)
    ensures
        match spec_decode_item(v@) {
            Some(p) => r matches Some(x) && x@ == p,
            None => r is None,
        },
{
    if !json_record_shape(v, &eight_required_flags()) {
        return None;
    }
    let id = match json_str(json_field(v, "id", 0)) {
        Some(x) => x,
        None => {
            return None;
        },
    };
    let kind = match decode_kind(json_field(v, "kind", 1)) {
        Some(x) => x,
        None => {
            return None;
        },
    };
    let preferred_url = match json_str(json_field(v, "preferredUrl", 2)) {
        Some(x) => x,
        None => {
            return None;
        },
    };
    let preview_url = match json_opt_str(json_field(v, "previewUrl", 3)) {
        Some(x) => x,
        None => {
            return None;
        },
    };
    let width = match json_opt_uint(json_field(v, "width", 4), 0xffff_ffff) {
        Some(x) => x,
        None => {
            return None;
        },
    };
    let height = match json_opt_uint(json_field(v, "height", 5), 0xffff_ffff) {
        Some(x) => x,
        None => {
            return None;
        },
    };
    let duration_ms = match json_opt_uint(json_field(v, "durationMs", 6), 0xffff_ffff_ffff_ffff) {
        Some(x) => x,
        None => {
            return None;
        },
    };
    let variants = match decode_variant_list(json_field(v, "variants", 7)) {
        Some(x) => x,
        None => {
            return None;
        },
    };
    Some(
        ResourceItem {
            id,
            kind,
            preferred_url,
            preview_url,
            width: narrow_u32(width),
            height: narrow_u32(height),
            duration_ms,
            variants,
        },
    )
}

/// A required list of resources.
pub open spec fn spec_decode_item_list(f: Option<JsonTree>) -> Option<Seq<ItemView>> {
    match f {
        Some(JsonTree::Array(items)) => if forall|i: int|
            0 <= i < items.len() ==> #[trigger] spec_decode_item(items[i]) is Some {
            Some(items.map_values(|t: JsonTree| spec_decode_item(t)->0))
        } else {
            None
        },
        _ => None,
    }
}

pub fn decode_item_list(f: Option<&JsonValue>) -> (r: Option<Vec<ResourceItem>>)
    ensures
        match spec_decode_item_list(opt_tree_ref(f)) {
            Some(s) => r matches Some(x) && items_view(x@) == s,
            None => r is None,
        },
{
    let v = match f {
        Some(v) => v,
        None => {
            return None;
        },
    };
    let items = match json_items(v) {
        Some(items) => items,
        None => {
            return None;
        },
    };
    let ghost trees = match v@ {
        JsonTree::Array(t) => t,
        _ => Seq::empty(),
    };
    let mut out: Vec<ResourceItem> = Vec::new();
    let mut i: usize = 0;
    while i < items.len()
        invariant
            opt_tree_ref(f) == Some(JsonTree::Array(trees)),
            items@.len() == trees.len(),
            forall|k: int| 0 <= k < trees.len() ==> #[trigger] items@[k]@ == trees[k],
            i <= items@.len(),
            out@.len() == i,
            forall|k: int| 0 <= k < i ==> #[trigger] spec_decode_item(trees[k]) is Some,
            forall|k: int| 0 <= k < i ==> #[trigger] out@[k]@ == spec_decode_item(trees[k])->0,
        decreases items@.len() - i,
    {
        assert(items@[i as int]@ == trees[i as int]);
        match decode_item(&items[i]) {
            Some(x) => {
                out.push(x);
            },
            None => {
                return None;
            },
        }
        i = i + 1;
    }
    assert(items_view(out@) =~= trees.map_values(|t: JsonTree| spec_decode_item(t)->0));
    Some(out)
}

/// A bundle record: `schemaVersion`, `sourceKey`, `resources`.
pub open spec fn spec_decode_bundle(t: JsonTree) -> Option<BundleView> {
    let schema_version = dec_uint(field_at(t, "schemaVersion"@, 0), u32::MAX as nat);
    let source_key = dec_str(field_at(t, "sourceKey"@, 1));
    let resources = spec_decode_item_list(field_at(t, "resources"@, 2));
    if record_shape(t, seq![false, false, false]) && schema_version is Some && source_key is Some
        && resources is Some {
        Some(
            BundleView {
                schema_version: schema_version->0 as u32,
                source_key: source_key->0,
                resources: resources->0,
            },
        )
    } else {
        None
    }
}

pub fn decode_bundle(v: &JsonValue) -> (r: Option<ResourceBundle>)
    ensures
        match spec_decode_bundle(v@) {
            Some(p) => r matches Some(x) && x@ == p,
            None => r is None,
        },
{
    let three = vec![false, false, false];
    assert(three@ =~= seq![false, false, false]);
    if !json_record_shape(v, &three) {
        return None;
    }
    let schema_version = match json_uint(json_field(v, "schemaVersion", 0), 0xffff_ffff) {
        Some(x) => x,
        None => {
            return None;
        },
    };
    let source_key = match json_str(json_field(v, "sourceKey", 1)) {
        Some(x) => x,
        None => {
            return None;
        },
    };
    let resources = match decode_item_list(json_field(v, "resources", 2)) {
        Some(x) => x,
        None => {
            return None;
        },
    };
    Some(ResourceBundle { schema_version: schema_version as u32, source_key, resources })
}

} // verus!
