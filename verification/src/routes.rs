//! The routes that can resolve a source, in the order they are tried, and
//! what they share: positional identifiers, bundles, and the properties of
//! what they resolve.

pub mod embed_v1;
pub mod managed_v1;
pub mod public_v2;

use crate::error::ResolveError;
use crate::model::{
    items_view, BundleView, ItemView, PreparedRequest, RequestView, ResourceBundle, ResourceItem,
};
use crate::normalize::{item_urls_exposed, items_exposed, items_listed, preferred_listed};
use crate::text::{chars_of, decimal, decimal_chars, join, string_of};
use vstd::prelude::*;

verus! {

/// The host of the images whose original size can be asked for.
pub open spec fn image_host() -> Seq<char> {
    "pbs.twimg.com"@
}

/// The identifier of the resource at `index` (counted from zero) of a source.
pub open spec fn fallback_id(key: Seq<char>, index: nat) -> Seq<char> {
    key + ":"@ + decimal(index + 1)
}

pub fn make_fallback_id(key: &str, index: usize) -> (r: String)
    ensures
        r@ == fallback_id(key@, index as nat),
{
    let k = chars_of(key);
    let colon = chars_of(":");
    let n = decimal_chars(index as u128 + 1);
    let a = join(&k, &colon);
    let b = join(&a, &n);
    string_of(&b)
}

/// A resource, or none, or the error that ends a collection.
pub open spec fn result_item(r: Result<Option<ResourceItem>, ResolveError>) -> Result<
    Option<ItemView>,
    ResolveError,
> {
    match r {
        Ok(Some(i)) => Ok(Some(i@)),
        Ok(None) => Ok(None),
        Err(e) => Err(e),
    }
}

pub open spec fn result_items(r: Result<Vec<ResourceItem>, ResolveError>) -> Result<
    Seq<ItemView>,
    ResolveError,
> {
    match r {
        Ok(v) => Ok(items_view(v@)),
        Err(e) => Err(e),
    }
}

/// The bundle of schema 1 of a source key with the given resources.
pub open spec fn bundle_of(key: Seq<char>, items: Seq<ItemView>) -> BundleView {
    BundleView { schema_version: 1, source_key: key, resources: items }
}

pub fn make_bundle(key: &str, resources: Vec<ResourceItem>) -> (b: ResourceBundle)
    ensures
        b@ == bundle_of(key@, items_view(resources@)),
{
    ResourceBundle { schema_version: 1, source_key: key.to_owned(), resources }
}

pub open spec fn result_request(r: Result<PreparedRequest, ResolveError>) -> Result<
    RequestView,
    ResolveError,
> {
    match r {
        Ok(q) => Ok(q@),
        Err(e) => Err(e),
    }
}

/// A bundle as the resolver hands it out for a source key: schema 1, that
/// key, at least one resource, and only exposed addresses.
pub open spec fn bundle_exposed(b: BundleView, key: Seq<char>) -> bool {
    &&& b.schema_version == 1
    &&& b.source_key == key
    &&& b.resources.len() > 0
    &&& items_exposed(b.resources)
}

/// An item with exposed addresses whose preferred address is one of its
/// variants'.
pub open spec fn item_sound(i: ItemView) -> bool {
    item_urls_exposed(i) && preferred_listed(i)
}

pub open spec fn items_sound(items: Seq<ItemView>) -> bool {
    forall|k: int| 0 <= k < items.len() ==> item_sound(#[trigger] items[k])
}

/// Sound items are exposed and have their preferred address listed.
pub proof fn lemma_items_sound(items: Seq<ItemView>)
    requires
        items_sound(items),
    ensures
        items_exposed(items),
        items_listed(items),
{
    assert forall|k: int| 0 <= k < items.len() implies item_urls_exposed(#[trigger] items[k])
        && preferred_listed(items[k]) by {
        assert(item_sound(items[k]));
    }
}

/// Adding a sound item keeps a list sound.
pub proof fn lemma_push_sound(acc: Seq<ItemView>, it: ItemView)
    requires
        items_sound(acc),
        item_sound(it),
    ensures
        items_sound(acc.push(it)),
{
    assert forall|k: int| 0 <= k < acc.push(it).len() implies item_sound(
        #[trigger] acc.push(it)[k],
    ) by {
        if k < acc.len() {
            assert(acc.push(it)[k] == acc[k]);
        }
    }
}

} // verus!
