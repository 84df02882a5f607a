//! Normalization of resources: HTTPS-only addresses, variant order,
//! containers and MIME types, image sizes and dimensions.
use crate::error::ResolveError;
use crate::model::{
    clone_opt, opt_chars, variants_view, ItemView, ResourceItem, ResourceVariant, VariantView,
};
use crate::text::{
    chars_are, chars_are_ignore_case, chars_of, eq_ignore_case, find_char, first_index_of,
    last_index_of, lower_seq, lowercase, parse_unsigned, parse_unsigned_chars, rfind_char,
    same_chars, slice, string_of,
};
use crate::weburl::{
    chars_seqs, pairs_view, parse_url, path_segments, replace_url_query, scheme_prefixed,
    segments_of, url_parse, url_replaced_query,
};
use vstd::prelude::*;

verus! {

/// The largest text that the resolver hands to the `url` crate as one part
/// of an address to build or rewrite. An address is made of at most ten such
/// parts (base, path, and four query pairs), and a character takes at most
/// twelve bytes once UTF-8 encoded and percent-escaped, so the serialised
/// address stays below the crate's 4 GiB limit, beyond which it panics:
/// 10 * 12 * 20,000,000 bytes is 2.4 GB. Longer texts are treated as
/// unusable.
pub const MAX_URL_CHARS: usize = 20_000_000;

/// `require_https`: an address is exposed only when it parses with the
/// scheme `https`, and then in its serialised form.
pub open spec fn spec_require_https(input: Seq<char>) -> Result<Seq<char>, ResolveError> {
    match url_parse(input) {
        Some(u) => if u.scheme == "https"@ && scheme_prefixed(u) {
            Ok(u.href)
        } else {
            Err(ResolveError::InvalidResponse)
        },
        None => Err(ResolveError::InvalidResponse),
    }
}

/// An address as the resolver exposes it: the serialisation of a parsed
/// `https` address.
pub open spec fn is_exposed_url(u: Seq<char>) -> bool {
    exists|input: Seq<char>| spec_require_https(input) == Ok::<Seq<char>, ResolveError>(u)
}

/// An exposed address begins with `https:`.
pub proof fn lemma_exposed_is_https(u: Seq<char>)
    requires
        is_exposed_url(u),
    ensures
        u.len() >= 6,
        u.subrange(0, 6) == "https:"@,
{
    let input = choose|input: Seq<char>|
        spec_require_https(input) == Ok::<Seq<char>, ResolveError>(u);
    let v = url_parse(input)->0;
    reveal_strlit("https");
    reveal_strlit("https:");
    assert(v.href.subrange(0, 5) == v.scheme);
    assert(u.subrange(0, 6) =~= "https:"@);
}

pub fn require_https(input: &str) -> (r: Result<String, ResolveError>)
    ensures
        match spec_require_https(input@) {
            Ok(u) => r matches Ok(s) && s@ == u,
            Err(e) => r == Err::<String, ResolveError>(e),
        },
{
    match parse_url(input) {
        Some(u) => {
            let scheme = chars_of(u.scheme.as_str());
            if chars_are(&scheme, "https") {
                Ok(u.href)
            } else {
                Err(ResolveError::InvalidResponse)
            }
        },
        None => Err(ResolveError::InvalidResponse),
    }
}

// ---------------------------------------------------------------------------
// Variant order
/// The sort key of a variant: bitrate, width and height, a missing one as 0.
pub open spec fn variant_key(v: VariantView) -> (u64, u32, u32) {
    (
        match v.bitrate {
            Some(b) => b,
            None => 0,
        },
        match v.width {
            Some(w) => w,
            None => 0,
        },
        match v.height {
            Some(h) => h,
            None => 0,
        },
    )
}

/// Whether key `a` comes strictly before key `b` in descending order.
pub open spec fn key_gt(a: (u64, u32, u32), b: (u64, u32, u32)) -> bool {
    a.0 > b.0 || (a.0 == b.0 && (a.1 > b.1 || (a.1 == b.1 && a.2 > b.2)))
}

/// Inserting `x` into a sequence sorted by descending key, after every
/// element whose key is not smaller than its own.
pub open spec fn insert_desc(x: VariantView, s: Seq<VariantView>) -> Seq<VariantView>
    decreases s.len(),
{
    if s.len() == 0 {
        seq![x]
    } else if !key_gt(variant_key(x), variant_key(s.last())) {
        s.push(x)
    } else {
        insert_desc(x, s.drop_last()).push(s.last())
    }
}

/// `sort_variants`: the stable sort by descending key (bitrate, then width,
/// then height).
pub open spec fn sorted_variants(s: Seq<VariantView>) -> Seq<VariantView>
    decreases s.len(),
{
    if s.len() == 0 {
        s
    } else {
        insert_desc(s.last(), sorted_variants(s.drop_last()))
    }
}

pub open spec fn is_sorted_desc(s: Seq<VariantView>) -> bool {
    forall|i: int, j: int|
        0 <= i < j < s.len() ==> !key_gt(variant_key(s[j]), variant_key(s[i]))
}

proof fn lemma_insert_desc(x: VariantView, s: Seq<VariantView>)
    requires
        is_sorted_desc(s),
    ensures
        is_sorted_desc(insert_desc(x, s)),
        insert_desc(x, s).to_multiset() == s.to_multiset().insert(x),
        insert_desc(x, s).len() == s.len() + 1,
    decreases s.len(),
{
    broadcast use vstd::seq_lib::group_to_multiset_ensures;

    if s.len() == 0 {
        assert(seq![x] =~= s.push(x));
    } else if !key_gt(variant_key(x), variant_key(s.last())) {
        assert forall|i: int, j: int|
            0 <= i < j < s.push(x).len() implies !key_gt(
            variant_key(s.push(x)[j]),
            variant_key(s.push(x)[i]),
        ) by {
            if j == s.len() && i < s.len() - 1 {
                assert(!key_gt(variant_key(s[s.len() - 1]), variant_key(s[i])));
            }
        }
    } else {
        let t = s.drop_last();
        assert(is_sorted_desc(t));
        lemma_insert_desc(x, t);
        let r = insert_desc(x, t);
        assert(s =~= t.push(s.last()));
        assert forall|i: int, j: int|
            0 <= i < j < r.push(s.last()).len() implies !key_gt(
            variant_key(r.push(s.last())[j]),
            variant_key(r.push(s.last())[i]),
        ) by {
            if j == r.len() {
                let ri = r[i];
                assert(r.to_multiset().count(ri) > 0);
                assert(r.contains(ri));
                assert(t.to_multiset().insert(x).count(ri) > 0);
                if ri != x {
                    assert(t.to_multiset().count(ri) > 0);
                    assert(t.contains(ri));
                    let k = choose|k: int| 0 <= k < t.len() && t[k] == ri;
                    assert(s[k] == ri);
                }
            }
        }
    }
}

/// The sort keeps every variant and orders them by descending key.
pub proof fn lemma_sorted_variants(s: Seq<VariantView>)
    ensures
        is_sorted_desc(sorted_variants(s)),
        sorted_variants(s).to_multiset() == s.to_multiset(),
        sorted_variants(s).len() == s.len(),
    decreases s.len(),
{
    broadcast use vstd::seq_lib::group_to_multiset_ensures;

    if s.len() > 0 {
        lemma_sorted_variants(s.drop_last());
        lemma_insert_desc(s.last(), sorted_variants(s.drop_last()));
        assert(s =~= s.drop_last().push(s.last()));
    }
}

/// Whether a variant has the given sort key.
pub open spec fn has_key(k: (u64, u32, u32)) -> spec_fn(VariantView) -> bool {
    |v: VariantView| variant_key(v) == k
}

proof fn lemma_insert_desc_keeps_ties(x: VariantView, s: Seq<VariantView>, k: (u64, u32, u32))
    ensures
        insert_desc(x, s).filter(has_key(k)) == s.push(x).filter(has_key(k)),
    decreases s.len(),
{
    broadcast use Seq::lemma_filter_push;

    if s.len() > 0 && key_gt(variant_key(x), variant_key(s.last())) {
        let t = s.drop_last();
        lemma_insert_desc_keeps_ties(x, t, k);
        assert(s =~= t.push(s.last()));
        assert(insert_desc(x, s) == insert_desc(x, t).push(s.last()));
    } else if s.len() == 0 {
        assert(seq![x] =~= s.push(x));
    }
}

/// The sort is stable: the variants that share a sort key come out in the
/// order in which they went in.
pub proof fn lemma_sort_is_stable(s: Seq<VariantView>, k: (u64, u32, u32))
    ensures
        sorted_variants(s).filter(has_key(k)) == s.filter(has_key(k)),
    decreases s.len(),
{
    broadcast use Seq::lemma_filter_push;

    if s.len() == 0 {
        reveal(Seq::filter);
    } else {
        let t = s.drop_last();
        lemma_sort_is_stable(t, k);
        lemma_insert_desc_keeps_ties(s.last(), sorted_variants(t), k);
        assert(s =~= t.push(s.last()));
    }
}

pub fn variant_key_of(v: &ResourceVariant) -> (k: (u64, u32, u32))
    ensures
        k == variant_key(v@),
{
    (
        match v.bitrate {
            Some(b) => b,
            None => 0,
        },
        match v.width {
            Some(w) => w,
            None => 0,
        },
        match v.height {
            Some(h) => h,
            None => 0,
        },
    )
}

fn key_greater(a: (u64, u32, u32), b: (u64, u32, u32)) -> (r: bool)
    ensures
        r == key_gt(a, b),
{
    a.0 > b.0 || (a.0 == b.0 && (a.1 > b.1 || (a.1 == b.1 && a.2 > b.2)))
}

proof fn lemma_insert_at(x: VariantView, s: Seq<VariantView>, pos: int)
    requires
        0 <= pos <= s.len(),
        forall|j: int| pos <= j < s.len() ==> key_gt(variant_key(x), variant_key(#[trigger] s[j])),
        pos > 0 ==> !key_gt(variant_key(x), variant_key(s[pos - 1])),
    ensures
        insert_desc(x, s) == s.insert(pos, x),
    decreases s.len(),
{
    if s.len() == 0 {
        assert(s.insert(pos, x) =~= seq![x]);
    } else if pos == s.len() {
        assert(s.insert(pos, x) =~= s.push(x));
    } else {
        let t = s.drop_last();
        assert forall|j: int| pos <= j < t.len() implies key_gt(
            variant_key(x),
            variant_key(#[trigger] t[j]),
        ) by {
            assert(t[j] == s[j]);
        }
        lemma_insert_at(x, t, pos);
        assert(s.insert(pos, x) =~= t.insert(pos, x).push(s.last()));
    }
}

/// Sorts variants by descending bitrate, then width, then height, keeping
/// the order of equal ones.
pub fn sort_variants(variants: &mut Vec<ResourceVariant>)
    ensures
        variants_view(final(variants)@) == sorted_variants(variants_view(old(variants)@)),
{
    let ghost original = variants_view(old(variants)@);
    let mut input: Vec<ResourceVariant> = Vec::new();
    std::mem::swap(&mut input, variants);
    let mut sorted: Vec<ResourceVariant> = Vec::new();
    let mut i: usize = 0;
    let n = input.len();
    assert(variants_view(input@) == original);
    while i < n
        invariant
            n == input@.len(),
            i <= n,
            variants_view(input@) == original,
            variants_view(sorted@) == sorted_variants(original.subrange(0, i as int)),
        decreases n - i,
    {
        let x = input[i].duplicate();
        let kx = variant_key_of(&x);
        let mut pos = sorted.len();
        proof {
            lemma_sorted_variants(original.subrange(0, i as int));
        }
        while pos > 0 && key_greater(kx, variant_key_of(&sorted[pos - 1]))
            invariant
                pos <= sorted@.len(),
                kx == variant_key(x@),
                forall|j: int|
                    pos <= j < sorted@.len() ==> key_gt(
                        variant_key(x@),
                        variant_key(#[trigger] variants_view(sorted@)[j]),
                    ),
            decreases pos,
        {
            pos = pos - 1;
        }
        let ghost before = variants_view(sorted@);
        proof {
            lemma_insert_at(x@, before, pos as int);
        }
        sorted.insert(pos, x);
        assert(variants_view(sorted@) =~= before.insert(pos as int, input@[i as int]@));
        assert(original.subrange(0, i + 1 as int).drop_last() =~= original.subrange(0, i as int));
        i = i + 1;
    }
    assert(original.subrange(0, n as int) =~= original);
    *variants = sorted;
}

// ---------------------------------------------------------------------------
// Exposed addresses of an item
pub open spec fn ensured_variant(v: VariantView) -> VariantView {
    VariantView {
        url: spec_require_https(v.url)->Ok_0,
        mime_type: v.mime_type,
        container: v.container,
        codec: v.codec,
        bitrate: v.bitrate,
        size_bytes: v.size_bytes,
        width: v.width,
        height: v.height,
    }
}

/// `ensure_item_urls`: every address of the item (preferred, preview,
/// variants) is required to be HTTPS and replaced by its serialised form.
pub open spec fn spec_ensure_item(i: ItemView) -> Result<ItemView, ResolveError> {
    if spec_require_https(i.preferred_url) is Ok && (match i.preview_url {
        Some(p) => spec_require_https(p) is Ok,
        None => true,
    }) && (forall|k: int|
        0 <= k < i.variants.len() ==> spec_require_https(#[trigger] i.variants[k].url) is Ok) {
        Ok(
            ItemView {
                id: i.id,
                kind: i.kind,
                preferred_url: spec_require_https(i.preferred_url)->Ok_0,
                preview_url: match i.preview_url {
                    Some(p) => Some(spec_require_https(p)->Ok_0),
                    None => None,
                },
                width: i.width,
                height: i.height,
                duration_ms: i.duration_ms,
                variants: i.variants.map_values(|v: VariantView| ensured_variant(v)),
            },
        )
    } else {
        Err(ResolveError::InvalidResponse)
    }
}

/// Every address of an item is exposed.
pub open spec fn item_urls_exposed(i: ItemView) -> bool {
    &&& is_exposed_url(i.preferred_url)
    &&& (match i.preview_url {
        Some(p) => is_exposed_url(p),
        None => true,
    })
    &&& forall|k: int| 0 <= k < i.variants.len() ==> is_exposed_url(#[trigger] i.variants[k].url)
}

/// Every address of every item is exposed.
pub open spec fn items_exposed(items: Seq<ItemView>) -> bool {
    forall|k: int| 0 <= k < items.len() ==> item_urls_exposed(#[trigger] items[k])
}

/// What `ensure_item_urls` accepts has only exposed addresses.
pub broadcast proof fn lemma_ensured_item_exposed(i: ItemView)
    ensures
        (#[trigger] spec_ensure_item(i)) is Ok ==> item_urls_exposed(spec_ensure_item(i)->Ok_0),
{
    if let Ok(j) = spec_ensure_item(i) {
        assert(is_exposed_url(j.preferred_url)) by {
            assert(spec_require_https(i.preferred_url) == Ok::<Seq<char>, ResolveError>(
                j.preferred_url,
            ));
        }
        if let Some(p) = i.preview_url {
            assert(is_exposed_url(j.preview_url->0)) by {
                assert(spec_require_https(p) == Ok::<Seq<char>, ResolveError>(j.preview_url->0));
            }
        }
        assert forall|k: int| 0 <= k < j.variants.len() implies is_exposed_url(
            #[trigger] j.variants[k].url,
        ) by {
            assert(spec_require_https(i.variants[k].url) is Ok);
            assert(spec_require_https(i.variants[k].url) == Ok::<Seq<char>, ResolveError>(
                j.variants[k].url,
            ));
        }
    }
}

/// The preferred address of an item is the address of one of its variants.
pub open spec fn preferred_listed(i: ItemView) -> bool {
    exists|k: int| 0 <= k < i.variants.len() && (#[trigger] i.variants[k]).url == i.preferred_url
}

/// Every item has its preferred address among its variants.
pub open spec fn items_listed(items: Seq<ItemView>) -> bool {
    forall|k: int| 0 <= k < items.len() ==> preferred_listed(#[trigger] items[k])
}

/// `ensure_item_urls` rewrites the preferred address and the variants'
/// addresses alike, so it keeps the preferred address among the variants.
pub broadcast proof fn lemma_ensured_keeps_listing(i: ItemView)
    ensures
        (#[trigger] spec_ensure_item(i)) is Ok && preferred_listed(i) ==> preferred_listed(
            spec_ensure_item(i)->Ok_0,
        ),
{
    if spec_ensure_item(i) is Ok && preferred_listed(i) {
        let k = choose|k: int|
            0 <= k < i.variants.len() && (#[trigger] i.variants[k]).url == i.preferred_url;
        let j = spec_ensure_item(i)->Ok_0;
        assert(j.variants[k] == ensured_variant(i.variants[k]));
    }
}

/// The index of the first variant whose address is not HTTPS, from `from`
/// on; the number of variants when there is none.
pub open spec fn first_failing(vs: Seq<VariantView>, from: int) -> int
    decreases vs.len() - from,
{
    if from < 0 || from >= vs.len() {
        vs.len() as int
    } else if spec_require_https(vs[from].url) is Err {
        from
    } else {
        first_failing(vs, from + 1)
    }
}

/// The item with its preferred and preview addresses normalised and its
/// first `k` variants' addresses normalised.
pub open spec fn partially_ensured(i: ItemView, k: int) -> ItemView {
    ItemView {
        id: i.id,
        kind: i.kind,
        preferred_url: spec_require_https(i.preferred_url)->Ok_0,
        preview_url: match i.preview_url {
            Some(p) => Some(spec_require_https(p)->Ok_0),
            None => None,
        },
        width: i.width,
        height: i.height,
        duration_ms: i.duration_ms,
        variants: Seq::new(
            i.variants.len(),
            |j: int|
                if j < k {
                    ensured_variant(i.variants[j])
                } else {
                    i.variants[j]
                },
        ),
    }
}

/// What `ensure_item_urls` leaves in the item, whether it succeeds or not:
/// the addresses are normalised in order (preferred, preview, variants) up
/// to the first that is not HTTPS; nothing else changes.
pub open spec fn ensured_state(i: ItemView) -> ItemView {
    if spec_require_https(i.preferred_url) is Err {
        i
    } else if i.preview_url matches Some(p) && spec_require_https(p) is Err {
        ItemView { preferred_url: spec_require_https(i.preferred_url)->Ok_0, ..i }
    } else {
        partially_ensured(i, first_failing(i.variants, 0))
    }
}

proof fn lemma_first_failing(vs: Seq<VariantView>, from: int)
    requires
        0 <= from <= vs.len(),
        forall|k: int| 0 <= k < from ==> spec_require_https(#[trigger] vs[k].url) is Ok,
    ensures
        from <= first_failing(vs, from) <= vs.len(),
        first_failing(vs, from) < vs.len() ==> spec_require_https(
            vs[first_failing(vs, from)].url,
        ) is Err,
        forall|k: int|
            0 <= k < first_failing(vs, from) ==> spec_require_https(#[trigger] vs[k].url) is Ok,
    decreases vs.len() - from,
{
    if from < vs.len() && spec_require_https(vs[from].url) is Ok {
        lemma_first_failing(vs, from + 1);
    }
}

/// Requires every address of the item to be HTTPS and stores each in its
/// serialised form, in order; on the first address that is not HTTPS it
/// stops, leaving the addresses before it normalised.
pub fn ensure_item_urls(item: &mut ResourceItem) -> (r: Result<(), ResolveError>)
    ensures
        match spec_ensure_item(old(item)@) {
            Ok(v) => r is Ok && final(item)@ == v,
            Err(e) => r == Err::<(), ResolveError>(e),
        },
        final(item)@ == ensured_state(old(item)@),
{
    let ghost start = item@;
    let preferred = match require_https(item.preferred_url.as_str()) {
        Ok(u) => u,
        Err(e) => {
            return Err(e);
        },
    };
    item.preferred_url = preferred;
    let preview = match &item.preview_url {
        Some(p) => match require_https(p.as_str()) {
            Ok(u) => Some(u),
            Err(e) => {
                assert(item@ == ensured_state(start));
                return Err(e);
            },
        },
        None => None,
    };
    item.preview_url = preview;
    let n = item.variants.len();
    let mut i: usize = 0;
    proof {
        lemma_first_failing(start.variants, 0);
    }
    while i < n
        invariant
            start == old(item)@,
            n == item.variants@.len(),
            n == start.variants.len(),
            i <= n,
            spec_require_https(start.preferred_url) is Ok,
            start.preview_url matches Some(p) ==> spec_require_https(p) is Ok,
            item@.id == start.id,
            item@.kind == start.kind,
            item@.width == start.width,
            item@.height == start.height,
            item@.duration_ms == start.duration_ms,
            item@.preferred_url == spec_require_https(start.preferred_url)->Ok_0,
            item@.preview_url == (match start.preview_url {
                Some(p) => Some(spec_require_https(p)->Ok_0),
                None => None,
            }),
            first_failing(start.variants, 0) == first_failing(start.variants, i as int),
            forall|k: int|
                0 <= k < i ==> spec_require_https(#[trigger] start.variants[k].url) is Ok,
            forall|k: int|
                0 <= k < i ==> #[trigger] item@.variants[k] == ensured_variant(start.variants[k]),
            forall|k: int| i <= k < n ==> #[trigger] item@.variants[k] == start.variants[k],
        decreases n - i,
    {
        assert(item@.variants[i as int] == start.variants[i as int]);
        let url = match require_https(item.variants[i].url.as_str()) {
            Ok(u) => u,
            Err(e) => {
                assert(first_failing(start.variants, 0) == i);
                assert(item@.variants =~= partially_ensured(start, i as int).variants);
                assert(spec_ensure_item(start) is Err);
                return Err(e);
            },
        };
        let ghost before = item.variants@;
        let ghost bview = item@.variants;
        let mut v = item.variants[i].duplicate();
        v.url = url;
        assert(v@ == ensured_variant(start.variants[i as int]));
        item.variants.set(i, v);
        assert(item.variants@ == before.update(i as int, v));
        assert forall|k: int| 0 <= k < n && k != i implies #[trigger] item@.variants[k]
            == bview[k] by {
            assert(item.variants@[k] == before[k]);
            assert(bview[k] == before[k]@);
        }
        assert(item@.variants[i as int] == v@);
        i = i + 1;
    }
    assert(item@.variants =~= start.variants.map_values(|v: VariantView| ensured_variant(v)));
    assert(item@.variants =~= partially_ensured(start, n as int).variants);
    Ok(())
}

// ---------------------------------------------------------------------------
// Containers and MIME types
/// The container that a path extension names.
pub open spec fn container_of_extension(ext: Seq<char>) -> Option<Seq<char>> {
    if ext == "mp4"@ || ext == "webm"@ || ext == "m3u8"@ {
        Some(ext)
    } else {
        None
    }
}

/// `container_from_url`: the lowercase extension of the address's path,
/// where it names a known container.
pub open spec fn spec_container_from_url(input: Seq<char>) -> Option<Seq<char>> {
    match url_parse(input) {
        Some(u) => {
            let path = lower_seq(u.path);
            match last_index_of(path, '.') {
                Some(i) => container_of_extension(path.subrange(i + 1, path.len() as int)),
                None => None,
            }
        },
        None => None,
    }
}

pub fn container_from_url(input: &str) -> (r: Option<String>)
    ensures
        opt_chars(r) == spec_container_from_url(input@),
{
    let u = match parse_url(input) {
        Some(u) => u,
        None => {
            return None;
        },
    };
    let path = lowercase(&chars_of(u.path.as_str()));
    let dot = match rfind_char(&path, '.') {
        Some(d) => d,
        None => {
            return None;
        },
    };
    let n = path.len();
    let ext = slice(&path, dot + 1, n);
    if chars_are(&ext, "mp4") || chars_are(&ext, "webm") || chars_are(&ext, "m3u8") {
        Some(string_of(&ext))
    } else {
        None
    }
}

/// `mime_for_container`.
pub open spec fn spec_mime_for_container(container: Option<Seq<char>>) -> Option<Seq<char>> {
    match container {
        Some(c) => if c == "mp4"@ {
            Some("video/mp4"@)
        } else if c == "webm"@ {
            Some("video/webm"@)
        } else if c == "m3u8"@ {
            Some("application/x-mpegURL"@)
        } else {
            None
        },
        None => None,
    }
}

pub fn mime_for_container(container: &Option<String>) -> (r: Option<String>)
    ensures
        opt_chars(r) == spec_mime_for_container(opt_chars(*container)),
{
    match container {
        Some(c) => {
            let chars = chars_of(c.as_str());
            if chars_are(&chars, "mp4") {
                Some("video/mp4".to_owned())
            } else if chars_are(&chars, "webm") {
                Some("video/webm".to_owned())
            } else if chars_are(&chars, "m3u8") {
                Some("application/x-mpegURL".to_owned())
            } else {
                None
            }
        },
        None => None,
    }
}

/// Whether a variant is a direct MP4 file.
pub open spec fn is_mp4_variant(v: VariantView) -> bool {
    ||| v.container == Some("mp4"@)
    ||| (v.mime_type matches Some(m) && eq_ignore_case(m, "video/mp4"@))
}

/// The first index at or after `from` whose variant is a direct MP4 file.
pub open spec fn first_mp4_from(s: Seq<VariantView>, from: int) -> Option<int>
    decreases s.len() - from,
{
    if from < 0 || from >= s.len() {
        None
    } else if is_mp4_variant(s[from]) {
        Some(from)
    } else {
        first_mp4_from(s, from + 1)
    }
}

/// `preferred_variant`: the first direct MP4 file, else the first variant.
pub open spec fn spec_preferred_variant(s: Seq<VariantView>) -> Option<int> {
    match first_mp4_from(s, 0) {
        Some(i) => Some(i),
        None => if s.len() > 0 {
            Some(0)
        } else {
            None
        },
    }
}

proof fn lemma_first_mp4_from(s: Seq<VariantView>, from: int)
    requires
        0 <= from <= s.len(),
    ensures
        first_mp4_from(s, from) matches Some(i) ==> from <= i < s.len(),
    decreases s.len() - from,
{
    if from < s.len() && !is_mp4_variant(s[from]) {
        lemma_first_mp4_from(s, from + 1);
    }
}

/// The preferred variant, when there is one, is a variant.
pub proof fn lemma_preferred_in_range(s: Seq<VariantView>)
    ensures
        spec_preferred_variant(s) matches Some(i) ==> 0 <= i < s.len(),
{
    lemma_first_mp4_from(s, 0);
}

pub fn is_mp4(v: &ResourceVariant) -> (r: bool)
    ensures
        r == is_mp4_variant(v@),
{
    let by_container = match &v.container {
        Some(c) => chars_are(&chars_of(c.as_str()), "mp4"),
        None => false,
    };
    if by_container {
        return true;
    }
    match &v.mime_type {
        Some(m) => chars_are_ignore_case(&chars_of(m.as_str()), "video/mp4"),
        None => false,
    }
}

/// The index of the preferred variant: the first direct MP4 file, else the
/// first variant.
pub fn preferred_variant(variants: &Vec<ResourceVariant>) -> (r: Option<usize>)
    ensures
        match r {
            Some(i) => spec_preferred_variant(variants_view(variants@)) == Some(i as int) && i
                < variants@.len(),
            None => spec_preferred_variant(variants_view(variants@)) is None,
        },
{
    let ghost s = variants_view(variants@);
    proof {
        lemma_first_mp4_from(s, 0);
    }
    let mut i: usize = 0;
    while i < variants.len()
        invariant
            i <= variants@.len(),
            s == variants_view(variants@),
            first_mp4_from(s, 0) == first_mp4_from(s, i as int),
        decreases variants@.len() - i,
    {
        if is_mp4(&variants[i]) {
            return Some(i);
        }
        i = i + 1;
    }
    if variants.len() > 0 {
        Some(0)
    } else {
        None
    }
}

// ---------------------------------------------------------------------------
// Images
/// `normalize_image_format`: the canonical name of an image format.
pub open spec fn spec_image_format(format: Seq<char>) -> Option<Seq<char>> {
    if eq_ignore_case(format, "jpg"@) || eq_ignore_case(format, "jpeg"@) {
        Some("jpg"@)
    } else if eq_ignore_case(format, "png"@) {
        Some("png"@)
    } else if eq_ignore_case(format, "webp"@) {
        Some("webp"@)
    } else {
        None
    }
}

pub fn normalize_image_format(format: &Vec<char>) -> (r: Option<&'static str>)
    ensures
        match spec_image_format(format@) {
            Some(f) => r matches Some(s) && s@ == f,
            None => r is None,
        },
{
    if chars_are_ignore_case(format, "jpg") || chars_are_ignore_case(format, "jpeg") {
        Some("jpg")
    } else if chars_are_ignore_case(format, "png") {
        Some("png")
    } else if chars_are_ignore_case(format, "webp") {
        Some("webp")
    } else {
        None
    }
}

/// `split_image_extension`: the path before its last `.` and the extension
/// after it, where the extension names an image format.
pub open spec fn spec_split_image_extension(path: Seq<char>) -> Option<(Seq<char>, Seq<char>)> {
    match last_index_of(path, '.') {
        Some(i) => {
            let ext = path.subrange(i + 1, path.len() as int);
            if eq_ignore_case(ext, "jpg"@) || eq_ignore_case(ext, "jpeg"@) || eq_ignore_case(
                ext,
                "png"@,
            ) || eq_ignore_case(ext, "webp"@) {
                Some((path.subrange(0, i), ext))
            } else {
                None
            }
        },
        None => None,
    }
}

pub fn split_image_extension(path: &Vec<char>) -> (r: Option<(Vec<char>, Vec<char>)>)
    ensures
        match spec_split_image_extension(path@) {
            Some((b, e)) => r matches Some(p) && p.0@ == b && p.1@ == e,
            None => r is None,
        },
{
    let dot = match rfind_char(path, '.') {
        Some(d) => d,
        None => {
            return None;
        },
    };
    let n = path.len();
    let ext = slice(path, dot + 1, n);
    if chars_are_ignore_case(&ext, "jpg") || chars_are_ignore_case(&ext, "jpeg")
        || chars_are_ignore_case(&ext, "png") || chars_are_ignore_case(&ext, "webp") {
        Some((slice(path, 0, dot), ext))
    } else {
        None
    }
}

/// The value of the first query pair with the given name.
pub open spec fn first_pair_value(pairs: Seq<(Seq<char>, Seq<char>)>, name: Seq<char>) -> Option<
    Seq<char>,
>
    decreases pairs.len(),
{
    if pairs.len() == 0 {
        None
    } else if pairs[0].0 == name {
        Some(pairs[0].1)
    } else {
        first_pair_value(pairs.drop_first(), name)
    }
}

proof fn lemma_first_pair_value_from(pairs: Seq<(Seq<char>, Seq<char>)>, name: Seq<char>, i: int)
    requires
        0 <= i <= pairs.len(),
        forall|j: int| 0 <= j < i ==> #[trigger] pairs[j].0 != name,
    ensures
        first_pair_value(pairs, name) == first_pair_value(
            pairs.subrange(i, pairs.len() as int),
            name,
        ),
    decreases i,
{
    if i > 0 {
        assert(pairs.drop_first().subrange(i - 1, pairs.drop_first().len() as int)
            =~= pairs.subrange(i, pairs.len() as int));
        assert forall|j: int| 0 <= j < i - 1 implies #[trigger] pairs.drop_first()[j].0
            != name by {
            assert(pairs.drop_first()[j] == pairs[j + 1]);
        }
        lemma_first_pair_value_from(pairs.drop_first(), name, i - 1);
    } else {
        assert(pairs.subrange(0, pairs.len() as int) =~= pairs);
    }
}

/// The value of the first query pair named `name`.
pub fn query_value(pairs: &Vec<(String, String)>, name: &str) -> (r: Option<String>)
    ensures
        opt_chars(r) == first_pair_value(pairs_view(pairs@), name@),
{
    let ghost p = pairs_view(pairs@);
    let wanted = chars_of(name);
    let mut i: usize = 0;
    while i < pairs.len()
        invariant
            i <= pairs@.len(),
            p == pairs_view(pairs@),
            wanted@ == name@,
            forall|j: int| 0 <= j < i ==> #[trigger] p[j].0 != name@,
        decreases pairs@.len() - i,
    {
        let key = chars_of(pairs[i].0.as_str());
        if same_chars(&key, &wanted) {
            proof {
                lemma_first_pair_value_from(p, name@, i as int);
            }
            return Some(pairs[i].1.clone());
        }
        i = i + 1;
    }
    proof {
        lemma_first_pair_value_from(p, name@, i as int);
    }
    None
}

/// The MIME type that a canonical image format name stands for.
pub open spec fn image_mime_for_format(format: Seq<char>) -> Option<Seq<char>> {
    if format == "jpg"@ {
        Some("image/jpeg"@)
    } else if format == "png"@ {
        Some("image/png"@)
    } else if format == "webp"@ {
        Some("image/webp"@)
    } else {
        None
    }
}

/// `image_mime_type`: the image format named by the `format` query pair,
/// else by the lowercase path's extension, as a MIME type.
pub open spec fn spec_image_mime_type(input: Seq<char>) -> Option<Seq<char>> {
    match url_parse(input) {
        Some(u) => {
            let from_query = match first_pair_value(u.query_pairs, "format"@) {
                Some(f) => spec_image_format(f),
                None => None,
            };
            let format = match from_query {
                Some(f) => Some(f),
                None => match spec_split_image_extension(lower_seq(u.path)) {
                    Some((_, ext)) => spec_image_format(ext),
                    None => None,
                },
            };
            match format {
                Some(f) => image_mime_for_format(f),
                None => None,
            }
        },
        None => None,
    }
}

pub fn image_mime_type(input: &str) -> (r: Option<String>)
    ensures
        opt_chars(r) == spec_image_mime_type(input@),
{
    let u = match parse_url(input) {
        Some(u) => u,
        None => {
            return None;
        },
    };
    let from_query = match query_value(&u.query_pairs, "format") {
        Some(f) => normalize_image_format(&chars_of(f.as_str())),
        None => None,
    };
    let format = match from_query {
        Some(f) => Some(f),
        None => {
            let path = lowercase(&chars_of(u.path.as_str()));
            match split_image_extension(&path) {
                Some((_, ext)) => normalize_image_format(&ext),
                None => None,
            }
        },
    };
    match format {
        Some(f) => {
            let fc = chars_of(f);
            if chars_are(&fc, "jpg") {
                Some("image/jpeg".to_owned())
            } else if chars_are(&fc, "png") {
                Some("image/png".to_owned())
            } else if chars_are(&fc, "webp") {
                Some("image/webp".to_owned())
            } else {
                None
            }
        },
        None => None,
    }
}

/// `WIDTHxHEIGHT` in one path segment, both parts as `u32`.
pub open spec fn segment_dimensions(seg: Seq<char>) -> Option<(u32, u32)> {
    match first_index_of(seg, 'x') {
        Some(i) => match (
            parse_unsigned(seg.subrange(0, i), u32::MAX as nat),
            parse_unsigned(seg.subrange(i + 1, seg.len() as int), u32::MAX as nat),
        ) {
            (Some(w), Some(h)) => Some((w as u32, h as u32)),
            _ => None,
        },
        None => None,
    }
}

/// The dimensions named by the first segment, from `from` on, that names any.
pub open spec fn first_dimensions(segs: Seq<Seq<char>>, from: int) -> Option<(u32, u32)>
    decreases segs.len() - from,
{
    if from < 0 || from >= segs.len() {
        None
    } else {
        match segment_dimensions(segs[from]) {
            Some(d) => Some(d),
            None => first_dimensions(segs, from + 1),
        }
    }
}

/// `dimensions_from_url`: the first path segment of the form
/// `WIDTHxHEIGHT`.
pub open spec fn spec_dimensions_from_url(input: Seq<char>) -> Option<(u32, u32)> {
    match url_parse(input) {
        Some(u) => match path_segments(u.path) {
            Some(segs) => first_dimensions(segs, 0),
            None => None,
        },
        None => None,
    }
}

pub fn segment_dims(seg: &Vec<char>) -> (r: Option<(u32, u32)>)
    ensures
        r == segment_dimensions(seg@),
{
    let x = match find_char(seg, 'x') {
        Some(x) => x,
        None => {
            return None;
        },
    };
    let w = parse_unsigned_chars(&slice(seg, 0, x), 0xffff_ffff);
    let n = seg.len();
    let h = parse_unsigned_chars(&slice(seg, x + 1, n), 0xffff_ffff);
    match (w, h) {
        (Some(w), Some(h)) => Some((w as u32, h as u32)),
        _ => None,
    }
}

/// The width and height named by the address's path, each present.
pub open spec fn opt_dimensions(d: Option<(u32, u32)>) -> Option<(Option<u32>, Option<u32>)> {
    match d {
        Some((w, h)) => Some((Some(w), Some(h))),
        None => None,
    }
}

pub fn dimensions_from_url(input: &str) -> (r: Option<(Option<u32>, Option<u32>)>)
    ensures
        r == opt_dimensions(spec_dimensions_from_url(input@)),
{
    let u = match parse_url(input) {
        Some(u) => u,
        None => {
            return None;
        },
    };
    let segs = match segments_of(&chars_of(u.path.as_str())) {
        Some(s) => s,
        None => {
            return None;
        },
    };
    let ghost sv = chars_seqs(segs@);
    let mut i: usize = 0;
    while i < segs.len()
        invariant
            i <= segs@.len(),
            sv == chars_seqs(segs@),
            spec_dimensions_from_url(input@) == first_dimensions(sv, 0),
            first_dimensions(sv, 0) == first_dimensions(sv, i as int),
        decreases segs@.len() - i,
    {
        match segment_dims(&segs[i]) {
            Some((w, h)) => {
                assert(sv[i as int] == segs@[i as int]@);
                return Some((Some(w), Some(h)));
            },
            None => {},
        }
        i = i + 1;
    }
    None
}

/// Asking for the original size of an image: the address with the given
/// path and the query `format=…&name=orig`.
pub open spec fn spec_rewrite_original(input: Seq<char>, path: Seq<char>, format: Seq<char>) -> Result<
    Seq<char>,
    ResolveError,
> {
    if input.len() > MAX_URL_CHARS || path.len() > MAX_URL_CHARS || format.len() > MAX_URL_CHARS {
        Err(ResolveError::InvalidResponse)
    } else {
        match url_replaced_query(input, path, seq![("format"@, format), ("name"@, "orig"@)]) {
            Some(s) => Ok(s),
            None => Err(ResolveError::InvalidResponse),
        }
    }
}

/// `original_image_url_for_host`: an HTTPS image address on the given host
/// is rewritten to ask for the original size, with the format taken from the
/// `format` query pair or else from the path's extension; other HTTPS
/// addresses are kept in their serialised form.
pub open spec fn spec_original_image_url(input: Seq<char>, host: Seq<char>) -> Result<
    Seq<char>,
    ResolveError,
> {
    match url_parse(input) {
        None => Err(ResolveError::InvalidResponse),
        Some(u) => if u.scheme != "https"@ {
            Err(ResolveError::InvalidResponse)
        } else {
            match u.host {
                None => Err(ResolveError::InvalidResponse),
                Some(h) => if h != host {
                    Ok(u.href)
                } else {
                    match first_pair_value(u.query_pairs, "format"@) {
                        Some(f) => match spec_image_format(f) {
                            Some(n) => spec_rewrite_original(input, u.path, n),
                            None => Err(ResolveError::InvalidResponse),
                        },
                        None => match spec_split_image_extension(u.path) {
                            Some((base, ext)) => spec_rewrite_original(
                                input,
                                base,
                                spec_image_format(ext)->0,
                            ),
                            None => Ok(u.href),
                        },
                    }
                },
            }
        },
    }
}

fn rewrite_original(input: &str, path: &Vec<char>, format: &str) -> (r: Result<String, ResolveError>)
    ensures
        match spec_rewrite_original(input@, path@, format@) {
            Ok(u) => r matches Ok(s) && s@ == u,
            Err(e) => r == Err::<String, ResolveError>(e),
        },
{
    let input_len = chars_of(input).len();
    let format_len = chars_of(format).len();
    if input_len > MAX_URL_CHARS || path.len() > MAX_URL_CHARS || format_len > MAX_URL_CHARS {
        return Err(ResolveError::InvalidResponse);
    }
    let mut pairs: Vec<(String, String)> = Vec::new();
    pairs.push(("format".to_owned(), format.to_owned()));
    pairs.push(("name".to_owned(), "orig".to_owned()));
    assert(pairs_view(pairs@) =~= seq![("format"@, format@), ("name"@, "orig"@)]);
    proof {
        reveal_strlit("format");
        reveal_strlit("name");
        reveal_strlit("orig");
    }
    let path_text = string_of(path);
    match replace_url_query(input, path_text.as_str(), &pairs) {
        Some(s) => Ok(s),
        None => Err(ResolveError::InvalidResponse),
    }
}

pub fn original_image_url_for_host(input: &str, host: &str) -> (r: Result<String, ResolveError>)
    ensures
        match spec_original_image_url(input@, host@) {
            Ok(u) => r matches Ok(s) && s@ == u,
            Err(e) => r == Err::<String, ResolveError>(e),
        },
{
    let u = match parse_url(input) {
        Some(u) => u,
        None => {
            return Err(ResolveError::InvalidResponse);
        },
    };
    if !chars_are(&chars_of(u.scheme.as_str()), "https") {
        return Err(ResolveError::InvalidResponse);
    }
    let h = match &u.host {
        Some(h) => chars_of(h.as_str()),
        None => {
            return Err(ResolveError::InvalidResponse);
        },
    };
    if !same_chars(&h, &chars_of(host)) {
        return Ok(u.href);
    }
    let path_chars = chars_of(u.path.as_str());
    match query_value(&u.query_pairs, "format") {
        Some(f) => match normalize_image_format(&chars_of(f.as_str())) {
            Some(n) => rewrite_original(input, &path_chars, n),
            None => Err(ResolveError::InvalidResponse),
        },
        None => match split_image_extension(&path_chars) {
            Some((base, ext)) => match normalize_image_format(&ext) {
                Some(n) => rewrite_original(input, &base, n),
                None => Err(ResolveError::InvalidResponse),
            },
            None => Ok(u.href),
        },
    }
}

} // verus!
