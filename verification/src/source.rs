//! Recognition of supported links and of source keys.
use crate::error::ResolveError;
use crate::model::{DescriptorView, InputDescriptor};
use crate::text::{
    all_digits, chars_are, chars_of, first_index_of, join, lemma_first_index_of, only_digits,
    split_on, string_of, trim, trim_chars,
};
use crate::weburl::{chars_seqs, parse_url, path_segments, segments_of, url_parse, UrlView};
use vstd::prelude::*;

verus! {

/// The longest source key that the current routes accept.
pub const MAX_SOURCE_KEY_LENGTH: usize = 20;

/// The shortest source key that the current routes accept.
pub const MIN_SOURCE_KEY_LENGTH: usize = 2;

/// A source key: only ASCII digits, with a length between the bounds.
pub open spec fn key_is_valid(key: Seq<char>, min: nat, max: nat) -> bool {
    &&& min <= key.len() <= max
    &&& all_digits(key)
}

/// The canonical link of a source key.
pub open spec fn canonical_link(key: Seq<char>) -> Seq<char> {
    "https://x.com/i/status/"@ + key
}

pub open spec fn descriptor_of(key: Seq<char>) -> DescriptorView {
    DescriptorView { source_key: key, normalized_input: canonical_link(key) }
}

/// The hosts whose links are recognised.
pub open spec fn is_input_host(h: Seq<char>) -> bool {
    ||| h == "x.com"@
    ||| h == "www.x.com"@
    ||| h == "mobile.x.com"@
    ||| h == "twitter.com"@
    ||| h == "www.twitter.com"@
    ||| h == "mobile.twitter.com"@
}

/// The path segments without the empty ones, in order.
pub open spec fn nonempty_segments(s: Seq<Seq<char>>) -> Seq<Seq<char>>
    decreases s.len(),
{
    if s.len() == 0 {
        s
    } else if s.last().len() > 0 {
        nonempty_segments(s.drop_last()).push(s.last())
    } else {
        nonempty_segments(s.drop_last())
    }
}

/// The segment that follows the first `status` segment, if any.
pub open spec fn key_after_status(s: Seq<Seq<char>>, from: int) -> Option<Seq<char>>
    decreases s.len() - from,
{
    if from < 0 || from + 1 >= s.len() {
        None
    } else if s[from] == "status"@ {
        Some(s[from + 1])
    } else {
        key_after_status(s, from + 1)
    }
}

/// How a link is recognised, with the key length bounds of the caller:
/// trimmed, parsed, an `http` or `https` link on a known host whose path holds
/// `status/<key>`, with a valid key.
pub open spec fn spec_inspect_with(input: Seq<char>, min: nat, max: nat) -> Result<
    DescriptorView,
    ResolveError,
> {
    let t = trim(input);
    if t.len() == 0 {
        Err(ResolveError::InvalidInput)
    } else {
        match url_parse(t) {
            None => Err(ResolveError::InvalidInput),
            Some(u) => if u.scheme != "https"@ && u.scheme != "http"@ {
                Err(ResolveError::UnsupportedInput)
            } else {
                match u.host {
                    None => Err(ResolveError::InvalidInput),
                    Some(h) => if !is_input_host(h) {
                        Err(ResolveError::UnsupportedInput)
                    } else {
                        match path_segments(u.path) {
                            None => Err(ResolveError::UnsupportedInput),
                            Some(segs) => match key_after_status(nonempty_segments(segs), 0) {
                                None => Err(ResolveError::UnsupportedInput),
                                Some(key) => if key_is_valid(key, min, max) {
                                    Ok(descriptor_of(key))
                                } else {
                                    Err(ResolveError::InvalidInput)
                                },
                            },
                        }
                    },
                }
            },
        }
    }
}

/// `inspect_source`: how a link is recognised by the current routes.
pub open spec fn spec_inspect_source(input: Seq<char>) -> Result<DescriptorView, ResolveError> {
    spec_inspect_with(input, MIN_SOURCE_KEY_LENGTH as nat, MAX_SOURCE_KEY_LENGTH as nat)
}

/// `descriptor_from_key`: a valid key, with its canonical link.
pub open spec fn spec_descriptor_from_key(key: Seq<char>) -> Result<DescriptorView, ResolveError> {
    if key_is_valid(key, MIN_SOURCE_KEY_LENGTH as nat, MAX_SOURCE_KEY_LENGTH as nat) {
        Ok(descriptor_of(key))
    } else {
        Err(ResolveError::InvalidInput)
    }
}

pub open spec fn result_descriptor(r: Result<InputDescriptor, ResolveError>) -> Result<
    DescriptorView,
    ResolveError,
> {
    match r {
        Ok(d) => Ok(d@),
        Err(e) => Err(e),
    }
}

pub fn is_input_host_chars(h: &Vec<char>) -> (r: bool)
    ensures
        r == is_input_host(h@),
{
    chars_are(h, "x.com") || chars_are(h, "www.x.com") || chars_are(h, "mobile.x.com")
        || chars_are(h, "twitter.com") || chars_are(h, "www.twitter.com") || chars_are(
        h,
        "mobile.twitter.com",
    )
}

/// Whether the key is valid for the given bounds.
pub fn key_valid(key: &Vec<char>, min: usize, max: usize) -> (r: bool)
    ensures
        r == key_is_valid(key@, min as nat, max as nat),
{
    key.len() >= min && key.len() <= max && only_digits(key)
}

/// `validate_source_key` of the current routes.
pub fn validate_source_key(source_key: &str) -> (r: Result<(), ResolveError>)
    ensures
        r is Ok <==> key_is_valid(
            source_key@,
            MIN_SOURCE_KEY_LENGTH as nat,
            MAX_SOURCE_KEY_LENGTH as nat,
        ),
        r is Err ==> r == Err::<(), ResolveError>(ResolveError::InvalidInput),
{
    if key_valid(&chars_of(source_key), MIN_SOURCE_KEY_LENGTH, MAX_SOURCE_KEY_LENGTH) {
        Ok(())
    } else {
        Err(ResolveError::InvalidInput)
    }
}

/// The descriptor of a key: the key and its canonical link.
pub fn make_descriptor(key: &Vec<char>) -> (d: InputDescriptor)
    ensures
        d@ == descriptor_of(key@),
{
    let prefix = chars_of("https://x.com/i/status/");
    let link = join(&prefix, key);
    InputDescriptor { source_key: string_of(key), normalized_input: string_of(&link) }
}

pub fn descriptor_from_key(source_key: &str) -> (r: Result<InputDescriptor, ResolveError>)
    ensures
        result_descriptor(r) == spec_descriptor_from_key(source_key@),
{
    let key = chars_of(source_key);
    if key_valid(&key, MIN_SOURCE_KEY_LENGTH, MAX_SOURCE_KEY_LENGTH) {
        Ok(make_descriptor(&key))
    } else {
        Err(ResolveError::InvalidInput)
    }
}

/// The non-empty segments, in order.
pub fn keep_nonempty(segs: &Vec<Vec<char>>) -> (r: Vec<Vec<char>>)
    ensures
        chars_seqs(r@) == nonempty_segments(chars_seqs(segs@)),
{
    let ghost sv = chars_seqs(segs@);
    let mut r: Vec<Vec<char>> = Vec::new();
    let mut i: usize = 0;
    while i < segs.len()
        invariant
            i <= segs@.len(),
            sv == chars_seqs(segs@),
            chars_seqs(r@) == nonempty_segments(sv.subrange(0, i as int)),
        decreases segs@.len() - i,
    {
        let ghost prefix = sv.subrange(0, i as int + 1);
        assert(prefix.drop_last() =~= sv.subrange(0, i as int));
        assert(prefix.last() == segs@[i as int]@);
        if segs[i].len() > 0 {
            let seg = crate::text::slice(&segs[i], 0, segs[i].len());
            assert(seg@ =~= segs@[i as int]@);
            r.push(seg);
            assert(chars_seqs(r@) =~= nonempty_segments(prefix));
        }
        i = i + 1;
    }
    assert(sv.subrange(0, i as int) =~= sv);
    r
}

/// The segment after the first `status` segment.
pub fn find_status_key(segs: &Vec<Vec<char>>) -> (r: Option<Vec<char>>)
    ensures
        match key_after_status(chars_seqs(segs@), 0) {
            Some(k) => r matches Some(v) && v@ == k,
            None => r is None,
        },
{
    let ghost sv = chars_seqs(segs@);
    let mut i: usize = 0;
    while i < segs.len() && i + 1 < segs.len()
        invariant
            i <= segs@.len(),
            sv == chars_seqs(segs@),
            key_after_status(sv, 0) == key_after_status(sv, i as int),
        decreases segs@.len() - i,
    {
        assert(sv[i as int] == segs@[i as int]@);
        if chars_are(&segs[i], "status") {
            assert(sv[i + 1] == segs@[i + 1]@);
            return Some(crate::text::slice(&segs[i + 1], 0, segs[i + 1].len()));
        }
        i = i + 1;
    }
    None
}

/// Recognises a supported link, with the given key length bounds.
pub fn inspect_with(input: &str, min: usize, max: usize) -> (r: Result<
    InputDescriptor,
    ResolveError,
>)
    ensures
        result_descriptor(r) == spec_inspect_with(input@, min as nat, max as nat),
{
    let trimmed = trim_chars(&chars_of(input));
    if trimmed.len() == 0 {
        return Err(ResolveError::InvalidInput);
    }
    let text = string_of(&trimmed);
    let u = match parse_url(text.as_str()) {
        Some(u) => u,
        None => {
            return Err(ResolveError::InvalidInput);
        },
    };
    let scheme = chars_of(u.scheme.as_str());
    if !chars_are(&scheme, "https") && !chars_are(&scheme, "http") {
        return Err(ResolveError::UnsupportedInput);
    }
    let host = match &u.host {
        Some(h) => chars_of(h.as_str()),
        None => {
            return Err(ResolveError::InvalidInput);
        },
    };
    if !is_input_host_chars(&host) {
        return Err(ResolveError::UnsupportedInput);
    }
    let segs = match segments_of(&chars_of(u.path.as_str())) {
        Some(s) => s,
        None => {
            return Err(ResolveError::UnsupportedInput);
        },
    };
    let kept = keep_nonempty(&segs);
    let key = match find_status_key(&kept) {
        Some(k) => k,
        None => {
            return Err(ResolveError::UnsupportedInput);
        },
    };
    if !key_valid(&key, min, max) {
        return Err(ResolveError::InvalidInput);
    }
    Ok(make_descriptor(&key))
}

/// `inspect_source`: recognises a link of the current routes.
pub fn inspect_source(input: &str) -> (r: Result<InputDescriptor, ResolveError>)
    ensures
        result_descriptor(r) == spec_inspect_source(input@),
{
    inspect_with(input, MIN_SOURCE_KEY_LENGTH, MAX_SOURCE_KEY_LENGTH)
}

proof fn lemma_split_at_separator(a: Seq<char>, b: Seq<char>)
    requires
        forall|j: int| 0 <= j < a.len() ==> a[j] != '/',
    ensures
        split_on(a + seq!['/'] + b, '/') == seq![a] + split_on(b, '/'),
{
    let s = a + seq!['/'] + b;
    lemma_first_index_of(s, '/');
    assert(s[a.len() as int] == '/');
    match first_index_of(s, '/') {
        Some(i) => {
            if i < a.len() {
                assert(s[i] == a[i]);
            }
            assert(i == a.len());
            assert(s.subrange(0, i) =~= a);
            assert(s.subrange(i + 1, s.len() as int) =~= b);
        },
        None => {},
    }
}

proof fn lemma_split_without_separator(a: Seq<char>)
    requires
        forall|j: int| 0 <= j < a.len() ==> a[j] != '/',
    ensures
        split_on(a, '/') == seq![a],
{
    lemma_first_index_of(a, '/');
}

/// The links that are recognised: an `http` or `https` link on `x.com`,
/// `www.x.com`, `mobile.x.com`, `twitter.com`, `www.twitter.com` or
/// `mobile.twitter.com` whose path is `/<user>/status/<key>`, with a key of
/// 2 to 20 digits, gives that key and the link `https://x.com/i/status/<key>`;
/// a link of either scheme on any other host is not supported.
pub proof fn lemma_supported_links(
    input: Seq<char>,
    u: UrlView,
    h: Seq<char>,
    user: Seq<char>,
    key: Seq<char>,
)
    requires
        trim(input).len() > 0,
        url_parse(trim(input)) == Some(u),
        u.scheme == "https"@ || u.scheme == "http"@,
        u.host == Some(h),
    ensures
        (h == "x.com"@ || h == "www.x.com"@ || h == "mobile.x.com"@ || h == "twitter.com"@
            || h == "www.twitter.com"@ || h == "mobile.twitter.com"@)
            && u.path == "/"@ + user + "/status/"@ + key
            && 0 < user.len() && user != "status"@
            && (forall|j: int| 0 <= j < user.len() ==> user[j] != '/')
            && 2 <= key.len() <= 20
            && (forall|j: int| 0 <= j < key.len() ==> '0' <= #[trigger] key[j] <= '9')
            ==> spec_inspect_source(input) == Ok::<DescriptorView, ResolveError>(
            DescriptorView { source_key: key, normalized_input: "https://x.com/i/status/"@ + key },
        ),
        !(h == "x.com"@ || h == "www.x.com"@ || h == "mobile.x.com"@ || h == "twitter.com"@
            || h == "www.twitter.com"@ || h == "mobile.twitter.com"@) ==> spec_inspect_source(
            input,
        ) == Err::<DescriptorView, ResolveError>(ResolveError::UnsupportedInput),
{
    reveal_strlit("https");
    reveal_strlit("http");
    reveal_strlit("status");
    reveal_strlit("/status/");
    reveal_strlit("/");
    reveal_strlit("https://x.com/i/status/");
    if u.path == "/"@ + user + "/status/"@ + key && 0 < user.len() && user != "status"@ && (forall|
        j: int,
    | 0 <= j < user.len() ==> user[j] != '/') && 2 <= key.len() <= 20 && (forall|j: int|
        0 <= j < key.len() ==> '0' <= #[trigger] key[j] <= '9') {
        let st = "status"@;
        let rest = st + seq!['/'] + key;
        assert(u.path.drop_first() =~= user + seq!['/'] + rest);
        lemma_split_at_separator(user, rest);
        assert forall|j: int| 0 <= j < st.len() implies st[j] != '/' by {}
        lemma_split_at_separator(st, key);
        assert forall|j: int| 0 <= j < key.len() implies key[j] != '/' by {
            assert('0' <= key[j] <= '9');
        }
        lemma_split_without_separator(key);
        let segs = seq![user, st, key];
        assert(path_segments(u.path) == Some(segs));
        assert(key.len() > 0);
        assert(nonempty_segments(segs.drop_last().drop_last().drop_last()) =~= Seq::<Seq<char>>::empty());
        assert(segs.drop_last().drop_last().drop_last() =~= Seq::<Seq<char>>::empty());
        assert(segs.drop_last().drop_last() =~= seq![user]);
        assert(segs.drop_last() =~= seq![user, st]);
        assert(nonempty_segments(seq![user]) =~= seq![user]);
        assert(nonempty_segments(seq![user, st]) =~= seq![user, st]);
        assert(nonempty_segments(segs) =~= segs);
        assert(key_after_status(segs, 1) == Some(key));
        assert(key_after_status(segs, 0) == Some(key));
        assert(all_digits(key));
    }
}

/// Every recognised link yields a valid key and the canonical link of that
/// key, the same descriptor that the key alone yields.
pub proof fn lemma_inspect_gives_canonical(input: Seq<char>)
    ensures
        spec_inspect_source(input) matches Ok(d) ==> {
            &&& key_is_valid(
                d.source_key,
                MIN_SOURCE_KEY_LENGTH as nat,
                MAX_SOURCE_KEY_LENGTH as nat,
            )
            &&& d.normalized_input == canonical_link(d.source_key)
            &&& spec_descriptor_from_key(d.source_key) == Ok::<DescriptorView, ResolveError>(d)
        },
{
}

} // verus!
