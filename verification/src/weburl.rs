//! Web addresses, as the `url` crate parses and serialises them.
use crate::model::opt_chars;
use crate::text::{find_char, slice, split_on};
use vstd::prelude::*;

verus! {

/// The parts of a parsed address that the resolver reads.
pub struct UrlParts {
    pub href: String,
    pub scheme: String,
    pub username: String,
    pub password: Option<String>,
    pub host: Option<String>,
    pub path: String,
    pub query: Option<String>,
    pub fragment: Option<String>,
    pub query_pairs: Vec<(String, String)>,
}

pub struct UrlView {
    pub href: Seq<char>,
    pub scheme: Seq<char>,
    pub username: Seq<char>,
    pub password: Option<Seq<char>>,
    pub host: Option<Seq<char>>,
    pub path: Seq<char>,
    pub query: Option<Seq<char>>,
    pub fragment: Option<Seq<char>>,
    pub query_pairs: Seq<(Seq<char>, Seq<char>)>,
}

pub open spec fn pairs_view(p: Seq<(String, String)>) -> Seq<(Seq<char>, Seq<char>)> {
    p.map_values(|e: (String, String)| (e.0@, e.1@))
}

impl View for UrlParts {
    type V = UrlView;

    open spec fn view(&self) -> UrlView {
        UrlView {
            href: self.href@,
            scheme: self.scheme@,
            username: self.username@,
            password: opt_chars(self.password),
            host: opt_chars(self.host),
            path: self.path@,
            query: opt_chars(self.query),
            fragment: opt_chars(self.fragment),
            query_pairs: pairs_view(self.query_pairs@),
        }
    }
}

pub open spec fn opt_url(u: Option<UrlParts>) -> Option<UrlView> {
    match u {
        Some(p) => Some(p@),
        None => None,
    }
}

/// What `url::Url::parse` gives for the text: the serialisation (`as_str`),
/// `scheme`, `username`, `password`, `host_str`, `path`, `query`, `fragment`
/// and the decoded `query_pairs`; `None` where it refuses the text.
pub uninterp spec fn url_parse(input: Seq<char>) -> Option<UrlView>;

/// A serialisation that begins with its scheme and `:`, as `Url` keeps it
/// (`scheme` is the serialisation up to the `:` at `scheme_end`).
pub open spec fn scheme_prefixed(u: UrlView) -> bool {
    &&& u.scheme.len() < u.href.len()
    &&& u.href.subrange(0, u.scheme.len() as int) == u.scheme
    &&& u.href[u.scheme.len() as int] == ':'
}

/// Parses an address with `url::Url::parse`. Trusted: the parts returned are
/// taken to be those of the named parse `url_parse`, and the serialisation
/// to begin with the scheme and `:`; the WHATWG parsing rules themselves are
/// not stated.
#[verifier::external_body]
pub(crate) fn parse_url(input: &str) -> (r: Option<UrlParts>)
    ensures
        opt_url(r) == url_parse(input@),
        r matches Some(u) ==> scheme_prefixed(u@),
{
    let u = url::Url::parse(input).ok()?;
    Some(UrlParts {
        href: u.to_string(),
        scheme: u.scheme().to_owned(),
        username: u.username().to_owned(),
        password: u.password().map(str::to_owned),
        host: u.host_str().map(str::to_owned),
        path: u.path().to_owned(),
        query: u.query().map(str::to_owned),
        fragment: u.fragment().map(str::to_owned),
        query_pairs: u.query_pairs().map(|(k, v)| (k.into_owned(), v.into_owned())).collect(),
    })
}

/// Query pairs small enough that the rewritten address stays far below the
/// `url` crate's 4 GiB limit (beyond which it panics): at most four pairs,
/// each name and value of at most `MAX_URL_CHARS` characters.
pub open spec fn pairs_fit(pairs: Seq<(Seq<char>, Seq<char>)>) -> bool {
    &&& pairs.len() <= 4
    &&& forall|i: int|
        0 <= i < pairs.len() ==> (#[trigger] pairs[i]).0.len() <= crate::normalize::MAX_URL_CHARS
            && pairs[i].1.len() <= crate::normalize::MAX_URL_CHARS
}

/// What the `url` crate serialises after parsing `base` and pushing one
/// percent-encoded path segment (`path_segments_mut().push`).
pub uninterp spec fn url_pushed_segment(base: Seq<char>, segment: Seq<char>) -> Option<Seq<char>>;

/// Appends one path segment to an address with `Url::path_segments_mut`.
/// Trusted: the result is taken to be the named `url_pushed_segment`.
#[verifier::external_body]
pub(crate) fn push_url_segment(base: &str, segment: &str) -> (r: Option<String>)
    requires
        base@.len() <= crate::normalize::MAX_URL_CHARS,
        segment@.len() <= crate::normalize::MAX_URL_CHARS,
    ensures
        opt_chars(r) == url_pushed_segment(base@, segment@),
{
    let mut u = url::Url::parse(base).ok()?;
    u.path_segments_mut().ok()?.push(segment);
    Some(u.to_string())
}

/// What the `url` crate serialises after parsing `base` and appending the
/// pairs, form-encoded, to its query (`query_pairs_mut().extend_pairs`).
pub uninterp spec fn url_appended_pairs(base: Seq<char>, pairs: Seq<(Seq<char>, Seq<char>)>) -> Option<Seq<char>>;

/// Appends query pairs to an address with `Url::query_pairs_mut`.
/// Trusted: the result is taken to be the named `url_appended_pairs`.
#[verifier::external_body]
pub(crate) fn append_url_pairs(base: &str, pairs: &Vec<(String, String)>) -> (r: Option<String>)
    requires
        base@.len() <= crate::normalize::MAX_URL_CHARS,
        pairs_fit(pairs_view(pairs@)),
    ensures
        opt_chars(r) == url_appended_pairs(base@, pairs_view(pairs@)),
{
    let mut u = url::Url::parse(base).ok()?;
    u.query_pairs_mut().extend_pairs(pairs.iter().map(|(k, v)| (k.as_str(), v.as_str())));
    Some(u.to_string())
}

/// What the `url` crate serialises after parsing `input`, setting its path
/// (`set_path`), removing its query (`set_query(None)`) and appending the
/// pairs, form-encoded, as its new query.
pub uninterp spec fn url_replaced_query(
    input: Seq<char>,
    path: Seq<char>,
    pairs: Seq<(Seq<char>, Seq<char>)>,
) -> Option<Seq<char>>;

/// Replaces the path and the query of an address with `Url::set_path`,
/// `Url::set_query` and `Url::query_pairs_mut`. Trusted: the result is taken
/// to be the named `url_replaced_query`.
#[verifier::external_body]
pub(crate) fn replace_url_query(input: &str, path: &str, pairs: &Vec<(String, String)>) -> (r: Option<
    String,
>)
    requires
        input@.len() <= crate::normalize::MAX_URL_CHARS,
        path@.len() <= crate::normalize::MAX_URL_CHARS,
        pairs_fit(pairs_view(pairs@)),
    ensures
        opt_chars(r) == url_replaced_query(input@, path@, pairs_view(pairs@)),
{
    let mut u = url::Url::parse(input).ok()?;
    u.set_path(path);
    u.set_query(None);
    u.query_pairs_mut().extend_pairs(pairs.iter().map(|(k, v)| (k.as_str(), v.as_str())));
    Some(u.to_string())
}

/// `Url::path_segments`: the pieces of a path that starts with `/`.
pub open spec fn path_segments(path: Seq<char>) -> Option<Seq<Seq<char>>> {
    if path.len() > 0 && path[0] == '/' {
        Some(split_on(path.drop_first(), '/'))
    } else {
        None
    }
}

pub open spec fn chars_seqs(v: Seq<Vec<char>>) -> Seq<Seq<char>> {
    v.map_values(|x: Vec<char>| x@)
}

/// `str::split` on one character.
pub fn split_chars(s: &Vec<char>, c: char) -> (r: Vec<Vec<char>>)
    ensures
        chars_seqs(r@) == split_on(s@, c),
    decreases s@.len(),
{
    proof {
        crate::text::lemma_first_index_of(s@, c);
    }
    match find_char(s, c) {
        Some(i) => {
            let n = s.len();
            assert(i < n);
            let head = slice(s, 0, i);
            let tail = slice(s, i + 1, n);
            let mut rest = split_chars(&tail, c);
            let mut r: Vec<Vec<char>> = Vec::new();
            r.push(head);
            let ghost r1 = r@;
            let ghost rest_view = rest@;
            r.append(&mut rest);
            assert(r@ == r1 + rest_view);
            assert(chars_seqs(r@) =~= seq![s@.subrange(0, i as int)] + chars_seqs(rest_view));
            r
        },
        None => {
            let whole = slice(s, 0, s.len());
            assert(whole@ =~= s@);
            let mut r: Vec<Vec<char>> = Vec::new();
            r.push(whole);
            assert(chars_seqs(r@) =~= seq![s@]);
            r
        },
    }
}

/// `Url::path_segments` on the characters of a path.
pub fn segments_of(path: &Vec<char>) -> (r: Option<Vec<Vec<char>>>)
    ensures
        match path_segments(path@) {
            Some(segs) => r matches Some(v) && chars_seqs(v@) == segs,
            None => r is None,
        },
{
    if path.len() > 0 && path[0] == '/' {
        let rest = slice(path, 1, path.len());
        assert(rest@ =~= path@.drop_first());
        Some(split_chars(&rest, '/'))
    } else {
        None
    }
}

} // verus!
