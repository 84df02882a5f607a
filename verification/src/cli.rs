//! The rules of the command-line front end: option values, the results of
//! tasks, and what is printed for them.
use crate::error::{code_name, error_code, error_message, ResolveError};
use crate::model::{
    clone_opt, items_view, variants_view, BundleView, ItemView, ResourceBundle, ResourceItem,
    ResourceVariant, VariantView,
};
use crate::resolution::{ResolveFailure, TransportFailure};
use crate::text::{
    chars_of, join, parse_unsigned, parse_unsigned_chars, same_chars, string_of, trim, trim_chars,
};
use vstd::prelude::*;

verus! {

pub const MIN_JOBS: usize = 1;

pub const MAX_JOBS: usize = 64;

pub const MIN_TIMEOUT_SECONDS: u64 = 1;

pub const MAX_TIMEOUT_SECONDS: u64 = 300;

/// The options of the command line, once parsed.
#[derive(Debug, Clone, PartialEq, Eq)]
pub struct Args {
    pub inputs: Vec<String>,
    pub jobs: usize,
    pub json: bool,
    pub pretty: bool,
    pub all_variants: bool,
    pub timeout: u64,
    pub no_color: bool,
    pub verbose: bool,
}

impl Args {
    /// Whether the output is JSON: `--pretty` implies `--json`.
    pub fn wants_json(&self) -> (r: bool)
        ensures
            r == (self.json || self.pretty),
    {
        self.json || self.pretty
    }
}

pub open spec fn jobs_not_integer() -> Seq<char> {
    "jobs must be an integer between 1 and 64"@
}

pub open spec fn jobs_out_of_range() -> Seq<char> {
    "jobs must be between 1 and 64"@
}

/// `--jobs`: an unsigned integer from 1 to 64.
pub open spec fn spec_parse_jobs(value: Seq<char>) -> Result<usize, Seq<char>> {
    match parse_unsigned(value, usize::MAX as nat) {
        None => Err(jobs_not_integer()),
        Some(n) => if MIN_JOBS <= n <= MAX_JOBS {
            Ok(n as usize)
        } else {
            Err(jobs_out_of_range())
        },
    }
}

pub open spec fn timeout_not_integer() -> Seq<char> {
    "timeout must be an integer between 1 and 300 seconds"@
}

pub open spec fn timeout_out_of_range() -> Seq<char> {
    "timeout must be between 1 and 300 seconds"@
}

/// `--timeout`: an unsigned integer from 1 to 300 seconds.
pub open spec fn spec_parse_timeout(value: Seq<char>) -> Result<u64, Seq<char>> {
    match parse_unsigned(value, u64::MAX as nat) {
        None => Err(timeout_not_integer()),
        Some(n) => if MIN_TIMEOUT_SECONDS <= n <= MAX_TIMEOUT_SECONDS {
            Ok(n as u64)
        } else {
            Err(timeout_out_of_range())
        },
    }
}

pub open spec fn result_text<T>(r: Result<T, String>) -> Result<T, Seq<char>> {
    match r {
        Ok(v) => Ok(v),
        Err(s) => Err(s@),
    }
}

pub fn parse_jobs(value: &str) -> (r: Result<usize, String>)
    ensures
        result_text(r) == spec_parse_jobs(value@),
{
    let max = usize::MAX as u64;
    match parse_unsigned_chars(&chars_of(value), max) {
        None => Err("jobs must be an integer between 1 and 64".to_owned()),
        Some(n) => if MIN_JOBS as u64 <= n && n <= MAX_JOBS as u64 {
            Ok(n as usize)
        } else {
            Err("jobs must be between 1 and 64".to_owned())
        },
    }
}

pub fn parse_timeout(value: &str) -> (r: Result<u64, String>)
    ensures
        result_text(r) == spec_parse_timeout(value@),
{
    match parse_unsigned_chars(&chars_of(value), 0xffff_ffff_ffff_ffff) {
        None => Err("timeout must be an integer between 1 and 300 seconds".to_owned()),
        Some(n) => if MIN_TIMEOUT_SECONDS <= n && n <= MAX_TIMEOUT_SECONDS {
            Ok(n)
        } else {
            Err("timeout must be between 1 and 300 seconds".to_owned())
        },
    }
}

/// A request that failed in the command line's transport.
#[derive(Debug, Clone, Copy, PartialEq, Eq, Structural)]
pub struct TransportError;

impl TransportError {
    /// Every transport error of the command line is a network failure.
    pub fn as_core_failure(&self) -> (r: TransportFailure)
        ensures
            r == TransportFailure::Network,
    {
        TransportFailure::Network
    }
}

/// The text of one input: trimmed, and kept only when it is not empty.
pub fn clean_input(value: &str) -> (r: Option<String>)
    ensures
        match r {
            Some(s) => s@ == trim(value@) && s@.len() > 0,
            None => trim(value@).len() == 0,
        },
{
    let t = trim_chars(&chars_of(value));
    if t.len() == 0 {
        None
    } else {
        Some(string_of(&t))
    }
}

#[derive(Debug, Clone, Copy, PartialEq, Eq, Structural)]
pub enum ResultState {
    Ready,
    Failed,
}

/// A failure as the command line reports it: a code name and a message.
#[derive(Debug, Clone, PartialEq, Eq)]
pub struct PublicFailure {
    pub code: String,
    pub message: String,
}

/// The result of resolving one input.
#[derive(Debug, Clone, PartialEq, Eq)]
pub struct ResolveResult {
    pub input: String,
    pub state: ResultState,
    pub result: Option<ResourceBundle>,
    pub error: Option<PublicFailure>,
}

pub struct ResultView {
    pub input: Seq<char>,
    pub state: ResultState,
    pub result: Option<BundleView>,
    pub error: Option<(Seq<char>, Seq<char>)>,
}

impl View for ResolveResult {
    type V = ResultView;

    open spec fn view(&self) -> ResultView {
        ResultView {
            input: self.input@,
            state: self.state,
            result: match self.result {
                Some(b) => Some(b@),
                None => None,
            },
            error: match self.error {
                Some(f) => Some((f.code@, f.message@)),
                None => None,
            },
        }
    }
}

/// Why a task ended without a result: the resolution could not go on, or
/// it ended with a failure.
#[derive(Debug, Clone, PartialEq, Eq)]
pub enum TaskFailure {
    Resolve(ResolveError),
    Final(ResolveFailure),
}

/// The code name and message that a task failure is reported with.
pub open spec fn spec_public_failure(f: TaskFailure) -> (Seq<char>, Seq<char>) {
    match f {
        TaskFailure::Resolve(e) => (code_name(error_code(e)), error_message(e)),
        TaskFailure::Final(r) => (code_name(r.code), r.message@),
    }
}

pub fn public_failure(error: TaskFailure) -> (r: PublicFailure)
    ensures
        (r.code@, r.message@) == spec_public_failure(error),
{
    match error {
        TaskFailure::Resolve(e) => PublicFailure {
            code: e.code().as_str().to_owned(),
            message: e.message(),
        },
        TaskFailure::Final(f) => PublicFailure { code: f.code.as_str().to_owned(), message: f.message },
    }
}

/// The result of a finished task: ready with its bundle, or failed with
/// the public form of its failure.
pub open spec fn spec_task_result(input: Seq<char>, outcome: Result<BundleView, TaskFailure>) -> ResultView {
    match outcome {
        Ok(b) => ResultView { input, state: ResultState::Ready, result: Some(b), error: None },
        Err(f) => ResultView {
            input,
            state: ResultState::Failed,
            result: None,
            error: Some(spec_public_failure(f)),
        },
    }
}

pub open spec fn outcome_view(o: Result<ResourceBundle, TaskFailure>) -> Result<BundleView, TaskFailure> {
    match o {
        Ok(b) => Ok(b@),
        Err(f) => Err(f),
    }
}

pub fn task_result(input: String, outcome: Result<ResourceBundle, TaskFailure>) -> (r: ResolveResult)
    ensures
        r@ == spec_task_result(input@, outcome_view(outcome)),
{
    match outcome {
        Ok(bundle) => ResolveResult {
            input,
            state: ResultState::Ready,
            result: Some(bundle),
            error: None,
        },
        Err(f) => ResolveResult {
            input,
            state: ResultState::Failed,
            result: None,
            error: Some(public_failure(f)),
        },
    }
}

/// Whether any task failed.
pub fn has_failures(results: &Vec<ResolveResult>) -> (r: bool)
    ensures
        r == exists|i: int| 0 <= i < results@.len() && results@[i].state == ResultState::Failed,
{
    let mut i: usize = 0;
    while i < results.len()
        invariant
            i <= results@.len(),
            forall|k: int| 0 <= k < i ==> results@[k].state != ResultState::Failed,
        decreases results@.len() - i,
    {
        if results[i].state == ResultState::Failed {
            return true;
        }
        i = i + 1;
    }
    false
}

/// The first variant whose address is `url`.
pub open spec fn first_with_url(vs: Seq<VariantView>, url: Seq<char>, from: int) -> Option<int>
    decreases vs.len() - from,
{
    if from < 0 || from >= vs.len() {
        None
    } else if vs[from].url == url {
        Some(from)
    } else {
        first_with_url(vs, url, from + 1)
    }
}

/// A resource with only its preferred variant, or with none when no
/// variant has the preferred address.
pub open spec fn trimmed_item(i: ItemView) -> ItemView {
    ItemView {
        id: i.id,
        kind: i.kind,
        preferred_url: i.preferred_url,
        preview_url: i.preview_url,
        width: i.width,
        height: i.height,
        duration_ms: i.duration_ms,
        variants: match first_with_url(i.variants, i.preferred_url, 0) {
            Some(k) => seq![i.variants[k]],
            None => Seq::empty(),
        },
    }
}

pub open spec fn trimmed_result(r: ResultView) -> ResultView {
    ResultView {
        input: r.input,
        state: r.state,
        result: match r.result {
            Some(b) => Some(
                BundleView {
                    schema_version: b.schema_version,
                    source_key: b.source_key,
                    resources: b.resources.map_values(|i: ItemView| trimmed_item(i)),
                },
            ),
            None => None,
        },
        error: r.error,
    }
}

proof fn lemma_first_with_url(vs: Seq<VariantView>, url: Seq<char>, from: int)
    requires
        0 <= from <= vs.len(),
    ensures
        first_with_url(vs, url, from) matches Some(k) ==> from <= k < vs.len(),
    decreases vs.len() - from,
{
    if from < vs.len() && vs[from].url != url {
        lemma_first_with_url(vs, url, from + 1);
    }
}

fn trim_item(item: &ResourceItem) -> (r: ResourceItem)
    ensures
        r@ == trimmed_item(item@),
{
    let ghost vs = variants_view(item.variants@);
    proof {
        lemma_first_with_url(vs, item.preferred_url@, 0);
    }
    let wanted = chars_of(item.preferred_url.as_str());
    let mut found: Option<usize> = None;
    let mut i: usize = 0;
    while i < item.variants.len()
        invariant
            i <= item.variants@.len(),
            vs == variants_view(item.variants@),
            wanted@ == item.preferred_url@,
            found is None ==> first_with_url(vs, wanted@, 0) == first_with_url(vs, wanted@, i as int),
            found matches Some(k) ==> first_with_url(vs, wanted@, 0) == Some(k as int) && k
                < item.variants@.len(),
        decreases item.variants@.len() - i,
    {
        if found.is_none() && same_chars(&chars_of(item.variants[i].url.as_str()), &wanted) {
            assert(vs[i as int] == item.variants@[i as int]@);
            found = Some(i);
        } else if found.is_none() {
            assert(vs[i as int] == item.variants@[i as int]@);
        }
        i = i + 1;
    }
    let mut variants: Vec<ResourceVariant> = Vec::new();
    if let Some(k) = found {
        variants.push(item.variants[k].duplicate());
        assert(variants_view(variants@) =~= seq![vs[k as int]]);
    } else {
        assert(variants_view(variants@) =~= Seq::<VariantView>::empty());
    }
    ResourceItem {
        id: item.id.clone(),
        kind: item.kind,
        preferred_url: item.preferred_url.clone(),
        preview_url: clone_opt(&item.preview_url),
        width: item.width,
        height: item.height,
        duration_ms: item.duration_ms,
        variants,
    }
}

fn trim_result(result: ResolveResult) -> (r: ResolveResult)
    ensures
        r@ == trimmed_result(result@),
{
    let ResolveResult { input, state, result, error } = result;
    let result = match result {
        Some(bundle) => {
            let mut resources: Vec<ResourceItem> = Vec::new();
            let mut i: usize = 0;
            while i < bundle.resources.len()
                invariant
                    i <= bundle.resources@.len(),
                    items_view(resources@) =~= items_view(bundle.resources@).subrange(
                        0,
                        i as int,
                    ).map_values(|x: ItemView| trimmed_item(x)),
                decreases bundle.resources@.len() - i,
            {
                let ghost before = items_view(resources@);
                let ghost all = items_view(bundle.resources@);
                let t = trim_item(&bundle.resources[i]);
                resources.push(t);
                assert(all[i as int] == bundle.resources@[i as int]@);
                assert(all.subrange(0, i as int + 1) =~= all.subrange(0, i as int).push(all[i as int]));
                assert(items_view(resources@) =~= before.push(trimmed_item(all[i as int])));
                i = i + 1;
            }
            assert(items_view(bundle.resources@).subrange(0, i as int) =~= items_view(
                bundle.resources@,
            ));
            Some(
                ResourceBundle {
                    schema_version: bundle.schema_version,
                    source_key: bundle.source_key,
                    resources,
                },
            )
        },
        None => None,
    };
    ResolveResult { input, state, result, error }
}

/// Without `--all-variants`, each resource keeps only its preferred
/// variant (or none when no variant has the preferred address).
pub fn trim_variants(results: &mut Vec<ResolveResult>, all_variants: bool)
    ensures
        all_variants ==> final(results)@ == old(results)@,
        !all_variants ==> final(results)@.len() == old(results)@.len() && forall|i: int|
            0 <= i < old(results)@.len() ==> (#[trigger] final(results)@[i])@ == trimmed_result(
                old(results)@[i]@,
            ),
{
    if all_variants {
        return;
    }
    let mut pending: Vec<ResolveResult> = Vec::new();
    std::mem::swap(&mut pending, results);
    let ghost original = pending@;
    let mut out: Vec<ResolveResult> = Vec::new();
    let n = pending.len();
    let mut taken: usize = 0;
    while pending.len() > 0
        invariant
            original.len() == n,
            taken + pending@.len() == n,
            pending@ == original.subrange(taken as int, n as int),
            out@.len() == taken,
            forall|i: int| 0 <= i < taken ==> (#[trigger] out@[i])@ == trimmed_result(original[i]@),
        decreases pending@.len(),
    {
        let first = pending.remove(0);
        assert(first == original[taken as int]);
        out.push(trim_result(first));
        assert(pending@ =~= original.subrange(taken as int + 1, n as int));
        taken = taken + 1;
    }
    *results = out;
}

/// The addresses printed for a bundle: each resource's preferred address,
/// then its other variants' addresses.
pub open spec fn item_lines(i: ItemView) -> Seq<Seq<char>> {
    seq![i.preferred_url] + i.variants.filter(|v: VariantView| v.url != i.preferred_url).map_values(
        |v: VariantView| v.url,
    )
}

pub open spec fn bundle_lines_from(items: Seq<ItemView>, n: nat) -> Seq<Seq<char>>
    decreases n,
{
    if n == 0 {
        Seq::empty()
    } else {
        bundle_lines_from(items, (n - 1) as nat) + item_lines(items[n - 1])
    }
}

pub open spec fn texts(v: Seq<String>) -> Seq<Seq<char>> {
    v.map_values(|s: String| s@)
}

fn item_lines_exec(item: &ResourceItem, out: &mut Vec<String>)
    ensures
        texts(final(out)@) == texts(old(out)@) + item_lines(item@),
{
    let ghost start = texts(out@);
    let wanted = chars_of(item.preferred_url.as_str());
    out.push(item.preferred_url.clone());
    let ghost vs = item@.variants;
    let ghost keep = |v: VariantView| v.url != item@.preferred_url;
    let mut i: usize = 0;
    while i < item.variants.len()
        invariant
            i <= item.variants@.len(),
            vs == item@.variants,
            vs.len() == item.variants@.len(),
            wanted@ == item.preferred_url@,
            keep == (|v: VariantView| v.url != item@.preferred_url),
            texts(out@) == start + seq![item.preferred_url@] + vs.subrange(0, i as int).filter(
                keep,
            ).map_values(|v: VariantView| v.url),
        decreases item.variants@.len() - i,
    {
        let ghost before = out@;
        assert(vs.subrange(0, i as int + 1).drop_last() =~= vs.subrange(0, i as int));
        assert(vs[i as int] == item.variants@[i as int]@);
        assert(vs.subrange(0, i as int + 1) =~= vs.subrange(0, i as int).push(vs[i as int]));
        proof {
            vs.subrange(0, i as int).lemma_filter_push(vs[i as int], keep);
        }
        let same = same_chars(&chars_of(item.variants[i].url.as_str()), &wanted);
        if !same {
            out.push(item.variants[i].url.clone());
            assert(texts(out@) =~= texts(before).push(vs[i as int].url));
            assert(vs.subrange(0, i as int + 1).filter(keep) =~= vs.subrange(0, i as int).filter(
                keep,
            ).push(vs[i as int]));
        } else {
            assert(vs.subrange(0, i as int + 1).filter(keep) =~= vs.subrange(0, i as int).filter(
                keep,
            ));
        }
        assert(texts(out@) =~= start + seq![item.preferred_url@] + vs.subrange(0, i as int + 1).filter(
            keep,
        ).map_values(|v: VariantView| v.url));
        i = i + 1;
    }
    assert(vs.subrange(0, i as int) =~= vs);
    assert(texts(out@) =~= start + item_lines(item@));
}

pub fn bundle_lines(bundle: &ResourceBundle) -> (r: Vec<String>)
    ensures
        texts(r@) == bundle_lines_from(bundle@.resources, bundle@.resources.len()),
{
    let mut out: Vec<String> = Vec::new();
    assert(texts(out@) =~= Seq::<Seq<char>>::empty());
    let mut i: usize = 0;
    while i < bundle.resources.len()
        invariant
            i <= bundle.resources@.len(),
            texts(out@) == bundle_lines_from(bundle@.resources, i as nat),
        decreases bundle.resources@.len() - i,
    {
        assert(bundle@.resources[i as int] == bundle.resources@[i as int]@);
        item_lines_exec(&bundle.resources[i], &mut out);
        i = i + 1;
    }
    out
}

/// The line that reports a failed input: `input: message (code)`, in red
/// when colours are on.
pub open spec fn spec_failure_line(input: Seq<char>, code: Seq<char>, message: Seq<char>, color: bool) -> Seq<char> {
    let plain = input + ": "@ + message + " ("@ + code + ")"@;
    if color {
        "\x1b[31m"@ + plain + "\x1b[0m"@
    } else {
        plain
    }
}

pub fn failure_line(input: &str, failure: &PublicFailure, color: bool) -> (r: String)
    ensures
        r@ == spec_failure_line(input@, failure.code@, failure.message@, color),
{
    let a = join(&chars_of(input), &chars_of(": "));
    let b = join(&a, &chars_of(failure.message.as_str()));
    let c = join(&b, &chars_of(" ("));
    let d = join(&c, &chars_of(failure.code.as_str()));
    let plain = join(&d, &chars_of(")"));
    if color {
        let e = join(&chars_of("\x1b[31m"), &plain);
        string_of(&join(&e, &chars_of("\x1b[0m")))
    } else {
        string_of(&plain)
    }
}

} // verus!
