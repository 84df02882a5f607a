use media_resolver_core::cli::{
    clean_input, failure_line, has_failures, parse_jobs, parse_timeout, public_failure,
    task_result, trim_variants, PublicFailure, ResolveResult, ResultState, TaskFailure,
    TransportError,
};
use media_resolver_core::{
    ResolveError, ResolveErrorCode, ResolveFailure, ResourceBundle, ResourceItem, ResourceKind,
    ResourceVariant, TransportFailure,
};

#[test]
fn jobs_parser_accepts_bounds() {
    assert_eq!(parse_jobs("1"), Ok(1));
    assert_eq!(parse_jobs("64"), Ok(64));
}

#[test]
fn jobs_parser_rejects_out_of_range_values() {
    assert!(parse_jobs("0").is_err());
    assert!(parse_jobs("65").is_err());
    assert!(parse_jobs("not-a-number").is_err());
}

#[test]
fn timeout_parser_accepts_bounds() {
    assert_eq!(parse_timeout("1"), Ok(1));
    assert_eq!(parse_timeout("300"), Ok(300));
}

#[test]
fn timeout_parser_rejects_out_of_range_values() {
    assert!(parse_timeout("0").is_err());
    assert!(parse_timeout("301").is_err());
    assert!(parse_timeout("not-a-number").is_err());
}

#[test]
fn option_errors_name_the_bounds() {
    assert_eq!(parse_jobs("x"), Err("jobs must be an integer between 1 and 64".to_owned()));
    assert_eq!(parse_jobs("65"), Err("jobs must be between 1 and 64".to_owned()));
    assert_eq!(
        parse_timeout("-1"),
        Err("timeout must be an integer between 1 and 300 seconds".to_owned())
    );
    assert_eq!(parse_timeout("0"), Err("timeout must be between 1 and 300 seconds".to_owned()));
    assert_eq!(parse_jobs("+8"), Ok(8));
    assert!(parse_jobs(" 8").is_err());
    assert!(parse_jobs("").is_err());
    assert!(parse_timeout("99999999999999999999").is_err());
}

#[test]
fn inputs_are_trimmed_and_blank_ones_dropped() {
    assert_eq!(clean_input("  https://x.com/a/status/12 \n"), Some("https://x.com/a/status/12".to_owned()));
    assert_eq!(clean_input(" \t\n"), None);
    assert_eq!(clean_input(""), None);
}

#[test]
fn transport_errors_are_network_failures() {
    assert_eq!(TransportError.as_core_failure(), TransportFailure::Network);
}

fn variant(url: &str) -> ResourceVariant {
    ResourceVariant {
        url: url.to_owned(),
        mime_type: None,
        container: None,
        codec: None,
        bitrate: None,
        size_bytes: None,
        width: None,
        height: None,
    }
}

fn item(preferred: &str, variants: &[&str]) -> ResourceItem {
    ResourceItem {
        id: "1:1".to_owned(),
        kind: ResourceKind::Video,
        preferred_url: preferred.to_owned(),
        preview_url: None,
        width: None,
        height: None,
        duration_ms: None,
        variants: variants.iter().map(|u| variant(u)).collect(),
    }
}

fn ready(items: Vec<ResourceItem>) -> ResolveResult {
    task_result(
        "in".to_owned(),
        Ok(ResourceBundle { schema_version: 1, source_key: "12".to_owned(), resources: items }),
    )
}

#[test]
fn trimming_keeps_only_the_preferred_variant() {
    let mut results = vec![ready(vec![
        item("https://a/2", &["https://a/1", "https://a/2", "https://a/3"]),
        item("https://b/9", &["https://b/1"]),
    ])];
    trim_variants(&mut results, false);
    let bundle = results[0].result.as_ref().unwrap();
    assert_eq!(bundle.resources[0].variants.len(), 1);
    assert_eq!(bundle.resources[0].variants[0].url, "https://a/2");
    assert!(bundle.resources[1].variants.is_empty());
}

#[test]
fn all_variants_keeps_everything() {
    let mut results = vec![ready(vec![item("https://a/2", &["https://a/1", "https://a/2"])])];
    let before = results.clone();
    trim_variants(&mut results, true);
    assert_eq!(results, before);
}

#[test]
fn task_results_report_public_failures() {
    let failed = task_result("x".to_owned(), Err(TaskFailure::Resolve(ResolveError::InvalidInput)));
    assert_eq!(failed.state, ResultState::Failed);
    assert!(failed.result.is_none());
    assert_eq!(
        failed.error,
        Some(PublicFailure {
            code: "invalid_input".to_owned(),
            message: "the input is not a valid link".to_owned(),
        })
    );
    let final_failure = public_failure(TaskFailure::Final(ResolveFailure {
        code: ResolveErrorCode::RateLimited,
        message: "too many requests".to_owned(),
    }));
    assert_eq!(final_failure.code, "rate_limited");
    assert_eq!(final_failure.message, "too many requests");
    assert!(has_failures(&[ready(Vec::new()), failed].to_vec()));
    assert!(!has_failures(&vec![ready(Vec::new())]));
}

#[test]
fn failure_lines_name_input_message_and_code() {
    let failure = PublicFailure { code: "no_resources".to_owned(), message: "none".to_owned() };
    assert_eq!(failure_line("in", &failure, false), "in: none (no_resources)");
    assert_eq!(failure_line("in", &failure, true), "\x1b[31min: none (no_resources)\x1b[0m");
}

#[test]
fn bundle_lines_list_preferred_then_other_variants() {
    let bundle = ResourceBundle {
        schema_version: 1,
        source_key: "12".to_owned(),
        resources: vec![
            item("https://a/2", &["https://a/1", "https://a/2"]),
            item("https://b/1", &[]),
        ],
    };
    assert_eq!(
        media_resolver_core::cli::bundle_lines(&bundle),
        vec!["https://a/2".to_owned(), "https://a/1".to_owned(), "https://b/1".to_owned()]
    );
}
