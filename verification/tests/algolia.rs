use alfred_tailwindcss_docs::algolia::{
    classify_response, classify_transport_error, deserialize_failure, endpoint, read_hosts,
    validate_client, validate_config, AlgoliaSearchConfig, AttemptFailure, Failover,
    FailoverStep, ResponseDisposition, SearchRequest, TransportErrorKind, MAX_RESPONSE_BYTES,
};

fn config() -> AlgoliaSearchConfig {
    AlgoliaSearchConfig {
        application_id: "app".to_owned(),
        api_key: "key".to_owned(),
        index_name: "tailwind".to_owned(),
    }
}

fn hosts(values: &[&str]) -> Vec<String> {
    values.iter().map(|value| (*value).to_owned()).collect()
}

#[test]
fn endpoint_uses_single_index_search_route() {
    assert_eq!(
        endpoint("http://127.0.0.1:8080/api/", "tailwind").as_deref(),
        Some("http://127.0.0.1:8080/api/1/indexes/tailwind/query")
    );
}

#[test]
fn endpoint_encodes_the_index_name_as_one_segment() {
    assert_eq!(
        endpoint("https://app-dsn.algolia.net/", "a b/c").as_deref(),
        Some("https://app-dsn.algolia.net/1/indexes/a%20b%2Fc/query")
    );
}

#[test]
fn endpoint_of_a_url_that_cannot_be_a_base_is_refused() {
    assert_eq!(endpoint("mailto:someone@example.com", "tailwind"), None);
    assert_eq!(endpoint("not a url", "tailwind"), None);
}

#[test]
fn client_uses_dsn_and_numbered_read_hosts_in_order() {
    assert_eq!(
        read_hosts("app").unwrap(),
        vec![
            "https://app-dsn.algolia.net/",
            "https://app-1.algolianet.com/",
            "https://app-2.algolianet.com/",
            "https://app-3.algolianet.com/",
        ]
    );
}

#[test]
fn read_hosts_are_written_as_the_url_parser_normalizes_them() {
    assert_eq!(
        read_hosts("MyApp").unwrap(),
        vec![
            "https://myapp-dsn.algolia.net/",
            "https://myapp-1.algolianet.com/",
            "https://myapp-2.algolianet.com/",
            "https://myapp-3.algolianet.com/",
        ]
    );
}

#[test]
fn read_hosts_reject_an_unparsable_application_id() {
    let error = read_hosts("a b").unwrap_err();

    assert_eq!(
        error.message(),
        "invalid Algolia host https://a b-dsn.algolia.net/"
    );
}

#[test]
fn empty_configuration_values_are_rejected_before_client_creation() {
    for (field, expected) in [
        ("application_id", "ALGOLIA_APPLICATION_ID must not be empty"),
        ("api_key", "ALGOLIA_SEARCH_ONLY_API_KEY must not be empty"),
        ("index_name", "ALGOLIA_SEARCH_INDEX must not be empty"),
    ] {
        let mut invalid = config();
        match field {
            "application_id" => invalid.application_id.clear(),
            "api_key" => invalid.api_key.clear(),
            "index_name" => invalid.index_name.clear(),
            _ => unreachable!("test field is fixed"),
        }

        let error = validate_config(&invalid).unwrap_err();
        assert_eq!(error.message(), expected);
    }
    assert!(validate_config(&config()).is_ok());
}

#[test]
fn client_requires_a_read_host() {
    assert_eq!(
        validate_client(&config(), &[]).unwrap_err().message(),
        "Algolia read hosts must not be empty"
    );
    assert!(validate_client(&config(), &hosts(&["https://app-dsn.algolia.net/"])).is_ok());
}

#[test]
fn request_body_preserves_tailwind_search_contract() {
    let request = SearchRequest::new("background color", "v4");

    assert_eq!(request.query, "background color");
    assert_eq!(request.facet_filters, vec!["version:v4"]);
    assert_eq!(
        request.attributes_to_retrieve,
        vec![
            "hierarchy.lvl0", "hierarchy.lvl1", "hierarchy.lvl2", "hierarchy.lvl3",
            "hierarchy.lvl4", "hierarchy.lvl5", "hierarchy.lvl6", "content", "type", "url",
        ]
    );
    assert_eq!(
        request.attributes_to_snippet,
        vec![
            "hierarchy.lvl1:10", "hierarchy.lvl2:10", "hierarchy.lvl3:10", "hierarchy.lvl4:10",
            "hierarchy.lvl5:10", "hierarchy.lvl6:10", "content:10",
        ]
    );
    assert_eq!(request.snippet_ellipsis_text, "...");
    assert_eq!((request.distinct, request.page, request.hits_per_page), (1, 0, 20));
}

#[test]
fn query_retries_retryable_failures_in_host_order() {
    let read_hosts = hosts(&["http://first.test/", "http://second.test/", "http://third.test/"]);
    let mut failover = Failover::new(read_hosts.len());
    let mut endpoints = Vec::new();

    loop {
        match failover.next_step(&read_hosts, "tailwind", true) {
            FailoverStep::Attempt(endpoint) => {
                endpoints.push(endpoint);
                if endpoints.len() < 3 {
                    assert_eq!(
                        failover.record(AttemptFailure::Retryable("temporary failure".to_owned())),
                        None
                    );
                } else {
                    break;
                }
            }
            FailoverStep::Fail(message) => panic!("unexpected failure: {message}"),
        }
    }

    assert_eq!(
        endpoints,
        vec![
            "http://first.test/1/indexes/tailwind/query",
            "http://second.test/1/indexes/tailwind/query",
            "http://third.test/1/indexes/tailwind/query",
        ]
    );
}

#[test]
fn query_stops_after_terminal_failure() {
    let read_hosts = hosts(&["http://first.test/", "http://second.test/"]);
    let mut failover = Failover::new(read_hosts.len());
    let mut attempts = 0;

    let error = loop {
        match failover.next_step(&read_hosts, "tailwind", true) {
            FailoverStep::Attempt(_) => {
                attempts += 1;
                if let Some(message) =
                    failover.record(AttemptFailure::Terminal("invalid request".to_owned()))
                {
                    break message;
                }
            }
            FailoverStep::Fail(message) => break message,
        }
    };

    assert_eq!(attempts, 1);
    assert_eq!(error, "invalid request");
}

#[test]
fn query_reports_all_retryable_host_failures() {
    let read_hosts = hosts(&["http://first.test/", "http://second.test/"]);
    let mut failover = Failover::new(read_hosts.len());
    let mut attempts = 0;

    let message = loop {
        match failover.next_step(&read_hosts, "tailwind", true) {
            FailoverStep::Attempt(endpoint) => {
                attempts += 1;
                assert_eq!(
                    failover.record(AttemptFailure::Retryable(format!("{endpoint} failed"))),
                    None
                );
            }
            FailoverStep::Fail(message) => break message,
        }
    };

    assert_eq!(attempts, 2);
    assert!(message.contains("after trying 2 read hosts"));
    assert!(message.contains("first.test/1/indexes/tailwind/query failed"));
    assert!(message.contains("second.test/1/indexes/tailwind/query failed"));
    assert_eq!(
        message,
        "Algolia request failed after trying 2 read hosts: \
         http://first.test/1/indexes/tailwind/query failed; \
         http://second.test/1/indexes/tailwind/query failed"
    );
}

#[test]
fn query_without_time_left_fails_before_trying_a_host() {
    let read_hosts = hosts(&["http://first.test/"]);
    let failover = Failover::new(read_hosts.len());

    assert_eq!(
        failover.next_step(&read_hosts, "tailwind", false),
        FailoverStep::Fail(
            "Algolia request timed out before a read host could be tried".to_owned()
        )
    );
}

#[test]
fn query_with_unusable_host_reports_the_endpoint() {
    let read_hosts = hosts(&["mailto:someone@example.com"]);
    let failover = Failover::new(read_hosts.len());

    assert_eq!(
        failover.next_step(&read_hosts, "tailwind", true),
        FailoverStep::Fail("failed to construct Algolia endpoint".to_owned())
    );
}

#[test]
fn transport_failure_classification_matches_retry_policy() {
    for kind in [
        TransportErrorKind::HostNotFound,
        TransportErrorKind::ConnectionFailed,
        TransportErrorKind::Timeout,
        TransportErrorKind::Io,
        TransportErrorKind::Protocol,
    ] {
        assert!(matches!(
            classify_transport_error("http://first.test/", "send", kind, "oops"),
            AttemptFailure::Retryable(_)
        ));
    }
    assert_eq!(
        classify_transport_error(
            "http://first.test/",
            "read response body",
            TransportErrorKind::Other,
            "body too large"
        ),
        AttemptFailure::Terminal(
            "Algolia read response body failed for http://first.test/: body too large".to_owned()
        )
    );
}

#[test]
fn responses_are_classified_by_status() {
    let endpoint = "http://first.test/1/indexes/tailwind/query";

    assert_eq!(
        classify_response(endpoint, 200, r#"{"hits":[]}"#),
        ResponseDisposition::Deserialize
    );
    assert_eq!(
        classify_response(endpoint, 401, r#"{"message":"invalid key"}"#),
        ResponseDisposition::Failed(AttemptFailure::Terminal(format!(
            "Algolia request to {endpoint} failed with HTTP status 401: {{\"message\":\"invalid key\"}}"
        )))
    );
    assert_eq!(
        classify_response(endpoint, 503, r#"{"message":"service unavailable"}"#),
        ResponseDisposition::Failed(AttemptFailure::Retryable(format!(
            "Algolia request to {endpoint} failed with HTTP status 503: {{\"message\":\"service unavailable\"}}"
        )))
    );
    assert!(matches!(
        classify_response(endpoint, 302, ""),
        ResponseDisposition::Failed(AttemptFailure::Terminal(_))
    ));
}

#[test]
fn oversized_responses_are_rejected_unless_exactly_at_the_cap() {
    let endpoint = "http://first.test/";
    let at_cap = "x".repeat(MAX_RESPONSE_BYTES as usize);
    let over_cap = "x".repeat(MAX_RESPONSE_BYTES as usize + 1);

    assert_eq!(
        classify_response(endpoint, 200, &at_cap),
        ResponseDisposition::Deserialize
    );
    assert_eq!(
        classify_response(endpoint, 200, &over_cap),
        ResponseDisposition::Failed(AttemptFailure::Terminal(
            "Algolia response body from http://first.test/ exceeds 2097152 bytes".to_owned()
        ))
    );
    assert!(matches!(
        classify_response(endpoint, 503, &over_cap),
        ResponseDisposition::Failed(AttemptFailure::Retryable(_))
    ));
}

#[test]
fn undecodable_success_response_is_terminal() {
    assert_eq!(
        deserialize_failure("http://first.test/", "expected value"),
        AttemptFailure::Terminal(
            "failed to deserialize Algolia response from http://first.test/: expected value"
                .to_owned()
        )
    );
}

/// What one read host answers in the scenarios below.
enum Answer {
    Http(u16, String),
    Transport(TransportErrorKind),
}

/// Runs one query across `answers.len()` read hosts, the way the workflow's
/// client does: each answer is classified, failures go to the failover, and
/// a successful body is returned.
fn run_query(answers: Vec<Answer>) -> Result<String, String> {
    let names: Vec<String> = (0..answers.len())
        .map(|k| format!("http://host{k}.test/"))
        .collect();
    let mut failover = Failover::new(names.len());
    let mut answers = answers.into_iter();
    loop {
        let endpoint = match failover.next_step(&names, "tailwind", true) {
            FailoverStep::Attempt(endpoint) => endpoint,
            FailoverStep::Fail(message) => return Err(message),
        };
        let failure = match answers.next().expect("one answer per host") {
            Answer::Http(status, body) => match classify_response(&endpoint, status, &body) {
                ResponseDisposition::Deserialize => return Ok(body),
                ResponseDisposition::Failed(failure) => failure,
            },
            Answer::Transport(kind) => {
                classify_transport_error(&endpoint, "send", kind, "malformed response")
            }
        };
        if let Some(message) = failover.record(failure) {
            return Err(message);
        }
    }
}

fn hits_are_empty(body: &str) -> bool {
    let value: serde_json::Value = serde_json::from_str(body).expect("a JSON body");
    value["hits"].as_array().map_or(false, |hits| hits.is_empty())
}

#[test]
fn query_falls_back_after_5xx_response() {
    let body = run_query(vec![
        Answer::Http(503, r#"{"message":"temporary"}"#.to_owned()),
        Answer::Http(200, r#"{"hits":[]}"#.to_owned()),
    ])
    .expect("the second host answers");

    assert!(hits_are_empty(&body));
}

#[test]
fn query_includes_4xx_response_body() {
    let message = run_query(vec![Answer::Http(401, r#"{"message":"invalid key"}"#.to_owned())])
        .expect_err("4xx responses must fail");

    assert!(message.contains("HTTP status 401"));
    assert!(message.contains(r#"{"message":"invalid key"}"#));
}

#[test]
fn query_includes_5xx_response_body_after_hosts_fail() {
    let message = run_query(vec![Answer::Http(
        503,
        r#"{"message":"service unavailable"}"#.to_owned(),
    )])
    .expect_err("5xx responses must fail after exhausting hosts");

    assert!(message.contains("HTTP status 503"));
    assert!(message.contains(r#"{"message":"service unavailable"}"#));
}

#[test]
fn query_rejects_oversized_decoded_response() {
    let body = "x".repeat((MAX_RESPONSE_BYTES + 1) as usize);
    let message =
        run_query(vec![Answer::Http(200, body)]).expect_err("oversized decoded responses must fail");

    assert!(message.contains("exceeds"));
}

#[test]
fn query_falls_back_after_oversized_5xx_response() {
    let body = "x".repeat((MAX_RESPONSE_BYTES + 1) as usize);
    let answer = run_query(vec![
        Answer::Http(503, body),
        Answer::Http(200, r#"{"hits":[]}"#.to_owned()),
    ])
    .expect("the second host answers");

    assert!(hits_are_empty(&answer));
}

#[test]
fn query_accepts_response_exactly_at_size_cap() {
    let prefix = "{\"hits\":[],\"pad\":\"";
    let suffix = "\"}";
    let pad_length = MAX_RESPONSE_BYTES as usize - prefix.len() - suffix.len();
    let body = format!("{prefix}{}{suffix}", "x".repeat(pad_length));
    assert_eq!(body.len() as u64, MAX_RESPONSE_BYTES);

    let answer = run_query(vec![Answer::Http(200, body)]).expect("a body at the cap is read");

    assert!(hits_are_empty(&answer));
}

#[test]
fn query_falls_back_after_malformed_http_response() {
    let answer = run_query(vec![
        Answer::Transport(TransportErrorKind::Protocol),
        Answer::Http(200, r#"{"hits":[]}"#.to_owned()),
    ])
    .expect("the second host answers");

    assert!(hits_are_empty(&answer));
}
