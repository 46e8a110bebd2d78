use grok_tools::attribution::{ToolConsumer, SENT_BEARER_PREFIX_LEN};
use grok_tools::web_search::client::{WebSearchBackend, WebSearchClient};
use grok_tools::web_search::perplexity::{
    format_perplexity_results, perplexity_failure, perplexity_request, perplexity_status_error,
    PerplexityFailure, PerplexitySearchResult,
};
use grok_tools::web_search::response::{
    extract_citation_pairs, extract_citations, read_answer, search_results, titled_results,
    HttpReply, SearchResponse,
};
use grok_tools::web_search::search::{
    HostedTool, PerplexityReply, SearchReply, SearchRequest, SEARCH_MAX_OUTPUT_TOKENS,
};
use grok_tools::web_search::types::{WebSearchConfig, PERPLEXITY_SEARCH_API_BASE_URL};
use grok_tools::tool::ToolErrorKind;
use indexmap::IndexMap;

fn enabled(api_key: &str, headers: IndexMap<String, String>) -> WebSearchConfig {
    WebSearchConfig::Enabled {
        api_key: api_key.to_string(),
        base_url: "https://api.x.ai/v1".to_string(),
        model: "test-web-search-model".to_string(),
        extra_headers: headers,
        alpha_test_key: None,
    }
}

fn get<'a>(headers: &'a reqwest::header::HeaderMap, name: &str) -> Option<&'a str> {
    headers.get(name).map(|v| v.to_str().unwrap())
}

fn body(output: &str) -> HttpReply {
    let body = format!(
        r#"{{"id":"resp_test","object":"response","created_at":1234567890,"status":"completed","model":"test-model","output":{output}}}"#
    );
    HttpReply::Body(body.into_bytes())
}

fn response(output: &str) -> SearchResponse {
    read_answer("web_search", body(output)).expect("Failed to parse test Response JSON")
}

fn message(id: &str, text: &str, citations: &[(&str, &str)]) -> String {
    let annotations: Vec<String> = citations
        .iter()
        .map(|(url, title)| {
            format!(r#"{{"type":"url_citation","url":"{url}","title":"{title}","start_index":0,"end_index":5}}"#)
        })
        .collect();
    format!(
        r#"{{"type":"message","id":"{id}","status":"completed","role":"assistant","content":[{{"type":"output_text","text":"{text}","annotations":[{}]}}]}}"#,
        annotations.join(",")
    )
}

#[test]
fn test_config_default_is_disabled() {
    assert!(!WebSearchConfig::default().is_enabled());
}

#[test]
fn test_config_enabled() {
    let config = enabled("test-key", IndexMap::new());
    assert!(config.is_enabled());
    assert!(!config.is_perplexity());
}

#[test]
fn test_config_perplexity_is_enabled_and_redacted() {
    let config = WebSearchConfig::Perplexity {
        api_key: "pplx-secret".to_owned(),
        base_url: PERPLEXITY_SEARCH_API_BASE_URL.to_owned(),
    };
    assert!(config.is_enabled());
    assert!(config.is_perplexity());
    assert!(!config.debug_text().contains("pplx-secret"));
    assert_eq!(
        config.debug_text(),
        "WebSearchConfig::Perplexity { api_key: \"***REDACTED***\", base_url: \"https://api.perplexity.ai\" }"
    );
    match config.redacted() {
        WebSearchConfig::Perplexity { api_key, .. } => assert_eq!(api_key, "***REDACTED***"),
        _ => panic!("Expected Perplexity variant"),
    }
}

#[test]
fn test_config_redacted() {
    let mut headers = IndexMap::new();
    headers.insert("X-Custom".to_string(), "value".to_string());
    let config = WebSearchConfig::Enabled {
        api_key: "secret-key-12345".to_string(),
        base_url: "https://api.x.ai/v1".to_string(),
        model: "test-web-search-model".to_string(),
        extra_headers: headers,
        alpha_test_key: Some("alpha-secret".to_string()),
    };
    assert_eq!(
        config.debug_text(),
        "WebSearchConfig::Enabled { api_key: \"***REDACTED***\", base_url: \"https://api.x.ai/v1\", model: \"test-web-search-model\", extra_headers: {\"X-Custom\": \"value\"}, alpha_test_key: Some(\"***REDACTED***\") }"
    );
    match config.redacted() {
        WebSearchConfig::Enabled { api_key, base_url, model, extra_headers, alpha_test_key } => {
            assert_eq!(api_key, "***REDACTED***");
            assert_eq!(base_url, "https://api.x.ai/v1");
            assert_eq!(model, "test-web-search-model");
            assert_eq!(extra_headers.get("X-Custom").unwrap(), "value");
            assert!(alpha_test_key.is_none());
        }
        _ => panic!("Expected Enabled variant"),
    }
}

#[test]
fn test_new_client_uses_configured_model() {
    let config = WebSearchConfig::Enabled {
        api_key: "test-key".to_string(),
        base_url: "https://api.x.ai/v1".to_string(),
        model: "custom-enterprise-model".to_string(),
        extra_headers: IndexMap::new(),
        alpha_test_key: None,
    };
    let client = WebSearchClient::new(&config, false).expect("client should build");
    assert_eq!(client.model, "custom-enterprise-model");
}

#[test]
fn test_extract_citations_empty_response() {
    assert!(extract_citations(&response("[]")).is_empty());
}

#[test]
fn test_extract_citations_with_url_citations() {
    let r = response(&format!(
        "[{}]",
        message(
            "msg_1",
            "Here is some info about Rust.",
            &[("https://www.rust-lang.org/", "Rust Programming Language"), ("https://docs.rs/", "Docs.rs")]
        )
    ));
    let citations = extract_citations(&r);
    assert_eq!(citations.len(), 2);
    assert_eq!(citations[0], "https://www.rust-lang.org/");
    assert_eq!(citations[1], "https://docs.rs/");
}

#[test]
fn test_extract_citations_deduplicates() {
    let r = response(&format!(
        "[{}]",
        message(
            "msg_1",
            "Info with duplicate citations.",
            &[
                ("https://example.com/page1", "Page 1"),
                ("https://example.com/page2", "Page 2"),
                ("https://example.com/page1", "Page 1 Again"),
            ]
        )
    ));
    let citations = extract_citations(&r);
    assert_eq!(citations.len(), 2);
    assert_eq!(citations[0], "https://example.com/page1");
    assert_eq!(citations[1], "https://example.com/page2");
    assert_eq!(
        extract_citation_pairs(&r),
        vec![
            ("Page 1".to_string(), "https://example.com/page1".to_string()),
            ("Page 2".to_string(), "https://example.com/page2".to_string()),
        ]
    );
}

#[test]
fn test_extract_citations_multiple_messages() {
    let r = response(&format!(
        "[{},{}]",
        message("msg_1", "First message", &[("https://first.com/", "First")]),
        message("msg_2", "Second message", &[("https://second.com/", "Second")])
    ));
    let citations = extract_citations(&r);
    assert_eq!(citations.len(), 2);
    assert_eq!(citations[0], "https://first.com/");
    assert_eq!(citations[1], "https://second.com/");
    assert_eq!(search_results(r.clone()).0, "First messageSecond message");
}

#[test]
fn test_extract_citations_ignores_non_url_annotations() {
    let r = response(
        r#"[{"type":"message","id":"msg_1","status":"completed","role":"assistant","content":[{"type":"output_text","text":"Some text","annotations":[
            {"type":"file_path","file_id":"f","index":1},
            {"type":"url_citation","url":"https://valid.com/","title":"Valid","start_index":0,"end_index":4}]},
            {"type":"refusal","refusal":"no"}]}]"#,
    );
    let citations = extract_citations(&r);
    assert_eq!(citations.len(), 1);
    assert_eq!(citations[0], "https://valid.com/");
}

#[test]
fn test_extract_citations_no_annotations() {
    let r = response(&format!("[{}]", message("msg_1", "Plain text with no annotations", &[])));
    assert!(extract_citations(&r).is_empty());
    let (content, pairs) = titled_results(r);
    assert_eq!(content, "Plain text with no annotations");
    assert!(pairs.is_empty());
}

#[test]
fn answers_without_text_say_so_and_bad_bodies_fail() {
    let (content, citations) = search_results(response("[]"));
    assert_eq!(content, "No search results found.");
    assert!(citations.is_empty());
    let err = read_answer("web_search", HttpReply::Body(b"{nope".to_vec())).unwrap_err();
    assert!(err.message.starts_with("Failed to parse response: "));
    let r = response(&format!("[{}]", message("m", "t", &[("", "no address")])));
    assert_eq!(extract_citations(&r), vec!["".to_string()]);
    assert!(extract_citation_pairs(&r).is_empty());
}

#[test]
fn replies_are_judged() {
    let refused = |status: u16, text: &str, body: Option<&str>| HttpReply::Refused {
        status,
        status_text: text.to_string(),
        body: body.map(String::from),
    };
    let err = read_answer("web_search", refused(401, "401 Unauthorized", Some("b"))).unwrap_err();
    assert_eq!(err.kind, ToolErrorKind::Unauthorized);
    assert_eq!(err.message, "Responses API returned 401 Unauthorized: b");
    assert_eq!(err.tool_id.as_deref(), Some("web_search"));
    assert_eq!(err.status, Some(401));
    let err = read_answer("x_search", refused(503, "503 Service Unavailable", None)).unwrap_err();
    assert_eq!(err.kind, ToolErrorKind::Execution);
    assert_eq!(
        err.message,
        "Responses API returned 503 Service Unavailable: Failed to read error body"
    );
    assert_eq!(err.tool_id.as_deref(), Some("x_search"));
    assert_eq!(err.status, None);
    let err = read_answer("web_search", HttpReply::Unsent { error: "dns".into() }).unwrap_err();
    assert_eq!(err.message, "HTTP request failed: dns");
    let err = read_answer("web_search", HttpReply::Unreadable { error: "eof".into() }).unwrap_err();
    assert_eq!(err.message, "Failed to read response body: eof");
}

#[test]
fn searches_ask_and_tell() {
    let client = WebSearchClient::new(&enabled("k", IndexMap::new()), false).unwrap();
    let domains = Some(vec!["rust-lang.org".to_string()]);
    match client.search_request("rust", domains.clone()) {
        SearchRequest::Responses(r) => {
            assert_eq!(r.model, "test-web-search-model");
            assert_eq!(r.input, "rust");
            assert!(!r.store);
            assert_eq!(r.max_output_tokens, SEARCH_MAX_OUTPUT_TOKENS);
            assert!(matches!(r.tool, HostedTool::WebSearch { allowed_domains } if allowed_domains == domains));
        }
        other => panic!("{other:?}"),
    }
    let asked = client.x_search_request("rust").unwrap();
    assert!(matches!(asked.tool, HostedTool::XSearch));
    let found = || body(&format!("[{}]", message("m", "text", &[("https://a", "A"), ("https://a", "B")])));
    let (content, urls) = client.search(SearchReply::Responses(found())).unwrap();
    assert_eq!((content.as_str(), urls), ("text", vec!["https://a".to_string()]));
    let (_, pairs) = client.search_with_titles(SearchReply::Responses(found())).unwrap();
    assert_eq!(pairs, vec![("A".to_string(), "https://a".to_string())]);
    let (content, urls) = client.x_search(found()).unwrap();
    assert_eq!((content.as_str(), urls.len()), ("text", 1));
    let unsent = || HttpReply::Unsent { error: "dns".into() };
    let err = client.search(SearchReply::Responses(unsent())).unwrap_err();
    assert_eq!(err.tool_id.as_deref(), Some("web_search"));
    let err = client.x_search(unsent()).unwrap_err();
    assert_eq!(err.tool_id.as_deref(), Some("x_search"));
}

#[test]
fn static_api_key_is_fallback_when_provider_returns_none() {
    let client = WebSearchClient::new(&enabled("static-key-from-config", IndexMap::new()), true).unwrap();
    assert!(client.asks_provider);
    assert_eq!(client.authorization(None).as_deref(), Some("Bearer static-key-from-config"));
    assert_eq!(client.url(), "https://api.x.ai/v1/responses");
}

#[test]
fn provider_key_overrides_static_key() {
    let client = WebSearchClient::new(&enabled("stale-static-key", IndexMap::new()), true).unwrap();
    let sent = client.authorization(Some("fresh-key-from-provider"));
    assert_eq!(sent.as_deref(), Some("Bearer fresh-key-from-provider"));
}

#[test]
fn extra_headers_replace_those_of_the_same_name() {
    let mut headers = IndexMap::new();
    headers.insert("X-Team".to_string(), "a".to_string());
    headers.insert("AUTHORIZATION".to_string(), "Basic b".to_string());
    let client = WebSearchClient::new(&enabled("k", headers), false).unwrap();
    assert_eq!(get(&client.headers, "content-type"), Some("application/json"));
    assert_eq!(get(&client.headers, "x-team"), Some("a"));
    assert_eq!(get(&client.headers, "authorization"), Some("Basic b"));
    assert_eq!(client.authorization(None).as_deref(), Some("Basic b"));
    assert_eq!(client.headers.len(), 3);
    let plain = WebSearchClient::new(&enabled("k", IndexMap::new()), false).unwrap();
    assert_eq!(get(&plain.headers, "authorization"), Some("Bearer k"));
    let mut twice = IndexMap::new();
    twice.insert("X-Team".to_string(), "a".to_string());
    twice.insert("x-team".to_string(), "b".to_string());
    let client = WebSearchClient::new(&enabled("k", twice), false).unwrap();
    assert_eq!(get(&client.headers, "x-team"), Some("b"), "the last of a name stands");
}

#[test]
fn very_many_headers_find_no_room() {
    let many = |n: usize| -> IndexMap<String, String> {
        (0..n).map(|i| (format!("x-{i}"), "v".to_string())).collect()
    };
    let client = WebSearchClient::new(&enabled("k", many(6000)), false).unwrap();
    assert_eq!(client.headers.len(), 6002);
    let err = WebSearchClient::new(&enabled("k", many(40_000)), false).unwrap_err();
    assert_eq!(err.message, "Too many extra headers for web search");
}

#[test]
fn record_401_attribution_passes_truncated_prefix_to_callback() {
    let client = WebSearchClient::new(&enabled("ignored", IndexMap::new()), false).unwrap();
    let told = client
        .record_401_attribution(true, Some("bearer-with-long-tail-aaaaaaaaaa"))
        .unwrap();
    assert_eq!(told.consumer, ToolConsumer::WebSearch);
    assert_eq!(told.sent_bearer_prefix.as_deref(), Some("bearer-with-"));
    assert_eq!(told.sent_bearer_prefix.map(|p| p.len()), Some(SENT_BEARER_PREFIX_LEN));
    let short = client.record_401_attribution(true, Some("short")).unwrap();
    assert_eq!(short.sent_bearer_prefix.as_deref(), Some("short"));
}

#[test]
fn record_401_attribution_is_noop_without_callback() {
    let client = WebSearchClient::new(&enabled("test-key", IndexMap::new()), false).unwrap();
    assert!(client.record_401_attribution(false, Some("any-bearer")).is_none());
    assert!(client.record_401_attribution(false, None).is_none());
    assert!(client.record_401_attribution(true, None).unwrap().sent_bearer_prefix.is_none());
}

#[test]
fn bad_setups_make_no_client() {
    let fail = |c: &WebSearchConfig| WebSearchClient::new(c, false).unwrap_err().message;
    assert_eq!(fail(&WebSearchConfig::Disabled), "Cannot create WebSearchClient from disabled config");
    assert_eq!(fail(&enabled("a\nb", IndexMap::new())), "Invalid API key for web search");
    let mut headers = IndexMap::new();
    headers.insert("".to_string(), "v".to_string());
    assert_eq!(fail(&enabled("k", headers)), "Invalid extra header name for web search");
    let mut headers = IndexMap::new();
    headers.insert("x".to_string(), "a\u{7f}".to_string());
    assert_eq!(fail(&enabled("k", headers)), "Invalid extra header value for web search");
    let mut headers = IndexMap::new();
    headers.insert("x".to_string(), "é\t".to_string());
    assert!(WebSearchClient::new(&enabled("k", headers), false).is_ok());
}

fn page(title: &str, url: &str, snippet: &str) -> PerplexitySearchResult {
    PerplexitySearchResult {
        title: title.to_string(),
        url: url.to_string(),
        snippet: snippet.to_string(),
        date: None,
        last_updated: None,
    }
}

#[test]
fn perplexity_request_forwards_domains_and_formats_ranked_results() {
    let domains = vec!["rust-lang.org".to_owned(), "docs.rs".to_owned()];
    let request = perplexity_request("Rust documentation", Some(domains.clone()));
    assert_eq!(request.query, "Rust documentation");
    assert_eq!(request.max_results, 10);
    assert_eq!(request.max_tokens_per_page, 1024);
    assert_eq!(request.search_domain_filter, Some(domains));
    let results = vec![
        PerplexitySearchResult {
            date: Some("2026-07-01".into()),
            ..page("Rust Language", "https://www.rust-lang.org/", "A language empowering everyone.")
        },
        PerplexitySearchResult {
            last_updated: Some("2026-07-02".into()),
            ..page("Docs.rs", "https://docs.rs/", "Rust crate documentation.")
        },
        page("Rust Duplicate", "https://www.rust-lang.org/", "Duplicate URL for citation testing."),
    ];
    let told = format_perplexity_results(results).unwrap();
    assert!(told.content.starts_with("Ranked web search results:\n\n1. Rust Language\n"));
    assert!(told.content.contains("1. Rust Language"));
    assert!(told.content.contains("URL: https://www.rust-lang.org/"));
    assert!(told.content.contains("Date: 2026-07-01"));
    assert!(told.content.contains("Snippet: A language empowering everyone."));
    assert!(told.content.contains("2. Docs.rs"));
    assert!(told.content.contains("Date: 2026-07-02"));
    assert!(told.content.contains("3. Rust Duplicate"));
    assert!(told.content.contains("Date: Unavailable"));
    assert_eq!(
        told.citations,
        vec!["https://www.rust-lang.org/".to_owned(), "https://docs.rs/".to_owned()]
    );
    assert_eq!(told.citation_pairs[0].0, "Rust Language");
    assert_eq!(told.citation_pairs.len(), 2);
    let config = WebSearchConfig::Perplexity { api_key: "k".into(), base_url: "http://x//".into() };
    let client = WebSearchClient::new(&config, true).unwrap();
    assert_eq!(client.url(), "http://x/search");
    assert_eq!(client.backend, WebSearchBackend::Perplexity);
    assert!(!client.asks_provider);
    let err = client.x_search_request("q").unwrap_err();
    assert_eq!(err.message, "X search requires the xAI backend");
    assert_eq!(err.tool_id.as_deref(), Some("x_search"));
    let pages = || SearchReply::Perplexity(PerplexityReply::Pages(vec![page("T", "https://t", "s")]));
    let (content, urls) = client.search(pages()).unwrap();
    assert!(content.contains("1. T\nURL: https://t"));
    assert_eq!(urls, vec!["https://t".to_string()]);
    let (_, pairs) = client.search_with_titles(pages()).unwrap();
    assert_eq!(pairs, vec![("T".to_string(), "https://t".to_string())]);
    let none = SearchReply::Perplexity(PerplexityReply::Pages(vec![]));
    assert!(client.search(none).unwrap_err().message.contains("returned no results"));
    let lost = SearchReply::Perplexity(PerplexityReply::Failed(PerplexityFailure::Unsent));
    assert!(client.search_with_titles(lost).unwrap_err().message.contains("request failed"));
    assert!(matches!(client.search_request("q", None), SearchRequest::Perplexity(r) if r.query == "q"));
}

#[test]
fn perplexity_empty_results_are_reported_without_raw_response_data() {
    let error = format_perplexity_results(vec![]).unwrap_err();
    assert!(error.message.contains("Perplexity web search returned no results"));
}

#[test]
fn perplexity_malformed_json_is_sanitized() {
    let error = perplexity_failure(PerplexityFailure::Malformed);
    assert!(error.message.contains("Perplexity web search returned a malformed response"));
    let error = perplexity_failure(PerplexityFailure::Unreadable);
    assert!(error.message.contains("unreadable response"));
}

#[test]
fn perplexity_auth_rate_filter_and_server_errors_are_sanitized() {
    for status in [401, 403] {
        let e = perplexity_status_error(status, false);
        assert_eq!(e.kind, ToolErrorKind::Unauthorized);
        assert_eq!(e.status, Some(status));
        assert!(e.message.contains("Perplexity web search authentication failed"));
    }
    assert!(perplexity_status_error(429, false).message.contains("Perplexity web search is rate limited"));
    assert!(perplexity_status_error(400, true).message.contains("rejected the allowed_domains filter"));
    assert!(perplexity_status_error(422, false).message.contains("rejected the request"));
    assert!(perplexity_status_error(503, false).message.contains("temporarily unavailable"));
    assert_eq!(
        perplexity_status_error(418, false).message,
        "Perplexity web search failed with status 418."
    );
    let refused = PerplexityFailure::Refused { status: 429, had_domain_filter: true };
    assert!(perplexity_failure(refused).message.contains("rate limited"));
}

#[test]
fn perplexity_network_failure_is_sanitized() {
    let error = perplexity_failure(PerplexityFailure::Unsent);
    assert!(error.message.contains("Perplexity web search request failed"));
    assert!(!error.message.contains("127.0.0.1"));
}
