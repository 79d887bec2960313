use research_agent::extract::WebSearchTool;
use research_agent::fetch::{build_search_url, classify_status};
use research_agent::model::SearchError;

#[test]
fn test_build_search_url_encodes_query() {
    assert_eq!(
        build_search_url("rust async"),
        "https://html.duckduckgo.com/html/?q=rust%20async"
    );
    assert_eq!(
        build_search_url("a&b=c"),
        "https://html.duckduckgo.com/html/?q=a%26b%3Dc"
    );
}

#[test]
fn test_classify_status_success() {
    assert!(classify_status(200).is_ok());
    assert!(classify_status(204).is_ok());
    assert!(classify_status(299).is_ok());
}

#[test]
fn test_classify_status_rate_limited() {
    assert!(matches!(classify_status(429), Err(SearchError::RateLimited)));
}

#[test]
fn test_classify_status_failure_names_status() {
    match classify_status(404) {
        Err(SearchError::SearchFailed(m)) => assert_eq!(m, "HTTP 404"),
        other => panic!("expected SearchFailed, got {:?}", other),
    }
    match classify_status(503) {
        Err(SearchError::SearchFailed(m)) => assert_eq!(m, "HTTP 503"),
        other => panic!("expected SearchFailed, got {:?}", other),
    }
    // Rate limiting stays distinguishable from every other failure.
    assert!(!matches!(classify_status(503), Err(SearchError::RateLimited)));
}

#[test]
fn test_search_outcome_success_extracts() {
    let tool = WebSearchTool::new(5);
    let body = "uddg=https%3A%2F%2Fexample.com%2Fpage&";
    let results = tool.search_outcome(200, body).unwrap();
    assert_eq!(results.len(), 1);
    assert_eq!(results[0].url, "https://example.com/page");
}

#[test]
fn test_search_outcome_errors() {
    let tool = WebSearchTool::new(5);
    assert!(matches!(
        tool.search_outcome(429, ""),
        Err(SearchError::RateLimited)
    ));
    match tool.search_outcome(500, "") {
        Err(SearchError::SearchFailed(m)) => assert_eq!(m, "HTTP 500"),
        other => panic!("expected SearchFailed, got {:?}", other),
    }
}
