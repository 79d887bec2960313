use research_agent::extract::{extract_domain, WebSearchTool};

#[test]
fn test_web_search_tool_creation() {
    let tool = WebSearchTool::new(5);
    assert_eq!(tool.max_results(), 5);
}

#[test]
fn test_extract_domain() {
    assert_eq!(
        extract_domain("https://www.example.com/page"),
        Some("www.example.com".to_string())
    );
    assert_eq!(
        extract_domain("https://rust-lang.org/learn"),
        Some("rust-lang.org".to_string())
    );
}

#[test]
fn test_extract_domain_without_slashes() {
    assert_eq!(extract_domain("no scheme here"), None);
}

#[test]
fn test_redirect_parameter_single_result() {
    // One encoded redirect-parameter occurrence: exactly one result, decoded.
    let html = "<a href=\"/l/?kh=-1&uddg=https%3A%2F%2Fexample.com%2Fpage&rut=abc\">x</a>";
    let tool = WebSearchTool::new(5);
    let results = tool.parse_html(html);
    assert_eq!(results.len(), 1);
    assert_eq!(results[0].url, "https://example.com/page");
    assert_eq!(results[0].title, "example.com");
    assert_eq!(results[0].snippet, "Search result from DuckDuckGo");
}

#[test]
fn test_max_results_earliest_strategy_wins() {
    // Three distinct qualifying URLs, one per strategy; a cap of one keeps
    // only the redirect-parameter strategy's find.
    let html = "uddg=https%3A%2F%2Ffirst.example%2Fa&result__url\" href=\"https://second.example/b\">plain https://third.example/c \"";
    let tool = WebSearchTool::new(1);
    let results = tool.parse_html(html);
    assert_eq!(results.len(), 1);
    assert_eq!(results[0].url, "https://first.example/a");
}

#[test]
fn test_never_more_than_max_and_no_duplicate_urls() {
    // The first candidate occurs twice; the duplicate is dropped.
    let html = "uddg=https%3A%2F%2Fa.example%2F1&\
                uddg=https%3A%2F%2Fa.example%2F1&\
                uddg=https%3A%2F%2Fb.example%2F2&\
                result__url\" href=\"https://c.example/3\">\
                raw https://d.example/4 \
                raw https://e.example/5 ";
    let tool = WebSearchTool::new(3);
    let results = tool.parse_html(html);
    assert_eq!(results.len(), 3);
    for i in 0..results.len() {
        for j in (i + 1)..results.len() {
            assert_ne!(results[i].url, results[j].url);
        }
    }
    assert_eq!(results[0].url, "https://a.example/1");
    assert_eq!(results[1].url, "https://b.example/2");
    assert_eq!(results[2].url, "https://c.example/3");
}

#[test]
fn test_no_markers_yields_empty() {
    let html = "<html><body><p>nothing to see</p></body></html>";
    let tool = WebSearchTool::new(5);
    let results = tool.parse_html(html);
    assert!(results.is_empty());
}

#[test]
fn test_deterministic_on_identical_input() {
    let html = "uddg=https%3A%2F%2Fexample.com%2Fpage& and https://other.example/x \"";
    let tool = WebSearchTool::new(5);
    let a = tool.parse_html(html);
    let b = tool.parse_html(html);
    assert_eq!(a.len(), b.len());
    for (x, y) in a.iter().zip(b.iter()) {
        assert_eq!(x.title, y.title);
        assert_eq!(x.url, y.url);
        assert_eq!(x.snippet, y.snippet);
    }
}

#[test]
fn test_anchor_strategy_protocol_relative() {
    let html = "class=\"result__url\" href=\"//example.org/doc\">";
    let tool = WebSearchTool::new(5);
    let results = tool.parse_html(html);
    assert_eq!(results.len(), 1);
    assert_eq!(results[0].url, "https://example.org/doc");
    assert_eq!(results[0].title, "example.org");
    assert_eq!(results[0].snippet, "Search result");
}

#[test]
fn test_provider_domain_excluded() {
    let html = "uddg=https%3A%2F%2Fduckduckgo.com%2Fabout&result__url\" href=\"https://duckduckgo.com/x\">";
    let tool = WebSearchTool::new(5);
    let results = tool.parse_html(html);
    assert!(results.is_empty());
}

#[test]
fn test_raw_strategy_filters() {
    // In order: a CDN host with .js, the analytics host, a too-short
    // candidate, a .css asset (all dropped), and one real page (kept).
    let html = "https://cdn.example.com/lib.js \
                https://improving.duckduckgo.com/t \
                https://a.b \
                https://assets.example.com/app.css \
                https://real.example.org/page ";
    let tool = WebSearchTool::new(5);
    let results = tool.parse_html(html);
    assert_eq!(results.len(), 1);
    assert_eq!(results[0].url, "https://real.example.org/page");
    assert_eq!(results[0].title, "real.example.org");
}

#[test]
fn test_title_placeholder_when_host_empty() {
    // The host between the first "//" and the next "/" is empty here; the
    // title falls back to the placeholder rather than staying empty.
    let html = "https:///foo.ba ";
    let tool = WebSearchTool::new(5);
    let results = tool.parse_html(html);
    assert_eq!(results.len(), 1);
    assert_eq!(results[0].url, "https:///foo.ba");
    assert_eq!(results[0].title, "Result");
    assert!(!results[0].title.is_empty());
}

#[test]
fn test_title_placeholder_when_no_host() {
    // A decoded redirect value that starts with "http" but has no "//":
    // the title falls back to the placeholder.
    let html = "uddg=http%3Aexample&";
    let tool = WebSearchTool::new(5);
    let results = tool.parse_html(html);
    assert_eq!(results.len(), 1);
    assert_eq!(results[0].url, "http:example");
    assert_eq!(results[0].title, "Result");
}
