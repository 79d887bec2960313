use research_agent::extract::WebSearchTool;
use research_agent::model::SearchResult;
use research_agent::render::format_results;

#[test]
fn test_format_empty_names_query() {
    let results: Vec<SearchResult> = Vec::new();
    assert_eq!(
        format_results(&results, "rust async"),
        "No results found for: rust async"
    );
}

#[test]
fn test_format_no_markers_pipeline() {
    // No recognizable markers: extraction is empty, and its rendering is
    // exactly the notice.
    let tool = WebSearchTool::new(5);
    let results = tool.parse_html("<p>plain page, nothing linked</p>");
    assert!(results.is_empty());
    assert_eq!(format_results(&results, "rust"), "No results found for: rust");
}

#[test]
fn test_format_single_result() {
    let results = vec![SearchResult {
        title: "example.com".to_string(),
        url: "https://example.com/page".to_string(),
        snippet: "Search result".to_string(),
    }];
    assert_eq!(
        format_results(&results, "rust"),
        "1. example.com\n   https://example.com/page\n   Search result\n"
    );
}

#[test]
fn test_format_two_results_numbered_and_separated() {
    let results = vec![
        SearchResult {
            title: "a.example".to_string(),
            url: "https://a.example/1".to_string(),
            snippet: "Search result".to_string(),
        },
        SearchResult {
            title: "b.example".to_string(),
            url: "https://b.example/2".to_string(),
            snippet: "Search result".to_string(),
        },
    ];
    assert_eq!(
        format_results(&results, "rust"),
        "1. a.example\n   https://a.example/1\n   Search result\n\n2. b.example\n   https://b.example/2\n   Search result\n"
    );
}
