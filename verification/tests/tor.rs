use robin_smesh::tor::crawler::{merge_results, parse_search_results, SearchResult};
use robin_smesh::tor::proxy::{random_user_agent, user_agent, TorConfig, TorError, USER_AGENT_COUNT};
use robin_smesh::tor::scraper::{extract_content, limit_content, normalize_whitespace, page_from};

#[test]
fn test_parse_search_results() {
    let html = r#"
            <html>
            <body>
                <a href="http://example1234567890abcdef.onion/page">Test Site</a>
                <a href="http://search.onion/search?q=test">Search Link</a>
                <a href="http://another1234567890abcdef.onion/">Another Site</a>
            </body>
            </html>
        "#;

    let results = parse_search_results(html, "TestEngine");

    assert!(results.len() >= 1);
    assert!(results.iter().all(|r| !r.url.contains("search")));
}

#[test]
fn test_default_config() {
    let config = TorConfig::default();
    assert!(config.socks_addr.contains("9050"));
    assert_eq!(config.timeout_secs, 45);
}

#[test]
fn test_random_user_agent() {
    let ua = random_user_agent();
    assert!(ua.contains("Mozilla"));
}

#[test]
fn test_extract_content() {
    let html = r#"
            <html>
            <head><title>Test Page</title></head>
            <body>
                <script>var x = 1;</script>
                <h1>Hello World</h1>
                <p>This is test content.</p>
                <style>.x { color: red; }</style>
            </body>
            </html>
        "#;

    let (title, text) = extract_content(html);

    assert_eq!(title, Some("Test Page".to_string()));
    assert!(text.contains("Hello World"));
    assert!(text.contains("test content"));
    assert!(!text.contains("var x"));
    assert!(!text.contains("color: red"));
}

#[test]
fn test_normalize_whitespace() {
    let input = "  hello   world  \n\t  test  ";
    let output = normalize_whitespace(input);
    assert_eq!(output, "hello world test");
}

#[test]
fn anchors_that_are_skipped() {
    let html = r#"<html><body>
        <a href="http://aaaa1234567890abcdef.onion/page">First Site</a>
        <a href="http://bbbb1234567890abcdef.onion/query?x=1">Query Link</a>
        <a href="http://cccc1234567890abcdef.onion/search">Search Link</a>
        <a href="http://dddd1234567890abcdef.onion/x">ab</a>
        <a href="https://clear.example.com/">Clear Web</a>
        <a>No Target</a>
        <a href="http://eeee1234567890abcdef.onion/y">  Second   Site  </a>
        <a href="http://ffff1234567890abcdef.onion/z<search">Behind The Address</a>
        <a href="/redirect?query=1&to=http://gggg1234567890abcdef.onion/w">Before The Address</a>
    </body></html>"#;
    let results = parse_search_results(html, "Engine");
    let got: Vec<(String, String, String)> =
        results.into_iter().map(|r| (r.url, r.title, r.engine)).collect();
    assert_eq!(
        got,
        vec![
            ("http://aaaa1234567890abcdef.onion/page".to_string(), "First Site".to_string(), "Engine".to_string()),
            ("http://eeee1234567890abcdef.onion/y".to_string(), "Second   Site".to_string(), "Engine".to_string()),
        ]
    );
}

fn result(url: &str, title: &str) -> SearchResult {
    SearchResult { url: url.to_string(), title: title.to_string(), engine: "e".to_string() }
}

#[test]
fn merging_drops_links_that_differ_by_slash_or_case() {
    let pages = vec![
        vec![result("http://a.onion/x", "one"), result("http://b.onion", "two")],
        vec![],
        vec![result("http://A.onion/x/", "three"), result("http://b.onion//", "four"), result("http://c.onion/", "five")],
    ];
    let merged = merge_results(pages);
    let titles: Vec<&str> = merged.iter().map(|r| r.title.as_str()).collect();
    assert_eq!(titles, vec!["one", "two", "five"]);
}

#[test]
fn content_without_title_or_body() {
    let (title, text) = extract_content("<p>just a paragraph</p>");
    assert_eq!(title, None);
    assert_eq!(text, "just a paragraph");
    let (title, text) = extract_content("<html><head><title>  T  </title></head><body><noscript>hidden</noscript><div> a <b>b</b>\n c </div></body></html>");
    assert_eq!(title, Some("T".to_string()));
    assert_eq!(text, "a b c");
}

#[test]
fn long_text_is_cut_at_four_thousand_characters() {
    let long = "x".repeat(4001);
    let (cut, truncated) = limit_content(&long);
    assert!(truncated);
    assert_eq!(cut.chars().count(), 4000 + "...(truncated)".len());
    assert!(cut.ends_with("...(truncated)"));
    let exact = "y".repeat(4000);
    let (same, truncated) = limit_content(&exact);
    assert!(!truncated);
    assert_eq!(same, exact);
}

#[test]
fn page_of_a_failed_request_is_empty() {
    let page = page_from("http://u.onion", false, "<html><body>text</body></html>");
    assert_eq!(page.url, "http://u.onion");
    assert_eq!(page.title, None);
    assert_eq!(page.text, "");
    assert_eq!(page.char_count, 0);
    assert!(!page.truncated);
    let page = page_from("http://u.onion", true, "<html><head><title>T</title></head><body>text here</body></html>");
    assert_eq!(page.title, Some("T".to_string()));
    assert_eq!(page.text, "text here");
    assert_eq!(page.char_count, 9);
}

#[test]
fn user_agents_and_errors() {
    assert_eq!(USER_AGENT_COUNT, 5);
    let all: Vec<&str> = (0..USER_AGENT_COUNT).map(user_agent).collect();
    for _ in 0..20 {
        assert!(all.contains(&random_user_agent()));
    }
    assert_eq!(TorError::Timeout(45).message(), "Timeout after 45 seconds");
    assert_eq!(TorError::MaxRetries(3).message(), "Max retries (3) exceeded");
    assert_eq!(TorError::ClientBuild("x".into()).message(), "Failed to build Tor client: x");
    assert_eq!(TorError::Request("y".into()).message(), "Request failed: y");
    assert_eq!(TorError::InvalidUrl("z".into()).message(), "Invalid URL: z");
    assert_eq!(TorConfig::default().max_retries, 3);
    assert_eq!(TorConfig::default().socks_addr, "socks5h://127.0.0.1:9050");
}
