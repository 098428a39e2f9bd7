use basilisk::term::url::{detect_urls_in_grid, detect_urls_in_line, url_at_position};

#[test]
fn detect_http_url() {
    let urls = detect_urls_in_line("Check out https://example.com for more", 0);
    assert_eq!(urls.len(), 1);
    assert_eq!(urls[0].url, "https://example.com");
    assert_eq!(urls[0].start_col, 10);
}

#[test]
fn detect_multiple_urls() {
    let urls = detect_urls_in_line("Visit https://a.com and http://b.com", 0);
    assert_eq!(urls.len(), 2);
    assert_eq!(urls[0].url, "https://a.com");
    assert_eq!(urls[1].url, "http://b.com");
}

#[test]
fn detect_url_with_path() {
    let urls = detect_urls_in_line("See https://example.com/path/to/page?query=1#anchor", 0);
    assert_eq!(urls.len(), 1);
    assert!(urls[0].url.contains("/path/to/page"));
}

#[test]
fn trim_trailing_punctuation() {
    let urls = detect_urls_in_line("Link: https://example.com.", 0);
    assert_eq!(urls.len(), 1);
    assert_eq!(urls[0].url, "https://example.com");
}

#[test]
fn url_at_position_test() {
    let urls = detect_urls_in_line("Visit https://example.com now", 0);
    assert!(url_at_position(&urls, 15, 0).is_some());
    assert!(url_at_position(&urls, 0, 0).is_none());
}

#[test]
fn detect_urls_in_grid_rows() {
    let lines = vec!["no link".to_string(), "go to http://x.org".to_string()];
    let urls = detect_urls_in_grid(2, 80, |r| lines[r as usize].clone());
    assert_eq!(urls.len(), 1);
    assert_eq!(urls[0].row, 1);
    assert_eq!(urls[0].start_col, 6);
}
