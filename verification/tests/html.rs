use bulletty_feed::html::{is_html, ParseError, Parser};

#[test]
fn extract_absolute_url() {
    let html = r#"<!DOCTYPE html>
<html>
<head>
<title>My Blog</title>
<link rel="alternate" type="application/rss+xml" href="https://example.com/feed.rss" />
</head>
<body>
<h1>Welcome</h1>
</body>
</html>"#;

    let mut parser = Parser::new(html, "https://example.com/").unwrap();
    assert_eq!(parser.next(), Some("https://example.com/feed.rss".into()));
    assert_eq!(parser.next(), None);
}

#[test]
fn extract_relative_url() {
    let html = r#"<!DOCTYPE html>
<html>
<head>
<title>My Blog</title>
<link rel="alternate" type="application/atom+xml" href="/feed.atom" />
</head>
<body>
<h1>Welcome</h1>
</body>
</html>"#;

    let mut parser = Parser::new(html, "https://example.com/blog/").unwrap();
    assert_eq!(parser.next(), Some("https://example.com/feed.atom".into()));
    assert_eq!(parser.next(), None);
}

#[test]
fn extract_mixed_feed_urls() {
    let html = r#"<!DOCTYPE html>
<html>
<head>
<title>Multi-feed Site</title>
<link rel="alternate" type="application/rss+xml" href="https://example.com/rss" />
<link rel="alternate" type="application/atom+xml" href="https://example.com/atom" />
</head>
<body>
<h1>Welcome</h1>
</body>
</html>"#;

    let mut parser = Parser::new(html, "https://example.com/").unwrap();
    assert_eq!(parser.next(), Some("https://example.com/rss".into()));
    assert_eq!(parser.next(), Some("https://example.com/atom".into()));
    assert_eq!(parser.next(), None);
}

#[test]
fn extract_no_urls() {
    let html = r#"<!DOCTYPE html>
<html>
<head>
<title>No Feed Site</title>
</head>
<body>
<h1>Welcome</h1>
</body>
</html>"#;

    let mut parser = Parser::new(html, "https://example.com/").unwrap();
    assert_eq!(parser.next(), None);
}

#[test]
fn html_doctype_is_html() {
    assert!(is_html("<!DOCTYPE html><html></html>"));
}

#[test]
fn html_doctype_with_leading_whitespace_is_html() {
    assert!(is_html("  \n  <!DOCTYPE html><html></html>"));
}

#[test]
fn html_tag_is_html() {
    assert!(is_html("<html><head></head></html>"));
}

#[test]
fn rss_is_not_html() {
    assert!(!is_html("<?xml version=\"1.0\"?><rss></rss>"));
}

#[test]
fn atom_is_not_html() {
    assert!(!is_html("<?xml version=\"1.0\"?><feed></feed>"));
}

#[test]
fn uppercase_tag_is_html_but_lowercase_doctype_is_not() {
    assert!(is_html("<HTML><body></body></HTML>"));
    assert!(!is_html("<!doctype html><p>x</p>"));
    assert!(!is_html("<Html>"));
}

#[test]
fn unicode_whitespace_is_skipped_before_the_tag() {
    assert!(is_html("\u{a0}\u{2003}\t\r\n<html>"));
    assert!(is_html("\u{3000}<!DOCTYPE html>"));
    assert!(!is_html("\u{200b}<html>"));
}

#[test]
fn short_and_empty_inputs_are_not_html() {
    assert!(!is_html(""));
    assert!(!is_html("   "));
    assert!(!is_html("<htm"));
    assert!(!is_html("<!DOCTYPE htm"));
    assert!(is_html("<html"));
    assert!(is_html("<!DOCTYPE html"));
}

#[test]
fn links_without_a_feed_type_or_target_are_skipped() {
    let html = r#"<html><head>
<link rel="alternate" type="text/html" href="/page" />
<link rel="alternate" href="/untyped" />
<link rel="alternate" type="application/rss+xml" />
<link rel="stylesheet" type="application/rss+xml" href="/style" />
<link rel="alternate" type="Application/RSS+XML" href="feed.xml" />
</head></html>"#;
    let mut parser = Parser::new(html, "https://example.com/blog/index.html").unwrap();
    assert_eq!(
        parser.next(),
        Some("https://example.com/blog/feed.xml".to_string())
    );
    assert_eq!(parser.next(), None);
    assert_eq!(parser.next(), None);
}

#[test]
fn feed_type_is_matched_on_the_lowercased_value() {
    assert!(Parser::is_feed("application/ATOM+xml"));
    assert!(Parser::is_feed("rss"));
    assert!(!Parser::is_feed("text/html"));
    assert!(!Parser::is_feed(""));
}

#[test]
fn a_base_that_is_no_url_yields_nothing() {
    let html = r#"<link rel="alternate" type="application/rss+xml" href="https://example.com/rss" />"#;
    let mut parser = Parser::new(html, "not a url").unwrap();
    assert_eq!(parser.next(), None);
}

#[test]
fn too_large_error_message() {
    assert_eq!(
        ParseError::TooLarge.message(),
        "The input string length was too large to fit in a `u32`"
    );
}
