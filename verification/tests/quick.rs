use rss_gen::error::RssError;
use rss_gen::{
    quick_rss, MAX_DESCRIPTION_LENGTH, MAX_FEED_SIZE, MAX_GENERAL_LENGTH, MAX_LINK_LENGTH,
    MAX_TITLE_LENGTH, VERSION,
};

#[test]
fn test_quick_rss() {
    let result = quick_rss(
        "Test Feed",
        "https://example.com",
        "A test RSS feed",
    );
    assert!(result.is_ok());
    let feed = result.unwrap();
    assert!(feed.contains("<title>Test Feed</title>"));
    assert!(feed.contains("<link>https://example.com</link>"));
    assert!(
        feed.contains("<description>A test RSS feed</description>")
    );
    assert!(feed.contains("<item>"));
    assert!(feed.contains("<title>Example Item</title>"));
    assert!(feed
        .contains("<link>https://example.com/example-item</link>"));
    assert!(feed.contains("<description>This is an example item in the RSS feed</description>"));
}

#[test]
fn test_quick_rss_invalid_input() {
    let result =
        quick_rss("", "https://example.com", "Description");
    assert!(result.is_err());
    assert!(matches!(result, Err(RssError::InvalidInput(_))));

    let result = quick_rss("Title", "not-a-url", "Description");
    assert!(result.is_err());
    assert!(matches!(result, Err(RssError::InvalidInput(_))));
}

#[test]
fn test_version_constant() {
    assert!(VERSION.starts_with(char::is_numeric));
    assert!(VERSION.split('.').count() >= 2);
}

#[test]
fn test_quick_rss_max_title_length() {
    let long_title = "a".repeat(MAX_TITLE_LENGTH + 1);
    let result = quick_rss(
        &long_title,
        "https://example.com",
        "Description",
    );
    assert!(result.is_err());
    assert!(matches!(result, Err(RssError::InvalidInput(_))));

    let max_title = "a".repeat(MAX_TITLE_LENGTH);
    let result =
        quick_rss(&max_title, "https://example.com", "Description");
    assert!(result.is_ok());
}

#[test]
fn test_quick_rss_max_link_length() {
    let long_link = format!(
        "https://example.com/{}",
        "a".repeat(MAX_LINK_LENGTH - 19)
    );
    let result = quick_rss("Title", &long_link, "Description");
    assert!(result.is_err());
    assert!(matches!(result, Err(RssError::InvalidInput(_))));

    let max_link = format!(
        "https://example.com/{}",
        "a".repeat(MAX_LINK_LENGTH - 20)
    );
    let result = quick_rss("Title", &max_link, "Description");
    assert!(result.is_ok());
}

#[test]
fn test_quick_rss_max_description_length() {
    let long_description = "a".repeat(MAX_DESCRIPTION_LENGTH + 1);
    let result = quick_rss(
        "Title",
        "https://example.com",
        &long_description,
    );
    assert!(result.is_err());
    assert!(matches!(result, Err(RssError::InvalidInput(_))));

    let max_description = "a".repeat(MAX_DESCRIPTION_LENGTH);
    let result =
        quick_rss("Title", "https://example.com", &max_description);
    assert!(result.is_ok());
}

#[test]
fn test_quick_rss_https() {
    let result = quick_rss(
        "Test Feed",
        "https://example.com",
        "A test RSS feed",
    );
    assert!(result.is_ok());
}

#[test]
fn test_quick_rss_http() {
    let result = quick_rss(
        "Test Feed",
        "http://example.com",
        "A test RSS feed",
    );
    assert!(result.is_ok());
}

#[test]
fn quick_rss_says_why_it_refuses() {
    let message = |r: Result<String, RssError>| match r {
        Err(RssError::InvalidInput(m)) => m,
        other => panic!("unexpected: {:?}", other),
    };
    assert_eq!(
        message(quick_rss("t", "", "d")),
        "Title, link, and description must not be empty"
    );
    assert_eq!(
        message(quick_rss("t", "https://example.com", "")),
        "Title, link, and description must not be empty"
    );
    // Lengths are counted in bytes: 129 two-byte characters are too long.
    assert_eq!(
        message(quick_rss(&"é".repeat(129), "https://example.com", "d")),
        "Input exceeds maximum allowed length"
    );
    assert!(quick_rss(&"é".repeat(128), "https://example.com", "d").is_ok());
    assert_eq!(
        message(quick_rss("t", "ftp://example.com", "d")),
        "Link must start with http:// or https://"
    );
    assert_eq!(
        message(quick_rss("t", "HTTP://example.com", "d")),
        "Link must start with http:// or https://"
    );
}

#[test]
fn quick_rss_writes_the_example_item() {
    let xml = quick_rss("T", "http://example.com", "D").unwrap();
    assert_eq!(
        xml,
        "<?xml version=\"1.0\" encoding=\"utf-8\"?><rss version=\"2.0\" xmlns:atom=\"http://www.w3.org/2005/Atom\"><channel><title>T</title><link>http://example.com</link><description>D</description><item><title>Example Item</title><link>http://example.com/example-item</link><description>This is an example item in the RSS feed</description><guid>http://example.com/example-item</guid></item></channel></rss>"
    );
}

#[test]
fn the_limits_have_their_values() {
    assert_eq!(MAX_TITLE_LENGTH, 256);
    assert_eq!(MAX_LINK_LENGTH, 2048);
    assert_eq!(MAX_DESCRIPTION_LENGTH, 100_000);
    assert_eq!(MAX_GENERAL_LENGTH, 1024);
    assert_eq!(MAX_FEED_SIZE, 1_048_576);
}
