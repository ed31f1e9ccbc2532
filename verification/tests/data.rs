use rss_gen::data::{
    check_clock, check_scheme, parse_date, parse_month, read_date, validate_url, RssData, RssDataField, RssItem, RssItemField,
    RssVersion,
};
use rss_gen::error::RssError;
use rss_gen::text::sanitize_input;
use std::str::FromStr;

#[test]
fn test_rss_version() {
    assert_eq!(RssVersion::RSS2_0.as_str(), "2.0");
    assert_eq!(RssVersion::default(), RssVersion::RSS2_0);
    assert_eq!(RssVersion::RSS1_0.to_string(), "1.0");
    assert!(matches!(
        "2.0".parse::<RssVersion>(),
        Ok(RssVersion::RSS2_0)
    ));
    assert!("3.0".parse::<RssVersion>().is_err());
}

#[test]
fn test_rss_data_new() {
    let rss_data = RssData::new(Some(RssVersion::RSS2_0));
    assert_eq!(rss_data.version, RssVersion::RSS2_0);
}

#[test]
fn test_rss_data_setters() {
    let rss_data = RssData::new(None)
        .title("Test Feed")
        .link("https://example.com")
        .description("A test feed")
        .generator("RSS Gen")
        .guid("unique-guid")
        .pub_date("2024-03-21T12:00:00Z")
        .language("en");

    assert_eq!(rss_data.title, "Test Feed");
    assert_eq!(rss_data.link, "https://example.com");
    assert_eq!(rss_data.description, "A test feed");
    assert_eq!(rss_data.generator, "RSS Gen");
    assert_eq!(rss_data.guid, "unique-guid");
    assert_eq!(rss_data.pub_date, "2024-03-21T12:00:00Z");
    assert_eq!(rss_data.language, "en");
}

#[test]
fn test_rss_data_validate() {
    let valid_rss_data = RssData::new(None)
        .title("Valid Feed")
        .link("https://example.com")
        .description("A valid RSS feed");

    assert!(valid_rss_data.validate().is_ok());

    let invalid_rss_data = RssData::new(None)
        .title("Invalid Feed")
        .link("not a valid url")
        .description("An invalid RSS feed");

    let result = invalid_rss_data.validate();
    assert!(result.is_err());
    if let Err(RssError::ValidationErrors(errors)) = result {
        assert!(
            errors.iter().any(|e| e.contains("Invalid link")),
            "Expected an error containing 'Invalid link', but got: {:?}",
            errors
        );
    } else {
        panic!("Expected ValidationErrors");
    }
}

#[test]
fn test_add_item() {
    let mut rss_data = RssData::new(None)
        .title("Test RSS Feed")
        .link("https://example.com")
        .description("A test RSS feed");

    let item = RssItem::new()
        .title("Test Item")
        .link("https://example.com/item")
        .description("A test item")
        .guid("unique-id-1")
        .pub_date("2024-03-21");

    rss_data.add_item(item);

    assert_eq!(rss_data.items.len(), 1);
    assert_eq!(rss_data.items[0].title, "Test Item");
    assert_eq!(rss_data.items[0].link, "https://example.com/item");
    assert_eq!(rss_data.items[0].description, "A test item");
    assert_eq!(rss_data.items[0].guid, "unique-id-1");
    assert_eq!(rss_data.items[0].pub_date, "2024-03-21");
}

#[test]
fn test_remove_item() {
    let mut rss_data = RssData::new(None)
        .title("Test RSS Feed")
        .link("https://example.com")
        .description("A test RSS feed");

    let item1 = RssItem::new()
        .title("Item 1")
        .link("https://example.com/item1")
        .description("First item")
        .guid("guid1");

    let item2 = RssItem::new()
        .title("Item 2")
        .link("https://example.com/item2")
        .description("Second item")
        .guid("guid2");

    rss_data.add_item(item1);
    rss_data.add_item(item2);

    assert_eq!(rss_data.item_count(), 2);

    assert!(rss_data.remove_item("guid1"));
    assert_eq!(rss_data.item_count(), 1);
    assert_eq!(rss_data.items[0].title, "Item 2");

    assert!(!rss_data.remove_item("non-existent-guid"));
    assert_eq!(rss_data.item_count(), 1);
}

#[test]
fn test_clear_items() {
    let mut rss_data = RssData::new(None)
        .title("Test RSS Feed")
        .link("https://example.com")
        .description("A test RSS feed");

    rss_data.add_item(RssItem::new().title("Item 1").guid("guid1"));
    rss_data.add_item(RssItem::new().title("Item 2").guid("guid2"));

    assert_eq!(rss_data.item_count(), 2);

    rss_data.clear_items();

    assert_eq!(rss_data.item_count(), 0);
}

#[test]
fn test_rss_item_validate() {
    let valid_item = RssItem::new()
        .title("Valid Item")
        .link("https://example.com/valid")
        .description("A valid item")
        .guid("valid-guid");

    assert!(valid_item.validate().is_ok());

    let invalid_item = RssItem::new()
        .title("Invalid Item")
        .description("An invalid item");

    let result = invalid_item.validate();
    assert!(result.is_err());

    if let Err(RssError::ValidationErrors(errors)) = result {
        assert_eq!(errors.len(), 2);
        assert!(errors.contains(&"Link is missing".to_string()));
        assert!(errors.contains(&"GUID is missing".to_string()));
    } else {
        panic!("Expected ValidationErrors");
    }
}

#[test]
fn test_validate_url() {
    assert!(validate_url("https://example.com").is_ok());
    assert!(validate_url("not a url").is_err());
}

#[test]
fn test_parse_date() {
    assert!(parse_date("Mon, 01 Jan 2024 00:00:00 GMT").is_ok());
    assert!(parse_date("2024-03-21T12:00:00Z").is_ok());
    assert!(parse_date("invalid date").is_err());
}

#[test]
fn test_sanitize_input() {
    let input = "Test <script>alert('XSS')</script>";
    let sanitized = sanitize_input(input);
    assert_eq!(
        sanitized,
        "Test &lt;script&gt;alert(&#x27;XSS&#x27;)&lt;/script&gt;"
    );
}

#[test]
fn test_rss_data_set_with_enum() {
    let rss_data = RssData::new(None)
        .set(RssDataField::Title, "Test Title")
        .set(RssDataField::Link, "https://example.com")
        .set(RssDataField::Description, "Test Description");

    assert_eq!(rss_data.title, "Test Title");
    assert_eq!(rss_data.link, "https://example.com");
    assert_eq!(rss_data.description, "Test Description");
}

#[test]
fn test_rss_item_set_with_enum() {
    let item = RssItem::new()
        .set(RssItemField::Title, "Test Item")
        .set(RssItemField::Link, "https://example.com/item")
        .set(RssItemField::Guid, "unique-id");

    assert_eq!(item.title, "Test Item");
    assert_eq!(item.link, "https://example.com/item");
    assert_eq!(item.guid, "unique-id");
}

#[test]
fn test_to_hash_map() {
    let rss_data = RssData::new(None)
        .title("Test Title")
        .link("https://example.com/rss")
        .description("A test RSS feed")
        .atom_link("https://example.com/atom")
        .language("en")
        .managing_editor("editor@example.com")
        .webmaster("webmaster@example.com")
        .last_build_date("2024-03-21T12:00:00Z")
        .pub_date("2024-03-21T12:00:00Z")
        .ttl("60")
        .generator("RSS Gen")
        .guid("unique-guid")
        .image_title("Image Title".to_string())
        .docs("https://docs.example.com");

    let map = rss_data.to_hash_map();

    assert_eq!(map.get("title").unwrap(), "Test Title");
    assert_eq!(map.get("link").unwrap(), "https://example.com/rss");
    assert_eq!(
        map.get("atom_link").unwrap(),
        "https://example.com/atom"
    );
    assert_eq!(map.get("language").unwrap(), "en");
    assert_eq!(
        map.get("managing_editor").unwrap(),
        "editor@example.com"
    );
    assert_eq!(
        map.get("webmaster").unwrap(),
        "webmaster@example.com"
    );
    assert_eq!(
        map.get("last_build_date").unwrap(),
        "2024-03-21T12:00:00Z"
    );
    assert_eq!(
        map.get("pub_date").unwrap(),
        "2024-03-21T12:00:00Z"
    );
    assert_eq!(map.get("ttl").unwrap(), "60");
    assert_eq!(map.get("generator").unwrap(), "RSS Gen");
    assert_eq!(map.get("guid").unwrap(), "unique-guid");
    assert_eq!(map.get("image_title").unwrap(), "Image Title");
    assert_eq!(
        map.get("docs").unwrap(),
        "https://docs.example.com"
    );
}

#[test]
fn test_set_image() {
    let mut rss_data = RssData::new(None);
    rss_data.set_image(
        "Test Image Title".to_string(),
        "https://example.com/image.jpg".to_string(),
        "https://example.com".to_string(),
    );
    rss_data.title = "RSS Feed Title".to_string();

    assert_eq!(rss_data.image_title, "Test Image Title");
    assert_eq!(rss_data.image_url, "https://example.com/image.jpg");
    assert_eq!(rss_data.image_link, "https://example.com");
    assert_eq!(rss_data.title, "RSS Feed Title");
}

#[test]
fn test_rss_version_from_str() {
    assert_eq!(
        RssVersion::from_str("0.90").unwrap(),
        RssVersion::RSS0_90
    );
    assert_eq!(
        RssVersion::from_str("0.91").unwrap(),
        RssVersion::RSS0_91
    );
    assert_eq!(
        RssVersion::from_str("0.92").unwrap(),
        RssVersion::RSS0_92
    );
    assert_eq!(
        RssVersion::from_str("1.0").unwrap(),
        RssVersion::RSS1_0
    );
    assert_eq!(
        RssVersion::from_str("2.0").unwrap(),
        RssVersion::RSS2_0
    );
    assert!(RssVersion::from_str("3.0").is_err());
}

#[test]
fn test_rss_version_display() {
    assert_eq!(RssVersion::RSS0_90.to_string(), "0.90");
    assert_eq!(RssVersion::RSS0_91.to_string(), "0.91");
    assert_eq!(RssVersion::RSS0_92.to_string(), "0.92");
    assert_eq!(RssVersion::RSS1_0.to_string(), "1.0");
    assert_eq!(RssVersion::RSS2_0.to_string(), "2.0");
}

#[test]
fn test_rss_data_set_methods() {
    let rss_data = RssData::new(None)
        .atom_link("https://example.com/atom")
        .author("John Doe")
        .category("Technology")
        .copyright("© 2024 Example Inc.")
        .description("A sample RSS feed")
        .docs("https://example.com/rss-docs")
        .generator("RSS Gen v1.0")
        .guid("unique-guid-123")
        .image_title("Feed Image")
        .image_url("https://example.com/image.jpg")
        .image_link("https://example.com")
        .language("en-US")
        .last_build_date("2024-03-21T12:00:00Z")
        .link("https://example.com")
        .managing_editor("editor@example.com")
        .pub_date("2024-03-21T00:00:00Z")
        .title("Sample Feed")
        .ttl("60")
        .webmaster("webmaster@example.com");

    assert_eq!(rss_data.atom_link, "https://example.com/atom");
    assert_eq!(rss_data.author, "John Doe");
    assert_eq!(rss_data.category, "Technology");
    assert_eq!(rss_data.copyright, "© 2024 Example Inc.");
    assert_eq!(rss_data.description, "A sample RSS feed");
    assert_eq!(rss_data.docs, "https://example.com/rss-docs");
    assert_eq!(rss_data.generator, "RSS Gen v1.0");
    assert_eq!(rss_data.guid, "unique-guid-123");
    assert_eq!(rss_data.image_title, "Feed Image");
    assert_eq!(rss_data.image_url, "https://example.com/image.jpg");
    assert_eq!(rss_data.image_link, "https://example.com");
    assert_eq!(rss_data.language, "en-US");
    assert_eq!(rss_data.last_build_date, "2024-03-21T12:00:00Z");
    assert_eq!(rss_data.link, "https://example.com");
    assert_eq!(rss_data.managing_editor, "editor@example.com");
    assert_eq!(rss_data.pub_date, "2024-03-21T00:00:00Z");
    assert_eq!(rss_data.title, "Sample Feed");
    assert_eq!(rss_data.ttl, "60");
    assert_eq!(rss_data.webmaster, "webmaster@example.com");
}

#[test]
fn test_rss_data_empty() {
    let rss_data = RssData::new(None);
    assert!(rss_data.title.is_empty());
    assert!(rss_data.link.is_empty());
    assert!(rss_data.description.is_empty());
    assert_eq!(rss_data.items.len(), 0);
}

#[test]
fn test_rss_item_empty() {
    let item = RssItem::new();
    assert!(item.title.is_empty());
    assert!(item.link.is_empty());
    assert!(item.guid.is_empty());
    assert!(item.description.is_empty());
}

#[test]
fn test_rss_data_to_hash_map() {
    let rss_data = RssData::new(None)
        .title("Test Feed")
        .link("https://example.com")
        .description("A test feed");

    let hash_map = rss_data.to_hash_map();
    assert_eq!(hash_map.get("title").unwrap(), "Test Feed");
    assert_eq!(
        hash_map.get("link").unwrap(),
        "https://example.com"
    );
    assert_eq!(hash_map.get("description").unwrap(), "A test feed");
}

#[test]
fn test_rss_data_version_setter() {
    let rss_data = RssData::new(None).version(RssVersion::RSS1_0);
    assert_eq!(rss_data.version, RssVersion::RSS1_0);
}

#[test]
fn test_remove_item_not_found() {
    let mut rss_data = RssData::new(None);
    let item = RssItem::new().guid("existing-guid");
    rss_data.add_item(item);

    // Try removing an item with a non-existent GUID
    let removed = rss_data.remove_item("non-existent-guid");
    assert!(!removed);
    assert_eq!(rss_data.items.len(), 1);
}

#[test]
fn test_set_item_field_empty_items() {
    let mut rss_data = RssData::new(None);
    rss_data.set_item_field(RssItemField::Title, "Test Item Title");

    assert_eq!(rss_data.items.len(), 1);
    assert_eq!(rss_data.items[0].title, "Test Item Title");
}

#[test]
fn test_set_image_empty() {
    let mut rss_data = RssData::new(None);
    rss_data.set_image("".to_string(), "".to_string(), "".to_string());

    assert!(rss_data.image_title.is_empty());
    assert!(rss_data.image_url.is_empty());
    assert!(rss_data.image_link.is_empty());
}

#[test]
fn test_rss_item_set_empty_field() {
    let item = RssItem::new().set(RssItemField::Title, "");
    assert!(item.title.is_empty());
}

#[test]
fn parse_month_knows_the_twelve_names() {
    let names = [
        "Jan", "Feb", "Mar", "Apr", "May", "Jun", "Jul", "Aug", "Sep", "Oct", "Nov", "Dec",
    ];
    for (i, name) in names.iter().enumerate() {
        assert_eq!(parse_month(name).unwrap(), (i + 1) as u8);
    }
    match parse_month("jan") {
        Err(RssError::DateParseError(text)) => assert_eq!(text, "jan"),
        other => panic!("unexpected: {:?}", other),
    }
}

#[test]
fn validate_url_reports_the_address_or_the_scheme() {
    match validate_url("not a url") {
        Err(RssError::InvalidUrl(text)) => assert_eq!(text, "not a url"),
        other => panic!("unexpected: {:?}", other),
    }
    match validate_url("ftp://example.com") {
        Err(RssError::InvalidUrl(text)) => {
            assert_eq!(text, "URL must use http or https protocol")
        }
        other => panic!("unexpected: {:?}", other),
    }
    assert!(validate_url("HTTP://example.com").is_ok());
    assert!(validate_url("").is_err());
}

#[test]
fn parse_date_reads_the_legacy_notation() {
    // The first of January 2023 was a Sunday: only the legacy notation,
    // which does not look at the weekday, may accept this date.
    assert!(parse_date("Xyz, 01 Jan 2023 00:00:00 GMT").is_ok());
    assert!(parse_date("Xyz,\t01 Jan 2023\u{a0}00:00:00 GMT").is_ok());
    assert!(parse_date("Xyz, 31 Dec -2023 23:59:59 whatever").is_ok());
    assert!(parse_date("Xyz, +1 Jan 2023 +0:007:0 GMT").is_ok());
    match parse_date("Xyz, 01 Foo 2023 00:00:00 GMT") {
        Err(RssError::DateParseError(text)) => assert_eq!(text, "Foo"),
        other => panic!("unexpected: {:?}", other.map(|_| ())),
    }
    for text in [
        "Xyz, 01 Jan 2023 00:00 GMT",
        "Xyz, 01 Jan 2023 00 GMT",
        "Xyz, 01 Jan 2023 00:00:00:00 GMT",
        "Xyz, 00 Jan 2023 00:00:00 GMT",
        "Xyz, 32 Jan 2023 00:00:00 GMT",
        "Xyz, 255 Jan 2023 00:00:00 GMT",
        "Xyz, -1 Jan 2023 00:00:00 GMT",
        "Xyz, 01 Jan 99999999999 00:00:00 GMT",
        "Xyz, 01 Jan 2023 00:00:00",
        "Xyz, 01 Jan 2023 00:00:xx GMT",
        "Xyz, 01 Jan 2023 24:00:00 GMT",
        "Xyz, 01 Jan 2023 00:60:00 GMT",
        "Xyz, 01 Jan 2023 00:00:60 GMT",
        "Xyz, 01 Jan 2023 00:00:99 GMT",
        "Xyz, 01 Jan 2023 -05:-30:00 GMT",
        "Xyz, 01 Jan 2023 -0:00:00 GMT",
        "Xyz, 01 Jan 2023 00:00:00 GMT extra",
    ] {
        match parse_date(text) {
            Err(RssError::DateParseError(carried)) => assert_eq!(carried, text),
            other => panic!("unexpected for {}: {:?}", text, other.map(|_| ())),
        }
    }
}

#[test]
fn a_clock_has_hours_minutes_and_seconds() {
    let clock = |text: &str| check_clock(&text.chars().collect());
    for text in ["00:00:00", "23:59:59", "0:0:0", "+1:02:003"] {
        assert!(clock(text), "{}", text);
    }
    for text in [
        "", "00", "00:00", "00:00:00:00", "24:00:00", "00:60:00", "00:00:60", "-1:00:00",
        "00:-1:00", "a:b:c", "00:00:", ":00:00", "00 :00:00",
    ] {
        assert!(!clock(text), "{}", text);
    }
}

#[test]
fn item_dates_parse_through_the_item() {
    let item = RssItem::new().pub_date("2024-03-21T12:00:00Z");
    assert!(item.pub_date_parsed().is_ok());
    let item = RssItem::new().pub_date("yesterday");
    assert!(matches!(item.pub_date_parsed(), Err(RssError::DateParseError(_))));
}

#[test]
fn setters_escape_the_five_markup_characters() {
    let rss_data = RssData::new(None).title("a & b < c > d \" e ' f");
    assert_eq!(rss_data.title, "a &amp; b &lt; c &gt; d &quot; e &#x27; f");
    let item = RssItem::new().category("x<y").comments("").enclosure("&").source("'");
    assert_eq!(item.category, Some("x&lt;y".to_string()));
    assert_eq!(item.comments, Some(String::new()));
    assert_eq!(item.enclosure, Some("&amp;".to_string()));
    assert_eq!(item.source, Some("&#x27;".to_string()));
}

#[test]
fn set_item_field_changes_the_most_recent_item() {
    let mut rss_data = RssData::new(None);
    rss_data.add_item(RssItem::new().guid("a"));
    rss_data.add_item(RssItem::new().guid("b"));
    rss_data.set_item_field(RssItemField::Title, "T<");
    assert_eq!(rss_data.items.len(), 2);
    assert_eq!(rss_data.items[0].title, "");
    assert_eq!(rss_data.items[1].title, "T&lt;");
    assert_eq!(rss_data.items[1].guid, "b");
}

#[test]
fn remove_item_removes_every_match() {
    let mut rss_data = RssData::new(None);
    rss_data.add_item(RssItem::new().guid("a").title("1"));
    rss_data.add_item(RssItem::new().guid("b").title("2"));
    rss_data.add_item(RssItem::new().guid("a").title("3"));
    rss_data.add_item(RssItem::new().guid("c").title("4"));
    assert!(rss_data.remove_item("a"));
    assert_eq!(rss_data.items.len(), 2);
    assert_eq!(rss_data.items[0].title, "2");
    assert_eq!(rss_data.items[1].title, "4");
}

#[test]
fn the_map_has_the_nineteen_scalar_fields() {
    let rss_data = RssData::new(None).copyright("c").author("a");
    let map = rss_data.to_hash_map();
    assert_eq!(map.len(), 19);
    assert_eq!(map.get("copyright").unwrap(), "c");
    assert_eq!(map.get("author").unwrap(), "a");
    assert_eq!(map.get("image_link").unwrap(), "");
    assert!(map.get("items").is_none());
    assert!(map.get("version").is_none());
}

#[test]
fn basic_check_reports_everything_in_order() {
    let rss_data = RssData::new(None).pub_date("soon");
    match rss_data.validate() {
        Err(RssError::ValidationErrors(errors)) => assert_eq!(
            errors,
            vec![
                "Title is missing".to_string(),
                "Link is missing".to_string(),
                "Description is missing".to_string(),
                "Invalid publication date: Date parse error: soon".to_string(),
            ]
        ),
        other => panic!("unexpected: {:?}", other),
    }
    let rss_data = RssData::new(None).title("t").description("d").link("ftp://x");
    match rss_data.validate() {
        Err(RssError::ValidationErrors(errors)) => assert_eq!(
            errors,
            vec![
                "Invalid link: Invalid URL provided: URL must use http or https protocol"
                    .to_string()
            ]
        ),
        other => panic!("unexpected: {:?}", other),
    }
}

#[test]
fn an_address_is_judged_by_its_scheme() {
    assert!(check_scheme("x", Some("http".to_string())).is_ok());
    assert!(check_scheme("x", Some("https".to_string())).is_ok());
    match check_scheme("the address", None) {
        Err(RssError::InvalidUrl(text)) => assert_eq!(text, "the address"),
        other => panic!("unexpected: {:?}", other),
    }
    for scheme in ["ftp", "file", "HTTP", "httpss", ""] {
        match check_scheme("x", Some(scheme.to_string())) {
            Err(RssError::InvalidUrl(text)) => {
                assert_eq!(text, "URL must use http or https protocol")
            }
            other => panic!("unexpected: {:?}", other),
        }
    }
}

#[test]
fn a_date_in_a_standard_notation_needs_no_second_look() {
    assert!(read_date("anything at all", true).is_ok());
    assert!(read_date("Xyz, 01 Jan 2023 00:00:00 GMT", false).is_ok());
    match read_date("2024-03-21T12:00:00Z", false) {
        Err(RssError::DateParseError(text)) => assert_eq!(text, "2024-03-21T12:00:00Z"),
        other => panic!("unexpected: {:?}", other.map(|_| ())),
    }
}

#[test]
fn a_date_in_the_notation_of_rfc_2822_needs_no_weekday() {
    assert!(parse_date("01 Jan 2024 00:00:00 GMT").is_ok());
    assert!(parse_date("Mon, 01 Jan 2024 00:00:00 +0100").is_ok());
    assert!(matches!(read_date("01 Jan 2024 00:00:00 GMT", false), Err(RssError::DateParseError(_))));
}

#[test]
fn a_clone_of_a_feed_holds_what_the_feed_holds() {
    let mut rss_data = RssData::new(Some(RssVersion::RSS1_0))
        .title("T")
        .link("https://example.com")
        .description("D")
        .copyright("C")
        .image_url("https://example.com/i.png")
        .ttl("60");
    rss_data.add_item(RssItem::new().title("one").guid("g1").category("c"));
    rss_data.add_item(RssItem::new().title("two").guid("g2").enclosure("e"));
    let copy = rss_data.clone();
    assert_eq!(copy, rss_data);
    assert_eq!(copy.items.len(), 2);
    assert_eq!(copy.items[1].enclosure, Some("e".to_string()));
    assert_eq!(copy.version, RssVersion::RSS1_0);
    rss_data.clear_items();
    assert_eq!(copy.items.len(), 2);
    assert_eq!(RssData::new(None).clone(), RssData::default());
}

#[test]
fn a_parsed_date_is_marked_as_utc() {
    for text in [
        "Mon, 01 Jan 2024 00:00:00 +0100",
        "2024-03-21T12:00:00+05:30",
        "Xyz, 01 Jan 2023 00:00:00 EST",
    ] {
        let date = parse_date(text).unwrap();
        assert_eq!(date.offset, time::UtcOffset::UTC, "{}", text);
    }
    let item = RssItem::new().pub_date("Mon, 01 Jan 2024 00:00:00 GMT");
    assert_eq!(item.pub_date_parsed().unwrap().offset, time::UtcOffset::UTC);
    assert_eq!(read_date("anything", true).unwrap().offset, time::UtcOffset::UTC);
}
