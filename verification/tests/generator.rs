use quick_xml::events::Event;
use quick_xml::Reader;
use rss_gen::data::{RssData, RssItem, RssVersion};
use rss_gen::error::RssError;
use rss_gen::generator::{generate_rss, sanitize_content, write_element};
use rss_gen::xml::XmlWriter;

fn assert_xml_element(xml: &str, element: &str, expected: &str) {
    let mut reader = Reader::from_str(xml);
    let mut found = false;

    loop {
        match reader.read_event() {
            Ok(Event::Start(ref e))
                if e.name().as_ref() == element.as_bytes() =>
            {
                match reader.read_event() {
                    Ok(Event::Text(e)) => {
                        let unescaped = e.unescape().unwrap();
                        assert_eq!(unescaped, expected);
                        found = true;
                        break;
                    }
                    _ => continue,
                }
            }
            Ok(Event::Eof) => break,
            Err(e) => panic!(
                "Error at position {}: {:?}",
                reader.buffer_position(),
                e
            ),
            _ => (),
        }
    }
    assert!(
        found,
        "Element '{}' not found or doesn't match expected content",
        element
    );
}

#[test]
fn test_generate_rss_minimal() {
    let rss_data = RssData::new(None)
        .title("Minimal Feed")
        .link("https://example.com")
        .description("A minimal RSS feed");

    let result = generate_rss(&rss_data);
    assert!(result.is_ok());

    let rss_feed = result.unwrap();
    assert!(rss_feed.contains(r#"<rss version="2.0" xmlns:atom="http://www.w3.org/2005/Atom">"#));
    assert_xml_element(&rss_feed, "title", "Minimal Feed");
    assert_xml_element(&rss_feed, "link", "https://example.com");
    assert_xml_element(
        &rss_feed,
        "description",
        "A minimal RSS feed",
    );
}

#[test]
fn test_generate_rss_full() {
    let mut rss_data = RssData::new(None)
        .title("Full Feed")
        .link("https://example.com")
        .description("A full RSS feed")
        .language("en-US")
        .pub_date("Mon, 01 Jan 2023 00:00:00 GMT")
        .last_build_date("Mon, 01 Jan 2023 00:00:00 GMT")
        .docs("https://example.com/rss/docs")
        .generator("rss-gen")
        .managing_editor("editor@example.com")
        .webmaster("webmaster@example.com")
        .category("Technology")
        .ttl("60")
        .image_url("https://example.com/image.png")
        .atom_link("https://example.com/feed.xml");

    rss_data.add_item(
        RssItem::new()
            .title("Test Item")
            .link("https://example.com/item1")
            .description("A test item")
            .guid("https://example.com/item1")
            .pub_date("Mon, 01 Jan 2023 00:00:00 GMT")
            .author("John Doe"),
    );

    let result = generate_rss(&rss_data);

    if let Err(ref e) = result {
        println!("Error generating RSS: {:?}", e);
    }

    assert!(result.is_ok());

    let rss_feed = result.unwrap();
    assert!(rss_feed.contains(r#"<rss version="2.0" xmlns:atom="http://www.w3.org/2005/Atom">"#));
    assert_xml_element(&rss_feed, "title", "Full Feed");
    assert_xml_element(&rss_feed, "link", "https://example.com");
    assert_xml_element(&rss_feed, "description", "A full RSS feed");
    assert_xml_element(&rss_feed, "language", "en-US");
    assert_xml_element(
        &rss_feed,
        "pubDate",
        "Mon, 01 Jan 2023 00:00:00 GMT",
    );
    assert!(rss_feed.contains("<item>"));
    assert_xml_element(&rss_feed, "author", "John Doe");
    assert_xml_element(
        &rss_feed,
        "guid",
        "https://example.com/item1",
    );
}

#[test]
fn test_generate_rss_empty_fields() {
    let rss_data = RssData::new(None)
        .title("Empty Fields Feed")
        .link("https://example.com")
        .description("An RSS feed with some empty fields")
        .language("")
        .pub_date("")
        .last_build_date("");

    let result = generate_rss(&rss_data);
    assert!(result.is_ok());

    let rss_feed = result.unwrap();
    assert_xml_element(&rss_feed, "title", "Empty Fields Feed");
    assert_xml_element(&rss_feed, "link", "https://example.com");
    assert_xml_element(
        &rss_feed,
        "description",
        "An RSS feed with some empty fields",
    );
    assert!(!rss_feed.contains("<language>"));
    assert!(!rss_feed.contains("<pubDate>"));
    assert!(!rss_feed.contains("<lastBuildDate>"));
}

#[test]
fn test_generate_rss_special_characters() {
    let rss_data = RssData::new(None)
        .title("Special & Characters")
        .link("https://example.com/special?param=value")
        .description("Feed with <special> & \"characters\"");

    let result = generate_rss(&rss_data);
    assert!(result.is_ok());

    let rss_feed = result.unwrap();
    assert_xml_element(
        &rss_feed,
        "title",
        "Special &amp; Characters",
    );
    assert_xml_element(
        &rss_feed,
        "link",
        "https://example.com/special?param=value",
    );
    assert_xml_element(
        &rss_feed,
        "description",
        "Feed with &lt;special&gt; &amp; &quot;characters&quot;",
    );
}

#[test]
fn test_generate_rss_multiple_items() {
    let mut rss_data = RssData::new(None)
        .title("Multiple Items Feed")
        .link("https://example.com")
        .description("An RSS feed with multiple items");

    for i in 1..=3 {
        rss_data.add_item(
            RssItem::new()
                .title(format!("Item {}", i))
                .link(format!("https://example.com/item{}", i))
                .description(format!("Description for item {}", i))
                .guid(format!("https://example.com/item{}", i))
                .pub_date(format!(
                    "Mon, 0{} Jan 2023 00:00:00 GMT",
                    i
                )),
        );
    }

    let result = generate_rss(&rss_data);
    assert!(result.is_ok());

    let rss_feed = result.unwrap();
    assert_xml_element(&rss_feed, "title", "Multiple Items Feed");

    for i in 1..=3 {
        assert!(rss_feed
            .contains(&format!("<title>Item {}</title>", i)));
        assert!(rss_feed.contains(&format!(
            "<link>https://example.com/item{}</link>",
            i
        )));
        assert!(rss_feed.contains(&format!(
            "<description>Description for item {}</description>",
            i
        )));
        assert!(rss_feed.contains(&format!(
            "<guid>https://example.com/item{}</guid>",
            i
        )));
        assert!(rss_feed.contains(&format!(
            "<pubDate>Mon, 0{} Jan 2023 00:00:00 GMT</pubDate>",
            i
        )));
    }
}

#[test]
fn test_generate_rss_invalid_xml_characters() {
    let rss_data = RssData::new(None)
        .title(sanitize_content("Invalid XML \u{0000} Characters"))
        .link("https://example.com")
        .description(sanitize_content(
            "Description with invalid \u{0000} characters",
        ));

    let result = generate_rss(&rss_data);
    assert!(result.is_ok());

    let rss_feed = result.unwrap();
    assert!(!rss_feed.contains('\u{0000}')); // Ensure \u{0000} is not present in the feed
}

#[test]
fn test_generate_rss_long_content() {
    let long_description = "a".repeat(10000);
    let rss_data = RssData::new(None)
        .title("Long Content Feed")
        .link("https://example.com")
        .description(&long_description);

    let result = generate_rss(&rss_data);
    assert!(result.is_ok());

    let rss_feed = result.unwrap();
    assert_xml_element(&rss_feed, "title", "Long Content Feed");
    assert_xml_element(&rss_feed, "description", &long_description);
}

#[test]
fn test_sanitize_content() {
    let input =
        "Text with \u{0000}null\u{0001} and \u{0008}backspace";
    let sanitized = sanitize_content(input);
    assert_eq!(sanitized, "Text with null and backspace");

    let input_with_newlines = "Text with \nnewlines\r\nand\ttabs";
    let sanitized_newlines = sanitize_content(input_with_newlines);
    assert_eq!(sanitized_newlines, input_with_newlines);
}

#[test]
fn test_generate_rss_with_author() {
    let mut rss_data = RssData::new(None)
        .title("Feed with Author")
        .link("https://example.com")
        .description("An RSS feed with author information");

    rss_data.add_item(
        RssItem::new()
            .title("Authored Item")
            .link("https://example.com/item")
            .description("An item with an author")
            .author("John Doe"),
    );

    let result = generate_rss(&rss_data);
    assert!(result.is_ok());

    let rss_feed = result.unwrap();
    assert!(rss_feed.contains("<author>John Doe</author>"));
}

#[test]
fn test_generate_rss_different_versions() {
    let versions = vec![
        RssVersion::RSS0_90,
        RssVersion::RSS0_91,
        RssVersion::RSS0_92,
        RssVersion::RSS1_0,
        RssVersion::RSS2_0,
    ];

    for version in versions {
        let rss_data = RssData::new(Some(version))
            .title(format!("RSS {} Feed", version.as_str()))
            .link("https://example.com")
            .description(format!(
                "RSS {} feed description",
                version.as_str()
            ));

        let result = generate_rss(&rss_data);
        assert!(result.is_ok());

        let rss_feed = result.unwrap();
        match version {
            RssVersion::RSS0_90 => assert!(rss_feed.contains(r#"<rss version="0.90">"#)),
            RssVersion::RSS0_91 => assert!(rss_feed.contains(r#"<rss version="0.91">"#)),
            RssVersion::RSS0_92 => assert!(rss_feed.contains(r#"<rss version="0.92">"#)),
            RssVersion::RSS1_0 => assert!(rss_feed.contains(r#"<rdf:RDF xmlns:rdf="http://www.w3.org/1999/02/22-rdf-syntax-ns#" xmlns="http://purl.org/rss/1.0/">"#)),
            RssVersion::RSS2_0 => assert!(rss_feed.contains(r#"<rss version="2.0" xmlns:atom="http://www.w3.org/2005/Atom">"#)),
        }
        assert_xml_element(
            &rss_feed,
            "title",
            &format!("RSS {} Feed", version.as_str()),
        );
        assert_xml_element(
            &rss_feed,
            "link",
            "https://example.com",
        );
        assert_xml_element(
            &rss_feed,
            "description",
            &format!("RSS {} feed description", version.as_str()),
        );
    }
}

#[test]
fn the_document_of_a_small_feed_is_exact() {
    let mut rss_data = RssData::new(Some(RssVersion::RSS0_91))
        .title("T & Co")
        .link("https://example.com")
        .description("D")
        .atom_link("https://example.com/feed.xml")
        .image_url("https://example.com/i.png");
    rss_data.add_item(RssItem::new().title("I").author("A"));
    rss_data.add_item(RssItem::new());
    assert_eq!(
        generate_rss(&rss_data).unwrap(),
        concat_all(&[
            "<?xml version=\"1.0\" encoding=\"utf-8\"?>",
            "<rss version=\"0.91\">",
            "<channel>",
            "<title>T &amp;amp; Co</title>",
            "<link>https://example.com</link>",
            "<description>D</description>",
            "<item><title>I</title><author>A</author></item>",
            "<item></item>",
            "</channel>",
            "</rss>",
        ])
    );
}

fn concat_all(parts: &[&str]) -> String {
    parts.iter().map(|p| p.to_string()).collect::<Vec<String>>().join("")
}

#[test]
fn the_document_of_a_full_feed_is_exact() {
    let mut rss_data = RssData::new(None)
        .title("T")
        .link("https://example.com/?a=1&b=2")
        .description("D")
        .language("en")
        .pub_date("Mon, 01 Jan 2024 00:00:00 GMT")
        .last_build_date("L")
        .docs("O")
        .generator("G")
        .managing_editor("M")
        .webmaster("W")
        .category("C")
        .ttl("60")
        .copyright("not written")
        .author("not written")
        .guid("not written")
        .image_title("not written")
        .image_link("not written")
        .image_url("https://example.com/i.png")
        .atom_link("https://example.com/feed.xml?x='y'");
    rss_data.add_item(
        RssItem::new()
            .title("I")
            .link("https://example.com/1")
            .description("<b>")
            .guid("g")
            .pub_date("p")
            .author("a")
            .category("not written")
            .comments("not written")
            .enclosure("not written")
            .source("not written"),
    );
    assert_eq!(
        generate_rss(&rss_data).unwrap(),
        concat_all(&[
            "<?xml version=\"1.0\" encoding=\"utf-8\"?>",
            "<rss version=\"2.0\" xmlns:atom=\"http://www.w3.org/2005/Atom\">",
            "<channel>",
            "<title>T</title>",
            "<link>https://example.com/?a=1&amp;amp;b=2</link>",
            "<description>D</description>",
            "<language>en</language>",
            "<pubDate>Mon, 01 Jan 2024 00:00:00 GMT</pubDate>",
            "<lastBuildDate>L</lastBuildDate>",
            "<docs>O</docs>",
            "<generator>G</generator>",
            "<managingEditor>M</managingEditor>",
            "<webMaster>W</webMaster>",
            "<category>C</category>",
            "<ttl>60</ttl>",
            "<image><url>https://example.com/i.png</url><title>T</title>",
            "<link>https://example.com/?a=1&amp;amp;b=2</link></image>",
            "<atom:link href=\"https://example.com/feed.xml?x=&amp;#x27;y&amp;#x27;\" rel=\"self\" type=\"application/rss+xml\"/>",
            "<item><title>I</title><link>https://example.com/1</link>",
            "<description>&amp;lt;b&amp;gt;</description><guid>g</guid>",
            "<pubDate>p</pubDate><author>a</author></item>",
            "</channel>",
            "</rss>",
        ])
    );
}

#[test]
fn each_dialect_has_its_root_element() {
    let heads = [
        (RssVersion::RSS0_90, "<rss version=\"0.90\"><channel>", "</channel></rss>"),
        (RssVersion::RSS0_91, "<rss version=\"0.91\"><channel>", "</channel></rss>"),
        (RssVersion::RSS0_92, "<rss version=\"0.92\"><channel>", "</channel></rss>"),
        (
            RssVersion::RSS1_0,
            "<rdf:RDF xmlns:rdf=\"http://www.w3.org/1999/02/22-rdf-syntax-ns#\" xmlns=\"http://purl.org/rss/1.0/\"><channel>",
            "</channel></rdf:RDF>",
        ),
        (
            RssVersion::RSS2_0,
            "<rss version=\"2.0\" xmlns:atom=\"http://www.w3.org/2005/Atom\"><channel>",
            "</channel></rss>",
        ),
    ];
    for (version, head, tail) in heads {
        let rss_data = RssData::new(Some(version))
            .title("T")
            .link("http://example.com")
            .description("D")
            .image_url("http://example.com/i.png")
            .atom_link("http://example.com/feed");
        let xml = generate_rss(&rss_data).unwrap();
        let declaration = "<?xml version=\"1.0\" encoding=\"utf-8\"?>";
        assert!(xml.starts_with(&format!("{}{}", declaration, head)), "{}", xml);
        assert!(xml.ends_with(tail), "{}", xml);
        let extended = matches!(version, RssVersion::RSS2_0);
        assert_eq!(xml.contains("<image>"), extended);
        assert_eq!(xml.contains("<atom:link "), extended);
    }
}

#[test]
fn empty_fields_are_never_written() {
    let mut rss_data = RssData::new(None)
        .title("T")
        .link("http://example.com")
        .description("D");
    rss_data.add_item(RssItem::new().guid("only a guid"));
    let xml = generate_rss(&rss_data).unwrap();
    for name in [
        "language", "pubDate", "lastBuildDate", "docs", "generator", "managingEditor",
        "webMaster", "category", "ttl", "image", "atom:link", "author",
    ] {
        assert!(!xml.contains(&format!("<{}", name)), "{} in {}", name, xml);
    }
    assert!(xml.contains("<item><guid>only a guid</guid></item>"));
    assert!(!xml.contains("></title>"));
    assert!(!xml.contains("></link>"));
}

#[test]
fn a_feed_that_fails_the_basic_check_is_not_generated() {
    let rss_data = RssData::new(None).title("T");
    match generate_rss(&rss_data) {
        Err(RssError::ValidationErrors(errors)) => assert_eq!(
            errors,
            vec!["Link is missing".to_string(), "Description is missing".to_string()]
        ),
        other => panic!("unexpected: {:?}", other),
    }
}

#[test]
fn sanitizing_twice_changes_nothing_without_markup() {
    for text in ["", "plain text", "line\nbreak\ttab\r", "null\u{0}and\u{7f}del\u{85}", "é ü 漢字"] {
        let once = sanitize_content(text);
        assert_eq!(sanitize_content(&once), once);
    }
    assert_eq!(sanitize_content("a & b"), "a &amp; b");
    assert_eq!(sanitize_content("a &amp; b"), "a &amp;amp; b");
    assert_eq!(sanitize_content("<>\"'"), "&lt;&gt;&quot;&#x27;");
}

#[test]
fn an_element_is_written_with_escaped_text() {
    let mut writer = XmlWriter::new();
    write_element(&mut writer, "name", "a < b & 'c' \"d\" > e").unwrap();
    write_element(&mut writer, "empty", "").unwrap();
    let bytes = writer.into_bytes();
    assert_eq!(
        String::from_utf8(bytes).unwrap(),
        "<name>a &lt; b &amp; &apos;c&apos; &quot;d&quot; &gt; e</name><empty></empty>"
    );
}

#[test]
fn every_kind_of_markup_is_written_at_the_end() {
    let mut writer = XmlWriter::new();
    rss_gen::xml::write_declaration(&mut writer, "1.1", "latin-1").unwrap();
    let attributes = vec![
        ("a".to_string(), "1 < 2".to_string()),
        ("b".to_string(), "\"'&>".to_string()),
    ];
    rss_gen::xml::write_start(&mut writer, "s", &attributes).unwrap();
    rss_gen::xml::write_text(&mut writer, "t & u").unwrap();
    rss_gen::xml::write_empty(&mut writer, "e", &attributes[..1]).unwrap();
    rss_gen::xml::write_empty(&mut writer, "f", &[]).unwrap();
    rss_gen::xml::write_start(&mut writer, "g", &[]).unwrap();
    rss_gen::xml::write_end(&mut writer, "g").unwrap();
    rss_gen::xml::write_end(&mut writer, "s").unwrap();
    assert_eq!(
        String::from_utf8(writer.into_bytes()).unwrap(),
        "<?xml version=\"1.1\" encoding=\"latin-1\"?><s a=\"1 &lt; 2\" b=\"&quot;&apos;&amp;&gt;\">t &amp; u<e a=\"1 &lt; 2\"/><f/><g></g></s>"
    );
    assert!(XmlWriter::new().into_bytes().is_empty());
}

#[test]
fn what_is_left_out_leaves_no_tag_in_the_text() {
    for version in [
        RssVersion::RSS0_90,
        RssVersion::RSS0_91,
        RssVersion::RSS0_92,
        RssVersion::RSS1_0,
    ] {
        let mut rss_data = RssData::new(Some(version))
            .title("T <image> <atom:link <language>")
            .link("http://example.com")
            .description("<guid> <author/> <ttl>")
            .image_url("http://example.com/i.png")
            .atom_link("http://example.com/feed");
        rss_data.add_item(RssItem::new().title("<pubDate>"));
        let xml = generate_rss(&rss_data).unwrap();
        for tag in [
            "image", "atom:link", "language", "pubDate", "lastBuildDate", "docs", "generator",
            "managingEditor", "webMaster", "category", "ttl", "guid", "author",
        ] {
            assert!(!xml.contains(&format!("<{}", tag)), "{} in {}", tag, xml);
        }
    }
}

#[test]
fn guid_and_author_tags_stand_once_for_each_item_that_has_one() {
    let mut rss_data = RssData::new(Some(RssVersion::RSS2_0))
        .title("T <guid> <author>")
        .link("http://example.com")
        .description("<guid></guid><author/>")
        .author("feed author")
        .guid("feed guid");
    rss_data.add_item(RssItem::new().title("one").guid("g1").author("a1"));
    rss_data.add_item(RssItem::new().title("<guid>").description("<author>"));
    rss_data.add_item(RssItem::new().title("three").guid("<guid>"));
    rss_data.add_item(RssItem::new().link("http://example.com/4").author("a4").guid(""));
    rss_data.add_item(RssItem::new().title("five").guid("g5").author("a5"));
    let xml = generate_rss(&rss_data).unwrap();
    assert_eq!(xml.matches("<guid>").count(), 3);
    assert_eq!(xml.matches("</guid>").count(), 3);
    assert_eq!(xml.matches("<author>").count(), 3);
    assert_eq!(xml.matches("</author>").count(), 3);
    assert_eq!(xml.matches("<guid").count(), 3);
    assert_eq!(xml.matches("<author").count(), 3);
    for absent in ["<guid/>", "<author/>", "<guid></guid>", "<author></author>"] {
        assert!(!xml.contains(absent), "{} in {}", absent, xml);
    }
    assert_eq!(xml.matches("<item>").count(), 5);
    let blocks: Vec<&str> = xml.split("<item>").skip(1).collect();
    assert!(!blocks[1].contains("<guid") && !blocks[1].contains("<author"));
    assert!(!blocks[1].contains("<link") && !blocks[1].contains("<pubDate"));
    assert!(!blocks[3].contains("<title") && !blocks[3].contains("<description"));
    assert!(!blocks[3].contains("<guid") && blocks[3].contains("<author>a4</author>"));
}

#[test]
fn an_old_dialect_has_its_own_root_and_no_extension() {
    for (version, label) in [
        (RssVersion::RSS0_90, "0.90"),
        (RssVersion::RSS0_91, "0.91"),
        (RssVersion::RSS0_92, "0.92"),
    ] {
        let rss_data = RssData::new(Some(version))
            .title("T")
            .link("http://example.com")
            .description("D")
            .image_url("http://example.com/i.png")
            .atom_link("http://example.com/feed");
        let xml = generate_rss(&rss_data).unwrap();
        let head = format!(
            "<?xml version=\"1.0\" encoding=\"utf-8\"?><rss version=\"{}\"><channel>",
            label
        );
        assert!(xml.starts_with(&head), "{}", xml);
        assert!(xml.ends_with("</channel></rss>"));
        assert!(!xml.contains("xmlns"));
        assert!(!xml.contains("<image") && !xml.contains("<atom:link"));
    }
}
