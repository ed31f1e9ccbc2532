use rss_gen::data::{RssData, RssItem, RssVersion};
use rss_gen::error::RssError;
use rss_gen::parser::{
    apply_custom_handlers, finish_text_event, handle_text_event, parse_channel_element, parse_item_element,
    parse_rss, process_cdata_event, process_end_event, process_start_event,
    process_text_event, read_channel_element, ElementHandler, ImageData, ParserConfig,
    ParserContext, ParsingContext, ParsingState,
};
use std::sync::Arc;

struct MockElementHandler;

impl ElementHandler for MockElementHandler {
    fn handle_element(
        &self,
        name: &str,
        text: &str,
        _attributes: &[(String, String)],
    ) -> Result<(), RssError> {
        if name == "customElement" && text == "Custom content" {
            Ok(())
        } else {
            Err(RssError::UnknownElement(name.into()))
        }
    }
}

#[test]
fn test_parser_config_with_custom_handler() {
    let handler = Arc::new(MockElementHandler);
    let config = ParserConfig {
        custom_handlers: vec![handler],
    };

    assert_eq!(config.custom_handlers.len(), 1);
    assert!(config.custom_handlers[0]
        .handle_element("customElement", "Custom content", &[])
        .is_ok());
}

#[test]
fn test_parser_config_no_custom_handlers() {
    let config = ParserConfig::default();
    assert!(config.custom_handlers.is_empty());
}

#[test]
fn test_process_start_event_empty_name() {
    let mut context = ParserContext::new();
    let mut rss_data = RssData::default();

    let result = process_start_event("", &[], &mut context, &mut rss_data);
    assert!(result.is_ok());
}

#[test]
fn test_process_start_event_non_empty_name() {
    let mut context = ParserContext::new();
    let mut rss_data = RssData::default();

    let result = process_start_event("item", &[], &mut context, &mut rss_data);
    assert!(result.is_ok());
    assert_eq!(context.current_element, "item");
}

#[test]
fn test_process_text_event() {
    let mut context = ParserContext::new();
    let mut rss_data = RssData::default();

    let result = process_text_event("Sample Text", &mut context, &mut rss_data, None);
    assert!(result.is_ok());
}

#[test]
fn test_process_cdata_event() {
    let mut context = ParserContext::new();
    let mut rss_data = RssData::default();

    let result = process_cdata_event("Sample CDATA", &mut context, &mut rss_data, None);
    assert!(result.is_ok());
}

#[test]
fn test_parse_channel_rdf_li_rss_1_0() {
    let mut rss_data = RssData::default();
    let result = parse_channel_element(&mut rss_data, "rdf:li", "", true);
    assert!(result.is_ok());
}

#[test]
fn test_parse_channel_rdf_li_non_rss_1_0() {
    let mut rss_data = RssData::default();
    let result = parse_channel_element(&mut rss_data, "rdf:li", "", false);
    assert!(result.is_err());
}

#[test]
fn test_parse_channel_unknown_element() {
    let mut rss_data = RssData::default();
    let result = parse_channel_element(&mut rss_data, "unknownElement", "", false);
    assert!(result.is_err());
}

#[test]
fn test_parse_rss_with_image() {
    let rss_xml = r#"
        <?xml version="1.0" encoding="UTF-8"?>
        <rss version="2.0">
          <channel>
            <title>Sample Feed</title>
            <link>https://example.com</link>
            <description>A sample RSS feed</description>
            <image>
              <title>Sample Image</title>
              <url>https://example.com/image.jpg</url>
              <link>https://example.com</link>
            </image>
          </channel>
        </rss>
        "#;

    let result = parse_rss(rss_xml, None);

    match result {
        Ok(parsed_data) => {
            assert_eq!(parsed_data.title, "Sample Feed");
            assert_eq!(parsed_data.image_title, "Sample Image");
        }
        Err(RssError::UnknownElement(element)) => {
            panic!("Failed due to unknown element: {:?}", element);
        }
        Err(e) => panic!("Failed to parse RSS with image: {:?}", e),
    }
}

#[test]
fn test_parse_rss_1_0() {
    let rss_xml = r#"
        <?xml version="1.0" encoding="UTF-8"?>
        <rdf:RDF xmlns:rdf="http://www.w3.org/1999/02/22-rdf-syntax-ns#"
                 xmlns="http://purl.org/rss/1.0/">
          <channel rdf:about="https://example.com">
            <title>Sample Feed</title>
            <link>https://example.com</link>
            <description>A sample RSS feed</description>
          </channel>
        </rdf:RDF>
        "#;

    let result = parse_rss(rss_xml, None);

    match result {
        Ok(parsed_data) => {
            assert_eq!(parsed_data.title, "Sample Feed");
        }
        Err(RssError::UnknownElement(element)) => {
            panic!("Failed due to unknown element: {:?}", element);
        }
        Err(e) => panic!("Failed to parse RSS 1.0: {:?}", e),
    }
}

#[test]
fn test_parse_rss_2_0() {
    let rss_xml = r#"
        <?xml version="1.0" encoding="UTF-8"?>
        <rss version="2.0">
          <channel>
            <title>Sample Feed</title>
            <link>https://example.com</link>
            <description>A sample RSS feed</description>
          </channel>
        </rss>
        "#;

    let result = parse_rss(rss_xml, None);

    match result {
        Ok(parsed_data) => {
            assert_eq!(parsed_data.title, "Sample Feed");
        }
        Err(RssError::UnknownElement(element)) => {
            panic!("Failed due to unknown element: {:?}", element);
        }
        Err(e) => panic!("Failed to parse RSS 2.0: {:?}", e),
    }
}

#[test]
fn test_parse_channel_language() {
    let mut rss_data = RssData::default();
    let result = parse_channel_element(
        &mut rss_data,
        "language",
        "en-US",
        false,
    );
    assert!(result.is_ok());
    assert_eq!(rss_data.language, "en-US");
}

#[test]
fn test_parse_channel_copyright() {
    let mut rss_data = RssData::default();
    let result = parse_channel_element(
        &mut rss_data,
        "copyright",
        "© 2024",
        false,
    );
    assert!(result.is_ok());
    assert_eq!(rss_data.copyright, "© 2024");
}

#[test]
fn test_parse_channel_managing_editor() {
    let mut rss_data = RssData::default();
    let result = parse_channel_element(
        &mut rss_data,
        "managingEditor",
        "editor@example.com",
        false,
    );
    assert!(result.is_ok());
    assert_eq!(rss_data.managing_editor, "editor@example.com");
}

#[test]
fn test_parse_channel_webmaster() {
    let mut rss_data = RssData::default();
    let result = parse_channel_element(
        &mut rss_data,
        "webMaster",
        "webmaster@example.com",
        false,
    );
    assert!(result.is_ok());
    assert_eq!(rss_data.webmaster, "webmaster@example.com");
}

#[test]
fn test_parse_channel_pub_date() {
    let mut rss_data = RssData::default();
    let result = parse_channel_element(
        &mut rss_data,
        "pubDate",
        "Mon, 10 Oct 2024 04:00:00 GMT",
        false,
    );
    assert!(result.is_ok());
    assert_eq!(rss_data.pub_date, "Mon, 10 Oct 2024 04:00:00 GMT");
}

#[test]
fn test_parse_channel_last_build_date() {
    let mut rss_data = RssData::default();
    let result = parse_channel_element(
        &mut rss_data,
        "lastBuildDate",
        "Mon, 10 Oct 2024 05:00:00 GMT",
        false,
    );
    assert!(result.is_ok());
    assert_eq!(
        rss_data.last_build_date,
        "Mon, 10 Oct 2024 05:00:00 GMT"
    );
}

#[test]
fn test_parse_channel_category() {
    let mut rss_data = RssData::default();
    let result = parse_channel_element(
        &mut rss_data,
        "category",
        "Technology",
        false,
    );
    assert!(result.is_ok());
    assert_eq!(rss_data.category, "Technology");
}

#[test]
fn test_parse_channel_generator() {
    let mut rss_data = RssData::default();
    let result = parse_channel_element(
        &mut rss_data,
        "generator",
        "RSS Generator v1.0",
        false,
    );
    assert!(result.is_ok());
    assert_eq!(rss_data.generator, "RSS Generator v1.0");
}

#[test]
fn test_parse_channel_docs() {
    let mut rss_data = RssData::default();
    let result = parse_channel_element(
        &mut rss_data,
        "docs",
        "https://example.com/rss/docs",
        false,
    );
    assert!(result.is_ok());
    assert_eq!(rss_data.docs, "https://example.com/rss/docs");
}

#[test]
fn test_parse_channel_ttl() {
    let mut rss_data = RssData::default();
    let result =
        parse_channel_element(&mut rss_data, "ttl", "60", false);
    assert!(result.is_ok());
    assert_eq!(rss_data.ttl, "60");
}

#[test]
fn test_parse_channel_items_rss_1_0() {
    let mut rss_data = RssData::default();
    let result =
        parse_channel_element(&mut rss_data, "items", "", true);
    assert!(result.is_ok());
}

#[test]
fn test_parse_channel_items_non_rss_1_0() {
    let mut rss_data = RssData::default();
    let result =
        parse_channel_element(&mut rss_data, "items", "", false);
    assert!(result.is_err());
}

#[test]
fn test_parse_channel_rdf_seq_rss_1_0() {
    let mut rss_data = RssData::default();
    let result =
        parse_channel_element(&mut rss_data, "rdf:Seq", "", true);
    assert!(result.is_ok());
}

#[test]
fn test_parse_channel_rdf_seq_non_rss_1_0() {
    let mut rss_data = RssData::default();
    let result =
        parse_channel_element(&mut rss_data, "rdf:Seq", "", false);
    assert!(result.is_err());
}

#[test]
fn test_parse_item_author() {
    let mut item = RssItem::default();
    parse_item_element(
        &mut item,
        "author",
        "author@example.com",
        &[],
    );
    assert_eq!(item.author, "author@example.com");
}

#[test]
fn test_parse_item_guid() {
    let mut item = RssItem::default();
    parse_item_element(&mut item, "guid", "1234-5678", &[]);
    assert_eq!(item.guid, "1234-5678");
}

#[test]
fn test_parse_item_pub_date() {
    let mut item = RssItem::default();
    parse_item_element(
        &mut item,
        "pubDate",
        "Mon, 10 Oct 2024 04:00:00 GMT",
        &[],
    );
    assert_eq!(item.pub_date, "Mon, 10 Oct 2024 04:00:00 GMT");
}

#[test]
fn test_parse_item_category() {
    let mut item = RssItem::default();
    parse_item_element(&mut item, "category", "Technology", &[]);
    assert_eq!(item.category, Some("Technology".to_string()));
}

#[test]
fn test_parse_item_comments() {
    let mut item = RssItem::default();
    parse_item_element(
        &mut item,
        "comments",
        "https://example.com/comments",
        &[],
    );
    assert_eq!(
        item.comments,
        Some("https://example.com/comments".to_string())
    );
}

#[test]
fn test_parse_item_enclosure_with_attributes() {
    let mut item = RssItem::default();
    let attributes = vec![
        (
            "url".to_string(),
            "https://example.com/audio.mp3".to_string(),
        ),
        ("length".to_string(), "123456".to_string()),
        ("type".to_string(), "audio/mpeg".to_string()),
    ];
    parse_item_element(&mut item, "enclosure", "", &attributes);
    assert_eq!(
        item.enclosure,
        Some("url=\"https://example.com/audio.mp3\" length=\"123456\" type=\"audio/mpeg\"".to_string())
    );
}

#[test]
fn test_parse_item_enclosure_without_attributes() {
    let mut item = RssItem::default();
    parse_item_element(&mut item, "enclosure", "", &[]);
    assert_eq!(item.enclosure, None);
}

#[test]
fn test_parse_item_source() {
    let mut item = RssItem::default();
    parse_item_element(
        &mut item,
        "source",
        "https://example.com",
        &[],
    );
    assert_eq!(
        item.source,
        Some("https://example.com".to_string())
    );
}

#[test]
fn an_unknown_channel_element_is_fatal() {
    let xml = "<rss version=\"2.0\"><channel><bogus>x</bogus></channel></rss>";
    match parse_rss(xml, None) {
        Err(RssError::UnknownElement(message)) => {
            assert_eq!(message, "Unknown channel element: bogus")
        }
        other => panic!("unexpected: {:?}", other),
    }
}

#[test]
fn an_unknown_item_element_is_ignored() {
    let xml = "<rss version=\"2.0\"><channel><item><title>T</title><bogus>x</bogus></item></channel></rss>";
    let feed = parse_rss(xml, None).unwrap();
    assert_eq!(feed.items.len(), 1);
    assert_eq!(feed.items[0], RssItem::new().title("T"));
}

#[test]
fn an_unknown_element_outside_every_scope_is_fatal() {
    match parse_rss("<feed><title>x</title></feed>", None) {
        Err(RssError::UnknownElement(message)) => assert_eq!(message, "Unknown element: feed"),
        other => panic!("unexpected: {:?}", other),
    }
    let xml = "<rss version=\"2.0\"><channel><item></item><title>late</title></channel></rss>";
    match parse_rss(xml, None) {
        Err(RssError::UnknownElement(message)) => assert_eq!(message, "Unknown element: title"),
        other => panic!("unexpected: {:?}", other),
    }
}

#[test]
fn the_root_element_names_the_dialect() {
    for (label, version) in [
        ("0.90", RssVersion::RSS0_90),
        ("0.91", RssVersion::RSS0_91),
        ("0.92", RssVersion::RSS0_92),
        ("1.0", RssVersion::RSS1_0),
        ("2.0", RssVersion::RSS2_0),
    ] {
        let xml = format!("<rss broken version=\"{}\"><channel></channel></rss>", label);
        assert_eq!(parse_rss(&xml, None).unwrap().version, version);
    }
    assert_eq!(
        parse_rss("<rss><channel></channel></rss>", None).unwrap().version,
        RssVersion::RSS2_0
    );
    assert_eq!(
        parse_rss("<rdf:RDF><channel></channel></rdf:RDF>", None).unwrap().version,
        RssVersion::RSS1_0
    );
    match parse_rss("<rss version=\"3.0\"><channel></channel></rss>", None) {
        Err(RssError::InvalidRssVersion(label)) => assert_eq!(label, "3.0"),
        other => panic!("unexpected: {:?}", other),
    }
}

#[test]
fn malformed_xml_is_a_parse_error() {
    let xml = "<rss version=\"2.0\"><channel><title>x</wrong></channel></rss>";
    assert!(matches!(parse_rss(xml, None), Err(RssError::XmlParseError(_))));
    let xml = "<rss version=\"2.0\"><channel><title>a &bogus; b</title></channel></rss>";
    assert!(matches!(parse_rss(xml, None), Err(RssError::XmlWriteError(_))));
}

#[test]
fn text_is_unescaped_and_cdata_is_not() {
    let xml = "<rss version=\"2.0\"><channel><title>a &amp; b &lt; &#65;</title><description><![CDATA[c &amp; <d>]]></description></channel></rss>";
    let feed = parse_rss(xml, None).unwrap();
    assert_eq!(feed.title, "a & b < A");
    assert_eq!(feed.description, "c &amp; <d>");
}

#[test]
fn a_whole_feed_is_read() {
    let xml = r#"<?xml version="1.0" encoding="utf-8"?>
<rss version="0.92">
  <!-- a comment -->
  <channel>
    <title>T</title>
    <link>http://example.com</link>
    <description>D</description>
    <language>en</language>
    <copyright>C</copyright>
    <managingEditor>M</managingEditor>
    <webMaster>W</webMaster>
    <pubDate>P</pubDate>
    <lastBuildDate>L</lastBuildDate>
    <category>K</category>
    <generator>G</generator>
    <docs>O</docs>
    <ttl>60</ttl>
    <image>
      <url>http://example.com/i.png?a=1&amp;b=2</url>
      <title>IT</title>
      <link>IL</link>
      <width>10</width>
    </image>
  </channel>
  <item>
    <title>one</title>
    <link>http://example.com/1</link>
    <description>d1</description>
    <author>a1</author>
    <guid>g1</guid>
    <pubDate>p1</pubDate>
    <category>c1</category>
    <comments>m1</comments>
    <source>s1</source>
    <enclosure url="http://example.com/a.mp3" length="5"> </enclosure>
    <enclosure url="ignored"/>
  </item>
  <item>
    <enclosure> </enclosure>
    <title>two</title>
  </item>
</rss>"#;
    let feed = parse_rss(xml, None).unwrap();
    let mut expected = RssData::new(Some(RssVersion::RSS0_92));
    expected.title = "T".into();
    expected.link = "http://example.com".into();
    expected.description = "D".into();
    expected.language = "en".into();
    expected.copyright = "C".into();
    expected.managing_editor = "M".into();
    expected.webmaster = "W".into();
    expected.pub_date = "P".into();
    expected.last_build_date = "L".into();
    expected.category = "K".into();
    expected.generator = "G".into();
    expected.docs = "O".into();
    expected.ttl = "60".into();
    expected.image_url = "http://example.com/i.png?a=1&amp;b=2".into();
    expected.image_title = "IT".into();
    expected.image_link = "IL".into();
    let mut one = RssItem::new();
    one.title = "one".into();
    one.link = "http://example.com/1".into();
    one.description = "d1".into();
    one.author = "a1".into();
    one.guid = "g1".into();
    one.pub_date = "p1".into();
    one.category = Some("c1".into());
    one.comments = Some("m1".into());
    one.source = Some("s1".into());
    one.enclosure = Some("url=\"http://example.com/a.mp3\" length=\"5\"".into());
    let mut two = RssItem::new();
    two.title = "two".into();
    expected.items = vec![one, two];
    assert_eq!(feed, expected);
}

#[test]
fn an_rdf_channel_lists_its_items_by_resource() {
    let xml = r#"<rdf:RDF xmlns:rdf="http://www.w3.org/1999/02/22-rdf-syntax-ns#" xmlns="http://purl.org/rss/1.0/">
<channel rdf:about="http://example.com">
<title>T</title>
<items><rdf:Seq>
<rdf:li rdf:resource="http://example.com/1"> </rdf:li>
<rdf:li>rdf:resource="http://example.com/2" and more</rdf:li>
<rdf:li>no resource</rdf:li>
<rdf:li rdf:resource="http://example.com/empty"/>
</rdf:Seq></items>
</channel>
<item rdf:about="http://example.com/1"><title>one</title></item>
</rdf:RDF>"#;
    let feed = parse_rss(xml, None).unwrap();
    assert_eq!(feed.version, RssVersion::RSS1_0);
    assert_eq!(feed.title, "T");
    let links: Vec<&str> = feed.items.iter().map(|i| i.link.as_str()).collect();
    assert_eq!(links, vec!["http://example.com/1", "http://example.com/2", ""]);
    assert_eq!(feed.items[2].title, "one");

    let rss = xml.replace("rdf:RDF", "rss");
    match parse_rss(&rss, None) {
        Err(RssError::UnknownElement(message)) => assert_eq!(message, "rdf:Seq"),
        other => panic!("unexpected: {:?}", other),
    }
}

#[test]
fn the_channel_dispatcher_reads_resources() {
    let mut rss_data = RssData::default();
    let attributes = vec![
        ("other".to_string(), "x".to_string()),
        ("rdf:resource".to_string(), "from attribute".to_string()),
        ("rdf:resource".to_string(), "second".to_string()),
    ];
    read_channel_element(&mut rss_data, "rdf:li", "rdf:resource=\"from text\"", &attributes, true)
        .unwrap();
    read_channel_element(&mut rss_data, "rdf:li", "x rdf:resource=\"from text\" y", &[], true)
        .unwrap();
    read_channel_element(&mut rss_data, "rdf:li", "rdf:resource=\"unterminated", &[], true)
        .unwrap();
    read_channel_element(&mut rss_data, "rdf:li", "rdf:resource=\"\"", &[], true).unwrap();
    parse_channel_element(&mut rss_data, "rdf:li", "rdf:resource=\"four\"", true).unwrap();
    let links: Vec<&str> = rss_data.items.iter().map(|i| i.link.as_str()).collect();
    assert_eq!(links, vec!["from attribute", "from text", "", "four"]);
    match parse_channel_element(&mut rss_data, "rdf:Seq", "", false) {
        Err(RssError::UnknownElement(message)) => assert_eq!(message, "rdf:Seq"),
        other => panic!("unexpected: {:?}", other),
    }
    match parse_channel_element(&mut rss_data, "Title", "", true) {
        Err(RssError::UnknownElement(message)) => {
            assert_eq!(message, "Unknown channel element: Title")
        }
        other => panic!("unexpected: {:?}", other),
    }
}

#[test]
fn the_machine_can_be_driven_event_by_event() {
    let mut context = ParserContext::new();
    let mut feed = RssData::new(None);
    let version = vec![None, Some(("version".to_string(), "0.91".to_string()))];
    process_start_event("rss", &version, &mut context, &mut feed).unwrap();
    assert_eq!(feed.version, RssVersion::RSS0_91);
    assert_eq!(context.current_element, "");
    process_start_event("channel", &[], &mut context, &mut feed).unwrap();
    assert_eq!(context.parsing_state, ParsingState::Channel);
    process_text_event("dropped", &mut context, &mut feed, None).unwrap();
    let attributes = vec![Some(("a".to_string(), "1".to_string())), None];
    process_start_event("title", &attributes, &mut context, &mut feed).unwrap();
    assert_eq!(context.current_element, "title");
    assert_eq!(context.current_attributes, vec![("a".to_string(), "1".to_string())]);
    process_text_event("x &gt; y", &mut context, &mut feed, None).unwrap();
    assert_eq!(feed.title, "x > y");
    process_end_event("title", &mut context, &mut feed);
    assert_eq!(context.current_element, "");
    assert!(context.current_attributes.is_empty());
    assert_eq!(context.parsing_state, ParsingState::Channel);
    process_end_event("item", &mut context, &mut feed);
    assert_eq!(context.parsing_state, ParsingState::Channel);
    assert!(feed.items.is_empty());
    process_start_event("image", &[], &mut context, &mut feed).unwrap();
    process_start_event("url", &[], &mut context, &mut feed).unwrap();
    process_cdata_event("<u>", &mut context, &mut feed, None).unwrap();
    assert_eq!(context.image_url, "<u>");
    process_end_event("url", &mut context, &mut feed);
    process_end_event("image", &mut context, &mut feed);
    assert_eq!(feed.image_url, "&lt;u&gt;");
    assert_eq!(context.parsing_state, ParsingState::Outside);
    process_end_event("channel", &mut context, &mut feed);
    process_start_event("item", &[], &mut context, &mut feed).unwrap();
    process_start_event("guid", &[], &mut context, &mut feed).unwrap();
    process_text_event("g", &mut context, &mut feed, None).unwrap();
    process_end_event("guid", &mut context, &mut feed);
    process_end_event("item", &mut context, &mut feed);
    assert_eq!(feed.items.len(), 1);
    assert_eq!(feed.items[0].guid, "g");
    process_start_event("rdf:RDF", &[], &mut context, &mut feed).unwrap();
    assert!(context.is_rdf);
    assert_eq!(feed.version, RssVersion::RSS1_0);
    assert!(matches!(
        process_start_event("other", &[], &mut context, &mut feed),
        Err(RssError::UnknownElement(_))
    ));
    assert!(matches!(
        process_text_event("&nothing;", &mut context, &mut feed, None),
        Err(RssError::XmlWriteError(_))
    ));
}

#[test]
fn text_goes_to_the_scope_of_the_context() {
    let mut feed = RssData::new(None);
    let mut item = RssItem::new();
    let mut image = ImageData { title: String::new(), url: String::new(), link: String::new() };
    for (state, element) in [
        (ParsingState::Channel, "title"),
        (ParsingState::Item, "title"),
        (ParsingState::Image, "title"),
        (ParsingState::Image, "url"),
        (ParsingState::Image, "link"),
        (ParsingState::Image, "other"),
        (ParsingState::Outside, "title"),
        (ParsingState::Channel, ""),
    ] {
        let text = format!("{:?} {}", state, element);
        let context = ParsingContext {
            is_rss_1_0: false,
            state,
            current_element: element,
            text: &text,
            current_attributes: &[],
        };
        assert_eq!(context.in_channel(), state == ParsingState::Channel);
        assert_eq!(context.in_item(), state == ParsingState::Item);
        assert_eq!(context.in_image(), state == ParsingState::Image);
        handle_text_event(&mut feed, &context, &mut item, &mut image).unwrap();
    }
    assert_eq!(feed.title, "Channel title");
    assert_eq!(item.title, "Item title");
    assert_eq!(image.title, "Image title");
    assert_eq!(image.url, "Image url");
    assert_eq!(image.link, "Image link");
    let context = ParsingContext {
        is_rss_1_0: false,
        state: ParsingState::Channel,
        current_element: "bogus",
        text: "x",
        current_attributes: &[],
    };
    assert!(matches!(
        handle_text_event(&mut feed, &context, &mut item, &mut image),
        Err(RssError::UnknownElement(_))
    ));
}

struct Refusing(&'static str);

impl ElementHandler for Refusing {
    fn handle_element(
        &self,
        name: &str,
        _text: &str,
        _attributes: &[(String, String)],
    ) -> Result<(), RssError> {
        if name == self.0 {
            Err(RssError::Custom(format!("refused {}", name)))
        } else {
            Ok(())
        }
    }
}

#[test]
fn a_custom_handler_can_end_the_parse() {
    let xml = "<rss version=\"2.0\"><channel><title>T</title><link>L</link></channel></rss>";
    let quiet = ParserConfig { custom_handlers: vec![Arc::new(Refusing("nothing"))] };
    assert_eq!(parse_rss(xml, Some(&quiet)).unwrap().link, "L");
    let config = ParserConfig {
        custom_handlers: vec![Arc::new(Refusing("nothing")), Arc::new(Refusing("link"))],
    };
    match parse_rss(xml, Some(&config)) {
        Err(RssError::Custom(message)) => assert_eq!(message, "refused link"),
        other => panic!("unexpected: {:?}", other),
    }
    assert!(apply_custom_handlers("title", "", &[], Some(&config)).is_ok());
    assert!(apply_custom_handlers("link", "", &[], Some(&config)).is_err());
    assert!(apply_custom_handlers("link", "", &[], Some(&ParserConfig::default())).is_ok());
    assert!(apply_custom_handlers("link", "", &[], None).is_ok());
}

#[test]
fn a_text_event_ends_with_the_verdict_of_the_handlers() {
    let mut context = ParserContext::new();
    context.current_element = "keep".to_string();
    let item = RssItem::new().title("t");
    let image = ImageData { title: "a".into(), url: "b".into(), link: "c".into() };
    assert!(finish_text_event(&mut context, item, image, Ok(())).is_ok());
    assert_eq!(context.current_item.title, "t");
    assert_eq!(context.image_title, "a");
    assert_eq!(context.image_url, "b");
    assert_eq!(context.image_link, "c");
    assert_eq!(context.current_element, "keep");
    let image = ImageData { title: String::new(), url: String::new(), link: String::new() };
    let verdict = Err(RssError::Custom("no".to_string()));
    match finish_text_event(&mut context, RssItem::new(), image, verdict) {
        Err(RssError::Custom(message)) => assert_eq!(message, "no"),
        other => panic!("unexpected: {:?}", other),
    }
    assert_eq!(context.current_item.title, "");
    assert_eq!(context.image_title, "");
}

#[test]
fn an_empty_document_is_an_empty_feed() {
    assert_eq!(parse_rss("", None).unwrap(), RssData::new(None));
    assert_eq!(parse_rss("  \n ", None).unwrap(), RssData::new(None));
    assert_eq!(parse_rss("<!-- nothing -->", None).unwrap(), RssData::default());
}

struct Recording {
    seen: std::sync::Mutex<Vec<(String, String, Vec<(String, String)>)>>,
    refuse: bool,
    label: &'static str,
}

impl Recording {
    fn new(label: &'static str, refuse: bool) -> Arc<Recording> {
        Arc::new(Recording { seen: std::sync::Mutex::new(Vec::new()), refuse, label })
    }
}

impl ElementHandler for Recording {
    fn handle_element(
        &self,
        name: &str,
        text: &str,
        attributes: &[(String, String)],
    ) -> Result<(), RssError> {
        self.seen.lock().unwrap().push((name.to_string(), text.to_string(), attributes.to_vec()));
        if self.refuse {
            Err(RssError::Custom(self.label.to_string()))
        } else {
            Ok(())
        }
    }
}

#[test]
fn handlers_are_asked_in_order_until_one_fails() {
    let first = Recording::new("first", false);
    let second = Recording::new("second", true);
    let third = Recording::new("third", true);
    let config = ParserConfig {
        custom_handlers: vec![first.clone(), second.clone(), third.clone()],
    };
    let attributes = vec![("k".to_string(), "v".to_string())];
    match apply_custom_handlers("name", "text", &attributes, Some(&config)) {
        Err(RssError::Custom(label)) => assert_eq!(label, "second"),
        other => panic!("unexpected: {:?}", other),
    }
    let shown = vec![("name".to_string(), "text".to_string(), attributes.clone())];
    assert_eq!(*first.seen.lock().unwrap(), shown);
    assert_eq!(*second.seen.lock().unwrap(), shown);
    assert!(third.seen.lock().unwrap().is_empty());

    let a = Recording::new("a", false);
    let b = Recording::new("b", false);
    let config = ParserConfig { custom_handlers: vec![a.clone(), b.clone()] };
    assert!(apply_custom_handlers("n", "", &[], Some(&config)).is_ok());
    assert!(apply_custom_handlers("m", "t", &[], Some(&config)).is_ok());
    let shown = vec![
        ("n".to_string(), "".to_string(), vec![]),
        ("m".to_string(), "t".to_string(), vec![]),
    ];
    assert_eq!(*a.seen.lock().unwrap(), shown);
    assert_eq!(*b.seen.lock().unwrap(), shown);
}

#[test]
fn a_failing_event_leaves_the_parser_as_it_was() {
    let mut context = ParserContext::new();
    let mut feed = RssData::new(None);
    process_start_event("channel", &[], &mut context, &mut feed).unwrap();
    let attributes = vec![Some(("k".to_string(), "v".to_string()))];
    process_start_event("bogus", &attributes, &mut context, &mut feed).unwrap();
    process_text_event("&broken", &mut context, &mut feed, None).unwrap_err();
    process_text_event("text", &mut context, &mut feed, None).unwrap_err();
    process_cdata_event("text", &mut context, &mut feed, None).unwrap_err();
    let version = vec![Some(("version".to_string(), "9.9".to_string()))];
    process_start_event("rss", &version, &mut context, &mut feed).unwrap_err();
    assert_eq!(feed, RssData::new(None));
    assert_eq!(context.parsing_state, ParsingState::Channel);
    assert_eq!(context.current_element, "bogus");
    assert_eq!(context.current_attributes, vec![("k".to_string(), "v".to_string())]);
    assert_eq!(context.current_item, RssItem::new());
    process_end_event("channel", &mut context, &mut feed);
    process_start_event("other", &attributes, &mut context, &mut feed).unwrap_err();
    assert_eq!(context.parsing_state, ParsingState::Outside);
    assert_eq!(context.current_element, "");
    assert!(context.current_attributes.is_empty());
}

#[test]
fn a_handler_that_fails_leaves_the_text_attributed() {
    let config = ParserConfig { custom_handlers: vec![Arc::new(Refusing("title"))] };
    let mut context = ParserContext::new();
    let mut feed = RssData::new(None);
    process_start_event("channel", &[], &mut context, &mut feed).unwrap();
    process_start_event("title", &[], &mut context, &mut feed).unwrap();
    match process_cdata_event("T", &mut context, &mut feed, Some(&config)) {
        Err(RssError::Custom(message)) => assert_eq!(message, "refused title"),
        other => panic!("unexpected: {:?}", other),
    }
    assert_eq!(feed.title, "T");
}

#[test]
fn a_parse_shows_the_handlers_every_text_in_order() {
    let xml = "<rss version=\"2.0\"><channel><title>A &amp; B</title>\
<link>L</link><description>D</description>\
<item><title><![CDATA[<raw>]]></title><foo bar=\"1\">x</foo></item></channel></rss>";
    let first = Recording::new("first", false);
    let second = Recording::new("second", false);
    let config = ParserConfig { custom_handlers: vec![first.clone(), second.clone()] };
    let feed = parse_rss(xml, Some(&config)).unwrap();
    assert_eq!(feed, parse_rss(xml, None).unwrap());
    assert_eq!(feed.title, "A & B");
    let shown = vec![
        ("title".to_string(), "A & B".to_string(), vec![]),
        ("link".to_string(), "L".to_string(), vec![]),
        ("description".to_string(), "D".to_string(), vec![]),
        ("title".to_string(), "<raw>".to_string(), vec![]),
        ("foo".to_string(), "x".to_string(), vec![("bar".to_string(), "1".to_string())]),
    ];
    assert_eq!(*first.seen.lock().unwrap(), shown);
    assert_eq!(*second.seen.lock().unwrap(), shown);

    let early = Recording::new("early", false);
    let late = Recording::new("late", false);
    let config = ParserConfig {
        custom_handlers: vec![early.clone(), Arc::new(Refusing("link")), late.clone()],
    };
    match parse_rss(xml, Some(&config)) {
        Err(RssError::Custom(message)) => assert_eq!(message, "refused link"),
        other => panic!("unexpected: {:?}", other),
    }
    assert_eq!(*early.seen.lock().unwrap(), shown[..2].to_vec());
    assert_eq!(*late.seen.lock().unwrap(), shown[..1].to_vec());

    let never = Recording::new("never", false);
    let config = ParserConfig { custom_handlers: vec![never.clone()] };
    let broken = "<rss version=\"2.0\"><channel><bogus>x</bogus><title>T</title></channel></rss>";
    assert!(matches!(parse_rss(broken, Some(&config)), Err(RssError::UnknownElement(_))));
    assert!(never.seen.lock().unwrap().is_empty());
}
