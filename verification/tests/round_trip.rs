use rss_gen::data::{RssData, RssItem, RssVersion};
use rss_gen::generator::generate_rss;
use rss_gen::parser::parse_rss;

fn sample(version: RssVersion) -> RssData {
    let mut feed = RssData::new(Some(version))
        .title("News & <Views>")
        .link("https://example.com/?a=1&b=2")
        .description("It's \"all\" here")
        .language("en")
        .pub_date("Mon, 01 Jan 2024 00:00:00 GMT")
        .last_build_date("Mon, 01 Jan 2024 00:00:00 GMT")
        .docs("https://example.com/docs")
        .generator("the generator")
        .managing_editor("editor@example.com")
        .webmaster("webmaster@example.com")
        .category("Tech")
        .ttl("60");
    feed.add_item(
        RssItem::new()
            .title("First <1>")
            .link("https://example.com/1")
            .description("one & only")
            .guid("guid-1")
            .pub_date("Mon, 01 Jan 2024 00:00:00 GMT")
            .author("a@example.com"),
    );
    feed.add_item(RssItem::new().guid("guid-2").link("https://example.com/2").title("Second"));
    feed.add_item(RssItem::new());
    feed
}

#[test]
fn what_is_generated_is_read_back() {
    for version in [
        RssVersion::RSS0_90,
        RssVersion::RSS0_91,
        RssVersion::RSS0_92,
        RssVersion::RSS1_0,
        RssVersion::RSS2_0,
    ] {
        let feed = sample(version);
        let xml = generate_rss(&feed).unwrap();
        let read = parse_rss(&xml, None).unwrap();
        assert_eq!(read, feed, "{}", xml);
    }
}

#[test]
fn the_image_is_read_back_with_the_title_and_link_of_the_feed() {
    let feed = sample(RssVersion::RSS2_0)
        .image_url("https://example.com/i.png")
        .atom_link("https://example.com/feed");
    let xml = generate_rss(&feed).unwrap();
    let read = parse_rss(&xml, None).unwrap();
    assert_eq!(read.items, feed.items);
    assert_eq!(read.title, feed.title);
    assert_eq!(read.image_url, "https://example.com/i.png");
    // The values of the image pass through the setter once more.
    assert_eq!(read.image_title, "News &amp;amp; &amp;lt;Views&amp;gt;");
    assert_eq!(read.image_link, "https://example.com/?a=1&amp;amp;b=2");
    // The Atom link is an element without content, which the parser skips.
    assert_eq!(read.atom_link, "");
}
