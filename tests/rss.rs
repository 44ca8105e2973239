use feed_sync::nesting::{nesting_within, MAX_XML_DEPTH};
use feed_sync::rss::{RequiredElement, Rss, RssError};

const NS: &str = "xmlns:dc=\"http://purl.org/dc/elements/1.1/\" xmlns:content=\"http://purl.org/rss/1.0/modules/content/\" xmlns:atom=\"http://www.w3.org/2005/Atom\" xmlns:media=\"http://search.yahoo.com/mrss/\" version=\"2.0\"";

fn parse(xml: &str) -> Rss {
    match Rss::from_xml(xml) {
        Ok(rss) => rss,
        Err(err) => panic!("parse failed: {:?}", err),
    }
}

fn assert_two_articles(rss: &Rss) {
    assert_eq!(rss.blog_title, "blog title");
    assert_eq!(rss.items.len(), 2);
    for (k, item) in rss.items.iter().enumerate() {
        assert_eq!(item.id, "guid");
        assert_eq!(item.blog_title, "blog title");
        assert_eq!(item.article_title, format!("article title {}", k + 1));
        assert_eq!(item.description, format!("article description {}", k + 1));
        assert_eq!(item.article_url, Some("link".to_string()));
        assert_eq!(item.published_date, None);
        assert!(item.categories.is_empty());
    }
}

#[test]
fn initialize_with_rss_root_element_xml() {
    let rss = parse(&format!("<rss {}><channel><title>blog title</title><item><title>article title 1</title><description>article description 1</description><link>link</link><guid>guid</guid></item><item><title>article title 2</title><description>article description 2</description><link>link</link><guid>guid</guid></item></channel></rss>", NS));
    assert_two_articles(&rss);
}

#[test]
fn initialize_with_feed_root_element_xml() {
    let rss = parse(&format!("<feed {}><title>blog title</title><item><title>article title 1</title><description>article description 1</description><link>link</link><guid>guid</guid></item><item><title>article title 2</title><description>article description 2</description><link>link</link><guid>guid</guid></item></feed>", NS));
    assert_two_articles(&rss);
}

#[test]
fn initialize_with_feed_root_element_xml_with_entry_tag() {
    let rss = parse(&format!("<feed {}><title>blog title</title><entry><title>article title 1</title><description>article description 1</description><link>link</link><guid>guid</guid></entry><entry><title>article title 2</title><description>article description 2</description><link>link</link><guid>guid</guid></entry></feed>", NS));
    assert_two_articles(&rss);
}

#[test]
fn generate_guid_with_title_if_it_is_none() {
    let rss = Rss::from_xml(&format!("<rss {}><channel><title>blog title</title><item><title>article title 1</title><description>article description 1</description><link>link</link></item></channel></rss>", NS));
    assert_eq!(rss.unwrap().items[0].id, "blog title__article title 1")
}

#[test]
fn merge_categories() {
    let rss = Rss::from_xml(&format!("<rss {}><channel><title>blog title</title><category>root 1</category><category>root 2</category><item><title>article title 1</title><category>article 1</category><category>article 2</category><description>article description 1</description><link>link</link></item></channel></rss>", NS));
    assert_eq!(
        rss.unwrap().items[0].categories,
        vec![
            "article 1".to_string(),
            "article 2".to_string(),
            "root 1".to_string(),
            "root 2".to_string(),
        ]
    )
}

#[test]
fn minimal_rss_without_guid() {
    let rss = parse("<rss><channel><title>T</title><item><title>A</title><description>D</description></item></channel></rss>");
    assert_eq!(rss.items.len(), 1);
    assert_eq!(rss.items[0].id, "T__A");
    assert_eq!(rss.items[0].article_url, None);
    assert_eq!(rss.items[0].published_date, None);
}

#[test]
fn invalid_items_are_dropped_and_valid_ones_counted() {
    let rss = parse("<rss><channel><title>T</title><item><title>A</title><description>D</description></item><item><title>no description</title></item><item><description>no title</description></item><item><title></title><description>empty title</description></item><item><title>B</title><description>E</description></item></channel></rss>");
    assert_eq!(rss.blog_title, "T");
    assert_eq!(rss.items.len(), 2);
    assert_eq!(rss.items[0].article_title, "A");
    assert_eq!(rss.items[1].article_title, "B");
}

#[test]
fn atom_entries_read_like_rss_items() {
    let rss = parse("<rss><channel><title>T</title><category>c</category><item><title>A</title><description>D</description><guid>g</guid><pubDate>Mon, 01 Jan 2024 00:00:00 GMT</pubDate></item></channel></rss>");
    let atom = parse("<feed><title>T</title><category>c</category><entry><title>A</title><description>D</description><guid>g</guid><pubDate>Mon, 01 Jan 2024 00:00:00 GMT</pubDate></entry></feed>");
    assert_eq!(rss.blog_title, atom.blog_title);
    assert_eq!(rss.items.len(), atom.items.len());
    let (a, b) = (&rss.items[0], &atom.items[0]);
    assert_eq!(a.id, b.id);
    assert_eq!(a.article_title, b.article_title);
    assert_eq!(a.description, b.description);
    assert_eq!(a.published_date, b.published_date);
    assert_eq!(a.categories, b.categories);
    assert_eq!(a.published_date, Some("Mon, 01 Jan 2024 00:00:00 GMT".to_string()));
}

#[test]
fn rss_root_ignores_entry_tags() {
    let rss = parse("<rss><channel><title>T</title><entry><title>A</title><description>D</description></entry></channel></rss>");
    assert!(rss.items.is_empty());
}

#[test]
fn atom_id_and_updated_are_read() {
    let atom = parse("<feed><title>T</title><entry><title>A</title><description>D</description><id>urn:1</id><updated>2024-02-01T00:00:00Z</updated></entry></feed>");
    assert_eq!(atom.items[0].id, "urn:1");
    assert_eq!(atom.items[0].published_date, Some("2024-02-01T00:00:00Z".to_string()));
}

#[test]
fn synthesized_id_is_stable_across_parses() {
    let xml = "<rss><channel><title>T</title><item><title>A</title><description>D</description></item></channel></rss>";
    let first = parse(xml);
    let second = parse(xml);
    assert_eq!(first.items[0].id, second.items[0].id);
    assert_eq!(first.items[0].id, "T__A");
}

#[test]
fn empty_categories_are_dropped_from_both_levels() {
    let rss = parse("<rss><channel><title>T</title><category></category><category>root</category><item><title>A</title><description>D</description><category/><category>own</category></item></channel></rss>");
    assert_eq!(rss.items[0].categories, vec!["own".to_string(), "root".to_string()]);
}

#[test]
fn malformed_xml_is_refused() {
    assert!(matches!(Rss::from_xml("<rss><channel>"), Err(RssError::MalformedXml)));
    assert!(matches!(Rss::from_xml(""), Err(RssError::MalformedXml)));
}

#[test]
fn missing_channel_is_refused() {
    assert!(matches!(
        Rss::from_xml("<rss><title>T</title></rss>"),
        Err(RssError::MissingElement(RequiredElement::Channel))
    ));
}

#[test]
fn missing_title_is_refused() {
    assert!(matches!(
        Rss::from_xml("<rss><channel><item><title>A</title><description>D</description></item></channel></rss>"),
        Err(RssError::MissingElement(RequiredElement::Title))
    ));
    assert!(matches!(
        Rss::from_xml("<feed><title></title></feed>"),
        Err(RssError::MissingElement(RequiredElement::Title))
    ));
}

#[test]
fn feed_without_items_is_empty() {
    let rss = parse("<rss><channel><title>T</title></channel></rss>");
    assert_eq!(rss.blog_title, "T");
    assert!(rss.items.is_empty());
}

#[test]
fn deeply_nested_document_is_refused() {
    let depth = 200_000;
    let mut xml = String::from("<rss><channel><title>T</title><item><title>A</title><description>D</description><category>");
    for _ in 0..depth {
        xml.push_str("<x>");
    }
    for _ in 0..depth {
        xml.push_str("</x>");
    }
    xml.push_str("</category></item></channel></rss>");
    assert!(matches!(Rss::from_xml(&xml), Err(RssError::TooDeeplyNested)));
}

fn nested(depth: usize) -> String {
    let mut xml = String::new();
    for _ in 0..depth {
        xml.push_str("<x>");
    }
    for _ in 0..depth {
        xml.push_str("</x>");
    }
    xml
}

#[test]
fn nesting_at_the_limit_is_read() {
    let body = nested(MAX_XML_DEPTH - 4);
    let xml = format!("<rss><channel><title>T</title><item><title>A</title><description>D</description><link>{}</link></item></channel></rss>", body);
    let rss = parse(&xml);
    assert_eq!(rss.items.len(), 1);
    let over = format!("<rss><channel><title>T</title><item><title>A</title><description>D</description><link>{}</link></item></channel></rss>", nested(MAX_XML_DEPTH - 3));
    assert!(matches!(Rss::from_xml(&over), Err(RssError::TooDeeplyNested)));
}

#[test]
fn nesting_scan_counts_open_elements_only() {
    assert!(nesting_within("<a><b></b><c/><d x='/>' y=\"<\"/></a>", 2));
    assert!(!nesting_within("<a><b><c></c></b></a>", 2));
    assert!(nesting_within("<a><!-- <b><c><d> --><![CDATA[<e><f><g>]]><?pi <h>?></a>", 1));
    assert!(!nesting_within("<a><!-- </a></a> --><b><c></c></b></a>", 2));
    assert!(nesting_within("", 0));
    assert!(nesting_within("plain text", 0));
}

#[test]
fn many_sibling_elements_are_not_nesting() {
    let mut items = String::new();
    for k in 0..1000 {
        items.push_str(&format!("<item><title>t{}</title><description>d</description><link/></item>", k));
    }
    let rss = parse(&format!("<rss><channel><title>T</title>{}</channel></rss>", items));
    assert_eq!(rss.items.len(), 1000);
}
