use web_scrap_cli::errors::ScrapeError;
use web_scrap_cli::extract::{
    extract_all_links, extract_selector_records, get_css_selector_items,
};

const PAGE: &str = "<html><body>\
<p>first paragraph</p>\
<div><p>second one</p></div>\
<p>third  and   last</p>\
<h1>Hi</h1>\
<a href=\"https://a.test/one\">one</a>\
<a href=\"/two\">two</a>\
</body></html>";

#[test]
fn extract_matches_in_document_order() {
    let items = get_css_selector_items(PAGE, "p").unwrap();
    assert_eq!(items.len(), 3);
    assert_eq!(items[0], "first paragraph");
    assert_eq!(items[1], "second one");
    assert_eq!(items[2], "third  and   last");
}

#[test]
fn extract_empty_match_is_ok() {
    let items = get_css_selector_items(PAGE, "table").unwrap();
    assert!(items.is_empty());
}

#[test]
fn extract_bad_selector_is_invalid_selector() {
    let err = get_css_selector_items(PAGE, "p[???").unwrap_err();
    assert!(matches!(err, ScrapeError::InvalidSelector));
}

#[test]
fn extract_concatenates_descendant_text() {
    let items = get_css_selector_items("<div>a<span>b</span>c</div>", "div").unwrap();
    assert_eq!(items, vec![String::from("abc")]);
}

#[test]
fn links_are_collected_in_order() {
    let links = extract_all_links(PAGE);
    assert_eq!(links, vec![String::from("https://a.test/one"), String::from("/two")]);
}

#[test]
fn records_filter_and_normalize() {
    let records =
        extract_selector_records(PAGE, "https://a.test", "p").unwrap();
    // "third  and   last" passes the filter and is normalized; all three
    // paragraphs pass (four leading letters each)
    assert_eq!(records.len(), 3);
    assert_eq!(records[2].content, "third and last");
    for r in &records {
        assert_eq!(r.url, "https://a.test");
        assert_eq!(r.selector, "p");
        assert_eq!(r.host, "a.test");
        assert_eq!(r.timestamp, records[0].timestamp);
    }
}

#[test]
fn records_drop_short_fragments() {
    let records = extract_selector_records(
        "<h1>Hi</h1><p>Hello world</p>",
        "https://a.test",
        "h1",
    )
    .unwrap();
    assert!(records.is_empty());
}
