use web_scrap_cli::errors::ScrapeError;
use web_scrap_cli::record::{get_host_from_url, SelectorRecord};

#[test]
fn host_derived_from_url() {
    let host = get_host_from_url("https://example.com/page").unwrap();
    assert_eq!(host, "example.com");
}

#[test]
fn record_builder_derives_host() {
    let rec = SelectorRecord::new(
        7,
        String::from("https://example.com/page"),
        String::from("p"),
        String::from("some content"),
    )
    .unwrap();
    assert_eq!(rec.timestamp, 7);
    assert_eq!(rec.url, "https://example.com/page");
    assert_eq!(rec.selector, "p");
    assert_eq!(rec.content, "some content");
    assert_eq!(rec.host, "example.com");
}

#[test]
fn unparseable_url_is_invalid() {
    let err = get_host_from_url("not a url").unwrap_err();
    assert!(matches!(err, ScrapeError::InvalidUrl));
    let res = SelectorRecord::new(
        1,
        String::from("not a url"),
        String::from("p"),
        String::from("c"),
    );
    assert!(matches!(res, Err(ScrapeError::InvalidUrl)));
}

#[test]
fn url_without_host_is_invalid() {
    let err = get_host_from_url("mailto:someone@example.com").unwrap_err();
    assert!(matches!(err, ScrapeError::InvalidUrl));
}

#[test]
fn error_descriptions() {
    assert_eq!(ScrapeError::InvalidSelector.describe(), "invalid selector");
    assert_eq!(ScrapeError::InvalidUrl.describe(), "invalid url");
    assert_eq!(ScrapeError::FetchFailure.describe(), "fetch failure");
    assert_eq!(ScrapeError::PersistenceFailure.describe(), "persistence failure");
    assert_eq!(ScrapeError::ConfigurationError.describe(), "configuration error");
}
