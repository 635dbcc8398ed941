use web_scrap_cli::flatfile::{records_from_csv, records_to_csv, u64_to_string};
use web_scrap_cli::record::SelectorRecord;

fn rec(timestamp: u64, url: &str, selector: &str, content: &str, host: &str) -> SelectorRecord {
    SelectorRecord {
        timestamp,
        url: String::from(url),
        selector: String::from(selector),
        content: String::from(content),
        host: String::from(host),
    }
}

#[test]
fn empty_batch_is_header_only() {
    let out = records_to_csv(&Vec::new());
    assert_eq!(out, "Timestamp,Url,Selector,Content,Host\n");
}

#[test]
fn one_plain_record_exact_text() {
    let records = vec![rec(42, "https://a.test/x", "p", "Hello world", "a.test")];
    let out = records_to_csv(&records);
    assert_eq!(
        out,
        "Timestamp,Url,Selector,Content,Host\n42,https://a.test/x,p,Hello world,a.test\n"
    );
}

#[test]
fn quoting_exact_text() {
    let records = vec![rec(0, "u", "s", "a,\"b\nc", "h")];
    let out = records_to_csv(&records);
    assert_eq!(out, "Timestamp,Url,Selector,Content,Host\n0,u,s,\"a,\"\"b\nc\",h\n");
}

#[test]
fn u64_decimal_digits() {
    assert_eq!(u64_to_string(0), "0");
    assert_eq!(u64_to_string(10), "10");
    assert_eq!(u64_to_string(18446744073709551615), "18446744073709551615");
}

#[test]
fn round_trip_three_records() {
    let records = vec![
        rec(1700000001, "https://a.test/page?q=1,2", "div p", "plain content", "a.test"),
        rec(2, "https://b.test/", "p", "comma, \"quote\" and\nnewline\r!", "b.test"),
        rec(18446744073709551615, "u", "s", "", "h"),
    ];
    let out = records_to_csv(&records);
    let back = records_from_csv(&out).unwrap();
    assert_eq!(back.len(), records.len());
    for (a, b) in records.iter().zip(back.iter()) {
        assert_eq!(a.timestamp, b.timestamp);
        assert_eq!(a.url, b.url);
        assert_eq!(a.selector, b.selector);
        assert_eq!(a.content, b.content);
        assert_eq!(a.host, b.host);
    }
}

#[test]
fn malformed_text_is_rejected() {
    assert!(records_from_csv("garbage").is_err());
    assert!(records_from_csv("Timestamp,Url,Selector,Content\n").is_err());
    // a row with a non-numeric timestamp
    assert!(records_from_csv("Timestamp,Url,Selector,Content,Host\nx,u,s,c,h\n").is_err());
    // a row with too few fields
    assert!(records_from_csv("Timestamp,Url,Selector,Content,Host\n1,u,s,c\n").is_err());
    // an unterminated quoted field
    assert!(records_from_csv("Timestamp,Url,Selector,Content,Host\n1,\"u,s,c,h\n").is_err());
}

#[test]
fn csv_reader_reads_our_output() {
    let records = vec![
        rec(7, "https://a.test/", "p", "with, comma and \"quotes\"", "a.test"),
        rec(8, "https://b.test/", "h1", "line\nbreak", "b.test"),
    ];
    let out = records_to_csv(&records);
    let mut reader = csv::Reader::from_reader(out.as_bytes());
    let headers = reader.headers().unwrap().clone();
    assert_eq!(
        headers,
        csv::StringRecord::from(vec!["Timestamp", "Url", "Selector", "Content", "Host"])
    );
    let rows: Vec<csv::StringRecord> = reader.records().map(|r| r.unwrap()).collect();
    assert_eq!(rows.len(), 2);
    assert_eq!(&rows[0][0], "7");
    assert_eq!(&rows[0][3], "with, comma and \"quotes\"");
    assert_eq!(&rows[1][3], "line\nbreak");
    assert_eq!(&rows[1][4], "b.test");
}
