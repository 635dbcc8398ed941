use web_scrap_cli::config::UrlSelectorPair;
use web_scrap_cli::db::get_row_count;
use web_scrap_cli::db::get_selector_records_from_table;
use web_scrap_cli::flatfile::records_from_csv;
use web_scrap_cli::pipeline::{handle_records, run, FetchOutcome, TargetStatus};
use web_scrap_cli::record::SelectorRecord;

fn target(url: &str, selector: &str) -> UrlSelectorPair {
    UrlSelectorPair { url: String::from(url), selector: String::from(selector) }
}

const BODY: &str = "<html><body><p>Hello world</p><h1>Hi</h1></body></html>";

#[test]
fn end_to_end_two_targets_one_record() {
    let outcomes = vec![
        FetchOutcome { target: target("https://a.test", "p"), body: Ok(String::from(BODY)) },
        FetchOutcome { target: target("https://a.test", "h1"), body: Ok(String::from(BODY)) },
    ];
    let mut conn = Some(rusqlite::Connection::open_in_memory().unwrap());
    let reports = run(&outcomes, &mut conn, "selector_record", false, 100);

    assert_eq!(reports.len(), 2);
    // "Hello world" begins with four letters and is kept; "Hi" is too short
    assert!(matches!(reports[0].status, TargetStatus::Handled));
    assert_eq!(reports[0].records.len(), 1);
    assert_eq!(reports[0].records[0].selector, "p");
    assert_eq!(reports[0].records[0].content, "Hello world");
    assert!(matches!(reports[1].status, TargetStatus::EmptyBatch));

    let conn = conn.unwrap();
    assert_eq!(get_row_count(&conn, "selector_record").unwrap(), 1);
    let stored = get_selector_records_from_table(&conn, "selector_record").unwrap();
    assert_eq!(stored.len(), 1);
    assert_eq!(stored[0].selector, "p");
    assert_eq!(stored[0].content, "Hello world");
    assert_eq!(stored[0].host, "a.test");
}

#[test]
fn fetch_failure_does_not_block_sibling() {
    let outcomes = vec![
        FetchOutcome {
            target: target("https://down.test", "p"),
            body: Err(String::from("connection refused")),
        },
        FetchOutcome { target: target("https://a.test", "p"), body: Ok(String::from(BODY)) },
    ];
    let mut conn = Some(rusqlite::Connection::open_in_memory().unwrap());
    let reports = run(&outcomes, &mut conn, "selector_record", false, 100);

    assert!(matches!(reports[0].status, TargetStatus::FetchFailed));
    assert!(reports[0].records.is_empty());
    assert!(matches!(reports[1].status, TargetStatus::Handled));

    // the sibling's batch was persisted all the same
    let conn = conn.unwrap();
    assert_eq!(get_row_count(&conn, "selector_record").unwrap(), 1);
    let stored = get_selector_records_from_table(&conn, "selector_record").unwrap();
    assert_eq!(stored[0].content, "Hello world");
}

#[test]
fn invalid_selector_skips_only_its_target() {
    let outcomes = vec![
        FetchOutcome { target: target("https://a.test", "p[??"), body: Ok(String::from(BODY)) },
        FetchOutcome { target: target("https://a.test", "p"), body: Ok(String::from(BODY)) },
    ];
    let mut conn = Some(rusqlite::Connection::open_in_memory().unwrap());
    let reports = run(&outcomes, &mut conn, "selector_record", false, 100);
    assert!(matches!(reports[0].status, TargetStatus::SelectorInvalid));
    assert!(matches!(reports[1].status, TargetStatus::Handled));
    assert_eq!(get_row_count(&conn.unwrap(), "selector_record").unwrap(), 1);
}

#[test]
fn csv_files_are_named_per_target_and_hold_the_batch() {
    let outcomes = vec![
        FetchOutcome { target: target("https://a.test", "p"), body: Ok(String::from(BODY)) },
        FetchOutcome { target: target("https://b.test", "p"), body: Ok(String::from(BODY)) },
    ];
    let mut conn = None;
    let reports = run(&outcomes, &mut conn, "selector_record", true, 1234);

    let f0 = reports[0].csv.as_ref().unwrap();
    let f1 = reports[1].csv.as_ref().unwrap();
    assert_eq!(f0.name, "selector_items_1234_0.csv");
    assert_eq!(f1.name, "selector_items_1234_1.csv");

    let back = records_from_csv(&f0.content).unwrap();
    assert_eq!(back.len(), 1);
    assert_eq!(back[0].content, "Hello world");
    assert_eq!(back[0].host, "a.test");
    let back1 = records_from_csv(&f1.content).unwrap();
    assert_eq!(back1[0].host, "b.test");
}

#[test]
fn handle_records_without_sinks_does_nothing() {
    let records = vec![SelectorRecord::new(
        3,
        String::from("https://a.test/"),
        String::from("p"),
        String::from("kept content"),
    )
    .unwrap()];
    let mut conn = None;
    let (csv, dbres) = handle_records(&records, &mut conn, "selector_record", false, "3_0");
    assert!(csv.is_none());
    assert!(dbres.is_ok());
}
