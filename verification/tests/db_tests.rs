use web_scrap_cli::db::{
    _drop_table, create_selector_record_table, get_col_names, get_db_table_names, get_row_count,
    get_selector_records_from_table, is_valid_table_name, open_connection,
    save_selector_records_to_db,
};
use web_scrap_cli::errors::ScrapeError;
use web_scrap_cli::record::{get_timestamp_now, SelectorRecord};

#[test]
fn test_save_selector_records_to_db() {
    let mut conn = open_connection("/tmp/web_scrap_cli_test.db").unwrap();
    let table = &"selector_record_test";

    match conn.execute(format!("DROP TABLE IF EXISTS {}", table).as_str(), []) {
        Ok(_updated) => println!("'{}' has been dropped", table),
        Err(err) => panic!("DROP TABLE failed: {}", err),
    }

    let mut records: Vec<SelectorRecord> = Vec::new();
    records.push(
        SelectorRecord::new(
            get_timestamp_now(),
            String::from(r"http:\\www.test.fr"),
            String::from("a"),
            String::from("blablabla"),
        )
        .unwrap(),
    );
    records.push(
        SelectorRecord::new(
            get_timestamp_now(),
            String::from(r"http:\\www.test-other.fr"),
            String::from("p"),
            String::from("bliblibli"),
        )
        .unwrap(),
    );

    save_selector_records_to_db(&mut conn, table, &records).unwrap();
    let row_count = get_row_count(&conn, table).unwrap();
    assert_eq!(row_count, 2, "{:?}", row_count);

    _drop_table(&mut conn, table).unwrap();
}

#[test]
fn schema_creation_is_idempotent() {
    let mut conn = rusqlite::Connection::open_in_memory().unwrap();
    let table = "selector_record";
    create_selector_record_table(&mut conn, table).unwrap();
    let cols_first = get_col_names(&conn, table).unwrap();

    let records = vec![SelectorRecord::new(
        11,
        String::from("https://a.test/p"),
        String::from("p"),
        String::from("kept content"),
    )
    .unwrap()];
    save_selector_records_to_db(&mut conn, table, &records).unwrap();

    // invoking schema creation again: no error, no altered schema, no lost rows
    create_selector_record_table(&mut conn, table).unwrap();
    let cols_second = get_col_names(&conn, table).unwrap();
    assert_eq!(cols_first, cols_second);
    assert_eq!(cols_first, vec!["id", "timestamp", "url", "selector", "content", "host"]);
    assert_eq!(get_row_count(&conn, table).unwrap(), 1);
}

#[test]
fn rows_read_back_in_insertion_order() {
    let mut conn = rusqlite::Connection::open_in_memory().unwrap();
    let table = "selector_record";
    let records = vec![
        SelectorRecord::new(
            1,
            String::from("https://a.test/one"),
            String::from("p"),
            String::from("first content"),
        )
        .unwrap(),
        SelectorRecord::new(
            2,
            String::from("https://b.test/two"),
            String::from("h1"),
            String::from("second content"),
        )
        .unwrap(),
    ];
    save_selector_records_to_db(&mut conn, table, &records).unwrap();
    let back = get_selector_records_from_table(&conn, table).unwrap();
    assert_eq!(back.len(), 2);
    assert_eq!(back[0].timestamp, 1);
    assert_eq!(back[0].url, "https://a.test/one");
    assert_eq!(back[0].selector, "p");
    assert_eq!(back[0].content, "first content");
    // the host is re-derived from the stored url
    assert_eq!(back[0].host, "a.test");
    assert_eq!(back[1].host, "b.test");

    let names = get_db_table_names(&conn).unwrap();
    assert_eq!(names, vec!["selector_record"]);
}

#[test]
fn failed_batch_leaves_other_tables_alone() {
    let mut conn = rusqlite::Connection::open_in_memory().unwrap();
    let good = "selector_record";
    let records = vec![SelectorRecord::new(
        5,
        String::from("https://a.test/"),
        String::from("p"),
        String::from("kept content"),
    )
    .unwrap()];
    save_selector_records_to_db(&mut conn, good, &records).unwrap();

    // a view occupies the target name: schema creation is a no-op and the
    // insert fails, so the batch is a persistence failure, rolled back
    conn.execute_batch("CREATE VIEW blocked AS SELECT 1 AS x;").unwrap();
    let err = save_selector_records_to_db(&mut conn, "blocked", &records).unwrap_err();
    assert!(matches!(err, ScrapeError::PersistenceFailure));

    // the earlier batch is untouched, and the connection still works
    assert_eq!(get_row_count(&conn, good).unwrap(), 1);
    save_selector_records_to_db(&mut conn, good, &records).unwrap();
    assert_eq!(get_row_count(&conn, good).unwrap(), 2);
}

#[test]
fn table_names_must_be_plain_lowercase_identifiers() {
    assert!(is_valid_table_name("selector_record"));
    assert!(is_valid_table_name("t1"));
    assert!(!is_valid_table_name(""));
    assert!(!is_valid_table_name("no such table!"));
    assert!(!is_valid_table_name("Selector_Record"));
    assert!(!is_valid_table_name("1table"));
    assert!(!is_valid_table_name("_table"));
    assert!(!is_valid_table_name("t\"able"));
}

#[test]
fn table_listing_is_exact_and_in_schema_order() {
    let mut conn = rusqlite::Connection::open_in_memory().unwrap();
    assert_eq!(get_db_table_names(&conn).unwrap(), Vec::<String>::new());
    create_selector_record_table(&mut conn, "alpha").unwrap();
    create_selector_record_table(&mut conn, "beta").unwrap();
    assert_eq!(get_db_table_names(&conn).unwrap(), vec!["alpha", "beta"]);
    // a view is not a user table and is not listed
    conn.execute_batch("CREATE VIEW a_view AS SELECT 1 AS x;").unwrap();
    assert_eq!(get_db_table_names(&conn).unwrap(), vec!["alpha", "beta"]);
    _drop_table(&mut conn, "alpha").unwrap();
    assert_eq!(get_db_table_names(&conn).unwrap(), vec!["beta"]);
}

#[test]
fn absent_table_is_an_error_and_has_no_columns() {
    let mut conn = rusqlite::Connection::open_in_memory().unwrap();
    assert!(get_row_count(&conn, "absent").is_err());
    assert!(get_selector_records_from_table(&conn, "absent").is_err());
    // an unoccupied name has the empty column list
    assert_eq!(get_col_names(&conn, "absent").unwrap(), Vec::<String>::new());
    create_selector_record_table(&mut conn, "selector_record").unwrap();
    assert_eq!(get_row_count(&conn, "selector_record").unwrap(), 0);
}
