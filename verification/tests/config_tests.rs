use web_scrap_cli::config::{Args, Config, UrlSelectorPair};
use web_scrap_cli::errors::ScrapeError;

fn args(url: Option<&str>, selector: Option<&str>) -> Args {
    Args {
        url: url.map(String::from),
        selector: selector.map(String::from),
        yaml_cfg: None,
        db: Some(String::from("out.db")),
        table: String::from("my_table"),
        to_csv: true,
    }
}

#[test]
fn config_from_single_pair() {
    let a = args(Some("https://www.google.fr"), Some("div"));
    let config = a.build_config(None, true).unwrap();
    assert_eq!(config.url_selectors.len(), 1);
    assert_eq!(config.url_selectors[0].url, "https://www.google.fr");
    assert_eq!(config.url_selectors[0].selector, "div");
    assert_eq!(config.table, "my_table");
    assert!(config.save_to_csv);
    assert_eq!(config.db_path.as_deref(), Some("out.db"));
    assert!(config.env_arg1);
}

#[test]
fn config_from_resolved_yaml_pairs() {
    let a = args(None, None);
    let pairs = vec![
        UrlSelectorPair { url: String::from("https://www.google.fr"), selector: String::from("div") },
        UrlSelectorPair { url: String::from("https://a.test"), selector: String::from("p") },
    ];
    let config = a.build_config(Some(pairs), false).unwrap();
    assert_eq!(config.url_selectors.len(), 2);
    assert_eq!(config.url_selectors[1].url, "https://a.test");
    // targets resolved from a file use the default table name
    assert_eq!(config.table, "selector_record");
    assert!(!config.env_arg1);
}

#[test]
fn no_usable_target_is_a_configuration_error() {
    let a = args(None, None);
    let err = a.build_config(None, true).unwrap_err();
    assert!(matches!(err, ScrapeError::ConfigurationError));
    let b = args(Some("https://a.test"), None);
    assert!(b.build_config(None, true).is_err());
}

#[test]
fn config_new_copies_all_fields() {
    let pairs = vec![UrlSelectorPair {
        url: String::from("https://a.test"),
        selector: String::from("p"),
    }];
    let config = Config::new(
        &pairs,
        &false,
        &None,
        &String::from("selector_record"),
        false,
    );
    assert_eq!(config.url_selectors.len(), 1);
    assert_eq!(config.url_selectors[0].selector, "p");
    assert!(!config.save_to_csv);
    assert!(config.db_path.is_none());
    assert_eq!(config.table, "selector_record");
}
