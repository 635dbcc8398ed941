//! Run configuration: the resolved list of scrape targets and the output
//! destinations. Argument parsing, the YAML file and the environment are
//! read outside the core; their results are handed in as plain values.

use vstd::prelude::*;

use crate::errors::ScrapeError;

verus! {

/// One scrape target: a URL and the CSS selector to apply to the fetched
/// document.
#[derive(Debug)]
pub struct UrlSelectorPair {
    pub url: String,
    pub selector: String,
}

/// The mathematical view of a target.
#[verifier::ext_equal]
pub struct UrlSelectorPairV {
    pub url: Seq<char>,
    pub selector: Seq<char>,
}

impl View for UrlSelectorPair {
    type V = UrlSelectorPairV;

    open spec fn view(&self) -> UrlSelectorPairV {
        UrlSelectorPairV { url: self.url@, selector: self.selector@ }
    }
}

impl DeepView for UrlSelectorPair {
    type V = UrlSelectorPairV;

    open spec fn deep_view(&self) -> UrlSelectorPairV {
        self.view()
    }
}

impl Clone for UrlSelectorPair {
    fn clone(&self) -> (r: Self)
        ensures
            r@ == self@,
    {
        UrlSelectorPair { url: self.url.clone(), selector: self.selector.clone() }
    }
}

/// The command-line arguments, as plain values: an optional single
/// URL/selector pair, an optional YAML configuration file path, the
/// output destinations and the table name.
#[derive(Debug)]
pub struct Args {
    pub url: Option<String>,
    pub selector: Option<String>,
    pub yaml_cfg: Option<String>,
    pub db: Option<String>,
    pub table: String,
    pub to_csv: bool,
}

/// The resolved configuration one run works from.
#[derive(Debug)]
pub struct Config {
    pub url_selectors: Vec<UrlSelectorPair>,
    pub save_to_csv: bool,
    pub db_path: Option<String>,
    pub table: String,
    pub env_arg1: bool,
}

fn clone_pairs(pairs: &Vec<UrlSelectorPair>) -> (r: Vec<UrlSelectorPair>)
    ensures
        r.deep_view() == pairs.deep_view(),
{
    let mut out: Vec<UrlSelectorPair> = Vec::new();
    let n = pairs.len();
    let mut i: usize = 0;
    while i < n
        invariant
            0 <= i <= n,
            n == pairs@.len(),
            out.deep_view().len() == i,
            forall|j: int| 0 <= j < i ==> out.deep_view()[j] == pairs.deep_view()[j],
        decreases n - i,
    {
        out.push(pairs[i].clone());
        i = i + 1;
    }
    proof {
        assert(out.deep_view() =~= pairs.deep_view());
    }
    out
}

fn clone_opt_string(o: &Option<String>) -> (r: Option<String>)
    ensures
        r.deep_view() == o.deep_view(),
{
    match o {
        Some(s) => Some(s.clone()),
        None => None,
    }
}

impl Config {
    /// Builds a configuration from resolved targets. The environment
    /// flag is read once by the caller and handed in as a plain value.
    pub fn new(
        url_selectors: &Vec<UrlSelectorPair>,
        save_to_csv: &bool,
        db_path: &Option<String>,
        table: &String,
        env_arg1: bool,
    ) -> (r: Config)
        ensures
            r.url_selectors.deep_view() == url_selectors.deep_view(),
            r.save_to_csv == *save_to_csv,
            r.db_path.deep_view() == db_path.deep_view(),
            r.table@ == table@,
            r.env_arg1 == env_arg1,
    {
        Config {
            url_selectors: clone_pairs(url_selectors),
            save_to_csv: *save_to_csv,
            db_path: clone_opt_string(db_path),
            table: table.clone(),
            env_arg1,
        }
    }
}

impl Args {
    /// Resolves the configuration. When the arguments name a YAML file,
    /// the caller reads it and hands the resolved pairs in as
    /// `yaml_pairs`; those targets then use the default table name.
    /// Otherwise the single URL/selector pair of the arguments is the one
    /// target, and a missing URL or selector means no usable target at
    /// all: a configuration error.
    pub fn build_config(&self, yaml_pairs: Option<Vec<UrlSelectorPair>>, env_arg1: bool) -> (r:
        Result<Config, ScrapeError>)
        ensures
            match r {
                Ok(c) => {
                    &&& c.save_to_csv == self.to_csv
                    &&& c.db_path.deep_view() == self.db.deep_view()
                    &&& c.env_arg1 == env_arg1
                    &&& match yaml_pairs {
                        Some(pairs) => c.url_selectors.deep_view() == pairs.deep_view()
                            && c.table@ == "selector_record"@,
                        None => {
                            &&& self.url is Some
                            &&& self.selector is Some
                            &&& c.url_selectors.deep_view().len() == 1
                            &&& c.url_selectors.deep_view()[0].url == self.url->Some_0@
                            &&& c.url_selectors.deep_view()[0].selector == self.selector->Some_0@
                            &&& c.table@ == self.table@
                        },
                    }
                },
                Err(e) => {
                    &&& e == ScrapeError::ConfigurationError
                    &&& yaml_pairs is None
                    &&& (self.url is None || self.selector is None)
                },
            },
    {
        match yaml_pairs {
            Some(pairs) => {
                let table = String::from_str("selector_record");
                Ok(Config::new(&pairs, &self.to_csv, &self.db, &table, env_arg1))
            },
            None => {
                let url = match &self.url {
                    Some(u) => u.clone(),
                    None => {
                        return Err(ScrapeError::ConfigurationError);
                    },
                };
                let selector = match &self.selector {
                    Some(s) => s.clone(),
                    None => {
                        return Err(ScrapeError::ConfigurationError);
                    },
                };
                let mut pairs: Vec<UrlSelectorPair> = Vec::new();
                pairs.push(UrlSelectorPair { url, selector });
                Ok(Config::new(&pairs, &self.to_csv, &self.db, &self.table, env_arg1))
            },
        }
    }
}

} // verus!
