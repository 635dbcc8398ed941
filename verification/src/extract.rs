//! Selector extractor: the text content of every node a CSS selector
//! matches in an HTML document, and the extraction-filter-build chain that
//! turns one fetched document into a batch of records.

use vstd::prelude::*;

use crate::errors::ScrapeError;
use crate::filter::{keep, keep_spec, normalize, normalize_spec};
use crate::record::{get_timestamp_now, host_of, SelectorRecord, SelectorRecordV};

verus! {

impl DeepView for SelectorRecord {
    type V = SelectorRecordV;

    open spec fn deep_view(&self) -> SelectorRecordV {
        self.view()
    }
}

/// Whether a selector string compiles as a CSS selector. A function of
/// the string alone.
pub uninterp spec fn selector_ok(selector: Seq<char>) -> bool;

/// The concatenated descendant text of each node the selector matches in
/// the document, in document order, one string per match. A function of
/// document and selector alone.
pub uninterp spec fn css_texts(document: Seq<char>, selector: Seq<char>) -> Seq<Seq<char>>;

/// The `href` attribute of each anchor element of the document, in
/// document order. A function of the document alone.
pub uninterp spec fn links_of(document: Seq<char>) -> Seq<Seq<char>>;

/// Relies on scraper's `Html::parse_document`, `Selector::parse`,
/// `Html::select` and `ElementRef::text`: parses the document, compiles
/// the selector, and collects each match's descendant text in document
/// order; `None` exactly when the selector does not compile.
#[verifier::external_body]
fn select_texts(content: &str, selector: &str) -> (r: Option<Vec<String>>)
    ensures
        match r {
            Some(v) => selector_ok(selector@) && v.deep_view() == css_texts(
                content@,
                selector@,
            ),
            None => !selector_ok(selector@),
        },
{
    let sel = match scraper::Selector::parse(selector) {
        Ok(s) => s,
        Err(_) => {
            return None;
        },
    };
    let html = scraper::Html::parse_document(content);
    Some(html.select(&sel).map(|item| item.text().collect::<String>()).collect())
}

/// Relies on select's `Document::from`, `find` with `Name("a")` and
/// `Node::attr("href")`: the link targets of the document's anchor
/// elements, in document order.
#[verifier::external_body]
pub fn extract_all_links(content: &str) -> (r: Vec<String>)
    ensures
        r.deep_view() == links_of(content@),
{
    select::document::Document::from(content).find(select::predicate::Name("a")).filter_map(
        |n| n.attr("href"),
    ).map(String::from).collect()
}

/// Extracts the text of every selector match: exactly one string per
/// matched node, in document order; an empty match set yields an empty
/// vector, never an error. `InvalidSelector` exactly when the selector
/// does not compile.
pub fn get_css_selector_items(content: &str, selector: &str) -> (r: Result<
    Vec<String>,
    ScrapeError,
>)
    ensures
        match r {
            Ok(v) => selector_ok(selector@) && v.deep_view() == css_texts(
                content@,
                selector@,
            ),
            Err(e) => e == ScrapeError::InvalidSelector && !selector_ok(selector@),
        },
{
    match select_texts(content, selector) {
        Some(v) => Ok(v),
        None => Err(ScrapeError::InvalidSelector),
    }
}

/// The records a batch holds, given the extracted strings: each string
/// that passes the filter yields one record with normalized content and
/// the host derived from `url`, in extraction order; strings failing the
/// filter are dropped, and a URL with no derivable host yields no record.
pub open spec fn filtered_records_spec(
    texts: Seq<Seq<char>>,
    url: Seq<char>,
    selector: Seq<char>,
    timestamp: u64,
) -> Seq<SelectorRecordV>
    decreases texts.len(),
{
    if texts.len() == 0 {
        Seq::<SelectorRecordV>::empty()
    } else {
        filtered_records_spec(texts.drop_last(), url, selector, timestamp) + (if keep_spec(
            texts.last(),
        ) && host_of(url) is Some {
            seq![
                SelectorRecordV {
                    timestamp,
                    url,
                    selector,
                    content: normalize_spec(texts.last()),
                    host: host_of(url)->Some_0,
                },
            ]
        } else {
            Seq::<SelectorRecordV>::empty()
        })
    }
}

/// Runs the content filter over extracted strings and builds one record
/// per survivor, all sharing one timestamp.
pub fn build_records(
    texts: &Vec<String>,
    url: &str,
    selector: &str,
    timestamp: u64,
) -> (r: Vec<SelectorRecord>)
    ensures
        r.deep_view() == filtered_records_spec(texts.deep_view(), url@, selector@, timestamp),
{
    let mut out: Vec<SelectorRecord> = Vec::new();
    let n = texts.len();
    proof {
        assert(texts.deep_view().take(0) =~= Seq::<Seq<char>>::empty());
        assert(out.deep_view() =~= Seq::<SelectorRecordV>::empty());
    }
    let mut i: usize = 0;
    while i < n
        invariant
            0 <= i <= n,
            n == texts@.len(),
            texts.deep_view().len() == n,
            out.deep_view() == filtered_records_spec(
                texts.deep_view().take(i as int),
                url@,
                selector@,
                timestamp,
            ),
        decreases n - i,
    {
        proof {
            assert(texts.deep_view().take(i as int + 1).drop_last() =~= texts.deep_view().take(
                i as int,
            ));
            assert(texts.deep_view().take(i as int + 1).last() == texts.deep_view()[i as int]);
            assert(texts.deep_view()[i as int] == texts@[i as int]@);
        }
        let item = &texts[i];
        if keep(item.as_str()) {
            let cleaned = normalize(item.as_str());
            match SelectorRecord::new(timestamp, url.to_owned(), selector.to_owned(), cleaned) {
                Ok(rec) => {
                    out.push(rec);
                },
                Err(_) => {
                    // the URL has no derivable host: this string yields no record
                },
            }
        }
        i = i + 1;
    }
    proof {
        assert(texts.deep_view().take(n as int) =~= texts.deep_view());
    }
    out
}

/// The extraction-filter-build chain for one fetched document: extract
/// all selector matches, keep the ones that look like content, normalize
/// them, and build records sharing one timestamp taken once per fetch.
/// `InvalidSelector` exactly when the selector does not compile.
pub fn extract_selector_records(content: &str, valid_url: &str, selector: &str) -> (r: Result<
    Vec<SelectorRecord>,
    ScrapeError,
>)
    ensures
        match r {
            Ok(records) => selector_ok(selector@) && exists|ts: u64|
                records.deep_view() == filtered_records_spec(
                    css_texts(content@, selector@),
                    valid_url@,
                    selector@,
                    ts,
                ),
            Err(e) => e == ScrapeError::InvalidSelector && !selector_ok(selector@),
        },
{
    let timestamp = get_timestamp_now();
    match get_css_selector_items(content, selector) {
        Ok(texts) => {
            let records = build_records(&texts, valid_url, selector, timestamp);
            proof {
                assert(records.deep_view() == filtered_records_spec(
                    css_texts(content@, selector@),
                    valid_url@,
                    selector@,
                    timestamp,
                ));
            }
            Ok(records)
        },
        Err(e) => Err(e),
    }
}

} // verus!
