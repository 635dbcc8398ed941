//! Record builder: combines a kept string with timestamp, source URL,
//! selector and derived host into an immutable output record.

use vstd::prelude::*;

use crate::errors::ScrapeError;

verus! {

/// One extracted content item with its provenance: when it was fetched,
/// from which URL, through which selector, and the URL's host.
#[derive(Debug, Clone)]
pub struct SelectorRecord {
    pub timestamp: u64,
    pub url: String,
    pub selector: String,
    pub content: String,
    pub host: String,
}

/// The mathematical view of a record: plain values only.
#[verifier::ext_equal]
pub struct SelectorRecordV {
    pub timestamp: u64,
    pub url: Seq<char>,
    pub selector: Seq<char>,
    pub content: Seq<char>,
    pub host: Seq<char>,
}

impl View for SelectorRecord {
    type V = SelectorRecordV;

    open spec fn view(&self) -> SelectorRecordV {
        SelectorRecordV {
            timestamp: self.timestamp,
            url: self.url@,
            selector: self.selector@,
            content: self.content@,
            host: self.host@,
        }
    }
}

/// The host component that URL parsing derives from a URL string, or
/// `None` when the string is not a URL with a host. The result is a
/// function of the string alone.
pub uninterp spec fn host_of(url: Seq<char>) -> Option<Seq<char>>;

/// Relies on url's `Url::parse` and `Url::host`: parses the string as a
/// URL and renders its host component; deterministic in the string alone.
#[verifier::external_body]
fn parse_host(url: &str) -> (r: Option<String>)
    ensures
        match r {
            Some(h) => host_of(url@) == Some(h@),
            None => host_of(url@) is None,
        },
{
    match url::Url::parse(url) {
        Ok(u) => match u.host() {
            Some(h) => Some(h.to_string()),
            None => None,
        },
        Err(_) => None,
    }
}

/// Derives the host from a URL string; `InvalidUrl` exactly when the
/// string has no parseable host.
pub fn get_host_from_url(url: &str) -> (r: Result<String, ScrapeError>)
    ensures
        match r {
            Ok(h) => host_of(url@) == Some(h@),
            Err(e) => e == ScrapeError::InvalidUrl && host_of(url@) is None,
        },
{
    match parse_host(url) {
        Some(h) => Ok(h),
        None => Err(ScrapeError::InvalidUrl),
    }
}

impl SelectorRecord {
    /// Builds a record, deriving the host from `url`. Fails with
    /// `InvalidUrl` exactly when the URL has no parseable host; no record
    /// is produced then.
    pub fn new(timestamp: u64, url: String, selector: String, content: String) -> (r: Result<
        SelectorRecord,
        ScrapeError,
    >)
        ensures
            match r {
                Ok(rec) => {
                    &&& host_of(url@) == Some(rec@.host)
                    &&& rec@.timestamp == timestamp
                    &&& rec@.url == url@
                    &&& rec@.selector == selector@
                    &&& rec@.content == content@
                },
                Err(e) => e == ScrapeError::InvalidUrl && host_of(url@) is None,
            },
    {
        match get_host_from_url(url.as_str()) {
            Ok(host) => Ok(SelectorRecord { timestamp, url, selector, content, host }),
            Err(e) => Err(e),
        }
    }
}

/// Relies on std's `SystemTime::now`, `duration_since` and `as_secs`:
/// seconds since the Unix epoch, or 0 if the clock reads before the epoch.
/// Nothing is promised of the value.
#[verifier::external_body]
pub fn get_timestamp_now() -> u64 {
    std::time::SystemTime::now().duration_since(std::time::UNIX_EPOCH).map(
        |d| d.as_secs(),
    ).unwrap_or(0)
}

} // verus!
