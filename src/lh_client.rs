//! The client of one auditing backend instance.
use vstd::prelude::*;
use vstd::string::*;

verus! {

/// `reqwest::Url`, carried unopened from parsing to the request.
#[verifier::external_type_specification]
#[verifier::external_body]
pub struct ExUrl(reqwest::Url);

/// Whether `text` parses as an absolute URL.
pub uninterp spec fn url_parses(text: Seq<char>) -> bool;

/// Relies on `reqwest::Url::parse` (the `url` crate's parser): whether a text
/// parses depends on the text alone.
#[verifier::external_body]
fn parse_url(text: &str) -> (r: Option<reqwest::Url>)
    ensures
        r is Some <==> url_parses(text@),
{
    reqwest::Url::parse(text).ok()
}

/// The `/report` endpoint of one backend instance.
pub struct LighthouseClient {
    report_url: reqwest::Url,
}

/// The address of the report endpoint under a backend base address.
pub open spec fn report_address(api_url: Seq<char>) -> Seq<char> {
    api_url + "/report"@
}

impl LighthouseClient {
    /// A client for the backend at `api_url`; `None` when `api_url` followed
    /// by `/report` is not an absolute URL.
    pub fn new(api_url: &String) -> (r: Option<LighthouseClient>)
        ensures
            r is Some <==> url_parses(report_address(api_url@)),
    {
        let address = api_url.clone().concat("/report");
        match parse_url(address.as_str()) {
            Some(report_url) => Some(LighthouseClient { report_url }),
            None => None,
        }
    }

    /// The endpoint that measurement requests are posted to.
    pub fn report_url(&self) -> &reqwest::Url {
        &self.report_url
    }
}

} // verus!
