//! The retrieval of one contract, step by step: which page or answer has
//! to be fetched next.

use crate::address::{
    address_at, address_in, address_len, address_selector, first_address_at, has_address,
    lemma_first_address_exists, scraped_address,
};
use crate::apidb::{ApiDB, EntryValue};
use crate::html::{first_texts, selected, Selection, PAGE_LIMIT};
use crate::models::ParseError;
use crate::router::request_for;
use vstd::prelude::*;

verus! {

/// The pipeline's functions.
pub struct Parser;

/// What has to be fetched next for one retrieval.
#[derive(Debug)]
pub enum Request {
    /// The contract page at this URL, for the address it shows.
    Page(String),
    /// The explorer's answer at `url`, for the contract at `address`.
    Source { address: String, url: String },
}

/// The mathematical value of a request.
pub enum RequestValue {
    Page(Seq<char>),
    Source { address: Seq<char>, url: Seq<char> },
}

impl View for Request {
    type V = RequestValue;

    open spec fn view(&self) -> RequestValue {
        match self {
            Request::Page(url) => RequestValue::Page(url@),
            Request::Source { address, url } => RequestValue::Source {
                address: address@,
                url: url@,
            },
        }
    }
}

/// A result with the request it holds as a value.
pub open spec fn request_result(r: Result<Request, ParseError>) -> Result<
    RequestValue,
    ParseError,
> {
    match r {
        Ok(request) => Ok(request@),
        Err(e) => Err(e),
    }
}

/// The request for the sources of the contract at `address`.
pub open spec fn source_request(entries: Seq<EntryValue>, url: Seq<char>, address: Seq<char>) -> Result<
    RequestValue,
    ParseError,
> {
    match request_for(entries, url, address) {
        Ok(u) => Ok(RequestValue::Source { address: address, url: u }),
        Err(e) => Err(e),
    }
}

/// The first request of a retrieval: where the URL holds an address, the
/// request for the sources at that address, and no page is fetched; else
/// the contract page at the URL.
pub open spec fn first_request_of(entries: Seq<EntryValue>, url: Seq<char>) -> Result<
    RequestValue,
    ParseError,
> {
    match address_in(url) {
        Some(address) => source_request(entries, url, address),
        None => Ok(RequestValue::Page(url)),
    }
}

/// The request that follows the contract page: the one for the sources at
/// the address that the page shows. It is never a page again.
pub open spec fn request_after_page_of(
    entries: Seq<EntryValue>,
    url: Seq<char>,
    found: Selection,
) -> Result<RequestValue, ParseError> {
    match scraped_address(found) {
        Ok(address) => source_request(entries, url, address),
        Err(e) => Err(e),
    }
}

/// A URL that holds an address gives that address as it is written in
/// the URL, and its retrieval begins with the request for the sources: no
/// page is fetched for the address.
pub proof fn lemma_address_in_url_needs_no_page(entries: Seq<EntryValue>, url: Seq<char>)
    requires
        has_address(url),
    ensures
        exists|i: int|
            #[trigger] first_address_at(url, i) && address_in(url) == Some(
                url.subrange(i, i + address_len()),
            ),
        first_request_of(entries, url) == source_request(entries, url, address_in(url)->0),
        !(first_request_of(entries, url) matches Ok(RequestValue::Page(_))),
{
    let i = choose|i: int| address_at(url, i);
    lemma_first_address_exists(url, i);
    let first = choose|j: int| first_address_at(url, j);
    assert(first_address_at(url, first));
}

/// A URL that holds no address leads to exactly one page: the first
/// request is the URL's own page, and what follows the page is never a
/// page again. It is the request for the sources at the address that the
/// page shows, or a failure: `ScrapeError` where the page lacks the
/// address field.
pub proof fn lemma_url_without_address_fetches_one_page(
    entries: Seq<EntryValue>,
    url: Seq<char>,
    found: Selection,
)
    requires
        !has_address(url),
    ensures
        first_request_of(entries, url) == Ok::<RequestValue, ParseError>(RequestValue::Page(url)),
        !(request_after_page_of(entries, url, found) matches Ok(RequestValue::Page(_))),
        first_texts(found) is None ==> request_after_page_of(entries, url, found) == Err::<
            RequestValue,
            ParseError,
        >(ParseError::ScrapeError),
        scraped_address(found) matches Ok(address) ==> request_after_page_of(entries, url, found)
            == source_request(entries, url, address),
{
}

impl Parser {
    /// The request for the sources of the contract at `address`.
    fn request_sources(url: &str, address: String, apis: &ApiDB) -> (r: Result<Request, ParseError>)
        ensures
            request_result(r) == source_request(apis@, url@, address@),
    {
        match Parser::get_api_url(url, address.as_str(), apis) {
            Ok(u) => Ok(Request::Source { address: address, url: u }),
            Err(e) => Err(e),
        }
    }

    /// The first request of a retrieval. A URL that holds an address
    /// leads straight to the request for the sources at that address; any
    /// other URL leads to its own page, which shows the address.
    pub fn first_request(url: &str, apis: &ApiDB) -> (r: Result<Request, ParseError>)
        ensures
            request_result(r) == first_request_of(apis@, url@),
    {
        match Parser::get_contract_address(url) {
            Some(address) => Parser::request_sources(url, address, apis),
            None => Ok(Request::Page(url.to_owned())),
        }
    }

    /// The request that follows the contract page: the one for the
    /// sources at the address that the page shows. The page must be
    /// within `PAGE_LIMIT`.
    pub fn request_after_page(url: &str, body: &str, apis: &ApiDB) -> (r: Result<
        Request,
        ParseError,
    >)
        requires
            body@.len() <= PAGE_LIMIT,
        ensures
            request_result(r) == request_after_page_of(
                apis@,
                url@,
                selected(body@, address_selector()),
            ),
    {
        match Parser::scrape_contract_address(body) {
            Ok(address) => Parser::request_sources(url, address, apis),
            Err(e) => Err(e),
        }
    }
}

} // verus!
