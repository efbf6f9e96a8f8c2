//! The scrape operation: from the address of a page to a recipe draft.
//!
//! The library decides and computes; the caller performs the one network
//! fetch in between. [`plan_fetch`] turns the encoded address into a fetch
//! request, the caller fetches, and [`complete_scrape`] turns what came
//! back into a draft or into the error that the operation ends with.

use vstd::prelude::*;
use std::string::FromUtf8Error;
use crate::document::{NodeView, ParsedDocument, parsed_html};
use crate::draft::{RecipeDraft, RecipeDraftView, assemble, assembled};
use crate::lists::{extract_lists, ingredients_of, steps_of};
use crate::metadata::{extract_metadata, metadata_of};
use crate::timings::{extract_timings, timings_of};

verus! {

// ---------------------------------------------------------------------
// From a parsed page to a draft
// ---------------------------------------------------------------------

/// The draft of a page: the outputs of the three extractors, merged.
pub open spec fn draft_of(doc: Seq<NodeView>) -> RecipeDraftView {
    assembled(metadata_of(doc), ingredients_of(doc), steps_of(doc), timings_of(doc))
}

/// Runs the three extractors over the page and assembles the draft. The
/// page is only read. Each run on the same page gives the same draft.
pub fn extract_draft(doc: &ParsedDocument) -> (draft: RecipeDraft)
    ensures
        draft@ == draft_of(doc@),
{
    let metadata = extract_metadata(doc);
    let (ingredients, steps) = extract_lists(doc);
    let timings = extract_timings(doc);
    assemble(metadata, ingredients, steps, timings)
}

/// Extracts the recipe draft from the text of a page. Never fails: a page
/// on which nothing is found gives the empty draft.
pub fn scrape_recipe_content(html: &str) -> (draft: RecipeDraft)
    ensures
        draft@ == draft_of(parsed_html(html@)),
{
    let doc = ParsedDocument::parse(html);
    extract_draft(&doc)
}

/// Two runs over the same page give the same draft.
pub proof fn lemma_extraction_is_repeatable(
    doc: Seq<NodeView>,
    first: RecipeDraftView,
    second: RecipeDraftView,
)
    requires
        first == draft_of(doc),
        second == draft_of(doc),
    ensures
        first == second,
{
}

// ---------------------------------------------------------------------
// Errors
// ---------------------------------------------------------------------

/// Why a fetch gave no page.
#[derive(Clone, Copy, Debug, PartialEq, Eq)]
pub enum FetchFailure {
    /// The request could not be sent or the reply could not be read.
    Network,
    /// The server answered with a status outside the success range.
    Status(u16),
    /// No reply came within the time limit.
    Timeout,
}

/// Why a scrape operation gave no draft.
#[derive(Clone, Copy, Debug, PartialEq, Eq)]
pub enum ScrapeError {
    /// The address is not validly percent-encoded.
    Decode,
    /// The page could not be retrieved.
    Fetch(FetchFailure),
}

impl ScrapeError {
    /// The message that a user sees for this error.
    pub fn message(&self) -> (text: String)
        ensures
            text@ == (match self {
                ScrapeError::Decode => "invalid url encoding"@,
                ScrapeError::Fetch(_) => "could not retrieve page"@,
            }),
    {
        match self {
            ScrapeError::Decode => "invalid url encoding".to_owned(),
            ScrapeError::Fetch(_) => "could not retrieve page".to_owned(),
        }
    }

    /// Whether the caller's input is at fault, rather than the remote
    /// server or the network.
    pub fn is_client_error(&self) -> (r: bool)
        ensures
            r == (self is Decode),
    {
        match self {
            ScrapeError::Decode => true,
            ScrapeError::Fetch(_) => false,
        }
    }
}

// ---------------------------------------------------------------------
// Decoding the address
// ---------------------------------------------------------------------

#[verifier::external_type_specification]
#[verifier::external_body]
pub struct ExFromUtf8Error(FromUtf8Error);

/// The text that a percent-encoded text stands for, or `None` where the
/// encoded bytes are not valid UTF-8.
pub uninterp spec fn percent_decoded(encoded: Seq<char>) -> Option<Seq<char>>;

/// Decodes with `urlencoding::decode`. The contract names the result, and
/// adds one fact: a text without a percent sign is returned as it is.
#[verifier::external_body]
fn percent_decode(encoded: &str) -> (result: Result<String, FromUtf8Error>)
    ensures
        result matches Ok(text) ==> percent_decoded(encoded@) == Some(text@),
        result is Err ==> percent_decoded(encoded@) is None,
        result is Err ==> encoded@.contains('%'),
        result matches Ok(text) ==> (encoded@.contains('%') || text@ == encoded@),
{
    urlencoding::decode(encoded).map(|text| text.into_owned())
}

/// Turns the outcome of decoding into the address or the error of the
/// operation.
pub fn decode_outcome(outcome: Result<String, FromUtf8Error>) -> (result: Result<
    String,
    ScrapeError,
>)
    ensures
        outcome matches Ok(text) ==> result == Ok::<String, ScrapeError>(text),
        outcome is Err ==> result == Err::<String, ScrapeError>(ScrapeError::Decode),
{
    match outcome {
        Ok(text) => Ok(text),
        Err(_) => Err(ScrapeError::Decode),
    }
}

/// Percent-decodes the address of a page. Fails, before any network call,
/// exactly where the address does not decode.
pub fn decode_url(encoded: &str) -> (result: Result<String, ScrapeError>)
    ensures
        match percent_decoded(encoded@) {
            Some(text) => result matches Ok(url) && url@ == text,
            None => result == Err::<String, ScrapeError>(ScrapeError::Decode),
        },
        !encoded@.contains('%') ==> (result matches Ok(url) && url@ == encoded@),
{
    decode_outcome(percent_decode(encoded))
}

// ---------------------------------------------------------------------
// The fetch in between
// ---------------------------------------------------------------------

/// The time limit of a fetch, in seconds.
pub const FETCH_TIMEOUT_SECS: u64 = 30;

/// What the caller is to fetch.
#[derive(Clone, Debug, PartialEq, Eq)]
pub struct FetchRequest {
    /// The decoded address of the page.
    pub url: String,
    /// The time limit, in seconds. A fetch that takes longer is to be
    /// abandoned and reported as [`FetchReply::TimedOut`].
    pub timeout_secs: u64,
}

/// What came back from a fetch.
#[derive(Clone, Debug, PartialEq, Eq)]
pub enum FetchReply {
    /// The server answered.
    Response { status: u16, body: String },
    /// The request could not be sent or the reply could not be read.
    NetworkError,
    /// No reply came within the time limit.
    TimedOut,
}

/// Whether a status is in the success range.
pub open spec fn is_success(status: u16) -> bool {
    200 <= status < 300
}

/// First step of a scrape: decodes the address and says what to fetch.
/// Fails with [`ScrapeError::Decode`] exactly where the address does not
/// decode; no fetch is asked for then.
pub fn plan_fetch(encoded_url: &str) -> (result: Result<FetchRequest, ScrapeError>)
    ensures
        match percent_decoded(encoded_url@) {
            Some(text) => result matches Ok(request) && request.url@ == text
                && request.timeout_secs == FETCH_TIMEOUT_SECS,
            None => result == Err::<FetchRequest, ScrapeError>(ScrapeError::Decode),
        },
        !encoded_url@.contains('%') ==> result is Ok,
{
    match decode_url(encoded_url) {
        Ok(url) => Ok(FetchRequest { url, timeout_secs: FETCH_TIMEOUT_SECS }),
        Err(e) => Err(e),
    }
}

/// The page that a reply carries, or the reason why it carries none: only
/// an answer with a success status carries a page.
pub fn page_of_reply(reply: FetchReply) -> (result: Result<String, FetchFailure>)
    ensures
        match reply {
            FetchReply::Response { status, body } => if is_success(status) {
                result == Ok::<String, FetchFailure>(body)
            } else {
                result == Err::<String, FetchFailure>(FetchFailure::Status(status))
            },
            FetchReply::NetworkError => result == Err::<String, FetchFailure>(
                FetchFailure::Network,
            ),
            FetchReply::TimedOut => result == Err::<String, FetchFailure>(FetchFailure::Timeout),
        },
{
    match reply {
        FetchReply::Response { status, body } => {
            if 200 <= status && status < 300 {
                Ok(body)
            } else {
                Err(FetchFailure::Status(status))
            }
        },
        FetchReply::NetworkError => Err(FetchFailure::Network),
        FetchReply::TimedOut => Err(FetchFailure::Timeout),
    }
}

/// Last step of a scrape: turns what the fetch brought into the draft. A
/// fetch that brought no page fails the whole operation; no draft, not
/// even a partial one, is returned then.
pub fn complete_scrape(reply: FetchReply) -> (result: Result<RecipeDraft, ScrapeError>)
    ensures
        match reply {
            FetchReply::Response { status, body } => if is_success(status) {
                result matches Ok(draft) && draft@ == draft_of(parsed_html(body@))
            } else {
                result == Err::<RecipeDraft, ScrapeError>(
                    ScrapeError::Fetch(FetchFailure::Status(status)),
                )
            },
            FetchReply::NetworkError => result == Err::<RecipeDraft, ScrapeError>(
                ScrapeError::Fetch(FetchFailure::Network),
            ),
            FetchReply::TimedOut => result == Err::<RecipeDraft, ScrapeError>(
                ScrapeError::Fetch(FetchFailure::Timeout),
            ),
        },
{
    match page_of_reply(reply) {
        Ok(body) => Ok(scrape_recipe_content(body.as_str())),
        Err(failure) => Err(ScrapeError::Fetch(failure)),
    }
}

} // verus!
