//! The remote provider of exchange rates, seen from the side of the decisions:
//! which answer of the provider is an error, and in which order a fetch proceeds.
//! The caller owns the credential, the connection and the decoding of the body.

use vstd::prelude::*;

verus! {

/// Where the provider answers with the latest rates.
pub const ENDPOINT: &'static str = "https://openexchangerates.org/api/latest.json";

/// The variable of the environment that holds the credential.
pub const CREDENTIAL_VARIABLE: &'static str = "API_ID";

/// The parameter of the query that carries the credential.
pub const CREDENTIAL_PARAMETER: &'static str = "app_id";

/// Why a fetch from the provider failed.
#[derive(Debug, Clone, Copy, PartialEq, Eq, Structural)]
pub enum ProviderError {
    /// No credential is configured.
    Config,
    /// The provider refused the credential (status 401).
    Auth,
    /// The provider restricted access for repeated over-use (status 403).
    RateLimit,
    /// The provider answered with another status that is no success.
    UnexpectedResponse(u16),
    /// The request did not get through.
    Transport,
    /// The body of the answer is not a table of rates.
    Decode,
}

/// The statuses that HTTP counts as a success: 200 to 299.
pub open spec fn is_success(status: u16) -> bool {
    200 <= status < 300
}

/// What the status of an answer means for the fetch.
pub open spec fn status_outcome(status: u16) -> Result<(), ProviderError> {
    if is_success(status) {
        Ok(())
    } else if status == 401 {
        Err(ProviderError::Auth)
    } else if status == 403 {
        Err(ProviderError::RateLimit)
    } else {
        Err(ProviderError::UnexpectedResponse(status))
    }
}

/// Checks the status of the provider's answer.
pub fn check_response_status(status: u16) -> (r: Result<(), ProviderError>)
    ensures
        r == status_outcome(status),
{
    if 200 <= status && status < 300 {
        Ok(())
    } else if status == 401 {
        Err(ProviderError::Auth)
    } else if status == 403 {
        Err(ProviderError::RateLimit)
    } else {
        Err(ProviderError::UnexpectedResponse(status))
    }
}

/// What a fetch is waiting for.
#[derive(Debug, Clone, Copy, PartialEq, Eq, Structural)]
pub enum FetchStage {
    /// The credential has to be read from the configuration.
    Credential,
    /// The request is on its way.
    Response,
    /// The answer was a success and its body is being decoded.
    Body,
    /// The fetch has ended.
    Over,
}

/// What the caller reports back to a fetch.
#[derive(Debug)]
pub enum FetchEvent<T> {
    /// The configured credential, or `None` where there is none.
    Credential(Option<String>),
    /// The status of the answer, or `None` where the request failed on the way.
    Response(Option<u16>),
    /// The decoded table, or `None` where the body does not hold one.
    Body(Option<T>),
}

/// What the caller has to do next for a fetch.
#[derive(Debug)]
pub enum FetchStep<T> {
    /// Send the one request, with this credential.
    Request(String),
    /// Decode the body of the answer.
    Decode,
    /// The fetch has ended with this result.
    Finish(Result<T, ProviderError>),
    /// The event does not belong to the stage; nothing has changed.
    Rejected,
}

/// The course of a fetch: credential, then one request, then the body.
/// The first failure ends it, and nothing is retried.
pub open spec fn fetch_next<T>(stage: FetchStage, event: FetchEvent<T>) -> (
    FetchStage,
    FetchStep<T>,
) {
    match (stage, event) {
        (FetchStage::Credential, FetchEvent::Credential(Some(id))) => (
            FetchStage::Response,
            FetchStep::Request(id),
        ),
        (FetchStage::Credential, FetchEvent::Credential(None)) => (
            FetchStage::Over,
            FetchStep::Finish(Err(ProviderError::Config)),
        ),
        (FetchStage::Response, FetchEvent::Response(Some(status))) => match status_outcome(status) {
            Ok(()) => (FetchStage::Body, FetchStep::Decode),
            Err(e) => (FetchStage::Over, FetchStep::Finish(Err(e))),
        },
        (FetchStage::Response, FetchEvent::Response(None)) => (
            FetchStage::Over,
            FetchStep::Finish(Err(ProviderError::Transport)),
        ),
        (FetchStage::Body, FetchEvent::Body(Some(table))) => (
            FetchStage::Over,
            FetchStep::Finish(Ok(table)),
        ),
        (FetchStage::Body, FetchEvent::Body(None)) => (
            FetchStage::Over,
            FetchStep::Finish(Err(ProviderError::Decode)),
        ),
        (stage, _) => (stage, FetchStep::Rejected),
    }
}

/// Takes a fetch one step further. A fetch starts in `FetchStage::Credential`.
pub fn fetch_available_currencies<T>(stage: FetchStage, event: FetchEvent<T>) -> (r: (
    FetchStage,
    FetchStep<T>,
))
    ensures
        r == fetch_next(stage, event),
{
    match (stage, event) {
        (FetchStage::Credential, FetchEvent::Credential(Some(id))) => (
            FetchStage::Response,
            FetchStep::Request(id),
        ),
        (FetchStage::Credential, FetchEvent::Credential(None)) => (
            FetchStage::Over,
            FetchStep::Finish(Err(ProviderError::Config)),
        ),
        (FetchStage::Response, FetchEvent::Response(Some(status))) => {
            match check_response_status(status) {
                Ok(()) => (FetchStage::Body, FetchStep::Decode),
                Err(e) => (FetchStage::Over, FetchStep::Finish(Err(e))),
            }
        },
        (FetchStage::Response, FetchEvent::Response(None)) => (
            FetchStage::Over,
            FetchStep::Finish(Err(ProviderError::Transport)),
        ),
        (FetchStage::Body, FetchEvent::Body(Some(table))) => (
            FetchStage::Over,
            FetchStep::Finish(Ok(table)),
        ),
        (FetchStage::Body, FetchEvent::Body(None)) => (
            FetchStage::Over,
            FetchStep::Finish(Err(ProviderError::Decode)),
        ),
        (stage, _) => (stage, FetchStep::Rejected),
    }
}

/// How many requests are sent while `events` are taken in, one after the other,
/// from `stage` on.
pub open spec fn requests<T>(stage: FetchStage, events: Seq<FetchEvent<T>>) -> nat
    decreases events.len(),
{
    if events.len() == 0 {
        0
    } else {
        let (then, step) = fetch_next(stage, events[0]);
        let sent: nat = if step is Request {
            1
        } else {
            0
        };
        sent + requests(then, events.drop_first())
    }
}

/// A fetch sends one request at most, and none once the credential is dealt with:
/// nothing is retried.
pub proof fn lemma_one_request<T>(stage: FetchStage, events: Seq<FetchEvent<T>>)
    ensures
        requests(stage, events) <= 1,
        stage != FetchStage::Credential ==> requests(stage, events) == 0,
    decreases events.len(),
{
    if events.len() > 0 {
        let (then, step) = fetch_next(stage, events[0]);
        lemma_one_request(then, events.drop_first());
    }
}

/// Without a credential no request is sent, whatever is reported afterwards.
pub proof fn lemma_no_request_without_credential<T>(events: Seq<FetchEvent<T>>)
    requires
        events.len() > 0,
        events[0] == FetchEvent::<T>::Credential(None),
    ensures
        fetch_next(FetchStage::Credential, events[0]) == (
            FetchStage::Over,
            FetchStep::<T>::Finish(Err(ProviderError::Config)),
        ),
        requests(FetchStage::Credential, events) == 0,
{
    lemma_one_request(FetchStage::Over, events.drop_first());
}

} // verus!
