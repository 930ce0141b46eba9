//! Completing a request and mapping failures onto HTTP statuses.
use vstd::prelude::*;
use crate::request::{Encoding, ProcessInput, encoding_for};
use crate::response::{GramcheckResponse, PayloadOutcome, ResponseView, ErrView, outcome_errors};

verus! {

/// A failure of a backend adapter.
#[derive(PartialEq, Eq, Structural, Clone, Copy, Debug)]
pub enum BackendError {
    /// The pipeline could not be created from the configuration.
    PipelineCreate,
    /// The pipeline's output stream yielded an error.
    PipelineRun,
    /// The pipeline's output stream ended without output.
    PipelineEmpty,
    /// No worker could be had from the pool.
    PoolAcquire,
    /// Writing to or reading from a worker failed.
    SubprocessIo,
}

/// A failure of a request.
#[derive(PartialEq, Eq, Structural, Clone, Copy, Debug)]
pub enum ServiceError {
    /// The `encoding` query value is not supported.
    UnsupportedEncoding,
    /// The backend failed.
    Backend(BackendError),
    /// The backend's output could not be decoded at all.
    MalformedOutput,
}

pub open spec fn status_of(e: ServiceError) -> u16 {
    match e {
        ServiceError::UnsupportedEncoding => 400,
        _ => 500,
    }
}

impl ServiceError {
    /// The HTTP status of the failure: 400 for a client's mistake, 500 else.
    pub fn status(&self) -> (r: u16)
        ensures
            r == status_of(*self),
    {
        match self {
            ServiceError::UnsupportedEncoding => 400,
            _ => 500,
        }
    }
}

/// The response to a text given the errors its payload held; none where the
/// payload held no entry list. An empty text has no errors.
pub open spec fn response_view(text: Seq<char>, errs: Option<Seq<ErrView>>) -> Option<ResponseView> {
    match errs {
        Some(e) => Some(
            ResponseView {
                text,
                errs: if text.len() == 0 {
                    Seq::empty()
                } else {
                    e
                },
            },
        ),
        None => None,
    }
}

/// Builds the response to the normalized `text` from what its payload came
/// to.
pub fn complete_request(text: String, outcome: PayloadOutcome) -> (r: Result<
    GramcheckResponse,
    ServiceError,
>)
    ensures
        match r {
            Ok(resp) => response_view(text@, outcome_errors(outcome)) == Some(resp@),
            Err(e) => response_view(text@, outcome_errors(outcome)) is None && e
                == ServiceError::MalformedOutput,
        },
{
    match outcome {
        PayloadOutcome::Errors(errs) => {
            if text.as_str().is_empty() {
                let resp = GramcheckResponse { text, errs: Vec::new() };
                assert(resp@.errs =~= Seq::<ErrView>::empty());
                Ok(resp)
            } else {
                Ok(GramcheckResponse { text, errs })
            }
        },
        _ => Err(ServiceError::MalformedOutput),
    }
}

/// The HTTP status of a request's result.
pub fn http_status(r: &Result<GramcheckResponse, ServiceError>) -> (s: u16)
    ensures
        match r {
            Ok(_) => s == 200,
            Err(e) => s == status_of(*e),
        },
{
    match r {
        Ok(_) => 200,
        Err(e) => e.status(),
    }
}


/// Law of the health check: a request whose normalized text is empty comes,
/// whatever entry list the backend answers with, to the empty text with no
/// errors; the health check sends no encoding, which selects UTF-16.
pub proof fn lemma_empty_text_succeeds(text: Seq<char>, errs: Seq<ErrView>)
    requires
        text.len() == 0,
    ensures
        response_view(text, Some(errs)) == Some(
            ResponseView { text: Seq::empty(), errs: Seq::empty() },
        ),
        encoding_for(None) == Some(Encoding::Utf16),
{
    assert(text =~= Seq::empty());
}

/// The request a health check sends: an empty text and no ignore list.
pub fn health_check_input() -> (r: ProcessInput)
    ensures
        r.text@.len() == 0,
        r.ignore is None,
        r.ignore_tags is None,
{
    ProcessInput { text: String::new(), ignore: None, ignore_tags: None }
}

} // verus!
