//! Opening a file that is to be streamed.
use crate::content_range::{file_size, file_size_of_fields, header_fields};
use crate::shared::AudioFileShared;
use crate::streaming::{AudioFileStreaming, ReadAhead};
use hyper::header::{HeaderMap, HeaderValue};
use vstd::prelude::*;

verus! {

/// The minimum size of a block that is requested from the servers in one request.
/// This is the block size that is typically requested while doing a seek on a file.
/// Note: smaller requests can happen if part of the block is downloaded already.
pub const MINIMUM_DOWNLOAD_SIZE: usize = 1024 * 256;

/// The amount of data that is requested when initially opening a file.
/// Note: if the file is opened to play from the beginning, the amount of data to
/// read ahead is requested in addition to this amount. If the file is opened to seek to
/// another position, then only this amount is requested on the first request.
pub const INITIAL_DOWNLOAD_SIZE: usize = 1024 * 128;

/// Limit the number of requests that are pending simultaneously before pre-fetching data.
/// Pending requests share bandwidth. Thus, having too many requests can lead to the one that
/// is needed next for playback to be delayed leading to a buffer underrun. This limit has the
/// effect that a new pre-fetch request is only sent if less than `MAX_PREFETCH_REQUESTS` are
/// pending.
pub const MAX_PREFETCH_REQUESTS: usize = 4;

/// `hyper::Error`, with which a request to the servers can fail.
#[verifier::external_type_specification]
#[verifier::external_body]
pub struct ExHyperError(hyper::Error);

/// Why a file could not be opened. `S` is the error of a request to the API, `U` that of
/// looking up where the file is to be had.
#[derive(Debug)]
pub enum AudioFileError<S, U> {
    /// could not complete CDN request
    Cdn(hyper::Error),
    /// empty response
    Empty,
    /// error parsing response
    Parsing,
    /// could not complete API request
    SpClient(S),
    /// could not get CDN URL
    Url(U),
}

/// A request for `length` bytes of a file from `offset` on.
#[derive(Copy, Clone, Debug, PartialEq, Eq, Structural)]
pub struct StreamingRequest {
    pub offset: usize,
    pub length: usize,
}

/// What is known of a file before it is opened.
#[derive(Copy, Clone, Debug, PartialEq, Eq, Structural)]
pub struct OpenPlan {
    pub bytes_per_second: usize,
    /// The first request for data of the file.
    pub request: StreamingRequest,
}

/// How far the opening of a file has come. Each stage but the last names what is to be
/// done next; what comes of it is told to [`Opening::advance`].
#[derive(Debug)]
pub enum Opening {
    /// Look up where the file is to be had.
    ResolveUrl(OpenPlan),
    /// Choose one of the places.
    SelectUrl(OpenPlan),
    /// Send the first request there.
    SendRequest(OpenPlan),
    /// Wait for the response.
    AwaitResponse(OpenPlan),
    /// The file is open: hand the request that is under way to the loader, and the
    /// stream to the reader.
    Opened { stream: AudioFileStreaming, request: StreamingRequest },
}

/// What came of the work that a stage of an [`Opening`] names.
pub enum OpenEvent<'a, S, U> {
    UrlResolved(Result<(), U>),
    UrlSelected(Result<(), U>),
    RequestSent(Result<(), S>),
    /// The first item of the response, with its fields, where there was one.
    Responded(Option<Result<&'a HeaderMap<HeaderValue>, hyper::Error>>),
}

/// How much data the first request for a file asks for.
pub open spec fn first_download_size(play_from_beginning: bool, ahead: ReadAhead) -> int {
    if play_from_beginning {
        INITIAL_DOWNLOAD_SIZE + ahead.amount()
    } else {
        INITIAL_DOWNLOAD_SIZE as int
    }
}

impl Opening {
    /// `event` tells what came of the work that this stage names.
    pub open spec fn awaits<S, U>(&self, event: OpenEvent<S, U>) -> bool {
        match self {
            Opening::ResolveUrl(_) => event is UrlResolved,
            Opening::SelectUrl(_) => event is UrlSelected,
            Opening::SendRequest(_) => event is RequestSent,
            Opening::AwaitResponse(_) => event is Responded,
            Opening::Opened { .. } => false,
        }
    }

    /// `next` is what `event` leads to.
    pub open spec fn leads_to<S, U>(
        self,
        event: OpenEvent<S, U>,
        next: Result<Opening, AudioFileError<S, U>>,
    ) -> bool {
        match (self, event) {
            (Opening::ResolveUrl(plan), OpenEvent::UrlResolved(Ok(_))) => next == Ok::<
                Opening,
                AudioFileError<S, U>,
            >(Opening::SelectUrl(plan)),
            (Opening::ResolveUrl(_), OpenEvent::UrlResolved(Err(e))) => next == Err::<
                Opening,
                AudioFileError<S, U>,
            >(AudioFileError::Url(e)),
            (Opening::SelectUrl(plan), OpenEvent::UrlSelected(Ok(_))) => next == Ok::<
                Opening,
                AudioFileError<S, U>,
            >(Opening::SendRequest(plan)),
            (Opening::SelectUrl(_), OpenEvent::UrlSelected(Err(e))) => next == Err::<
                Opening,
                AudioFileError<S, U>,
            >(AudioFileError::Url(e)),
            (Opening::SendRequest(plan), OpenEvent::RequestSent(Ok(_))) => next == Ok::<
                Opening,
                AudioFileError<S, U>,
            >(Opening::AwaitResponse(plan)),
            (Opening::SendRequest(_), OpenEvent::RequestSent(Err(e))) => next == Err::<
                Opening,
                AudioFileError<S, U>,
            >(AudioFileError::SpClient(e)),
            (Opening::AwaitResponse(_), OpenEvent::Responded(None)) => next == Err::<
                Opening,
                AudioFileError<S, U>,
            >(AudioFileError::Empty),
            (Opening::AwaitResponse(_), OpenEvent::Responded(Some(Err(e)))) => next == Err::<
                Opening,
                AudioFileError<S, U>,
            >(AudioFileError::Cdn(e)),
            (Opening::AwaitResponse(plan), OpenEvent::Responded(Some(Ok(headers)))) => {
                match file_size_of_fields(header_fields(*headers)) {
                    None => next == Err::<Opening, AudioFileError<S, U>>(AudioFileError::Parsing),
                    Some(size) => next matches Ok(Opening::Opened { stream, request }) && {
                        &&& stream.is_fresh(size, plan.bytes_per_second)
                        &&& request == plan.request
                    },
                }
            },
            _ => false,
        }
    }

    /// Goes on with the opening of a file.
    pub fn advance<S, U>(self, event: OpenEvent<S, U>) -> (next: Result<
        Opening,
        AudioFileError<S, U>,
    >)
        requires
            self.awaits(event),
        ensures
            self.leads_to(event, next),
    {
        match (self, event) {
            (Opening::ResolveUrl(plan), OpenEvent::UrlResolved(outcome)) => match outcome {
                Ok(_) => Ok(Opening::SelectUrl(plan)),
                Err(e) => Err(AudioFileError::Url(e)),
            },
            (Opening::SelectUrl(plan), OpenEvent::UrlSelected(outcome)) => match outcome {
                Ok(_) => Ok(Opening::SendRequest(plan)),
                Err(e) => Err(AudioFileError::Url(e)),
            },
            (Opening::SendRequest(plan), OpenEvent::RequestSent(outcome)) => match outcome {
                Ok(_) => Ok(Opening::AwaitResponse(plan)),
                Err(e) => Err(AudioFileError::SpClient(e)),
            },
            (Opening::AwaitResponse(plan), OpenEvent::Responded(outcome)) => match outcome {
                None => Err(AudioFileError::Empty),
                Some(Err(e)) => Err(AudioFileError::Cdn(e)),
                Some(Ok(headers)) => match file_size(headers) {
                    None => Err(AudioFileError::Parsing),
                    Some(size) => Ok(
                        Opening::Opened {
                            stream: AudioFileStreaming::new(size, plan.bytes_per_second),
                            request: plan.request,
                        },
                    ),
                },
            },
            // no other event can come at a stage
            (stage, _) => Ok(stage),
        }
    }
}

impl AudioFileStreaming {
    /// A stream that stands at the beginning of a file of which nothing is there yet.
    pub open spec fn is_fresh(&self, file_size: usize, bytes_per_second: usize) -> bool {
        &&& self.position == 0
        &&& self.shared.is_fresh(file_size, bytes_per_second)
        &&& self.well_formed()
    }

    pub fn new(file_size: usize, bytes_per_second: usize) -> (stream: AudioFileStreaming)
        ensures
            stream.is_fresh(file_size, bytes_per_second),
    {
        AudioFileStreaming { position: 0, shared: AudioFileShared::new(file_size, bytes_per_second) }
    }

    /// Begins to open a file. The first request starts at the beginning of the file;
    /// `ahead` is asked for too where the file is to be played from there.
    pub fn open(bytes_per_second: usize, play_from_beginning: bool, ahead: ReadAhead) -> (opening:
        Opening)
        requires
            first_download_size(play_from_beginning, ahead) <= usize::MAX,
        ensures
            opening == Opening::ResolveUrl(
                (OpenPlan {
                    bytes_per_second,
                    request: StreamingRequest {
                        offset: 0,
                        length: first_download_size(play_from_beginning, ahead) as usize,
                    },
                }),
            ),
            opening matches Opening::ResolveUrl(plan) && {
                if play_from_beginning {
                    &&& plan.request.length >= INITIAL_DOWNLOAD_SIZE + ahead.by_duration
                    &&& plan.request.length >= INITIAL_DOWNLOAD_SIZE + ahead.by_roundtrips
                    &&& plan.request.length == INITIAL_DOWNLOAD_SIZE + ahead.by_duration
                        || plan.request.length == INITIAL_DOWNLOAD_SIZE + ahead.by_roundtrips
                } else {
                    plan.request.length == INITIAL_DOWNLOAD_SIZE
                }
            },
    {
        let download_size: usize = if play_from_beginning {
            INITIAL_DOWNLOAD_SIZE + ahead.bytes()
        } else {
            INITIAL_DOWNLOAD_SIZE
        };
        Opening::ResolveUrl(
            OpenPlan {
                bytes_per_second,
                request: StreamingRequest { offset: 0, length: download_size },
            },
        )
    }
}

} // verus!
