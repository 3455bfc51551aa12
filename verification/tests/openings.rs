use audio_fetch::audio_file::{AudioFile, AudioFileOpening, CachedFile};
use audio_fetch::opening::{
    AudioFileError, OpenEvent, OpenPlan, Opening, StreamingRequest, INITIAL_DOWNLOAD_SIZE,
    MAX_PREFETCH_REQUESTS, MINIMUM_DOWNLOAD_SIZE,
};
use audio_fetch::shared::DownloadStrategy;
use audio_fetch::streaming::{AudioFileStreaming, ReadAhead};
use futures_util::FutureExt;
use hyper::body::HttpBody;
use hyper::header::{HeaderMap, HeaderValue, CONTENT_RANGE};

type Failure = AudioFileError<&'static str, u32>;

const AHEAD: ReadAhead = ReadAhead { by_duration: 800_000, by_roundtrips: 200_000 };

const PLAN: OpenPlan =
    OpenPlan { bytes_per_second: 40_000, request: StreamingRequest { offset: 0, length: 131_072 } };

fn headers(value: &'static str) -> HeaderMap {
    let mut headers = HeaderMap::new();
    headers.insert(CONTENT_RANGE, HeaderValue::from_static(value));
    headers
}

fn cdn_error() -> hyper::Error {
    let (sender, mut body) = hyper::Body::channel();
    sender.abort();
    body.data().now_or_never().unwrap().unwrap().unwrap_err()
}

#[test]
fn sizes_of_requests() {
    assert_eq!(MINIMUM_DOWNLOAD_SIZE, 262_144);
    assert_eq!(INITIAL_DOWNLOAD_SIZE, 131_072);
    assert_eq!(MAX_PREFETCH_REQUESTS, 4);
}

#[test]
fn first_request_reads_ahead_to_play_from_the_beginning() {
    match AudioFileStreaming::open(40_000, true, AHEAD) {
        Opening::ResolveUrl(plan) => {
            assert_eq!(plan.bytes_per_second, 40_000);
            assert_eq!(plan.request, StreamingRequest { offset: 0, length: 931_072 });
        }
        stage => panic!("{:?}", stage),
    }
    match AudioFileStreaming::open(40_000, false, AHEAD) {
        Opening::ResolveUrl(plan) => assert_eq!(plan, PLAN),
        stage => panic!("{:?}", stage),
    }
}

#[test]
fn file_in_the_cache_is_not_streamed() {
    let file = CachedFile { length: 99 };
    match AudioFile::open(Some(file), 40_000, true, AHEAD) {
        AudioFileOpening::Ready(AudioFile::Cached(found)) => assert_eq!(found, file),
        opening => panic!("{:?}", opening),
    }
    match AudioFile::open(None, 40_000, false, AHEAD) {
        AudioFileOpening::Stream(Opening::ResolveUrl(plan)) => assert_eq!(plan, PLAN),
        opening => panic!("{:?}", opening),
    }
}

#[test]
fn file_opens_when_all_goes_well() {
    let headers = headers("bytes 0-131071/4389230");
    let stage = AudioFileStreaming::open(40_000, false, AHEAD);
    let stage = stage.advance::<&str, u32>(OpenEvent::UrlResolved(Ok(()))).unwrap();
    assert!(matches!(stage, Opening::SelectUrl(PLAN)));
    let stage = stage.advance::<&str, u32>(OpenEvent::UrlSelected(Ok(()))).unwrap();
    assert!(matches!(stage, Opening::SendRequest(PLAN)));
    let stage = stage.advance::<&str, u32>(OpenEvent::RequestSent(Ok(()))).unwrap();
    assert!(matches!(stage, Opening::AwaitResponse(PLAN)));
    match stage.advance::<&str, u32>(OpenEvent::Responded(Some(Ok(&headers)))).unwrap() {
        Opening::Opened { stream, request } => {
            assert_eq!(request, PLAN.request);
            assert_eq!(stream.position, 0);
            assert_eq!(stream.shared.file_size, 4_389_230);
            assert_eq!(stream.shared.bytes_per_second, 40_000);
            assert_eq!(stream.shared.download_strategy, DownloadStrategy::RandomAccess());
            assert_eq!(stream.shared.number_of_open_requests, 0);
            assert_eq!(stream.shared.ping_time_ms, 0);
            assert_eq!(stream.shared.read_position, 0);
            assert!(stream.shared.download_status.downloaded.as_slice().is_empty());
            assert!(stream.shared.download_status.requested.as_slice().is_empty());
        }
        stage => panic!("{:?}", stage),
    }
}

#[test]
fn failed_lookup_is_a_url_error() {
    let error: Failure =
        Opening::ResolveUrl(PLAN).advance(OpenEvent::UrlResolved(Err(7))).unwrap_err();
    assert!(matches!(error, AudioFileError::Url(7)));
    let error: Failure =
        Opening::SelectUrl(PLAN).advance(OpenEvent::UrlSelected(Err(8))).unwrap_err();
    assert!(matches!(error, AudioFileError::Url(8)));
}

#[test]
fn failed_request_is_a_client_error() {
    let error: Failure =
        Opening::SendRequest(PLAN).advance(OpenEvent::RequestSent(Err("no token"))).unwrap_err();
    assert!(matches!(error, AudioFileError::SpClient("no token")));
}

#[test]
fn missing_response_is_an_empty_one() {
    let error: Failure =
        Opening::AwaitResponse(PLAN).advance(OpenEvent::Responded(None)).unwrap_err();
    assert!(matches!(error, AudioFileError::Empty));
}

#[test]
fn failed_response_is_a_cdn_error() {
    let error: Failure = Opening::AwaitResponse(PLAN)
        .advance(OpenEvent::Responded(Some(Err(cdn_error()))))
        .unwrap_err();
    match error {
        AudioFileError::Cdn(cause) => assert_eq!(cause.to_string(), cdn_error().to_string()),
        other => panic!("{:?}", other),
    }
}

#[test]
fn response_without_a_size_is_a_parsing_error() {
    for fields in [HeaderMap::new(), headers("bytes 0-131071/*"), headers("bytes 0-131071/12 ")] {
        let error: Failure = Opening::AwaitResponse(PLAN)
            .advance(OpenEvent::Responded(Some(Ok(&fields))))
            .unwrap_err();
        assert!(matches!(error, AudioFileError::Parsing));
    }
}

#[test]
fn opened_stream_is_a_streamed_file() {
    let headers = headers("bytes 0-131071/4389230");
    let opened = Opening::AwaitResponse(PLAN)
        .advance::<&str, u32>(OpenEvent::Responded(Some(Ok(&headers))))
        .unwrap();
    match AudioFile::opened(opened) {
        Some(AudioFile::Streaming(stream)) => assert_eq!(stream.shared.file_size, 4_389_230),
        other => panic!("{:?}", other),
    }
    for stage in [
        Opening::ResolveUrl(PLAN),
        Opening::SelectUrl(PLAN),
        Opening::SendRequest(PLAN),
        Opening::AwaitResponse(PLAN),
    ] {
        assert!(AudioFile::opened(stage).is_none());
    }
}
