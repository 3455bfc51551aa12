use audio_fetch::audio_file::{AudioFile, CachedFile};
use audio_fetch::controller::FetchProgress;
use audio_fetch::range_set::Range;
use audio_fetch::shared::StreamLoaderCommand;
use audio_fetch::streaming::AudioFileStreaming;
use std::time::Duration;

const DONE: FetchProgress = FetchProgress { command: None, wait: None };

fn fetch(start: usize, length: usize) -> Option<StreamLoaderCommand> {
    Some(StreamLoaderCommand::Fetch(Range { start, length }))
}

fn streamed(position: u64, downloaded: &[(usize, usize)], requested: &[(usize, usize)]) -> AudioFile {
    let mut stream = AudioFileStreaming::new(1000, 10);
    stream.seek(position);
    for &(start, length) in downloaded {
        stream.shared.download_status.downloaded.add_range(&Range::new(start, length));
    }
    for &(start, length) in requested {
        stream.shared.download_status.requested.add_range(&Range::new(start, length));
    }
    AudioFile::Streaming(stream)
}

#[test]
fn length_is_the_size_of_the_file() {
    let file = streamed(0, &[], &[]);
    assert_eq!(file.get_stream_loader_controller().len(), 1000);
    assert!(!file.get_stream_loader_controller().is_empty());
    let cached = AudioFile::Cached(CachedFile { length: 77 });
    assert_eq!(cached.get_stream_loader_controller().len(), 77);
    let empty = AudioFile::Cached(CachedFile { length: 0 });
    assert!(empty.get_stream_loader_controller().is_empty());
}

#[test]
fn range_is_available_when_all_of_it_is_downloaded() {
    let file = streamed(0, &[(10, 20)], &[(0, 100)]);
    let controller = file.get_stream_loader_controller();
    assert!(controller.range_available(Range::new(10, 20)));
    assert!(controller.range_available(Range::new(15, 5)));
    assert!(!controller.range_available(Range::new(10, 21)));
    assert!(!controller.range_available(Range::new(9, 2)));
    assert!(controller.range_available(Range::new(500, 0)));
    assert!(!controller.range_available(Range::new(15, usize::MAX)));
}

#[test]
fn cached_range_is_available_within_the_file() {
    let file = AudioFile::Cached(CachedFile { length: 77 });
    let controller = file.get_stream_loader_controller();
    assert!(controller.range_available(Range::new(0, 77)));
    assert!(controller.range_available(Range::new(77, 0)));
    assert!(!controller.range_available(Range::new(70, 8)));
    assert!(controller.range_to_end_available());
}

#[test]
fn rest_of_the_file_is_available_when_downloaded() {
    let file = streamed(600, &[(600, 400)], &[]);
    assert!(file.get_stream_loader_controller().range_to_end_available());
    let file = streamed(600, &[(600, 399)], &[]);
    assert!(!file.get_stream_loader_controller().range_to_end_available());
    let file = streamed(1000, &[], &[]);
    assert!(file.get_stream_loader_controller().range_to_end_available());
}

#[test]
fn ping_time_is_in_milliseconds() {
    let mut file = streamed(0, &[], &[]);
    assert_eq!(file.get_stream_loader_controller().ping_time(), Duration::from_secs(0));
    if let AudioFile::Streaming(stream) = &mut file {
        stream.shared.ping_time_ms = 1250;
    }
    assert_eq!(file.get_stream_loader_controller().ping_time().as_micros(), 1_250_000);
    let cached = AudioFile::Cached(CachedFile { length: 77 });
    assert_eq!(cached.get_stream_loader_controller().ping_time(), Duration::from_secs(0));
}

#[test]
fn streamed_file_gets_every_command() {
    let file = streamed(300, &[], &[]);
    let controller = file.get_stream_loader_controller();
    assert_eq!(controller.fetch(Range::new(900, 500)), fetch(900, 500));
    assert_eq!(controller.fetch_next(50), fetch(300, 50));
    assert_eq!(controller.set_random_access_mode(), Some(StreamLoaderCommand::RandomAccessMode()));
    assert_eq!(controller.set_stream_mode(), Some(StreamLoaderCommand::StreamMode()));
    assert_eq!(controller.close(), Some(StreamLoaderCommand::Close()));
}

#[test]
fn cached_file_gets_no_command() {
    let file = AudioFile::Cached(CachedFile { length: 77 });
    let controller = file.get_stream_loader_controller();
    assert_eq!(controller.fetch(Range::new(0, 5)), None);
    assert_eq!(controller.fetch_next(50), None);
    assert_eq!(controller.set_random_access_mode(), None);
    assert_eq!(controller.set_stream_mode(), None);
    assert_eq!(controller.close(), None);
    assert_eq!(controller.fetch_blocking(Range::new(0, 500)), DONE);
    assert_eq!(controller.fetch_next_blocking(50), DONE);
    assert_eq!(controller.continue_fetch(Range::new(0, 5)), DONE);
}

#[test]
fn blocking_fetch_stays_within_the_file() {
    let file = streamed(0, &[], &[]);
    let controller = file.get_stream_loader_controller();
    let range = Range::new(900, 500);
    assert_eq!(
        controller.fetch_blocking(range),
        FetchProgress { command: fetch(900, 100), wait: Some(Range::new(900, 100)) }
    );
    assert_eq!(
        controller.fetch_blocking(Range::new(1000, 5)),
        FetchProgress { command: fetch(1000, 0), wait: None }
    );
    assert_eq!(
        controller.fetch_blocking(Range::new(usize::MAX, usize::MAX)),
        FetchProgress { command: fetch(usize::MAX, 0), wait: None }
    );
}

#[test]
fn blocking_fetch_of_downloaded_data_is_done() {
    let file = streamed(0, &[(100, 50)], &[]);
    let controller = file.get_stream_loader_controller();
    assert_eq!(
        controller.fetch_blocking(Range::new(100, 50)),
        FetchProgress { command: fetch(100, 50), wait: None }
    );
}

#[test]
fn blocking_fetch_of_the_next_bytes() {
    let file = streamed(980, &[(980, 20)], &[]);
    let controller = file.get_stream_loader_controller();
    assert_eq!(
        controller.fetch_next_blocking(50),
        FetchProgress { command: fetch(980, 20), wait: None }
    );
    let file = streamed(100, &[], &[]);
    let controller = file.get_stream_loader_controller();
    assert_eq!(
        controller.fetch_next_blocking(50),
        FetchProgress { command: fetch(100, 50), wait: Some(Range::new(100, 50)) }
    );
}

#[test]
fn awaited_range_is_requested_again_when_it_got_lost() {
    let range = Range::new(100, 50);
    let under_way = streamed(0, &[(100, 20)], &[(110, 100)]);
    assert_eq!(
        under_way.get_stream_loader_controller().continue_fetch(range),
        FetchProgress { command: None, wait: Some(range) }
    );
    let lost = streamed(0, &[(100, 20)], &[(121, 100)]);
    assert_eq!(
        lost.get_stream_loader_controller().continue_fetch(range),
        FetchProgress { command: fetch(100, 50), wait: Some(range) }
    );
    let arrived = streamed(0, &[(100, 50)], &[]);
    assert_eq!(arrived.get_stream_loader_controller().continue_fetch(range), DONE);
}

#[test]
fn downloaded_data_stays_available() {
    let range = Range::new(100, 50);
    for more in [0, 100, 160, 900] {
        let file = streamed(0, &[(100, 50), (more, 20)], &[]);
        assert!(file.get_stream_loader_controller().range_available(range));
    }
}

#[test]
fn controller_can_be_cloned() {
    let file = streamed(300, &[], &[]);
    let controller = file.get_stream_loader_controller();
    let other = controller.clone();
    assert_eq!(other.len(), controller.len());
    assert_eq!(other.fetch_next(50), controller.fetch_next(50));
}
