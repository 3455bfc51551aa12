use audio_fetch::audio_file::{AudioFile, CachedFile};
use audio_fetch::range_set::Range;
use audio_fetch::shared::{DownloadStrategy, StreamLoaderCommand};
use audio_fetch::streaming::{AudioFileStreaming, PendingRead, ReadAhead, ReadStep};

const AHEAD: ReadAhead = ReadAhead { by_duration: 50, by_roundtrips: 80 };

fn fetch(start: usize, length: usize) -> StreamLoaderCommand {
    StreamLoaderCommand::Fetch(Range { start, length })
}

fn downloaded(stream: &mut AudioFileStreaming, start: usize, length: usize) {
    stream.shared.download_status.downloaded.add_range(&Range::new(start, length));
}

fn requested(stream: &mut AudioFileStreaming, start: usize, length: usize) {
    stream.shared.download_status.requested.add_range(&Range::new(start, length));
}

#[test]
fn larger_read_ahead_counts() {
    assert_eq!(AHEAD.bytes(), 80);
    assert_eq!(ReadAhead { by_duration: 9, by_roundtrips: 8 }.bytes(), 9);
    assert_eq!(ReadAhead { by_duration: 9, by_roundtrips: 9 }.bytes(), 9);
}

#[test]
fn random_access_read_asks_for_what_it_returns() {
    let stream = AudioFileStreaming::new(1000, 10);
    let plan = stream.read(100, AHEAD);
    assert_eq!(plan.commands, vec![fetch(0, 100)]);
    assert_eq!(plan.step, ReadStep::Wait(PendingRead { offset: 0, length: 100 }));
}

#[test]
fn streaming_read_asks_for_data_ahead() {
    let mut stream = AudioFileStreaming::new(1000, 10);
    stream.shared.download_strategy = DownloadStrategy::Streaming();
    let plan = stream.read(100, AHEAD);
    assert_eq!(plan.commands, vec![fetch(0, 180)]);
    assert_eq!(plan.step, ReadStep::Wait(PendingRead { offset: 0, length: 100 }));
}

#[test]
fn requests_end_with_the_file() {
    let mut stream = AudioFileStreaming::new(1000, 10);
    stream.seek(950);
    assert_eq!(stream.read(100, AHEAD).commands, vec![fetch(950, 50)]);
    assert_eq!(stream.read(100, AHEAD).step, ReadStep::Wait(PendingRead { offset: 950, length: 50 }));
    stream.shared.download_strategy = DownloadStrategy::Streaming();
    assert_eq!(stream.read(10, AHEAD).commands, vec![fetch(950, 50)]);
    assert_eq!(stream.read(10, AHEAD).step, ReadStep::Wait(PendingRead { offset: 950, length: 10 }));
}

#[test]
fn known_data_is_not_asked_for() {
    let mut stream = AudioFileStreaming::new(1000, 10);
    downloaded(&mut stream, 20, 10);
    requested(&mut stream, 60, 10);
    let plan = stream.read(100, AHEAD);
    assert_eq!(plan.commands, vec![fetch(0, 20), fetch(30, 30), fetch(70, 30)]);
}

#[test]
fn read_asks_once() {
    let mut stream = AudioFileStreaming::new(1000, 10);
    for command in stream.read(100, AHEAD).commands {
        if let StreamLoaderCommand::Fetch(range) = command {
            requested(&mut stream, range.start, range.length);
        }
    }
    assert!(stream.read(100, AHEAD).commands.is_empty());
    assert_eq!(stream.read(120, AHEAD).commands, vec![fetch(100, 20)]);
}

#[test]
fn read_at_the_end_returns_nothing() {
    let mut stream = AudioFileStreaming::new(1000, 10);
    stream.shared.download_strategy = DownloadStrategy::Streaming();
    for position in [1000, 1001, 5000] {
        stream.seek(position);
        let plan = stream.read(100, AHEAD);
        assert_eq!(plan.step, ReadStep::Done(0));
        assert!(plan.commands.is_empty());
    }
}

#[test]
fn read_into_no_output_still_reads_ahead() {
    let mut stream = AudioFileStreaming::new(1000, 10);
    let plan = stream.read(0, AHEAD);
    assert_eq!(plan.step, ReadStep::Done(0));
    assert!(plan.commands.is_empty());
    stream.shared.download_strategy = DownloadStrategy::Streaming();
    let plan = stream.read(0, AHEAD);
    assert_eq!(plan.step, ReadStep::Done(0));
    assert_eq!(plan.commands, vec![fetch(0, 80)]);
}

#[test]
fn read_goes_for_what_is_there() {
    let mut stream = AudioFileStreaming::new(1000, 10);
    downloaded(&mut stream, 0, 40);
    assert_eq!(stream.read(100, AHEAD).step, ReadStep::SeekAndRead { offset: 0, length: 40 });
    assert_eq!(stream.read(30, AHEAD).step, ReadStep::SeekAndRead { offset: 0, length: 30 });
}

#[test]
fn waiting_read_resumes_when_its_offset_arrives() {
    let mut stream = AudioFileStreaming::new(1000, 10);
    stream.seek(500);
    let pending = PendingRead { offset: 500, length: 100 };
    assert_eq!(stream.read(100, AHEAD).step, ReadStep::Wait(pending));
    downloaded(&mut stream, 501, 99);
    assert_eq!(stream.resume_read(pending), ReadStep::Wait(pending));
    downloaded(&mut stream, 500, 1);
    assert_eq!(stream.resume_read(pending), ReadStep::SeekAndRead { offset: 500, length: 100 });
}

#[test]
fn reads_follow_each_other() {
    let mut stream = AudioFileStreaming::new(1000, 10);
    downloaded(&mut stream, 0, 1000);
    let mut reads = vec![];
    loop {
        let plan = stream.read(300, AHEAD);
        assert!(plan.commands.is_empty());
        match plan.step {
            ReadStep::SeekAndRead { offset, length } => {
                stream.start_file_read(offset as u64);
                assert_eq!(stream.finish_read(length), length);
                reads.push((offset, length));
                assert_eq!(stream.shared.read_position as u64, stream.position);
            }
            step => {
                assert_eq!(step, ReadStep::Done(0));
                break;
            }
        }
    }
    assert_eq!(reads, vec![(0, 300), (300, 300), (600, 300), (900, 100)]);
}

#[test]
fn failed_read_leaves_the_reader_where_it_was() {
    let mut stream = AudioFileStreaming::new(1000, 10);
    stream.seek(7);
    stream.start_file_read(7);
    assert_eq!((stream.position, stream.shared.read_position), (7, 7));
}

#[test]
fn seek_moves_the_reader() {
    let mut stream = AudioFileStreaming::new(1000, 10);
    assert_eq!(stream.seek(123), 123);
    assert_eq!((stream.position, stream.shared.read_position), (123, 123));
    assert_eq!(stream.seek(2000), 2000);
    assert_eq!((stream.position, stream.shared.read_position), (2000, 1000));
    assert_eq!(stream.seek(1000), 1000);
    assert_eq!((stream.position, stream.shared.read_position), (1000, 1000));
}

#[test]
fn cached_file_is_read_as_it_is() {
    let mut file = AudioFile::Cached(CachedFile { length: 10 });
    assert!(file.is_cached());
    let plan = file.read(100, AHEAD);
    assert!(plan.commands.is_empty());
    assert_eq!(plan.step, ReadStep::ReadOn { length: 100 });
    assert_eq!(file.seek(5), 5);
    assert!(matches!(file, AudioFile::Cached(CachedFile { length: 10 })));
}

#[test]
fn streamed_file_reads_as_its_stream() {
    let mut file = AudioFile::Streaming(AudioFileStreaming::new(1000, 10));
    assert!(!file.is_cached());
    assert_eq!(file.seek(400), 400);
    let plan = file.read(100, AHEAD);
    assert_eq!(plan.commands, vec![fetch(400, 100)]);
    assert_eq!(plan.step, ReadStep::Wait(PendingRead { offset: 400, length: 100 }));
}

#[test]
fn what_a_read_goes_for_is_available() {
    let mut stream = AudioFileStreaming::new(1000, 10);
    stream.seek(10);
    downloaded(&mut stream, 0, 40);
    let step = stream.read(100, AHEAD).step;
    assert_eq!(step, ReadStep::SeekAndRead { offset: 10, length: 30 });
    let file = AudioFile::Streaming(stream);
    assert!(file.get_stream_loader_controller().range_available(Range::new(10, 30)));
    assert!(!file.get_stream_loader_controller().range_available(Range::new(10, 31)));
}

#[test]
fn seek_past_the_end_keeps_the_read_position_within_the_file() {
    let mut file = AudioFile::Streaming(AudioFileStreaming::new(100, 10));
    assert_eq!(file.seek(150), 150);
    let controller = file.get_stream_loader_controller();
    assert_eq!(controller.stream_shared.unwrap().read_position, 100);
    assert!(controller.range_to_end_available());
}

#[test]
fn reads_to_the_end_deliver_the_file_once_over() {
    let content: Vec<u8> = (0..1000).map(|i| (i * 7 % 251) as u8).collect();
    for (start, sizes) in [(0, [300, 1, 64]), (137, [13, 500, 2]), (999, [1, 1, 1]), (1000, [5, 5, 5])] {
        let mut stream = AudioFileStreaming::new(1000, 10);
        let mut disk = vec![0u8; 1000];
        let mut joined = vec![];
        stream.seek(start);
        for i in 0.. {
            let size = sizes[i % 3];
            let plan = stream.read(size, AHEAD);
            let mut step = plan.step;
            if let ReadStep::Wait(pending) = step {
                // the second half arrives first
                let half = pending.length / 2;
                for (from, length) in [(half, pending.length - half), (0, half)] {
                    let from = pending.offset + from;
                    disk[from..from + length].copy_from_slice(&content[from..from + length]);
                    downloaded(&mut stream, from, length);
                }
                step = stream.resume_read(pending);
            }
            match step {
                ReadStep::SeekAndRead { offset, length } => {
                    stream.start_file_read(offset as u64);
                    joined.extend_from_slice(&disk[offset..offset + length]);
                    stream.finish_read(length);
                }
                step => {
                    assert_eq!(step, ReadStep::Done(0));
                    break;
                }
            }
        }
        assert_eq!(joined, content[start as usize..].to_vec());
        assert_eq!(stream.position, 1000);
    }
}

#[test]
fn file_stands_at_the_position_of_the_stream() {
    let mut stream = AudioFileStreaming::new(1000, 10);
    downloaded(&mut stream, 0, 1000);
    let mut cursor: u64 = 0;
    for distance in [0i64, 250, -100, 700, -50, 0, 400, -700] {
        cursor = (cursor as i64 + distance) as u64;
        let position = stream.position;
        assert_eq!(stream.seek(cursor), (position as i64 + distance) as u64);
        if let ReadStep::SeekAndRead { offset, length } = stream.read(33, AHEAD).step {
            cursor = offset as u64;
            stream.start_file_read(cursor);
            cursor += length as u64;
            stream.finish_read(length);
        }
        assert_eq!(stream.position, cursor);
        assert_eq!(stream.shared.read_position, (cursor as usize).min(1000));
    }
}
