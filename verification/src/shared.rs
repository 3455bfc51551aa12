//! What the reader of a streamed file, its controllers and the loader that
//! downloads it share.
use crate::range_set::{Range, RangeSet};
use vstd::prelude::*;

verus! {

/// What a stream loader is told.
#[derive(Copy, Clone, Debug, PartialEq, Eq, Structural)]
pub enum StreamLoaderCommand {
    /// signal the stream loader to fetch a range of the file
    Fetch(Range),
    /// optimise download strategy for random access
    RandomAccessMode(),
    /// optimise download strategy for streaming
    StreamMode(),
    /// terminate and don't load any more data
    Close(),
}

/// Which positions of the file were asked for, and which have arrived.
#[derive(Debug)]
pub struct AudioFileDownloadStatus {
    pub requested: RangeSet,
    pub downloaded: RangeSet,
}

#[derive(Copy, Clone, Debug, PartialEq, Eq, Structural)]
pub enum DownloadStrategy {
    /// A read asks for the data that it returns.
    RandomAccess(),
    /// A read also asks for the data that playback will need soon.
    Streaming(),
}

#[derive(Debug)]
pub struct AudioFileShared {
    pub file_size: usize,
    pub bytes_per_second: usize,
    pub download_status: AudioFileDownloadStatus,
    pub download_strategy: DownloadStrategy,
    pub number_of_open_requests: usize,
    pub ping_time_ms: usize,
    pub read_position: usize,
}

impl AudioFileShared {
    /// The state of a file of which nothing was asked for yet.
    pub open spec fn is_fresh(&self, file_size: usize, bytes_per_second: usize) -> bool {
        &&& self.file_size == file_size
        &&& self.bytes_per_second == bytes_per_second
        &&& self.download_status.requested@ == Set::<int>::empty()
        &&& self.download_status.downloaded@ == Set::<int>::empty()
        &&& self.download_strategy == DownloadStrategy::RandomAccess()
        &&& self.number_of_open_requests == 0
        &&& self.ping_time_ms == 0
        &&& self.read_position == 0
    }

    /// Starts in random access mode, until someone tells otherwise.
    pub fn new(file_size: usize, bytes_per_second: usize) -> (shared: AudioFileShared)
        ensures
            shared.is_fresh(file_size, bytes_per_second),
    {
        AudioFileShared {
            file_size,
            bytes_per_second,
            download_status: AudioFileDownloadStatus {
                requested: RangeSet::new(),
                downloaded: RangeSet::new(),
            },
            download_strategy: DownloadStrategy::RandomAccess(),
            number_of_open_requests: 0,
            ping_time_ms: 0,
            read_position: 0,
        }
    }
}

} // verus!
