//! Steering the loader of a file from outside.
use crate::guarantees::{
    law_blocking_fetch_waits_until_downloaded, law_lost_range_is_fetched_again,
};
use crate::range_set::{Range, RangeSet};
use crate::shared::{AudioFileShared, StreamLoaderCommand};
use std::time::Duration;
use vstd::prelude::*;

verus! {

/// How long `duration` is, in nanoseconds.
pub uninterp spec fn duration_nanos(duration: Duration) -> nat;

/// `Duration::from_millis` gives a duration of that many milliseconds, each of them a
/// million nanoseconds.
pub assume_specification[ Duration::from_millis ](millis: u64) -> (duration: Duration)
    ensures
        duration_nanos(duration) == millis * 1_000_000,
;

/// What a caller that waits for a range does: it sends `command`, where there is one,
/// and then waits for the range in `wait`, where there is one. With no range to wait for
/// it is done.
#[derive(Copy, Clone, Debug, PartialEq, Eq, Structural)]
pub struct FetchProgress {
    pub command: Option<StreamLoaderCommand>,
    pub wait: Option<Range>,
}

/// All positions of `range` are in `set`.
pub open spec fn holds_range(set: Set<int>, range: Range) -> bool {
    range.positions().subset_of(set)
}

/// The part of `range` that lies within the first `size` positions; it is empty, and
/// keeps its start, where none does.
pub open spec fn within(range: Range, size: usize) -> Range {
    Range {
        start: range.start,
        length: if range.start >= size {
            0
        } else if range.past() > size {
            (size - range.start) as usize
        } else {
            range.length
        },
    }
}

fn set_holds_range(set: &RangeSet, range: Range) -> (held: bool)
    ensures
        held == holds_range(set@, range),
{
    let length: usize = set.contained_length_from_value(range.start);
    proof {
        if range.length > length {
            assert(range.positions().contains(range.start + length));
        }
    }
    range.length <= length
}

/// Steers the loader of a file. A file that is streamed has a channel to its loader
/// and the state that it shares with it; a cached one has neither.
#[derive(Clone, Copy, Debug)]
pub struct StreamLoaderController<'a> {
    pub has_channel: bool,
    pub stream_shared: Option<&'a AudioFileShared>,
    pub file_size: usize,
}

impl<'a> StreamLoaderController<'a> {
    pub open spec fn well_formed(&self) -> bool {
        &&& self.has_channel <==> self.stream_shared is Some
        &&& self.stream_shared matches Some(shared) ==> shared.file_size == self.file_size
    }

    /// The data of `range` is there to be read.
    pub open spec fn available(&self, range: Range) -> bool {
        match self.stream_shared {
            Some(shared) => holds_range(shared.download_status.downloaded@, range),
            None => range.past() <= self.file_size,
        }
    }

    /// The data of `range` is there, or was asked for.
    pub open spec fn available_or_requested(&self, range: Range) -> bool {
        match self.stream_shared {
            Some(shared) => holds_range(
                shared.download_status.downloaded@.union(shared.download_status.requested@),
                range,
            ),
            None => range.past() <= self.file_size,
        }
    }

    /// What becomes of `command`: it is sent where there is a channel.
    pub open spec fn sent(&self, command: StreamLoaderCommand) -> Option<StreamLoaderCommand> {
        if self.has_channel {
            Some(command)
        } else {
            None
        }
    }

    /// `range`, as long as a caller has to wait for it.
    pub open spec fn awaited(&self, range: Range) -> Option<Range> {
        if self.stream_shared is None || self.available(range) {
            None
        } else {
            Some(range)
        }
    }

    /// How a caller begins that fetches `range` and waits for it.
    pub open spec fn first_progress(&self, range: Range) -> FetchProgress {
        let range = within(range, self.file_size);
        FetchProgress {
            command: self.sent(StreamLoaderCommand::Fetch(range)),
            wait: self.awaited(range),
        }
    }

    /// How a caller goes on that has waited for `range`.
    pub open spec fn next_progress(&self, range: Range) -> FetchProgress {
        FetchProgress {
            command: if self.stream_shared is None || self.available_or_requested(range) {
                None
            } else {
                self.sent(StreamLoaderCommand::Fetch(range))
            },
            wait: self.awaited(range),
        }
    }

    /// The length of the file.
    pub fn len(&self) -> (length: usize)
        ensures
            length == self.file_size,
    {
        self.file_size
    }

    pub fn is_empty(&self) -> (empty: bool)
        ensures
            empty == (self.file_size == 0),
    {
        self.file_size == 0
    }

    /// Tells whether the data of `range` is there to be read.
    pub fn range_available(&self, range: Range) -> (available: bool)
        requires
            self.stream_shared is None ==> range.start <= self.file_size,
        ensures
            available == self.available(range),
    {
        match self.stream_shared {
            Some(shared) => set_holds_range(&shared.download_status.downloaded, range),
            None => range.length <= self.len() - range.start,
        }
    }

    /// Tells whether all data from the read position to the end of the file is there.
    pub fn range_to_end_available(&self) -> (available: bool)
        requires
            self.stream_shared matches Some(shared) ==> shared.read_position <= self.file_size,
        ensures
            available == match self.stream_shared {
                Some(shared) => forall|x: int|
                    shared.read_position <= x < self.file_size
                        ==> shared.download_status.downloaded@.contains(x),
                None => true,
            },
    {
        match self.stream_shared {
            Some(shared) => {
                let read_position: usize = shared.read_position;
                let rest = Range::new(read_position, self.len() - read_position);
                proof {
                    let downloaded = shared.download_status.downloaded@;
                    assert forall|x: int|
                        self.available(rest) && read_position <= x < self.file_size implies
                        downloaded.contains(x) by {
                        assert(rest.positions().contains(x));
                    }
                }
                self.range_available(rest)
            },
            None => true,
        }
    }

    /// The ping time to the server, which is zero for a cached file.
    pub fn ping_time(&self) -> (time: Duration)
        ensures
            duration_nanos(time) == match self.stream_shared {
                Some(shared) => shared.ping_time_ms * 1_000_000,
                None => 0,
            },
    {
        let millis: u64 = match self.stream_shared {
            Some(shared) => shared.ping_time_ms as u64,
            None => 0,
        };
        Duration::from_millis(millis)
    }

    /// The command that is sent, if any.
    fn send_stream_loader_command(&self, command: StreamLoaderCommand) -> (sent: Option<
        StreamLoaderCommand,
    >)
        ensures
            sent == self.sent(command),
    {
        if self.has_channel {
            Some(command)
        } else {
            None
        }
    }

    /// Signals the stream loader to fetch a range of the file.
    pub fn fetch(&self, range: Range) -> (sent: Option<StreamLoaderCommand>)
        ensures
            sent == self.sent(StreamLoaderCommand::Fetch(range)),
    {
        self.send_stream_loader_command(StreamLoaderCommand::Fetch(range))
    }

    /// Signals the stream loader to fetch the part of `range` that lies within the file,
    /// and tells what to wait for until it is loaded. Each time that the wait ends,
    /// [`StreamLoaderController::continue_fetch`] goes on.
    pub fn fetch_blocking(&self, range: Range) -> (progress: FetchProgress)
        requires
            range.start < self.file_size ==> range.past() <= usize::MAX,
        ensures
            progress == self.first_progress(range),
            self.stream_shared matches Some(shared) ==> (progress.wait is None <==> forall|x: int|
                range.start <= x < range.start + range.length && x < self.file_size
                    ==> #[trigger] shared.download_status.downloaded@.contains(x)),
    {
        proof {
            if let Some(shared) = self.stream_shared {
                law_blocking_fetch_waits_until_downloaded(*self, range, shared);
            }
        }
        let mut range = range;
        // ensure the range is within the file's bounds.
        if range.start >= self.len() {
            range.length = 0;
        } else if range.end() > self.len() {
            range.length = self.len() - range.start;
        }
        FetchProgress { command: self.fetch(range), wait: self.still_missing(range) }
    }

    /// Decides what is done after a wait for `range`. Where it is neither downloaded nor
    /// requested, which a network error can bring about, it is requested again.
    pub fn continue_fetch(&self, range: Range) -> (progress: FetchProgress)
        ensures
            progress == self.next_progress(range),
            self.stream_shared matches Some(shared) ==> (progress.wait is None <==> forall|x: int|
                range.start <= x < range.start + range.length
                    ==> #[trigger] shared.download_status.downloaded@.contains(x)),
            self.stream_shared matches Some(shared) ==> self.has_channel ==> (progress.command is None
                <==> forall|x: int|
                #![trigger shared.download_status.downloaded@.contains(x)]
                #![trigger shared.download_status.requested@.contains(x)]
                range.start <= x < range.start + range.length
                    ==> shared.download_status.downloaded@.contains(x)
                    || shared.download_status.requested@.contains(x)),
    {
        proof {
            if let Some(shared) = self.stream_shared {
                law_lost_range_is_fetched_again(*self, range, shared);
            }
        }
        let command = match self.stream_shared {
            Some(shared) => {
                let status = &shared.download_status;
                if set_holds_range(&status.downloaded.union(&status.requested), range) {
                    None
                } else {
                    self.fetch(range)
                }
            },
            None => None,
        };
        FetchProgress { command, wait: self.still_missing(range) }
    }

    fn still_missing(&self, range: Range) -> (wait: Option<Range>)
        ensures
            wait == self.awaited(range),
    {
        match self.stream_shared {
            Some(shared) => if set_holds_range(&shared.download_status.downloaded, range) {
                None
            } else {
                Some(range)
            },
            None => None,
        }
    }

    /// Signals the stream loader to fetch the next `length` bytes behind the read position.
    pub fn fetch_next(&self, length: usize) -> (sent: Option<StreamLoaderCommand>)
        ensures
            sent == match self.stream_shared {
                Some(shared) => self.sent(
                    StreamLoaderCommand::Fetch((Range { start: shared.read_position, length })),
                ),
                None => None,
            },
    {
        match self.stream_shared {
            Some(shared) => self.fetch(Range { start: shared.read_position, length }),
            None => None,
        }
    }

    /// As [`StreamLoaderController::fetch_blocking`], for the next `length` bytes behind
    /// the read position.
    pub fn fetch_next_blocking(&self, length: usize) -> (progress: FetchProgress)
        requires
            self.stream_shared matches Some(shared) ==> shared.read_position < self.file_size
                ==> shared.read_position + length <= usize::MAX,
        ensures
            progress == match self.stream_shared {
                Some(shared) => self.first_progress(
                    (Range { start: shared.read_position, length }),
                ),
                None => FetchProgress { command: None, wait: None },
            },
            self.stream_shared matches Some(shared) ==> (progress.wait is None <==> forall|x: int|
                shared.read_position <= x < shared.read_position + length && x < self.file_size
                    ==> #[trigger] shared.download_status.downloaded@.contains(x)),
    {
        match self.stream_shared {
            Some(shared) => self.fetch_blocking(Range { start: shared.read_position, length }),
            None => FetchProgress { command: None, wait: None },
        }
    }

    /// Optimises the download strategy for random access.
    pub fn set_random_access_mode(&self) -> (sent: Option<StreamLoaderCommand>)
        ensures
            sent == self.sent(StreamLoaderCommand::RandomAccessMode()),
    {
        self.send_stream_loader_command(StreamLoaderCommand::RandomAccessMode())
    }

    /// Optimises the download strategy for streaming.
    pub fn set_stream_mode(&self) -> (sent: Option<StreamLoaderCommand>)
        ensures
            sent == self.sent(StreamLoaderCommand::StreamMode()),
    {
        self.send_stream_loader_command(StreamLoaderCommand::StreamMode())
    }

    /// Terminates stream loading: no more data is loaded for this file.
    pub fn close(&self) -> (sent: Option<StreamLoaderCommand>)
        ensures
            sent == self.sent(StreamLoaderCommand::Close()),
    {
        self.send_stream_loader_command(StreamLoaderCommand::Close())
    }
}

} // verus!
