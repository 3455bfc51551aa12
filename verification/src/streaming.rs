//! Reading a file while it is downloaded.
use crate::range_set::{canonical, positions_of, Range, RangeSet};
use crate::shared::{
    AudioFileDownloadStatus, AudioFileShared, DownloadStrategy, StreamLoaderCommand,
};
use vstd::prelude::*;

verus! {

/// How much data, in bytes, is asked for ahead of the read position: what playback
/// needs within a fixed time, and what it needs within a number of roundtrips to the
/// server. Both are obeyed.
#[derive(Copy, Clone, Debug, PartialEq, Eq, Structural)]
pub struct ReadAhead {
    pub by_duration: usize,
    pub by_roundtrips: usize,
}

impl ReadAhead {
    pub open spec fn amount(self) -> usize {
        if self.by_duration < self.by_roundtrips {
            self.by_roundtrips
        } else {
            self.by_duration
        }
    }

    /// The larger of the two amounts.
    pub fn bytes(&self) -> (bytes: usize)
        ensures
            bytes == self.amount(),
    {
        if self.by_duration < self.by_roundtrips {
            self.by_roundtrips
        } else {
            self.by_duration
        }
    }
}

/// A read of at most `length` bytes at `offset`, for which data has to be there.
#[derive(Copy, Clone, Debug, PartialEq, Eq, Structural)]
pub struct PendingRead {
    pub offset: usize,
    pub length: usize,
}

/// What a read does next.
#[derive(Copy, Clone, Debug, PartialEq, Eq, Structural)]
pub enum ReadStep {
    /// Return this number of bytes.
    Done(usize),
    /// Wait until the download status changes or a timeout passes, and then go on
    /// with [`AudioFileStreaming::resume_read`].
    Wait(PendingRead),
    /// Seek to `offset` in the file, then read at most `length` bytes.
    SeekAndRead { offset: usize, length: usize },
    /// Read at most `length` bytes from where the file stands.
    ReadOn { length: usize },
}

/// The commands that a read sends to the stream loader, and what it does after that.
#[derive(Debug)]
pub struct ReadPlan {
    pub commands: Vec<StreamLoaderCommand>,
    pub step: ReadStep,
}

/// Each of `commands` asks for a range; these are the ranges.
pub open spec fn fetched_ranges(commands: Seq<StreamLoaderCommand>) -> Seq<Range> {
    commands.map_values(|command: StreamLoaderCommand| command->Fetch_0)
}

/// `commands` ask for the positions in `wanted` and no others, each one once, in as
/// few ranges as there can be and in ascending order.
pub open spec fn fetches_exactly(commands: Seq<StreamLoaderCommand>, wanted: Set<int>) -> bool {
    &&& forall|i: int| 0 <= i < commands.len() ==> (#[trigger] commands[i]) is Fetch
    &&& canonical(fetched_ranges(commands))
    &&& positions_of(fetched_ranges(commands)) == wanted
}

/// A command for each range of `ranges`.
fn fetch_commands(ranges: &RangeSet) -> (commands: Vec<StreamLoaderCommand>)
    ensures
        fetches_exactly(commands@, ranges@),
{
    let runs = ranges.as_slice();
    let mut commands: Vec<StreamLoaderCommand> = Vec::new();
    let mut i: usize = 0;
    while i < runs.len()
        invariant
            i <= runs@.len(),
            commands@.len() == i,
            forall|j: int|
                0 <= j < i ==> #[trigger] commands@[j] == StreamLoaderCommand::Fetch(runs@[j]),
        decreases runs@.len() - i,
    {
        commands.push(StreamLoaderCommand::Fetch(runs[i]));
        i = i + 1;
    }
    assert(fetched_ranges(commands@) =~= runs@);
    commands
}

impl AudioFileDownloadStatus {
    /// `step` is what a pending read does next. While nothing is there at its
    /// offset it waits. Otherwise it reads what is there without a gap, up to its
    /// length.
    pub open spec fn decides(&self, pending: PendingRead, step: ReadStep) -> bool {
        match step {
            ReadStep::Wait(p) => p == pending && !self.downloaded@.contains(pending.offset as int),
            ReadStep::SeekAndRead { offset, length } => {
                &&& offset == pending.offset
                &&& length <= pending.length
                &&& self.downloaded@.contains(offset as int)
                &&& forall|x: int| offset <= x < offset + length ==> self.downloaded@.contains(x)
                &&& length < pending.length ==> !self.downloaded@.contains(offset + length)
            },
            _ => false,
        }
    }
}

/// A file that is read while it is downloaded.
#[derive(Debug)]
pub struct AudioFileStreaming {
    pub position: u64,
    pub shared: AudioFileShared,
}

impl AudioFileStreaming {
    /// `position`, as far as it lies within the file.
    pub open spec fn noted(&self, position: u64) -> usize {
        if (position as usize) > self.shared.file_size {
            self.shared.file_size
        } else {
            position as usize
        }
    }

    /// The read position that the controllers see is the position of the reader, as far
    /// as it lies within the file.
    pub open spec fn well_formed(&self) -> bool {
        self.shared.read_position == self.noted(self.position)
    }

    pub open spec fn offset(&self) -> usize {
        self.position as usize
    }

    /// How many bytes the file has from the reader's position on.
    pub open spec fn remaining(&self) -> int {
        if self.offset() < self.shared.file_size {
            self.shared.file_size - self.offset()
        } else {
            0
        }
    }

    /// How many bytes a read into `output_len` bytes is after.
    pub open spec fn read_length(&self, output_len: usize) -> int {
        if output_len < self.remaining() {
            output_len as int
        } else {
            self.remaining()
        }
    }

    /// What a read into `output_len` bytes is after.
    pub open spec fn pending(&self, output_len: usize) -> PendingRead {
        PendingRead { offset: self.offset(), length: self.read_length(output_len) as usize }
    }

    /// How many bytes a read sees to it that they are downloaded.
    pub open spec fn request_length(&self, output_len: usize, ahead: ReadAhead) -> int {
        let length = self.read_length(output_len);
        match self.shared.download_strategy {
            DownloadStrategy::RandomAccess() => length,
            DownloadStrategy::Streaming() => if length + ahead.amount() < self.remaining() {
                length + ahead.amount()
            } else {
                self.remaining()
            },
        }
    }

    /// The positions that a read looks after.
    pub open spec fn window(&self, output_len: usize, ahead: ReadAhead) -> Set<int> {
        Set::new(
            |x: int|
                self.offset() <= x < self.offset() + self.request_length(output_len, ahead),
        )
    }

    /// The positions that a read asks for: those that it looks after and that
    /// neither are there nor were asked for.
    pub open spec fn missing(&self, output_len: usize, ahead: ReadAhead) -> Set<int> {
        self.window(output_len, ahead).difference(
            self.shared.download_status.downloaded@,
        ).difference(self.shared.download_status.requested@)
    }

    /// The amount of data to ask for, before it is cut off at the end of the file, is a
    /// number that a `usize` can hold.
    pub open spec fn may_read(&self, output_len: usize, ahead: ReadAhead) -> bool {
        self.shared.download_strategy == DownloadStrategy::Streaming() && self.remaining() > 0
            ==> self.read_length(output_len) + ahead.amount() <= usize::MAX
    }

    /// `plan` is what a read into `output_len` bytes does. It asks for what is missing
    /// and then goes for the data, unless there is nothing to read.
    pub open spec fn plans(&self, output_len: usize, ahead: ReadAhead, plan: ReadPlan) -> bool {
        &&& fetches_exactly(plan.commands@, self.missing(output_len, ahead))
        &&& if self.read_length(output_len) == 0 {
            plan.step == ReadStep::Done(0)
        } else {
            self.shared.download_status.decides(self.pending(output_len), plan.step)
        }
    }

    /// `after` is this stream when a seek has left it at `position`.
    pub open spec fn sought(&self, position: u64, after: AudioFileStreaming) -> bool {
        &&& after.position == position
        &&& after.shared == AudioFileShared { read_position: self.noted(position), ..self.shared }
    }

    /// `after` is this stream when the file was positioned for a read.
    pub open spec fn positioned(&self, position: u64, after: AudioFileStreaming) -> bool {
        &&& after.position == position
        &&& after.shared == self.shared
    }

    /// `after` is this stream when `read_len` bytes were read at its position.
    pub open spec fn finished(&self, read_len: usize, after: AudioFileStreaming) -> bool {
        &&& after.position == self.position + read_len
        &&& after.shared == AudioFileShared {
            read_position: self.noted(after.position),
            ..self.shared
        }
    }

    /// Begins a read into `output_len` bytes. At the end of the file, or where
    /// `output_len` is zero, it returns no bytes.
    ///
    /// `ahead` counts in streaming mode alone.
    pub fn read(&self, output_len: usize, ahead: ReadAhead) -> (plan: ReadPlan)
        requires
            self.may_read(output_len, ahead),
        ensures
            self.plans(output_len, ahead, plan),
    {
        let offset: usize = self.position as usize;
        if offset >= self.shared.file_size {
            let ranges = RangeSet::new();
            assert(self.missing(output_len, ahead) =~= Set::<int>::empty());
            return ReadPlan { commands: fetch_commands(&ranges), step: ReadStep::Done(0) };
        }
        let remaining: usize = self.shared.file_size - offset;
        let length: usize = if output_len < remaining {
            output_len
        } else {
            remaining
        };
        let length_to_request: usize = match self.shared.download_strategy {
            DownloadStrategy::RandomAccess() => length,
            DownloadStrategy::Streaming() => {
                // Due to the read-ahead, more may be asked for than the read demands.
                let with_ahead: usize = length + ahead.bytes();
                if with_ahead < remaining {
                    with_ahead
                } else {
                    remaining
                }
            },
        };
        let mut ranges_to_request = RangeSet::new();
        ranges_to_request.add_range(&Range::new(offset, length_to_request));
        ranges_to_request.subtract_range_set(&self.shared.download_status.downloaded);
        ranges_to_request.subtract_range_set(&self.shared.download_status.requested);
        assert(ranges_to_request@ =~= self.missing(output_len, ahead));
        let commands = fetch_commands(&ranges_to_request);
        let step = if length == 0 {
            ReadStep::Done(0)
        } else {
            self.resume_read(PendingRead { offset, length })
        };
        ReadPlan { commands, step }
    }

    /// Decides what a read does that waits for data.
    pub fn resume_read(&self, pending: PendingRead) -> (step: ReadStep)
        ensures
            self.shared.download_status.decides(pending, step),
    {
        let downloaded = &self.shared.download_status.downloaded;
        if !downloaded.contains(pending.offset) {
            return ReadStep::Wait(pending);
        }
        let available_length: usize = downloaded.contained_length_from_value(pending.offset);
        let length: usize = if pending.length < available_length {
            pending.length
        } else {
            available_length
        };
        ReadStep::SeekAndRead { offset: pending.offset, length }
    }

    fn position_within_file(&self, position: u64) -> (noted: usize)
        ensures
            noted == self.noted(position),
    {
        let position: usize = position as usize;
        if position > self.shared.file_size {
            self.shared.file_size
        } else {
            position
        }
    }

    /// Takes note that the file was positioned for a read.
    pub fn start_file_read(&mut self, position: u64)
        ensures
            old(self).positioned(position, *final(self)),
    {
        self.position = position;
    }

    /// Takes note that `read_len` bytes were read at the reader's position, and
    /// returns their number.
    pub fn finish_read(&mut self, read_len: usize) -> (returned: usize)
        requires
            old(self).position + read_len <= u64::MAX,
        ensures
            returned == read_len,
            old(self).finished(read_len, *final(self)),
            final(self).well_formed(),
    {
        self.position = self.position + read_len as u64;
        self.shared.read_position = self.position_within_file(self.position);
        read_len
    }

    /// Takes note that a seek left the file at `position`, and returns it. The read
    /// position that the controllers see stays within the file.
    pub fn seek(&mut self, position: u64) -> (returned: u64)
        ensures
            returned == position,
            old(self).sought(position, *final(self)),
            final(self).well_formed(),
    {
        self.position = position;
        // Do not move the read position past the end of the file
        self.shared.read_position = self.position_within_file(position);
        self.position
    }
}

} // verus!
