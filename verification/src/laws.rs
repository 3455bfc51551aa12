//! What holds of reading, steering and opening a file across calls.
use crate::audio_file::{AudioFile, CachedFile};
use crate::content_range::{file_size_of_fields, header_fields};
use crate::controller::{holds_range, within, FetchProgress, StreamLoaderController};
use crate::opening::{AudioFileError, OpenEvent, OpenPlan, Opening};
use crate::range_set::{covered, lemma_canonical_unique, positions_of, Range};
use crate::shared::{
    AudioFileDownloadStatus, AudioFileShared, DownloadStrategy, StreamLoaderCommand,
};
use crate::streaming::{
    fetched_ranges, fetches_exactly, AudioFileStreaming, PendingRead, ReadAhead, ReadPlan, ReadStep,
};
use hyper::header::{HeaderMap, HeaderValue};
use vstd::prelude::*;

verus! {

/// Commands that ask for exactly the same positions are the same commands.
pub proof fn law_fetch_commands_are_determined(
    a: Seq<StreamLoaderCommand>,
    b: Seq<StreamLoaderCommand>,
    wanted: Set<int>,
)
    requires
        fetches_exactly(a, wanted),
        fetches_exactly(b, wanted),
    ensures
        a == b,
        wanted == Set::<int>::empty() <==> a.len() == 0,
{
    let (a_ranges, b_ranges) = (fetched_ranges(a), fetched_ranges(b));
    assert forall|x: int| covered(a_ranges, x) == covered(b_ranges, x) by {
        assert(positions_of(a_ranges).contains(x) <==> covered(a_ranges, x));
        assert(positions_of(b_ranges).contains(x) <==> covered(b_ranges, x));
    }
    lemma_canonical_unique(a_ranges, b_ranges);
    assert forall|i: int| 0 <= i < a.len() implies a[i] == b[i] by {
        assert(a_ranges[i] == b_ranges[i]);
        assert(a[i] is Fetch && b[i] is Fetch);
    }
    assert(a =~= b);
    if a.len() == 0 {
        assert(wanted =~= Set::<int>::empty());
    } else {
        let first = a_ranges[0];
        assert(first.has(first.start as int));
        assert(positions_of(a_ranges).contains(first.start as int));
    }
}

/// A pending read has one thing to do next: two steps that both follow are the same.
pub proof fn law_next_step_is_determined(
    status: AudioFileDownloadStatus,
    pending: PendingRead,
    a: ReadStep,
    b: ReadStep,
)
    requires
        status.decides(pending, a),
        status.decides(pending, b),
    ensures
        a == b,
{
}

/// A read asks for nothing that is there or was asked for already, for nothing before the
/// reader's position, and for nothing behind the end of the file.
pub proof fn law_read_asks_for_missing_data_only(
    stream: AudioFileStreaming,
    output_len: usize,
    ahead: ReadAhead,
    plan: ReadPlan,
    x: int,
)
    requires
        stream.plans(output_len, ahead, plan),
        covered(fetched_ranges(plan.commands@), x),
    ensures
        !stream.shared.download_status.downloaded@.contains(x),
        !stream.shared.download_status.requested@.contains(x),
        stream.offset() <= x < stream.shared.file_size,
{
    assert(positions_of(fetched_ranges(plan.commands@)).contains(x));
}

/// Whatever a read may return is there, was asked for, or is asked for by the read.
pub proof fn law_read_sees_to_its_data(
    stream: AudioFileStreaming,
    output_len: usize,
    ahead: ReadAhead,
    plan: ReadPlan,
    x: int,
)
    requires
        stream.plans(output_len, ahead, plan),
        stream.offset() <= x < stream.offset() + stream.read_length(output_len),
    ensures
        stream.shared.download_status.downloaded@.contains(x)
            || stream.shared.download_status.requested@.contains(x) || covered(
            fetched_ranges(plan.commands@),
            x,
        ),
{
    assert(stream.window(output_len, ahead).contains(x));
    assert(positions_of(fetched_ranges(plan.commands@)).contains(x) <==> stream.missing(
        output_len,
        ahead,
    ).contains(x));
}

/// Once the commands of a read are taken up, so that what they ask for counts as requested
/// or downloaded, the same read asks for nothing more.
pub proof fn law_read_asks_once(
    before: AudioFileStreaming,
    after: AudioFileStreaming,
    output_len: usize,
    ahead: ReadAhead,
    first: ReadPlan,
    second: ReadPlan,
)
    requires
        before.plans(output_len, ahead, first),
        after.plans(output_len, ahead, second),
        after.position == before.position,
        after.shared.file_size == before.shared.file_size,
        after.shared.download_strategy == before.shared.download_strategy,
        before.shared.download_status.downloaded@.union(
            before.shared.download_status.requested@,
        ).union(positions_of(fetched_ranges(first.commands@))).subset_of(
            after.shared.download_status.downloaded@.union(after.shared.download_status.requested@),
        ),
    ensures
        second.commands@.len() == 0,
{
    let wanted = after.missing(output_len, ahead);
    assert forall|x: int| !wanted.contains(x) by {
        if wanted.contains(x) {
            assert(before.window(output_len, ahead).contains(x));
            let known = before.shared.download_status.downloaded@.union(
                before.shared.download_status.requested@,
            ).union(positions_of(fetched_ranges(first.commands@)));
            assert(known.contains(x)) by {
                if !before.shared.download_status.downloaded@.contains(x)
                    && !before.shared.download_status.requested@.contains(x) {
                    assert(before.missing(output_len, ahead).contains(x));
                }
            }
        }
    }
    assert(wanted =~= Set::<int>::empty());
    law_fetch_commands_are_determined(second.commands@, second.commands@, wanted);
}

/// In streaming mode a read looks after all that it looks after in random access mode,
/// and in random access mode after nothing but what it may return.
pub proof fn law_streaming_mode_looks_further_ahead(
    streaming: AudioFileStreaming,
    random: AudioFileStreaming,
    output_len: usize,
    ahead: ReadAhead,
)
    requires
        streaming.shared.download_strategy == DownloadStrategy::Streaming(),
        random.shared.download_strategy == DownloadStrategy::RandomAccess(),
        streaming.position == random.position,
        streaming.shared.file_size == random.shared.file_size,
    ensures
        random.window(output_len, ahead).subset_of(streaming.window(output_len, ahead)),
        random.request_length(output_len, ahead) == random.read_length(output_len),
{
}

/// A read at the end of the file, or behind it, returns no bytes and asks for none.
pub proof fn law_read_at_end_of_file(
    stream: AudioFileStreaming,
    output_len: usize,
    ahead: ReadAhead,
    plan: ReadPlan,
)
    requires
        stream.plans(output_len, ahead, plan),
        stream.offset() >= stream.shared.file_size,
    ensures
        plan.step == ReadStep::Done(0),
        plan.commands@.len() == 0,
{
    let wanted = stream.missing(output_len, ahead);
    assert(wanted =~= Set::<int>::empty());
    law_fetch_commands_are_determined(plan.commands@, plan.commands@, wanted);
}

/// What a read goes for, at once or after it has waited, is at least one byte, fits into the
/// output, lies within the file, and is there.
///
/// `status` is the download status by which the read decides.
pub proof fn law_read_goes_for_data_that_is_there(
    stream: AudioFileStreaming,
    output_len: usize,
    status: AudioFileDownloadStatus,
    offset: usize,
    length: usize,
)
    requires
        stream.read_length(output_len) > 0,
        status.decides(stream.pending(output_len), ReadStep::SeekAndRead { offset, length }),
    ensures
        offset == stream.offset(),
        0 < length <= output_len,
        offset + length <= stream.shared.file_size,
        forall|x: int| offset <= x < offset + length ==> status.downloaded@.contains(x),
{
}

/// Where all that a read looks after has arrived, it neither waits nor asks for anything,
/// and goes for all the bytes that it is after.
pub proof fn law_served_read_goes_for_everything(
    stream: AudioFileStreaming,
    output_len: usize,
    ahead: ReadAhead,
    plan: ReadPlan,
)
    requires
        stream.plans(output_len, ahead, plan),
        stream.window(output_len, ahead).subset_of(stream.shared.download_status.downloaded@),
        stream.read_length(output_len) > 0,
    ensures
        plan.commands@.len() == 0,
        plan.step == (ReadStep::SeekAndRead {
            offset: stream.offset(),
            length: stream.read_length(output_len) as usize,
        }),
{
    let wanted = stream.missing(output_len, ahead);
    assert(wanted =~= Set::<int>::empty());
    law_fetch_commands_are_determined(plan.commands@, plan.commands@, wanted);
    assert forall|x: int|
        stream.offset() <= x < stream.offset() + stream.read_length(
            output_len,
        ) implies stream.shared.download_status.downloaded@.contains(x) by {
        assert(stream.window(output_len, ahead).contains(x));
    }
    assert(stream.shared.download_status.downloaded@.contains(stream.offset() as int));
}

/// A read that gets `read_len` of the bytes that it goes for, at once or after it has waited,
/// leaves the reader that far on, within the file, and the controllers see it there. The next
/// read starts where this one ended.
///
/// `positioned` and `after` are the stream when the file was positioned for the read, and
/// when the read was finished. What was downloaded meanwhile is in `positioned`.
pub proof fn law_reads_follow_each_other(
    before: AudioFileStreaming,
    positioned: AudioFileStreaming,
    after: AudioFileStreaming,
    output_len: usize,
    status: AudioFileDownloadStatus,
    offset: usize,
    length: usize,
    read_len: usize,
)
    requires
        before.well_formed(),
        before.read_length(output_len) > 0,
        status.decides(before.pending(output_len), ReadStep::SeekAndRead { offset, length }),
        read_len <= length,
        positioned.position == offset,
        positioned.shared.file_size == before.shared.file_size,
        positioned.shared.read_position == before.shared.read_position,
        positioned.finished(read_len, after),
    ensures
        positioned.well_formed(),
        after.well_formed(),
        positioned.position + read_len <= u64::MAX,
        after.offset() == before.offset() + read_len,
        after.offset() <= after.shared.file_size,
        after.shared.read_position == before.shared.read_position + read_len,
{
}

/// A read that was finished, at once or after it has waited.
pub struct FinishedRead {
    /// The stream when the read began.
    pub before: AudioFileStreaming,
    pub output_len: usize,
    /// The download status by which the read went for its data.
    pub status: AudioFileDownloadStatus,
    /// How many bytes it went for.
    pub length: usize,
    /// The bytes of the file that the data is downloaded to, when it was read.
    pub disk: Seq<u8>,
    /// The bytes that the read returned.
    pub chunk: Seq<u8>,
    /// The stream when the read was finished.
    pub after: AudioFileStreaming,
}

impl FinishedRead {
    /// The read went for data that was there, got at least one byte of it, and moved the
    /// reader behind what it got. What is downloaded is what the file to download,
    /// `content`, holds there.
    pub open spec fn is_read_of(&self, content: Seq<u8>) -> bool {
        let offset = self.before.offset();
        &&& self.before.shared.file_size == content.len()
        &&& self.status.decides(
            self.before.pending(self.output_len),
            ReadStep::SeekAndRead { offset, length: self.length },
        )
        &&& self.disk.len() == content.len()
        &&& forall|x: int|
            0 <= x < content.len() && self.status.downloaded@.contains(x) ==> self.disk[x]
                == content[x]
        &&& 0 < self.chunk.len() <= self.length
        &&& self.chunk == self.disk.subrange(offset as int, offset + self.chunk.len())
        &&& self.after.position == offset + self.chunk.len()
        &&& self.after.shared.file_size == self.before.shared.file_size
    }
}

/// `reads` lead the reader from `start` to `end`, and each starts where the one before it
/// ended.
pub open spec fn reads_on(
    content: Seq<u8>,
    start: u64,
    reads: Seq<FinishedRead>,
    end: u64,
) -> bool {
    &&& forall|i: int| 0 <= i < reads.len() ==> (#[trigger] reads[i]).is_read_of(content)
    &&& forall|i: int, j: int|
        #![trigger reads[i], reads[j]]
        0 <= i < reads.len() && j == i + 1 && j < reads.len() ==> reads[i].after.position
            == reads[j].before.position
    &&& if reads.len() == 0 {
        end == start
    } else {
        reads[0].before.position == start && reads.last().after.position == end
    }
}

/// What `reads` returned, one after the other.
pub open spec fn joined(reads: Seq<FinishedRead>) -> Seq<u8>
    decreases reads.len(),
{
    if reads.len() == 0 {
        Seq::empty()
    } else {
        joined(reads.drop_last()) + reads.last().chunk
    }
}

proof fn lemma_read_returns_content(content: Seq<u8>, read: FinishedRead)
    requires
        read.before.position <= content.len() <= usize::MAX,
        read.is_read_of(content),
    ensures
        read.before.position < read.after.position <= content.len(),
        read.chunk == content.subrange(
            read.before.position as int,
            read.after.position as int,
        ),
{
    let offset = read.before.offset() as int;
    assert(read.before.position == offset);
    assert(offset + read.length <= content.len());
    assert forall|i: int| 0 <= i < read.chunk.len() implies read.chunk[i] == content[offset + i] by {
        assert(read.status.downloaded@.contains(offset + i));
        assert(read.chunk[i] == read.disk[offset + i]);
    }
    assert(read.chunk =~= content.subrange(offset, offset + read.chunk.len()));
}

/// Reads that follow each other return what the file holds between the position where the
/// first one started and the position where the last one ended, each byte once and in order,
/// whatever the sizes of the outputs and the order in which the data arrived.
pub proof fn law_reads_return_the_file_in_order(
    content: Seq<u8>,
    start: u64,
    reads: Seq<FinishedRead>,
    end: u64,
)
    requires
        start <= content.len() <= usize::MAX,
        reads_on(content, start, reads, end),
    ensures
        start + reads.len() <= end <= content.len(),
        joined(reads) == content.subrange(start as int, end as int),
    decreases reads.len(),
{
    if reads.len() == 0 {
        assert(joined(reads) =~= content.subrange(start as int, end as int));
    } else {
        let last = reads.last();
        let earlier = reads.drop_last();
        let middle = last.before.position;
        assert(reads_on(content, start, earlier, middle)) by {
            if earlier.len() > 0 {
                assert(reads[reads.len() - 2].after.position == middle);
            }
        }
        law_reads_return_the_file_in_order(content, start, earlier, middle);
        lemma_read_returns_content(content, last);
        assert(joined(reads) =~= content.subrange(start as int, end as int));
    }
}

/// Reading on until a read into a non-empty output returns no bytes delivers the file from
/// the reader's first position to its end: nothing is skipped and nothing comes twice, and
/// the reader stands at the end of the file. No more reads are needed than there are bytes.
///
/// `last` is the stream when that read begins, and `plan` what it does.
pub proof fn law_reading_to_the_end_delivers_the_file(
    content: Seq<u8>,
    start: u64,
    reads: Seq<FinishedRead>,
    last: AudioFileStreaming,
    output_len: usize,
    ahead: ReadAhead,
    plan: ReadPlan,
)
    requires
        start <= content.len(),
        last.shared.file_size == content.len(),
        reads_on(content, start, reads, last.position),
        output_len > 0,
        last.plans(output_len, ahead, plan),
        plan.step == ReadStep::Done(0),
    ensures
        joined(reads) == content.subrange(start as int, content.len() as int),
        last.position == content.len(),
        reads.len() <= content.len() - start,
{
    law_reads_return_the_file_in_order(content, start, reads, last.position);
}

/// Before the end of the file, a read into a non-empty output never returns without data: it
/// waits or it goes for data.
pub proof fn law_read_before_the_end_goes_on(
    stream: AudioFileStreaming,
    output_len: usize,
    ahead: ReadAhead,
    plan: ReadPlan,
)
    requires
        stream.plans(output_len, ahead, plan),
        stream.offset() < stream.shared.file_size,
        output_len > 0,
    ensures
        plan.step is Wait || plan.step is SeekAndRead,
{
}

/// A stream, and the place where the file stands that it is read from.
pub struct Reader {
    pub stream: AudioFileStreaming,
    pub cursor: u64,
}

/// What can happen to a reader.
pub enum ReaderEvent {
    /// The loader works, while a read waits or between the calls.
    Loaded,
    /// The file is positioned for a read that goes for `length` bytes by `status`.
    Positioned { output_len: usize, status: AudioFileDownloadStatus, length: usize },
    /// The file is read, which moves it on by the bytes that were read.
    FileRead { read_len: usize },
    /// A seek moves the file to `place`.
    Sought { place: u64 },
}

impl Reader {
    /// A file that was just opened, to be read from its beginning.
    pub open spec fn is_fresh(&self) -> bool {
        &&& self.stream.is_fresh(self.stream.shared.file_size, self.stream.shared.bytes_per_second)
        &&& self.cursor == 0
    }

    /// `after` is what `event` makes of this reader.
    pub open spec fn leads_to(&self, event: ReaderEvent, after: Reader) -> bool {
        match event {
            ReaderEvent::Loaded => {
                &&& after.cursor == self.cursor
                &&& after.stream.position == self.stream.position
                &&& after.stream.shared.file_size == self.stream.shared.file_size
                &&& after.stream.shared.read_position == self.stream.shared.read_position
            },
            ReaderEvent::Positioned { output_len, status, length } => {
                let offset = self.stream.offset();
                &&& status.decides(
                    self.stream.pending(output_len),
                    ReadStep::SeekAndRead { offset, length },
                )
                &&& after.cursor == offset
                &&& self.stream.positioned(after.cursor, after.stream)
            },
            ReaderEvent::FileRead { read_len } => {
                &&& after.cursor == self.cursor + read_len
                &&& self.stream.finished(read_len, after.stream)
            },
            ReaderEvent::Sought { place } => {
                &&& after.cursor == place
                &&& self.stream.sought(place, after.stream)
            },
        }
    }
}

/// `readers` are the states of one reader, from when it was opened on, and `events` what
/// happened to it from each state to the next.
pub open spec fn is_history(readers: Seq<Reader>, events: Seq<ReaderEvent>) -> bool {
    &&& readers.len() == events.len() + 1
    &&& readers[0].is_fresh()
    &&& forall|i: int|
        0 <= i < events.len() ==> readers[i].leads_to(#[trigger] events[i], readers[i + 1])
}

/// After any mix of reads and seeks the file stands at the position of the stream, and the
/// controllers see that position as far as it lies within the file.
pub proof fn law_cursor_agrees_with_position(readers: Seq<Reader>, events: Seq<ReaderEvent>)
    requires
        is_history(readers, events),
    ensures
        readers.last().cursor == readers.last().stream.position,
        readers.last().stream.well_formed(),
    decreases events.len(),
{
    if events.len() > 0 {
        let (earlier, before) = (readers.drop_last(), events.drop_last());
        assert forall|i: int| 0 <= i < before.len() implies earlier[i].leads_to(
            #[trigger] before[i],
            earlier[i + 1],
        ) by {
            assert(readers[i].leads_to(events[i], readers[i + 1]));
        }
        law_cursor_agrees_with_position(earlier, before);
        let last = events.len() - 1;
        assert(readers[last].leads_to(events[last], readers[last + 1]));
        assert(earlier.last() == readers[last]);
    }
}

/// After any mix of reads and seeks, a seek by `distance` from the place where the file stands
/// takes the stream to its position plus `distance`. A seek by zero leaves it as it was.
pub proof fn law_seek_from_the_current_place(
    readers: Seq<Reader>,
    events: Seq<ReaderEvent>,
    distance: int,
    place: u64,
    after: Reader,
)
    requires
        is_history(readers, events),
        place == readers.last().cursor + distance,
        readers.last().leads_to(ReaderEvent::Sought { place }, after),
    ensures
        after.stream.position == readers.last().stream.position + distance,
        distance == 0 ==> after.stream == readers.last().stream,
{
    law_cursor_agrees_with_position(readers, events);
}

/// The part of a range that lies within a file has the positions of the range that lie
/// within the file.
pub proof fn law_part_within_file(range: Range, size: usize)
    ensures
        within(range, size).positions() == range.positions().filter(|x: int| x < size),
{
    assert(within(range, size).positions() =~= range.positions().filter(|x: int| x < size));
}

/// When a caller has no more to wait for, all data of the range that the file has is there.
pub proof fn law_fetched_range_is_there(controller: StreamLoaderController, range: Range, x: int)
    requires
        controller.stream_shared is Some,
        controller.awaited(within(range, controller.file_size)) is None,
        range.has(x),
        x < controller.file_size,
    ensures
        controller.stream_shared.unwrap().download_status.downloaded@.contains(x),
{
    assert(within(range, controller.file_size).positions().contains(x));
}

/// Data that is there stays there: what was available is available when more has been
/// downloaded.
pub proof fn law_available_data_stays_available(
    before: StreamLoaderController,
    after: StreamLoaderController,
    range: Range,
)
    requires
        before.stream_shared matches Some(b) && after.stream_shared matches Some(a)
            && b.download_status.downloaded@.subset_of(a.download_status.downloaded@),
        before.available(range),
    ensures
        after.available(range),
{
    let held = after.stream_shared.unwrap().download_status.downloaded@;
    assert forall|x: int| range.positions().contains(x) implies held.contains(x) by {
        assert(before.stream_shared.unwrap().download_status.downloaded@.contains(x));
    }
}

/// After a wait, a caller that goes on waiting waits for data that is there, that was asked
/// for, or that it asks for now. A caller that is done asks for nothing.
pub proof fn law_awaited_data_is_on_its_way(controller: StreamLoaderController, range: Range)
    requires
        controller.well_formed(),
    ensures
        controller.next_progress(range).wait is Some ==> controller.available_or_requested(range)
            || controller.next_progress(range).command == Some(StreamLoaderCommand::Fetch(range)),
        controller.next_progress(range).wait is None ==> controller.next_progress(
            range,
        ).command is None,
{
    if let Some(shared) = controller.stream_shared {
        let status = shared.download_status;
        if controller.available(range) {
            assert forall|x: int|
                range.positions().contains(x) implies status.downloaded@.union(
                status.requested@,
            ).contains(x) by {
                assert(status.downloaded@.contains(x));
            }
        }
    }
}

/// A cached file is all there: its controller sends no commands, and no caller has to wait.
pub proof fn law_cached_file_needs_no_loader(
    file: CachedFile,
    command: StreamLoaderCommand,
    range: Range,
)
    ensures
        ({
            let controller = AudioFile::Cached(file).loader_controller();
            &&& controller.sent(command) is None
            &&& controller.first_progress(range) == FetchProgress { command: None, wait: None }
            &&& controller.next_progress(range) == FetchProgress { command: None, wait: None }
            &&& range.past() <= controller.file_size ==> controller.available(range)
        }),
{
}

/// The controller of a streamed file sends every command, and sees what the reader sees: its
/// position, as far as that lies within the file, the size of the file, and the data that is
/// there.
pub proof fn law_controller_sees_the_stream(
    stream: AudioFileStreaming,
    command: StreamLoaderCommand,
    range: Range,
)
    requires
        stream.well_formed(),
    ensures
        ({
            let controller = AudioFile::Streaming(stream).loader_controller();
            &&& controller.well_formed()
            &&& controller.stream_shared.unwrap().read_position <= controller.file_size
            &&& stream.offset() <= controller.file_size
                ==> controller.stream_shared.unwrap().read_position == stream.offset()
            &&& controller.sent(command) == Some(command)
            &&& controller.file_size == stream.shared.file_size
            &&& controller.available(range) <==> holds_range(
                stream.shared.download_status.downloaded@,
                range,
            )
        }),
{
}

/// The rest of the file is there exactly where the range from the read position to the end
/// of the file is available.
pub proof fn law_rest_of_file_is_a_range(controller: StreamLoaderController)
    requires
        controller.stream_shared matches Some(shared) && shared.read_position
            <= controller.file_size,
    ensures
        ({
            let shared = controller.stream_shared.unwrap();
            let rest = Range {
                start: shared.read_position,
                length: (controller.file_size - shared.read_position) as usize,
            };
            controller.available(rest) <==> forall|x: int|
                shared.read_position <= x < controller.file_size
                    ==> shared.download_status.downloaded@.contains(x)
        }),
{
    let shared = controller.stream_shared.unwrap();
    let rest = Range {
        start: shared.read_position,
        length: (controller.file_size - shared.read_position) as usize,
    };
    if controller.available(rest) {
        assert forall|x: int|
            shared.read_position <= x
                < controller.file_size implies shared.download_status.downloaded@.contains(x) by {
            assert(rest.positions().contains(x));
        }
    }
}

/// What a read goes for is available to the controllers of the file.
pub proof fn law_read_data_is_available(
    stream: AudioFileStreaming,
    pending: PendingRead,
    offset: usize,
    length: usize,
)
    requires
        stream.shared.download_status.decides(
            pending,
            ReadStep::SeekAndRead { offset, length },
        ),
    ensures
        AudioFile::Streaming(stream).loader_controller().available(
            (Range { start: offset, length }),
        ),
{
}

/// The four stages lead from the plan to the open file where each piece of work succeeds
/// and the response states the size of the file.
pub proof fn law_file_opens<S, U>(
    plan: OpenPlan,
    headers: HeaderMap<HeaderValue>,
    resolved: Result<Opening, AudioFileError<S, U>>,
    selected: Result<Opening, AudioFileError<S, U>>,
    requested: Result<Opening, AudioFileError<S, U>>,
    responded: Result<Opening, AudioFileError<S, U>>,
)
    requires
        file_size_of_fields(header_fields(headers)) is Some,
        Opening::ResolveUrl(plan).leads_to(OpenEvent::UrlResolved(Ok(())), resolved),
        resolved->Ok_0.leads_to(OpenEvent::UrlSelected(Ok(())), selected),
        selected->Ok_0.leads_to(OpenEvent::RequestSent(Ok(())), requested),
        requested->Ok_0.leads_to(OpenEvent::Responded(Some(Ok(&headers))), responded),
    ensures
        responded matches Ok(Opening::Opened { stream, request }) && {
            &&& request == plan.request
            &&& stream.is_fresh(
                file_size_of_fields(header_fields(headers)).unwrap(),
                plan.bytes_per_second,
            )
        },
{
}

/// A file opens in no other way: a stage that is told of a failure, or of a response
/// without a file size, ends the opening with an error.
pub proof fn law_failure_ends_opening<S, U>(
    stage: Opening,
    event: OpenEvent<S, U>,
    next: Result<Opening, AudioFileError<S, U>>,
)
    requires
        stage.awaits(event),
        stage.leads_to(event, next),
    ensures
        next is Ok <==> match event {
            OpenEvent::UrlResolved(outcome) => outcome is Ok,
            OpenEvent::UrlSelected(outcome) => outcome is Ok,
            OpenEvent::RequestSent(outcome) => outcome is Ok,
            OpenEvent::Responded(outcome) => outcome matches Some(Ok(headers))
                && file_size_of_fields(header_fields(*headers)) is Some,
        },
{
}

} // verus!
