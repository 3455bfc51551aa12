//! What each operation comes to, said of fields, integers and single positions.
use crate::audio_file::{AudioFile, CachedFile};
use crate::content_range::{file_size_of_fields, header_fields};
use crate::controller::{holds_range, within, StreamLoaderController};
use crate::opening::{
    first_download_size, AudioFileError, OpenEvent, OpenPlan, Opening, INITIAL_DOWNLOAD_SIZE,
};
use crate::range_set::{covered, positions_of, Range};
use crate::shared::{
    AudioFileDownloadStatus, AudioFileShared, DownloadStrategy, StreamLoaderCommand,
};
use crate::streaming::{
    fetched_ranges, fetches_exactly, AudioFileStreaming, PendingRead, ReadAhead, ReadPlan, ReadStep,
};
use vstd::prelude::*;

verus! {

/// One of `commands` asks for a range that has position `x`.
pub open spec fn asked_for(commands: Seq<StreamLoaderCommand>, x: int) -> bool {
    exists|i: int|
        0 <= i < commands.len() && (#[trigger] commands[i] matches StreamLoaderCommand::Fetch(range)
            && range.start <= x < range.start + range.length)
}

/// Commands that fetch a set of positions ask for each position of the set and for no other.
/// Each of them asks for a range that is not empty, and there is a gap between any two.
pub proof fn law_commands_ask_for_the_wanted_positions(
    commands: Seq<StreamLoaderCommand>,
    wanted: Set<int>,
)
    requires
        fetches_exactly(commands, wanted),
    ensures
        forall|x: int| #[trigger] asked_for(commands, x) <==> wanted.contains(x),
        forall|i: int|
            0 <= i < commands.len() ==> (#[trigger] commands[i] matches StreamLoaderCommand::Fetch(
                range,
            ) && range.length > 0),
        forall|i: int, j: int|
            #![trigger commands[i], commands[j]]
            0 <= i < j < commands.len() ==> commands[i]->Fetch_0.start + commands[i]->Fetch_0.length
                < commands[j]->Fetch_0.start,
{
    let ranges = fetched_ranges(commands);
    assert forall|i: int| 0 <= i < commands.len() implies (
    #[trigger] commands[i] matches StreamLoaderCommand::Fetch(range) && range.length > 0) by {
        assert(commands[i] is Fetch);
        assert(ranges[i].length > 0);
    }
    assert forall|i: int, j: int|
        #![trigger commands[i], commands[j]]
        0 <= i < j < commands.len() implies commands[i]->Fetch_0.start
        + commands[i]->Fetch_0.length < commands[j]->Fetch_0.start by {
        assert(ranges[i].past() < ranges[j].start);
    }
    assert forall|x: int| #[trigger] asked_for(commands, x) <==> wanted.contains(x) by {
        assert(positions_of(ranges).contains(x) <==> covered(ranges, x));
        if covered(ranges, x) {
            let i = choose|i: int| 0 <= i < ranges.len() && (#[trigger] ranges[i]).has(x);
            assert(commands[i] is Fetch);
        }
        if asked_for(commands, x) {
            let i = choose|i: int|
                0 <= i < commands.len() && (
                #[trigger] commands[i] matches StreamLoaderCommand::Fetch(range) && range.start <= x
                    < range.start + range.length);
            assert(ranges[i].has(x));
        }
    }
}

/// A read asks for the positions of the file from the reader's position on that its output
/// has room for, and in streaming mode for those within either read-ahead behind them, but for
/// none that is there or was asked for.
pub proof fn law_read_asks_for_these_positions(
    stream: AudioFileStreaming,
    output_len: usize,
    ahead: ReadAhead,
    plan: ReadPlan,
)
    requires
        stream.plans(output_len, ahead, plan),
    ensures
        forall|x: int| #[trigger]
            asked_for(plan.commands@, x) <==> {
                let offset = stream.position as usize;
                &&& offset <= x < stream.shared.file_size
                &&& match stream.shared.download_strategy {
                    DownloadStrategy::RandomAccess() => x < offset + output_len,
                    DownloadStrategy::Streaming() => x < offset + output_len + ahead.by_duration
                        || x < offset + output_len + ahead.by_roundtrips,
                }
                &&& !stream.shared.download_status.downloaded@.contains(x)
                &&& !stream.shared.download_status.requested@.contains(x)
            },
{
    law_commands_ask_for_the_wanted_positions(plan.commands@, stream.missing(output_len, ahead));
}

/// In streaming mode, all data of the file that a read returns, and all that lies within
/// either read-ahead behind it, is there, was asked for, or is asked for by the read, wherever
/// in the file the reader stands. Nothing behind the larger read-ahead is asked for.
pub proof fn law_streaming_read_reads_ahead(
    stream: AudioFileStreaming,
    output_len: usize,
    ahead: ReadAhead,
    plan: ReadPlan,
    length: int,
    x: int,
)
    requires
        stream.shared.download_strategy == DownloadStrategy::Streaming(),
        stream.plans(output_len, ahead, plan),
        (stream.position as usize) < stream.shared.file_size,
        length == if output_len < stream.shared.file_size - (stream.position as usize) {
            output_len as int
        } else {
            stream.shared.file_size - (stream.position as usize)
        },
    ensures
        stream.position as usize <= x < stream.shared.file_size && (x < (stream.position as usize)
            + length + ahead.by_duration || x < (stream.position as usize) + length
            + ahead.by_roundtrips) ==> stream.shared.download_status.downloaded@.contains(x)
            || stream.shared.download_status.requested@.contains(x) || asked_for(
            plan.commands@,
            x,
        ),
        x >= (stream.position as usize) + length + ahead.by_duration && x >= (
        stream.position as usize) + length + ahead.by_roundtrips ==> !asked_for(plan.commands@, x),
{
    law_read_asks_for_these_positions(stream, output_len, ahead, plan);
    assert(asked_for(plan.commands@, x) || !asked_for(plan.commands@, x));
}

/// In random access mode, a read asks for no data that it does not return.
pub proof fn law_random_access_read_asks_for_its_data_only(
    stream: AudioFileStreaming,
    output_len: usize,
    ahead: ReadAhead,
    plan: ReadPlan,
    x: int,
)
    requires
        stream.shared.download_strategy == DownloadStrategy::RandomAccess(),
        stream.plans(output_len, ahead, plan),
        asked_for(plan.commands@, x),
    ensures
        stream.position as usize <= x < (stream.position as usize) + output_len,
        x < stream.shared.file_size,
{
    law_read_asks_for_these_positions(stream, output_len, ahead, plan);
}

/// The amount of data that is read ahead is the larger of the two.
pub proof fn law_both_read_aheads_are_obeyed(ahead: ReadAhead)
    ensures
        ahead.amount() >= ahead.by_duration,
        ahead.amount() >= ahead.by_roundtrips,
        ahead.amount() == ahead.by_duration || ahead.amount() == ahead.by_roundtrips,
{
}

/// A read can be begun unless, in streaming mode and before the end of the file, what it
/// returns and one of the read-aheads are together more than a `usize` can hold.
pub proof fn law_read_can_be_begun(stream: AudioFileStreaming, output_len: usize, ahead: ReadAhead)
    ensures
        stream.may_read(output_len, ahead) <==> {
            let left = stream.shared.file_size - (stream.position as usize);
            let length = if output_len < left {
                output_len as int
            } else {
                left
            };
            ||| stream.shared.download_strategy == DownloadStrategy::RandomAccess()
            ||| left <= 0
            ||| length + ahead.by_duration <= usize::MAX && length + ahead.by_roundtrips
                <= usize::MAX
        },
{
}

/// A pending read waits exactly while nothing is there at its offset. Otherwise it goes for
/// the data there: as much as it is after, or as there is without a gap.
pub proof fn law_pending_read_waits_for_its_offset(
    status: AudioFileDownloadStatus,
    pending: PendingRead,
    step: ReadStep,
)
    requires
        status.decides(pending, step),
    ensures
        !status.downloaded@.contains(pending.offset as int) <==> step == ReadStep::Wait(pending),
        status.downloaded@.contains(pending.offset as int) ==> (step matches ReadStep::SeekAndRead {
            offset,
            length,
        } && {
            &&& offset == pending.offset
            &&& length <= pending.length
            &&& pending.length > 0 ==> length > 0
            &&& forall|x: int| offset <= x < offset + length ==> status.downloaded@.contains(x)
            &&& length == pending.length || !status.downloaded@.contains(offset + length)
        }),
{
}

/// A read returns nothing exactly where its output is empty or the reader stands at the end of
/// the file. Else it waits for the data at the reader's position, or goes for it: for as much
/// as the output has room for, the file has, or is there without a gap, whichever is least.
pub proof fn law_read_returns_data_at_the_position(
    stream: AudioFileStreaming,
    output_len: usize,
    ahead: ReadAhead,
    plan: ReadPlan,
)
    requires
        stream.plans(output_len, ahead, plan),
    ensures
        ({
            let at = stream.position as usize;
            let size = stream.shared.file_size;
            let downloaded = stream.shared.download_status.downloaded@;
            if output_len == 0 || at >= size {
                plan.step == ReadStep::Done(0)
            } else if !downloaded.contains(at as int) {
                plan.step matches ReadStep::Wait(pending) && {
                    &&& pending.offset == at
                    &&& pending.length == output_len || pending.length == size - at
                    &&& pending.length <= output_len
                    &&& pending.length <= size - at
                }
            } else {
                plan.step matches ReadStep::SeekAndRead { offset, length } && {
                    &&& offset == at
                    &&& 0 < length <= output_len
                    &&& at + length <= size
                    &&& forall|x: int| at <= x < at + length ==> downloaded.contains(x)
                    &&& length == output_len || at + length == size || !downloaded.contains(
                        at + length,
                    )
                }
            }
        }),
{
}

/// A seek takes the reader to the place that it was told, whatever that is, and the read
/// position to that place or to the end of the file, whichever comes first. All else is as it
/// was.
pub proof fn law_seek_moves_the_reader_alone(
    before: AudioFileStreaming,
    place: u64,
    after: AudioFileStreaming,
)
    requires
        before.sought(place, after),
    ensures
        after.position == place,
        after.shared.read_position <= place as usize,
        after.shared.read_position <= before.shared.file_size,
        after.shared.read_position == place as usize || after.shared.read_position
            == before.shared.file_size,
        after.shared.file_size == before.shared.file_size,
        after.shared.bytes_per_second == before.shared.bytes_per_second,
        after.shared.download_status == before.shared.download_status,
        after.shared.download_strategy == before.shared.download_strategy,
        after.shared.number_of_open_requests == before.shared.number_of_open_requests,
        after.shared.ping_time_ms == before.shared.ping_time_ms,
{
}

/// A finished read takes the reader on by the bytes that were read, and the read position with
/// it as far as the file goes. All else is as it was.
pub proof fn law_finished_read_moves_the_reader_alone(
    before: AudioFileStreaming,
    read_len: usize,
    after: AudioFileStreaming,
)
    requires
        before.finished(read_len, after),
    ensures
        after.position == before.position + read_len,
        after.shared.read_position <= after.position as usize,
        after.shared.read_position <= before.shared.file_size,
        after.shared.read_position == after.position as usize || after.shared.read_position
            == before.shared.file_size,
        after.shared.file_size == before.shared.file_size,
        after.shared.bytes_per_second == before.shared.bytes_per_second,
        after.shared.download_status == before.shared.download_status,
        after.shared.download_strategy == before.shared.download_strategy,
        after.shared.number_of_open_requests == before.shared.number_of_open_requests,
        after.shared.ping_time_ms == before.shared.ping_time_ms,
{
}

/// Positioning the file for a read moves the reader there and changes nothing that is shared.
pub proof fn law_positioning_moves_the_reader_alone(
    before: AudioFileStreaming,
    place: u64,
    after: AudioFileStreaming,
)
    requires
        before.positioned(place, after),
    ensures
        after.position == place,
        after.shared == before.shared,
{
}

/// A stream is well-formed exactly where the read position is the reader's position, or the end
/// of the file where the reader stands behind it.
pub proof fn law_well_formed_stream(stream: AudioFileStreaming)
    ensures
        stream.well_formed() <==> {
            &&& stream.position as usize <= stream.shared.file_size
                ==> stream.shared.read_position == stream.position as usize
            &&& stream.position as usize > stream.shared.file_size
                ==> stream.shared.read_position == stream.shared.file_size
        },
{
}

/// A fresh stream stands at the beginning of a file of the given size, in random access mode.
/// No position of the file is there or was asked for, and nothing was measured.
pub proof fn law_fresh_stream(stream: AudioFileStreaming, size: usize, rate: usize)
    ensures
        stream.is_fresh(size, rate) <==> {
            &&& stream.position == 0
            &&& stream.shared.read_position == 0
            &&& stream.shared.file_size == size
            &&& stream.shared.bytes_per_second == rate
            &&& stream.shared.download_strategy == DownloadStrategy::RandomAccess()
            &&& stream.shared.number_of_open_requests == 0
            &&& stream.shared.ping_time_ms == 0
            &&& forall|x: int|
                !(#[trigger] stream.shared.download_status.downloaded@.contains(x))
            &&& forall|x: int| !(#[trigger] stream.shared.download_status.requested@.contains(x))
        },
        stream.shared.is_fresh(size, rate) && stream.position == 0 ==> stream.is_fresh(size, rate),
{
    let status = stream.shared.download_status;
    if forall|x: int| !(#[trigger] status.downloaded@.contains(x)) {
        assert(status.downloaded@ =~= Set::<int>::empty());
    }
    if forall|x: int| !(#[trigger] status.requested@.contains(x)) {
        assert(status.requested@ =~= Set::<int>::empty());
    }
}

/// Of a streamed file, a range is available exactly where each of its positions is downloaded,
/// whatever was asked for. Of a cached one, exactly where it ends within the file.
pub proof fn law_available_range_is_downloaded(controller: StreamLoaderController, range: Range)
    ensures
        match controller.stream_shared {
            Some(shared) => controller.available(range) <==> forall|x: int|
                range.start <= x < range.start + range.length
                    ==> #[trigger] shared.download_status.downloaded@.contains(x),
            None => controller.available(range) <==> range.start + range.length
                <= controller.file_size,
        },
{
    if let Some(shared) = controller.stream_shared {
        lemma_holds_range(shared.download_status.downloaded@, range);
    }
}

proof fn lemma_holds_range(set: Set<int>, range: Range)
    ensures
        holds_range(set, range) <==> forall|x: int|
            range.start <= x < range.start + range.length ==> #[trigger] set.contains(x),
{
    if holds_range(set, range) {
        assert forall|x: int|
            range.start <= x < range.start + range.length implies #[trigger] set.contains(x) by {
            assert(range.positions().contains(x));
        }
    }
}

/// A command is sent exactly where there is a channel to send it on, and it is sent as it is.
pub proof fn law_commands_need_a_channel(
    controller: StreamLoaderController,
    command: StreamLoaderCommand,
)
    ensures
        controller.has_channel ==> controller.sent(command) == Some(command),
        !controller.has_channel ==> controller.sent(command) is None,
{
}

/// `part` is the beginning of `range` that lies within the first `size` positions: it ends
/// where the range ends or the positions do, and it is empty where the range starts behind
/// them.
pub open spec fn is_part_within(part: Range, range: Range, size: usize) -> bool {
    &&& part.start == range.start
    &&& part.length <= range.length
    &&& part.length == 0 || part.start + part.length <= size
    &&& part.length == range.length || part.start + part.length >= size
}

/// The part of a range within a file holds those of its positions that the file has.
pub proof fn law_part_has_the_positions_within(part: Range, range: Range, size: usize, x: int)
    requires
        is_part_within(part, range, size),
    ensures
        part.start <= x < part.start + part.length <==> range.start <= x < range.start
            + range.length && x < size,
{
}

/// A blocking fetch asks for the part of the range that lies within the file, where there is a
/// channel to ask on.
pub proof fn law_blocking_fetch_asks_within_the_file(
    controller: StreamLoaderController,
    range: Range,
)
    ensures
        match controller.first_progress(range).command {
            Some(command) => controller.has_channel && (
            command matches StreamLoaderCommand::Fetch(part) && is_part_within(
                part,
                range,
                controller.file_size,
            )),
            None => !controller.has_channel,
        },
{
}

/// The caller of a blocking fetch of a streamed file need not wait exactly where each position
/// of the range that the file has is downloaded, whatever was asked for. Else it waits for the
/// part of the range that lies within the file.
pub proof fn law_blocking_fetch_waits_until_downloaded(
    controller: StreamLoaderController,
    range: Range,
    shared: &AudioFileShared,
)
    requires
        controller.stream_shared == Some(shared),
    ensures
        match controller.first_progress(range).wait {
            Some(part) => is_part_within(part, range, controller.file_size) && exists|x: int|
                range.start <= x < range.start + range.length && x < controller.file_size
                    && !(#[trigger] shared.download_status.downloaded@.contains(x)),
            None => forall|x: int|
                range.start <= x < range.start + range.length && x < controller.file_size
                    ==> #[trigger] shared.download_status.downloaded@.contains(x),
        },
{
    lemma_holds_range(
        shared.download_status.downloaded@,
        within(range, controller.file_size),
    );
}

/// Of a cached file, nobody waits for anything and nothing is fetched again.
pub proof fn law_cached_data_is_not_awaited(controller: StreamLoaderController, range: Range)
    requires
        controller.stream_shared is None,
    ensures
        controller.first_progress(range).wait is None,
        controller.next_progress(range).wait is None,
        controller.next_progress(range).command is None,
{
}

/// After a wait for a range of a streamed file, the wait goes on exactly if some position of
/// the range is not downloaded. The range is fetched again exactly if some position of it is
/// neither downloaded nor requested.
pub proof fn law_lost_range_is_fetched_again(
    controller: StreamLoaderController,
    range: Range,
    shared: &AudioFileShared,
)
    requires
        controller.stream_shared == Some(shared),
    ensures
        controller.next_progress(range).wait == Some(range) <==> exists|x: int|
            range.start <= x < range.start + range.length
                && !(#[trigger] shared.download_status.downloaded@.contains(x)),
        controller.next_progress(range).wait is None || controller.next_progress(range).wait
            == Some(range),
        controller.next_progress(range).command == Some(StreamLoaderCommand::Fetch(range)) <==> (
        controller.has_channel && exists|x: int|
            #![trigger shared.download_status.downloaded@.contains(x)]
            #![trigger shared.download_status.requested@.contains(x)]
            range.start <= x < range.start + range.length
                && !shared.download_status.downloaded@.contains(x)
                && !shared.download_status.requested@.contains(x)),
        controller.next_progress(range).command is None || controller.next_progress(range).command
            == Some(StreamLoaderCommand::Fetch(range)),
{
    let (downloaded, requested) = (
        shared.download_status.downloaded@,
        shared.download_status.requested@,
    );
    lemma_holds_range(downloaded, range);
    lemma_holds_range(downloaded.union(requested), range);
    if !holds_range(downloaded.union(requested), range) {
        let x = choose|x: int|
            range.start <= x < range.start + range.length && !(#[trigger] downloaded.union(
                requested,
            ).contains(x));
        assert(!downloaded.contains(x) && !requested.contains(x));
    }
    assert forall|x: int|
        #![trigger downloaded.contains(x)]
        #![trigger requested.contains(x)]
        range.start <= x < range.start + range.length && !downloaded.contains(x)
            && !requested.contains(x) implies !holds_range(downloaded.union(requested), range) by {
        assert(!downloaded.union(requested).contains(x));
    }
}

/// What a blocking fetch begins to wait for it goes on to wait for, until it is downloaded.
pub proof fn law_wait_goes_on_for_the_same_range(
    controller: StreamLoaderController,
    range: Range,
    part: Range,
)
    requires
        controller.first_progress(range).wait == Some(part),
    ensures
        controller.next_progress(part).wait == Some(part),
{
}

/// The controller of a cached file is as long as the file, where a `usize` can hold its length.
/// Each range that ends within the file is available, and no other is. There is no channel and
/// nothing is shared.
pub proof fn law_controller_of_a_cached_file(file: CachedFile, range: Range)
    requires
        file.length <= usize::MAX,
    ensures
        ({
            let controller = AudioFile::Cached(file).loader_controller();
            &&& controller.file_size == file.length
            &&& controller.available(range) <==> range.start + range.length <= file.length
            &&& controller.stream_shared is None
            &&& !controller.has_channel
        }),
{
}

/// The controller of a streamed file has a channel, shares the state of the stream, and is as
/// long as the file.
pub proof fn law_controller_of_a_streamed_file(stream: AudioFileStreaming)
    ensures
        ({
            let controller = AudioFile::Streaming(stream).loader_controller();
            &&& controller.has_channel
            &&& controller.stream_shared == Some(&stream.shared)
            &&& controller.file_size == stream.shared.file_size
        }),
{
}

/// The first request for a file that is to be played from the beginning is for the initial
/// amount and the larger read-ahead in addition. Any other first request is for the initial
/// amount alone.
pub proof fn law_first_request_reads_ahead(play_from_beginning: bool, ahead: ReadAhead)
    ensures
        play_from_beginning ==> {
            let length = first_download_size(play_from_beginning, ahead);
            &&& length >= INITIAL_DOWNLOAD_SIZE + ahead.by_duration
            &&& length >= INITIAL_DOWNLOAD_SIZE + ahead.by_roundtrips
            &&& length == INITIAL_DOWNLOAD_SIZE + ahead.by_duration || length
                == INITIAL_DOWNLOAD_SIZE + ahead.by_roundtrips
        },
        !play_from_beginning ==> first_download_size(play_from_beginning, ahead)
            == INITIAL_DOWNLOAD_SIZE,
{
}

/// Each stage of an opening takes whatever comes of the work that it names.
pub proof fn law_stage_takes_every_outcome<S, U>(
    plan: OpenPlan,
    api: Result<(), S>,
    lookup: Result<(), U>,
    response: Option<
        Result<&hyper::header::HeaderMap<hyper::header::HeaderValue>, hyper::Error>,
    >,
)
    ensures
        Opening::ResolveUrl(plan).awaits(OpenEvent::<S, U>::UrlResolved(lookup)),
        Opening::SelectUrl(plan).awaits(OpenEvent::<S, U>::UrlSelected(lookup)),
        Opening::SendRequest(plan).awaits(OpenEvent::<S, U>::RequestSent(api)),
        Opening::AwaitResponse(plan).awaits(OpenEvent::<S, U>::Responded(response)),
{
}

/// Work that succeeds takes the opening of a file to the next stage, with the plan as it was.
pub proof fn law_success_goes_to_the_next_stage<S, U>(
    plan: OpenPlan,
    next: Result<Opening, AudioFileError<S, U>>,
)
    ensures
        Opening::ResolveUrl(plan).leads_to(OpenEvent::UrlResolved(Ok(())), next) ==> (
        next matches Ok(Opening::SelectUrl(p)) && p == plan),
        Opening::SelectUrl(plan).leads_to(OpenEvent::UrlSelected(Ok(())), next) ==> (
        next matches Ok(Opening::SendRequest(p)) && p == plan),
        Opening::SendRequest(plan).leads_to(OpenEvent::RequestSent(Ok(())), next) ==> (
        next matches Ok(Opening::AwaitResponse(p)) && p == plan),
{
}

/// Work that fails ends the opening of a file with the error that it failed with, as the kind
/// of error that belongs to the work. A response that is missing is an empty one.
pub proof fn law_failure_is_told_as_it_is<S, U>(
    plan: OpenPlan,
    api: S,
    lookup: U,
    cdn: hyper::Error,
    next: Result<Opening, AudioFileError<S, U>>,
)
    ensures
        Opening::ResolveUrl(plan).leads_to(OpenEvent::UrlResolved(Err(lookup)), next) ==> (
        next matches Err(AudioFileError::Url(e)) && e == lookup),
        Opening::SelectUrl(plan).leads_to(OpenEvent::UrlSelected(Err(lookup)), next) ==> (
        next matches Err(AudioFileError::Url(e)) && e == lookup),
        Opening::SendRequest(plan).leads_to(OpenEvent::RequestSent(Err(api)), next) ==> (
        next matches Err(AudioFileError::SpClient(e)) && e == api),
        Opening::AwaitResponse(plan).leads_to(OpenEvent::Responded(Some(Err(cdn))), next) ==> (
        next matches Err(AudioFileError::Cdn(e)) && e == cdn),
        Opening::AwaitResponse(plan).leads_to(OpenEvent::Responded(None), next)
            ==> next matches Err(AudioFileError::Empty),
{
}

/// A response with the size of the file opens it: the stream stands at the beginning of a file
/// of that size and of the planned bitrate, and the planned request is the one under way. Any
/// other response is an error of parsing.
pub proof fn law_response_opens_the_file<S, U>(
    plan: OpenPlan,
    headers: &hyper::header::HeaderMap<hyper::header::HeaderValue>,
    next: Result<Opening, AudioFileError<S, U>>,
)
    requires
        Opening::AwaitResponse(plan).leads_to(OpenEvent::Responded(Some(Ok(headers))), next),
    ensures
        match file_size_of_fields(header_fields(*headers)) {
            Some(size) => next matches Ok(Opening::Opened { stream, request }) && {
                &&& request.offset == plan.request.offset
                &&& request.length == plan.request.length
                &&& stream.position == 0
                &&& stream.shared.read_position == 0
                &&& stream.shared.file_size == size
                &&& stream.shared.bytes_per_second == plan.bytes_per_second
                &&& stream.shared.download_strategy == DownloadStrategy::RandomAccess()
                &&& stream.shared.number_of_open_requests == 0
                &&& stream.shared.ping_time_ms == 0
                &&& forall|x: int|
                    !(#[trigger] stream.shared.download_status.downloaded@.contains(x))
                &&& forall|x: int|
                    !(#[trigger] stream.shared.download_status.requested@.contains(x))
            },
            None => next matches Err(AudioFileError::Parsing),
        },
{
}

} // verus!
