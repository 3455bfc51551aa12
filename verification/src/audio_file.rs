//! A file that is read from the cache or streamed.
use crate::controller::StreamLoaderController;
use crate::opening::{
    first_download_size, OpenPlan, Opening, StreamingRequest, INITIAL_DOWNLOAD_SIZE,
};
use crate::shared::StreamLoaderCommand;
use crate::streaming::{AudioFileStreaming, ReadAhead, ReadPlan, ReadStep};
use vstd::prelude::*;

verus! {

/// A file of the cache.
#[derive(Copy, Clone, Debug, PartialEq, Eq, Structural)]
pub struct CachedFile {
    /// The length of the file, in bytes.
    pub length: u64,
}

#[derive(Debug)]
pub enum AudioFile {
    Cached(CachedFile),
    Streaming(AudioFileStreaming),
}

/// What [`AudioFile::open`] comes to.
#[derive(Debug)]
pub enum AudioFileOpening {
    /// The file is open.
    Ready(AudioFile),
    /// The file has to be streamed.
    Stream(Opening),
}

impl AudioFile {
    /// A controller for the loader of this file. Only a streamed file has a loader.
    pub open spec fn loader_controller(&self) -> StreamLoaderController<'_> {
        match self {
            AudioFile::Streaming(stream) => StreamLoaderController {
                has_channel: true,
                stream_shared: Some(&stream.shared),
                file_size: stream.shared.file_size,
            },
            AudioFile::Cached(file) => StreamLoaderController {
                has_channel: false,
                stream_shared: None,
                file_size: file.length as usize,
            },
        }
    }

    /// Opens a file: the one in the cache, where it is `cached`, else a stream.
    pub fn open(
        cached: Option<CachedFile>,
        bytes_per_second: usize,
        play_from_beginning: bool,
        ahead: ReadAhead,
    ) -> (opening: AudioFileOpening)
        requires
            cached is None ==> first_download_size(play_from_beginning, ahead) <= usize::MAX,
        ensures
            opening == match cached {
                Some(file) => AudioFileOpening::Ready(AudioFile::Cached(file)),
                None => AudioFileOpening::Stream(
                    Opening::ResolveUrl(
                        (OpenPlan {
                            bytes_per_second,
                            request: StreamingRequest {
                                offset: 0,
                                length: first_download_size(play_from_beginning, ahead) as usize,
                            },
                        }),
                    ),
                ),
            },
            cached is None ==> (opening matches AudioFileOpening::Stream(
                Opening::ResolveUrl(plan),
            ) && {
                if play_from_beginning {
                    &&& plan.request.length >= INITIAL_DOWNLOAD_SIZE + ahead.by_duration
                    &&& plan.request.length >= INITIAL_DOWNLOAD_SIZE + ahead.by_roundtrips
                    &&& plan.request.length == INITIAL_DOWNLOAD_SIZE + ahead.by_duration
                        || plan.request.length == INITIAL_DOWNLOAD_SIZE + ahead.by_roundtrips
                } else {
                    plan.request.length == INITIAL_DOWNLOAD_SIZE
                }
            }),
    {
        match cached {
            Some(file) => AudioFileOpening::Ready(AudioFile::Cached(file)),
            None => AudioFileOpening::Stream(
                AudioFileStreaming::open(bytes_per_second, play_from_beginning, ahead),
            ),
        }
    }

    /// The file that `opening` has come to, once it is open.
    pub fn opened(opening: Opening) -> (file: Option<AudioFile>)
        ensures
            file == match opening {
                Opening::Opened { stream, .. } => Some(AudioFile::Streaming(stream)),
                _ => None,
            },
    {
        match opening {
            Opening::Opened { stream, .. } => Some(AudioFile::Streaming(stream)),
            _ => None,
        }
    }

    /// A controller for the loader of this file.
    pub fn get_stream_loader_controller(&self) -> (controller: StreamLoaderController<'_>)
        ensures
            controller == self.loader_controller(),
            controller.well_formed(),
            self matches AudioFile::Cached(file) ==> file.length <= usize::MAX
                ==> controller.file_size == file.length,
    {
        match self {
            AudioFile::Streaming(stream) => StreamLoaderController {
                has_channel: true,
                stream_shared: Some(&stream.shared),
                file_size: stream.shared.file_size,
            },
            AudioFile::Cached(file) => StreamLoaderController {
                has_channel: false,
                stream_shared: None,
                file_size: file.length as usize,
            },
        }
    }

    pub fn is_cached(&self) -> (cached: bool)
        ensures
            cached == (self is Cached),
    {
        matches!(self, AudioFile::Cached(..))
    }

    /// Begins a read into `output_len` bytes. A cached file is read on as it is.
    pub fn read(&self, output_len: usize, ahead: ReadAhead) -> (plan: ReadPlan)
        requires
            self matches AudioFile::Streaming(stream) ==> stream.may_read(output_len, ahead),
        ensures
            match self {
                AudioFile::Cached(_) => {
                    &&& plan.commands@ == Seq::<StreamLoaderCommand>::empty()
                    &&& plan.step == ReadStep::ReadOn { length: output_len }
                },
                AudioFile::Streaming(stream) => stream.plans(output_len, ahead, plan),
            },
    {
        match self {
            AudioFile::Cached(_) => ReadPlan {
                commands: Vec::new(),
                step: ReadStep::ReadOn { length: output_len },
            },
            AudioFile::Streaming(stream) => stream.read(output_len, ahead),
        }
    }

    /// Takes note that a seek left the file at `position`, and returns it.
    pub fn seek(&mut self, position: u64) -> (returned: u64)
        ensures
            returned == position,
            match *old(self) {
                AudioFile::Cached(_) => *final(self) == *old(self),
                AudioFile::Streaming(before) => *final(self) matches AudioFile::Streaming(after)
                    && before.sought(position, after),
            },
    {
        match self {
            AudioFile::Cached(_) => position,
            AudioFile::Streaming(stream) => stream.seek(position),
        }
    }
}

} // verus!
