//! The decoded container as the host sees it.

use crate::demux::{decode_ogg, decoding, opened_model, stream_models, streams_wf, DecoderRun};
use crate::error::{BoundsError, DecodeError};
use crate::stream::{Duration, OggStream, StreamModel};
use vstd::prelude::*;

verus! {

/// The streams of one decoded container, read-only and addressed by index.
pub struct OggProcessor {
    streams: Vec<OggStream>,
}

impl View for OggProcessor {
    type V = Seq<StreamModel>;

    closed spec fn view(&self) -> Seq<StreamModel> {
        stream_models(self.streams@)
    }
}

impl OggProcessor {
    /// A processor holds at least one stream, and each is well formed.
    pub closed spec fn wf(&self) -> bool {
        streams_wf(self.streams@)
    }

    /// Takes over the streams of a finished decode.
    pub fn new(streams: Vec<OggStream>) -> (processor: OggProcessor)
        requires
            streams_wf(streams@),
        ensures
            processor.wf(),
            processor@ == stream_models(streams@),
            processor@.len() >= 1,
    {
        OggProcessor { streams }
    }

    /// Builds the processor of a buffer from the run of the packet decoder
    /// over it: either all of its streams or an error.
    pub fn from_buffer(opened: &Result<DecoderRun, lewton::VorbisError>) -> (made: Result<
        OggProcessor,
        DecodeError,
    >)
        ensures
            match made {
                Ok(processor) => {
                    &&& processor.wf()
                    &&& processor@.len() >= 1
                    &&& decoding(opened_model(*opened)) == Ok::<Seq<StreamModel>, DecodeError>(
                        processor@,
                    )
                },
                Err(error) => decoding(opened_model(*opened)) == Err::<
                    Seq<StreamModel>,
                    DecodeError,
                >(error),
            },
    {
        match decode_ogg(opened) {
            Ok(streams) => Ok(OggProcessor::new(streams)),
            Err(error) => Err(error),
        }
    }

    /// The stream of an index, or the error where there is none: an index
    /// out of range never reaches another stream.
    pub fn find_stream(&self, stream_idx: u32) -> (found: Result<&OggStream, BoundsError>)
        ensures
            match found {
                Ok(stream) => {
                    &&& stream_idx < self@.len()
                    &&& stream@ == self@[stream_idx as int]
                    &&& self.wf() ==> stream.wf()
                },
                Err(error) => error == BoundsError::Stream && stream_idx >= self@.len(),
            },
    {
        if (stream_idx as usize) < self.streams.len() {
            Ok(&self.streams[stream_idx as usize])
        } else {
            Err(BoundsError::Stream)
        }
    }

    /// The samples of one chunk of a stream, or the error that says which of
    /// the two indices is out of range: no other chunk is handed out in its
    /// place.
    pub fn find_chunk(&self, stream_idx: u32, chunk_idx: u32) -> (found: Result<
        &[i16],
        BoundsError,
    >)
        ensures
            match found {
                Ok(chunk) => {
                    &&& stream_idx < self@.len()
                    &&& chunk_idx < self@[stream_idx as int].chunks.len()
                    &&& chunk@ == self@[stream_idx as int].chunks[chunk_idx as int]
                },
                Err(BoundsError::Stream) => stream_idx >= self@.len(),
                Err(BoundsError::Chunk) => {
                    &&& stream_idx < self@.len()
                    &&& chunk_idx >= self@[stream_idx as int].chunks.len()
                },
            },
    {
        match self.find_stream(stream_idx) {
            Err(error) => Err(error),
            Ok(stream) => match stream.find_chunk(chunk_idx) {
                Some(chunk) => Ok(chunk),
                None => Err(BoundsError::Chunk),
            },
        }
    }

    /// The number of streams, cut to its low 32 bits.
    pub fn get_stream_count(&self) -> (count: u32)
        ensures
            count == self@.len() % 0x1_0000_0000,
            self@.len() <= u32::MAX ==> count == self@.len(),
    {
        let len: u64 = self.streams.len() as u64;
        (len % 0x1_0000_0000) as u32
    }

    /// The number of chunks of a stream, cut to its low 32 bits.
    pub fn get_chunk_count(&self, stream_idx: u32) -> (count: u32)
        requires
            stream_idx < self@.len(),
        ensures
            count == self@[stream_idx as int].chunks.len() % 0x1_0000_0000,
            self@[stream_idx as int].chunks.len() <= u32::MAX ==> count == self@[stream_idx
                as int].chunks.len(),
    {
        self.streams[stream_idx as usize].chunk_count()
    }

    /// The channel count of a stream.
    pub fn get_channels(&self, stream_idx: u32) -> (channels: u32)
        requires
            stream_idx < self@.len(),
        ensures
            channels == self@[stream_idx as int].channels,
    {
        self.streams[stream_idx as usize].channels()
    }

    /// The sample rate of a stream, in Hz.
    pub fn get_sample_rate(&self, stream_idx: u32) -> (sample_rate: u32)
        requires
            stream_idx < self@.len(),
        ensures
            sample_rate == self@[stream_idx as int].sample_rate,
    {
        self.streams[stream_idx as usize].sample_rate()
    }

    /// How long a stream plays: the samples of all its chunks over the
    /// samples that make up a second.
    pub fn get_duration(&self, stream_idx: u32) -> (duration: Duration)
        requires
            self.wf(),
            stream_idx < self@.len(),
        ensures
            duration.samples == self@[stream_idx as int].duration_samples(),
            duration.samples_per_second == self@[stream_idx as int].samples_per_second(),
            duration.samples_per_second >= 1,
    {
        self.streams[stream_idx as usize].duration()
    }

    /// The samples of one chunk of a stream.
    pub fn get_chunk(&self, stream_idx: u32, chunk_idx: u32) -> (chunk: &[i16])
        requires
            stream_idx < self@.len(),
            chunk_idx < self@[stream_idx as int].chunks.len(),
        ensures
            chunk@ == self@[stream_idx as int].chunks[chunk_idx as int],
    {
        self.streams[stream_idx as usize].get_chunk(chunk_idx)
    }
}

} // verus!
