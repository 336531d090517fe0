//! One logical stream: its format, its chunks and how long they play.

use vstd::prelude::*;
use vstd::slice::slice_to_vec;

verus! {

/// Every stored sample `s` stands for the amplitude `s / SAMPLE_DIVISOR`.
pub const SAMPLE_DIVISOR: u32 = 65536;

/// What an identification header says of the audio of its logical stream.
#[derive(Clone, Copy, Debug, PartialEq, Eq, Structural)]
pub struct IdentHeader {
    pub audio_channels: u8,
    pub audio_sample_rate: u32,
}

impl IdentHeader {
    /// A header describes at least one channel at a positive rate.
    pub open spec fn valid(self) -> bool {
        self.audio_channels >= 1 && self.audio_sample_rate >= 1
    }

    /// Whether the header is valid.
    pub fn is_valid(&self) -> (valid: bool)
        ensures
            valid == self.valid(),
    {
        self.audio_channels >= 1 && self.audio_sample_rate >= 1
    }
}

/// A logical stream as a value: its chunks in the order they were appended,
/// each chunk the interleaved samples of one decoded packet.
pub struct StreamModel {
    pub chunks: Seq<Seq<i16>>,
    pub channels: u32,
    pub sample_rate: u32,
}

/// The number of samples in all of `chunks`.
pub open spec fn sample_total(chunks: Seq<Seq<i16>>) -> nat
    decreases chunks.len(),
{
    if chunks.len() == 0 {
        0
    } else {
        sample_total(chunks.drop_last()) + chunks.last().len()
    }
}

impl StreamModel {
    /// The stream that a header opens: no chunk yet.
    pub open spec fn opened(ident: IdentHeader) -> StreamModel {
        StreamModel {
            chunks: Seq::empty(),
            channels: ident.audio_channels as u32,
            sample_rate: ident.audio_sample_rate,
        }
    }

    /// This stream with one more chunk at its end.
    pub open spec fn with_chunk(self, chunk: Seq<i16>) -> StreamModel {
        StreamModel { chunks: self.chunks.push(chunk), ..self }
    }

    /// Interleaved samples that make up one second of this stream.
    pub open spec fn samples_per_second(self) -> nat {
        (self.channels * self.sample_rate) as nat
    }

    /// The samples of all chunks: the stream lasts
    /// `duration_samples() / samples_per_second()` seconds.
    pub open spec fn duration_samples(self) -> nat {
        sample_total(self.chunks)
    }
}

/// A length of time as an exact fraction: `samples / samples_per_second`
/// seconds.
#[derive(Clone, Copy, Debug, PartialEq, Eq, Structural)]
pub struct Duration {
    pub samples: u128,
    pub samples_per_second: u64,
}

/// One logical stream of a container: the chunks decoded so far and the
/// format they share. Chunks are only ever appended.
pub struct OggStream {
    chunks: Vec<Vec<i16>>,
    sample_count: u128,
    channels: u32,
    sample_rate: u32,
}

impl View for OggStream {
    type V = StreamModel;

    closed spec fn view(&self) -> StreamModel {
        StreamModel {
            chunks: Seq::new(self.chunks@.len(), |i: int| self.chunks@[i]@),
            channels: self.channels,
            sample_rate: self.sample_rate,
        }
    }
}

/// A chunk list holds at most `usize::MAX` samples for each of its chunks.
pub proof fn lemma_sample_total_bound(chunks: Seq<Seq<i16>>)
    requires
        forall|i: int| 0 <= i < chunks.len() ==> (#[trigger] chunks[i]).len() <= usize::MAX,
    ensures
        sample_total(chunks) <= chunks.len() * usize::MAX,
    decreases chunks.len(),
{
    if chunks.len() > 0 {
        lemma_sample_total_bound(chunks.drop_last());
        assert(sample_total(chunks.drop_last()) <= (chunks.len() - 1) * usize::MAX);
        assert((chunks.len() - 1) * usize::MAX + usize::MAX == chunks.len() * usize::MAX)
            by (nonlinear_arith);
    }
}

impl OggStream {
    /// The running sample count agrees with the chunks, and the format is
    /// that of a valid header.
    pub closed spec fn wf(&self) -> bool {
        &&& self.sample_count == sample_total(self@.chunks)
        &&& self.channels >= 1
        &&& self.sample_rate >= 1
    }

    /// A well-formed stream has at least one channel and a positive rate.
    pub proof fn lemma_wf_format(&self)
        requires
            self.wf(),
        ensures
            self@.channels >= 1,
            self@.sample_rate >= 1,
            self@.samples_per_second() >= 1,
    {
        assert(self@.channels * self@.sample_rate >= 1) by (nonlinear_arith)
            requires
                self@.channels >= 1,
                self@.sample_rate >= 1,
        ;
    }

    /// Opens the stream that `ident_hdr` announces, with no chunk.
    pub fn new(ident_hdr: &IdentHeader) -> (stream: OggStream)
        requires
            ident_hdr.valid(),
        ensures
            stream.wf(),
            stream@ == StreamModel::opened(*ident_hdr),
    {
        let stream = OggStream {
            chunks: Vec::new(),
            sample_count: 0,
            channels: ident_hdr.audio_channels as u32,
            sample_rate: ident_hdr.audio_sample_rate,
        };
        assert(stream@.chunks =~= Seq::empty());
        stream
    }

    /// Appends the samples of one decoded packet as a new chunk.
    pub fn add_chunk(&mut self, chunk: &[i16])
        requires
            old(self).wf(),
        ensures
            final(self).wf(),
            final(self)@ == old(self)@.with_chunk(chunk@),
    {
        proof {
            assert forall|i: int| 0 <= i < self@.chunks.len() implies (
            #[trigger] self@.chunks[i]).len() <= usize::MAX by {
                assert(self@.chunks[i].len() == self.chunks@[i].len());
            }
            lemma_sample_total_bound(self@.chunks);
            assert(self@.chunks.len() == self.chunks.len());
            assert(self@.chunks.len() * usize::MAX + usize::MAX <= u128::MAX) by (nonlinear_arith)
                requires
                    self@.chunks.len() <= usize::MAX,
                    usize::MAX <= u64::MAX,
            ;
        }
        let ghost before = self@;
        self.sample_count = self.sample_count + chunk.len() as u128;
        self.chunks.push(slice_to_vec(chunk));
        proof {
            assert(self@.chunks =~= before.chunks.push(chunk@));
            assert(self@.chunks.drop_last() =~= before.chunks);
        }
    }

    /// The number of chunks, cut to its low 32 bits.
    pub fn chunk_count(&self) -> (count: u32)
        ensures
            count == self@.chunks.len() % 0x1_0000_0000,
            self@.chunks.len() <= u32::MAX ==> count == self@.chunks.len(),
    {
        let len: u64 = self.chunks.len() as u64;
        (len % 0x1_0000_0000) as u32
    }

    /// The samples of chunk `i`.
    pub fn get_chunk(&self, i: u32) -> (chunk: &[i16])
        requires
            i < self@.chunks.len(),
        ensures
            chunk@ == self@.chunks[i as int],
    {
        self.chunks[i as usize].as_slice()
    }

    /// The samples of chunk `i`, or nothing where the stream has no such
    /// chunk.
    pub fn find_chunk(&self, i: u32) -> (found: Option<&[i16]>)
        ensures
            match found {
                Some(chunk) => i < self@.chunks.len() && chunk@ == self@.chunks[i as int],
                None => i >= self@.chunks.len(),
            },
    {
        if (i as usize) < self.chunks.len() {
            Some(self.chunks[i as usize].as_slice())
        } else {
            None
        }
    }

    /// The number of channels that the samples of each chunk interleave.
    pub fn channels(&self) -> (channels: u32)
        ensures
            channels == self@.channels,
    {
        self.channels
    }

    /// Samples per second and channel.
    pub fn sample_rate(&self) -> (sample_rate: u32)
        ensures
            sample_rate == self@.sample_rate,
    {
        self.sample_rate
    }

    /// How long the chunks appended so far play.
    pub fn duration(&self) -> (duration: Duration)
        requires
            self.wf(),
        ensures
            duration.samples == self@.duration_samples(),
            duration.samples_per_second == self@.samples_per_second(),
            duration.samples_per_second >= 1,
    {
        assert(1 <= self.channels * self.sample_rate <= u64::MAX) by (nonlinear_arith)
            requires
                1 <= self.channels <= u32::MAX,
                1 <= self.sample_rate <= u32::MAX,
        ;
        let per_second: u64 = self.channels as u64 * self.sample_rate as u64;
        Duration { samples: self.sample_count, samples_per_second: per_second }
    }
}

} // verus!
