//! From decoded packets to streams: which stream a packet belongs to, and the
//! pass over all that a packet decoder made of one container.

use crate::codec::{fault_of, vorbis_fault};
use crate::error::{DecodeError, DecodeFault};
use crate::stream::{IdentHeader, OggStream, StreamModel};
use vstd::prelude::*;

verus! {

/// One decoded packet as a value: its interleaved samples, with the serial
/// and the identification header that were in force once it had been read.
pub struct PacketModel {
    pub serial: u32,
    pub ident: IdentHeader,
    pub samples: Seq<i16>,
}

/// One decoded packet, as the packet decoder hands it over.
pub struct DecodedPacket {
    /// Serial of the logical stream that the packet belongs to.
    pub serial: u32,
    /// Identification header of that stream.
    pub ident: IdentHeader,
    /// The interleaved samples, possibly none.
    pub samples: Vec<i16>,
}

impl View for DecodedPacket {
    type V = PacketModel;

    open spec fn view(&self) -> PacketModel {
        PacketModel { serial: self.serial, ident: self.ident, samples: self.samples@ }
    }
}

/// The run of a packet decoder over one container, as a value.
pub struct DecoderModel {
    pub serial: u32,
    pub ident: IdentHeader,
    pub packets: Seq<PacketModel>,
    pub fault: Option<DecodeFault>,
}

/// The run of a packet decoder over one container whose first headers it
/// could read: where it started, every packet it decoded up to the first
/// read that gave none, and how that read ended.
pub struct DecoderRun {
    /// Serial of the first logical stream.
    pub serial: u32,
    /// Identification header of the first logical stream.
    pub ident: IdentHeader,
    /// The decoded packets, in the order read.
    pub packets: Vec<DecodedPacket>,
    /// `None` where the input ended after the last packet, else the error
    /// that ended the run.
    pub fault: Option<lewton::VorbisError>,
}

impl View for DecoderRun {
    type V = DecoderModel;

    open spec fn view(&self) -> DecoderModel {
        DecoderModel {
            serial: self.serial,
            ident: self.ident,
            packets: Seq::new(self.packets@.len(), |i: int| self.packets@[i]@),
            fault: match self.fault {
                Some(error) => Some(vorbis_fault(error)),
                None => None,
            },
        }
    }
}

impl DecoderModel {
    /// Every header of the run, the first and that of each packet, describes
    /// at least one channel at a positive rate.
    pub open spec fn headers_valid(self) -> bool {
        &&& self.ident.valid()
        &&& forall|i: int|
            0 <= i < self.packets.len() ==> (#[trigger] self.packets[i]).ident.valid()
    }
}

/// What became of opening a container, as a value: the run of the decoder,
/// or the fault that kept it from reading the first headers.
pub open spec fn opened_model(opened: Result<DecoderRun, lewton::VorbisError>) -> Result<
    DecoderModel,
    DecodeFault,
> {
    match opened {
        Ok(run) => Ok(run@),
        Err(error) => Err(vorbis_fault(error)),
    }
}

/// The streams of a list, each as a value.
pub open spec fn stream_models(streams: Seq<OggStream>) -> Seq<StreamModel> {
    Seq::new(streams.len(), |i: int| streams[i]@)
}

/// Every stream of the list is well formed, and there is at least one.
pub open spec fn streams_wf(streams: Seq<OggStream>) -> bool {
    &&& streams.len() >= 1
    &&& forall|i: int| 0 <= i < streams.len() ==> (#[trigger] streams[i]).wf()
}

/// Where one packet goes. A packet whose serial differs from the current one
/// opens a new stream at the end of the list; a packet with samples then
/// becomes a chunk of the last stream, and one without leaves no trace there.
pub open spec fn route(
    streams: Seq<StreamModel>,
    current_serial: u32,
    packet: PacketModel,
) -> Seq<StreamModel>
    recommends
        streams.len() >= 1,
{
    let open = if packet.serial != current_serial {
        streams.push(StreamModel::opened(packet.ident))
    } else {
        streams
    };
    if packet.samples.len() > 0 {
        open.update(open.len() - 1, open.last().with_chunk(packet.samples))
    } else {
        open
    }
}

/// Routes `packets` in order, each against the serial of the one before it.
pub open spec fn demux(
    streams: Seq<StreamModel>,
    current_serial: u32,
    packets: Seq<PacketModel>,
) -> Seq<StreamModel>
    decreases packets.len(),
{
    if packets.len() == 0 {
        streams
    } else {
        demux(route(streams, current_serial, packets[0]), packets[0].serial, packets.skip(1))
    }
}

/// The streams of a decoder that was just opened: the stream of its first
/// header, then whatever its packets open and fill.
pub open spec fn demux_all(decoder: DecoderModel) -> Seq<StreamModel> {
    demux(seq![StreamModel::opened(decoder.ident)], decoder.serial, decoder.packets)
}

/// What a decode comes to. It fails where the first headers could not be
/// read, where a header of the run is invalid, and where the run ended in an
/// error; else it yields all the streams of the run.
pub open spec fn decoding(opened: Result<DecoderModel, DecodeFault>) -> Result<
    Seq<StreamModel>,
    DecodeError,
> {
    match opened {
        Err(fault) => Err(DecodeError::Malformed(fault)),
        Ok(run) => if !run.headers_valid() {
            Err(DecodeError::Malformed(DecodeFault::Header))
        } else {
            match run.fault {
                Some(fault) => Err(DecodeError::Malformed(fault)),
                None => Ok(demux_all(run)),
            }
        },
    }
}

/// That `decoded` is what the decode of `opened` comes to: well-formed
/// streams that are those of the run, or its error.
pub open spec fn decoded_as(
    opened: Result<DecoderModel, DecodeFault>,
    decoded: Result<Vec<OggStream>, DecodeError>,
) -> bool {
    match decoded {
        Ok(streams) => {
            &&& streams_wf(streams@)
            &&& decoding(opened) == Ok::<Seq<StreamModel>, DecodeError>(stream_models(streams@))
        },
        Err(error) => decoding(opened) == Err::<Seq<StreamModel>, DecodeError>(error),
    }
}

/// Hands one decoded packet to the stream it belongs to.
pub fn route_packet(
    streams: &mut Vec<OggStream>,
    current_serial: u32,
    serial: u32,
    ident_hdr: &IdentHeader,
    samples: &[i16],
)
    requires
        streams_wf(old(streams)@),
        ident_hdr.valid(),
    ensures
        streams_wf(final(streams)@),
        stream_models(final(streams)@) == route(
            stream_models(old(streams)@),
            current_serial,
            (PacketModel { serial, ident: *ident_hdr, samples: samples@ }),
        ),
{
    let ghost before = stream_models(streams@);
    if current_serial != serial {
        streams.push(OggStream::new(ident_hdr));
        assert(stream_models(streams@) =~= before.push(StreamModel::opened(*ident_hdr)));
    }
    let ghost open = stream_models(streams@);
    if samples.len() > 0 {
        let last = streams.len() - 1;
        streams[last].add_chunk(samples);
        assert(stream_models(streams@) =~= open.update(
            open.len() - 1,
            open.last().with_chunk(samples@),
        ));
    }
}

/// Whether every header of the run is valid.
fn headers_valid(run: &DecoderRun) -> (valid: bool)
    ensures
        valid == run@.headers_valid(),
{
    if !run.ident.is_valid() {
        return false;
    }
    let mut i: usize = 0;
    while i < run.packets.len()
        invariant
            i <= run.packets.len(),
            run.ident.valid(),
            forall|k: int| 0 <= k < i ==> (#[trigger] run@.packets[k]).ident.valid(),
        decreases run.packets.len() - i,
    {
        if !run.packets[i].ident.is_valid() {
            assert(!run@.packets[i as int].ident.valid());
            return false;
        }
        i += 1;
    }
    true
}

/// Decodes a whole container from the run of the packet decoder over it:
/// every logical stream in the order met, each with the chunks of its
/// packets, or an error and no stream at all.
pub fn decode_ogg(opened: &Result<DecoderRun, lewton::VorbisError>) -> (decoded: Result<
    Vec<OggStream>,
    DecodeError,
>)
    ensures
        decoded_as(opened_model(*opened), decoded),
{
    let run = match opened {
        Ok(run) => run,
        Err(error) => {
            return Err(DecodeError::Malformed(fault_of(error)));
        },
    };
    if !headers_valid(run) {
        return Err(DecodeError::Malformed(DecodeFault::Header));
    }
    match &run.fault {
        Some(error) => {
            return Err(DecodeError::Malformed(fault_of(error)));
        },
        None => {},
    }
    let mut streams: Vec<OggStream> = Vec::new();
    streams.push(OggStream::new(&run.ident));
    assert(stream_models(streams@) =~= seq![StreamModel::opened(run.ident)]);
    let mut prev_serial = run.serial;
    let mut i: usize = 0;
    assert(run@.packets.skip(0) =~= run@.packets);
    while i < run.packets.len()
        invariant
            i <= run.packets.len(),
            streams_wf(streams@),
            run@.headers_valid(),
            demux_all(run@) == demux(
                stream_models(streams@),
                prev_serial,
                run@.packets.skip(i as int),
            ),
        decreases run.packets.len() - i,
    {
        let packet = &run.packets[i];
        let ghost rest = run@.packets.skip(i as int);
        assert(rest[0] == packet@);
        assert(rest.skip(1) =~= run@.packets.skip(i + 1));
        assert(run@.packets[i as int].ident.valid());
        route_packet(
            &mut streams,
            prev_serial,
            packet.serial,
            &packet.ident,
            packet.samples.as_slice(),
        );
        prev_serial = packet.serial;
        i += 1;
    }
    assert(run@.packets.skip(i as int) =~= Seq::<PacketModel>::empty());
    Ok(streams)
}

} // verus!
