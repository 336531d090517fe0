//! What holds of demultiplexing whatever the input, stated over the models
//! that the contracts use.

use crate::demux::{
    decoded_as, demux, demux_all, route, stream_models, DecoderModel, PacketModel,
};
use crate::error::DecodeFault;
use crate::error::DecodeError;
use crate::stream::{IdentHeader, OggStream, StreamModel};
use vstd::prelude::*;

verus! {

/// That every packet of the run carries `serial`.
pub open spec fn all_of_serial(packets: Seq<PacketModel>, serial: u32) -> bool {
    forall|i: int| 0 <= i < packets.len() ==> (#[trigger] packets[i]).serial == serial
}

/// The chunks that a run of packets leaves behind: the samples of each packet
/// that has any, in order.
pub open spec fn chunks_of(packets: Seq<PacketModel>) -> Seq<Seq<i16>>
    decreases packets.len(),
{
    if packets.len() == 0 {
        Seq::empty()
    } else if packets[0].samples.len() > 0 {
        seq![packets[0].samples] + chunks_of(packets.skip(1))
    } else {
        chunks_of(packets.skip(1))
    }
}

/// Decoding is a function of what the packet decoder made of the buffer: two
/// decodes of one run fail with the same error, or give the same streams
/// with the same chunks and formats.
pub proof fn lemma_decoding_is_deterministic(
    opened: Result<DecoderModel, DecodeFault>,
    first: Result<Vec<OggStream>, DecodeError>,
    second: Result<Vec<OggStream>, DecodeError>,
)
    requires
        decoded_as(opened, first),
        decoded_as(opened, second),
    ensures
        match (first, second) {
            (Ok(a), Ok(b)) => stream_models(a@) == stream_models(b@),
            (Err(a), Err(b)) => a == b,
            _ => false,
        },
{
}

/// A chunk lengthens its stream by exactly its samples and changes nothing
/// else: the duration never shrinks, and the chunk count goes up by one.
pub proof fn lemma_chunk_extends_duration(stream: StreamModel, chunk: Seq<i16>)
    ensures
        stream.with_chunk(chunk).duration_samples() == stream.duration_samples() + chunk.len(),
        stream.with_chunk(chunk).samples_per_second() == stream.samples_per_second(),
        stream.with_chunk(chunk).chunks.len() == stream.chunks.len() + 1,
{
    assert(stream.chunks.push(chunk).drop_last() =~= stream.chunks);
}

/// That `later` is `earlier` with chunks added at the end at most: the
/// format is the same, and every chunk of `earlier` is still in its place.
pub open spec fn extends(later: StreamModel, earlier: StreamModel) -> bool {
    &&& later.channels == earlier.channels
    &&& later.sample_rate == earlier.sample_rate
    &&& earlier.chunks.is_prefix_of(later.chunks)
}

/// Routing only ever appends: each stream that was there stays in its place
/// and keeps its format and its chunks, and only the last stream of the
/// result can have gained one.
pub proof fn lemma_route_is_append_only(
    streams: Seq<StreamModel>,
    current_serial: u32,
    packet: PacketModel,
)
    requires
        streams.len() >= 1,
    ensures
        route(streams, current_serial, packet).len() >= streams.len(),
        forall|i: int|
            0 <= i < streams.len() ==> extends(
                #[trigger] route(streams, current_serial, packet)[i],
                streams[i],
            ),
        forall|i: int|
            0 <= i < streams.len() - 1 ==> #[trigger] route(streams, current_serial, packet)[i]
                == streams[i],
{
    let routed = route(streams, current_serial, packet);
    assert forall|i: int| 0 <= i < streams.len() implies extends(
        #[trigger] routed[i],
        streams[i],
    ) by {
        assert(streams[i].chunks.is_prefix_of(streams[i].chunks));
        assert(streams[i].chunks.is_prefix_of(streams[i].chunks.push(packet.samples)));
    }
}

/// Demultiplexing only ever appends: whatever packets follow, each stream
/// that was there stays in its place and keeps its format and its chunks.
pub proof fn lemma_demux_is_append_only(
    streams: Seq<StreamModel>,
    current_serial: u32,
    packets: Seq<PacketModel>,
)
    requires
        streams.len() >= 1,
    ensures
        demux(streams, current_serial, packets).len() >= streams.len(),
        forall|i: int|
            0 <= i < streams.len() ==> extends(
                #[trigger] demux(streams, current_serial, packets)[i],
                streams[i],
            ),
    decreases packets.len(),
{
    if packets.len() == 0 {
        assert forall|i: int| 0 <= i < streams.len() implies extends(
            #[trigger] demux(streams, current_serial, packets)[i],
            streams[i],
        ) by {
            assert(streams[i].chunks.is_prefix_of(streams[i].chunks));
        }
    } else {
        let routed = route(streams, current_serial, packets[0]);
        let result = demux(streams, current_serial, packets);
        lemma_route_is_append_only(streams, current_serial, packets[0]);
        lemma_demux_is_append_only(routed, packets[0].serial, packets.skip(1));
        assert forall|i: int| 0 <= i < streams.len() implies extends(
            #[trigger] result[i],
            streams[i],
        ) by {
            assert(extends(routed[i], streams[i]));
            assert(extends(result[i], routed[i]));
            assert(streams[i].chunks.is_prefix_of(result[i].chunks));
        }
    }
}

/// A packet without samples adds no chunk and leaves every duration as it
/// was: the streams stay as they are, but for the empty stream that the
/// packet opens where its serial is new.
pub proof fn lemma_empty_packet_adds_no_chunk(
    streams: Seq<StreamModel>,
    current_serial: u32,
    packet: PacketModel,
)
    requires
        streams.len() >= 1,
        packet.samples.len() == 0,
    ensures
        packet.serial == current_serial ==> route(streams, current_serial, packet) == streams,
        packet.serial != current_serial ==> route(streams, current_serial, packet) == streams.push(
            StreamModel::opened(packet.ident),
        ),
        StreamModel::opened(packet.ident).chunks.len() == 0,
        StreamModel::opened(packet.ident).duration_samples() == 0,
{
}

/// Packets that all carry the current serial go to the last stream: it gains
/// their chunks, and no other stream changes.
pub proof fn lemma_demux_run(streams: Seq<StreamModel>, serial: u32, packets: Seq<PacketModel>)
    requires
        streams.len() >= 1,
        all_of_serial(packets, serial),
    ensures
        demux(streams, serial, packets) == streams.update(
            streams.len() - 1,
            (StreamModel {
                chunks: streams.last().chunks + chunks_of(packets),
                ..streams.last()
            }),
        ),
    decreases packets.len(),
{
    let last = streams.last();
    if packets.len() == 0 {
        assert(last.chunks + chunks_of(packets) =~= last.chunks);
        assert(streams.update(streams.len() - 1, last) =~= streams);
    } else {
        let next = route(streams, serial, packets[0]);
        let rest = packets.skip(1);
        assert(all_of_serial(rest, serial)) by {
            assert forall|i: int| 0 <= i < rest.len() implies (#[trigger] rest[i]).serial
                == serial by {
                assert(rest[i] == packets[i + 1]);
            }
        }
        assert(packets[0].serial == serial);
        lemma_demux_run(next, serial, rest);
        if packets[0].samples.len() > 0 {
            assert(last.chunks.push(packets[0].samples) + chunks_of(rest) =~= last.chunks
                + chunks_of(packets));
        }
        assert(next.update(
            next.len() - 1,
            (StreamModel { chunks: next.last().chunks + chunks_of(rest), ..next.last() }),
        ) =~= streams.update(
            streams.len() - 1,
            (StreamModel { chunks: last.chunks + chunks_of(packets), ..last }),
        ));
    }
}

/// Demultiplexing a list of packets in two parts gives what demultiplexing
/// it whole gives.
pub proof fn lemma_demux_concat(
    streams: Seq<StreamModel>,
    current_serial: u32,
    front: Seq<PacketModel>,
    back: Seq<PacketModel>,
)
    ensures
        demux(streams, current_serial, front + back) == demux(
            demux(streams, current_serial, front),
            if front.len() > 0 {
                front.last().serial
            } else {
                current_serial
            },
            back,
        ),
    decreases front.len(),
{
    if front.len() == 0 {
        assert(front + back =~= back);
    } else {
        let whole = front + back;
        assert(whole[0] == front[0]);
        assert(whole.skip(1) =~= front.skip(1) + back);
        lemma_demux_concat(
            route(streams, current_serial, front[0]),
            front[0].serial,
            front.skip(1),
            back,
        );
        if front.len() > 1 {
            assert(front.skip(1).last() == front.last());
        }
    }
}

/// Two streams chained in one buffer come out as two: where the packets are
/// a run under the first serial and then a run under another, the result is
/// the stream of the first header with the chunks of the first run, then the
/// stream of the second header with the chunks of the second run.
pub proof fn lemma_chained_streams_are_told_apart(
    decoder: DecoderModel,
    first_run: Seq<PacketModel>,
    second_run: Seq<PacketModel>,
)
    requires
        decoder.packets == first_run + second_run,
        all_of_serial(first_run, decoder.serial),
        second_run.len() > 0,
        all_of_serial(second_run, second_run[0].serial),
        second_run[0].serial != decoder.serial,
    ensures
        demux_all(decoder) == seq![
            (StreamModel { chunks: chunks_of(first_run), ..StreamModel::opened(decoder.ident) }),
            (StreamModel {
                chunks: chunks_of(second_run),
                ..StreamModel::opened(second_run[0].ident)
            }),
        ],
{
    let start = seq![StreamModel::opened(decoder.ident)];
    let first = StreamModel { chunks: chunks_of(first_run), ..StreamModel::opened(decoder.ident) };
    lemma_demux_concat(start, decoder.serial, first_run, second_run);
    lemma_demux_run(start, decoder.serial, first_run);
    assert(Seq::<Seq<i16>>::empty() + chunks_of(first_run) =~= chunks_of(first_run));
    let middle = demux(start, decoder.serial, first_run);
    assert(middle =~= seq![first]);
    let serial = if first_run.len() > 0 {
        first_run.last().serial
    } else {
        decoder.serial
    };
    assert(serial == decoder.serial);
    let head = second_run[0];
    let tail = second_run.skip(1);
    let opened = route(middle, serial, head);
    assert(all_of_serial(tail, head.serial)) by {
        assert forall|i: int| 0 <= i < tail.len() implies (#[trigger] tail[i]).serial
            == head.serial by {
            assert(tail[i] == second_run[i + 1]);
        }
    }
    lemma_demux_run(opened, head.serial, tail);
    let second_start = StreamModel::opened(head.ident);
    if head.samples.len() > 0 {
        assert(second_start.chunks.push(head.samples) + chunks_of(tail) =~= chunks_of(
            second_run,
        ));
    } else {
        assert(second_start.chunks + chunks_of(tail) =~= chunks_of(second_run));
    }
    assert(demux(middle, serial, second_run) =~= seq![
        first,
        (StreamModel { chunks: chunks_of(second_run), ..second_start }),
    ]);
}

/// The packets that open a stream: those whose serial differs from that of
/// the packet before them, the first being held against `current_serial`.
pub open spec fn openers(current_serial: u32, packets: Seq<PacketModel>) -> Seq<PacketModel>
    decreases packets.len(),
{
    if packets.len() == 0 {
        Seq::empty()
    } else if packets[0].serial != current_serial {
        seq![packets[0]] + openers(packets[0].serial, packets.skip(1))
    } else {
        openers(packets[0].serial, packets.skip(1))
    }
}

/// That the stream has the format that the header announces.
pub open spec fn has_format(stream: StreamModel, ident: IdentHeader) -> bool {
    &&& stream.channels == ident.audio_channels as u32
    &&& stream.sample_rate == ident.audio_sample_rate
}

/// Every packet of a new serial opens one stream, after those that were
/// there, and that stream has the format of the packet's header.
pub proof fn lemma_demux_opens_streams(
    streams: Seq<StreamModel>,
    current_serial: u32,
    packets: Seq<PacketModel>,
)
    requires
        streams.len() >= 1,
    ensures
        demux(streams, current_serial, packets).len() == streams.len() + openers(
            current_serial,
            packets,
        ).len(),
        forall|k: int|
            0 <= k < openers(current_serial, packets).len() ==> has_format(
                #[trigger] demux(streams, current_serial, packets)[streams.len() + k],
                openers(current_serial, packets)[k].ident,
            ),
    decreases packets.len(),
{
    if packets.len() > 0 {
        let head = packets[0];
        let rest = packets.skip(1);
        let routed = route(streams, current_serial, head);
        let result = demux(streams, current_serial, packets);
        let opening = openers(current_serial, packets);
        let later = openers(head.serial, rest);
        lemma_demux_opens_streams(routed, head.serial, rest);
        lemma_demux_is_append_only(routed, head.serial, rest);
        assert forall|k: int| 0 <= k < opening.len() implies has_format(
            #[trigger] result[streams.len() + k],
            opening[k].ident,
        ) by {
            if head.serial != current_serial {
                if k == 0 {
                    assert(extends(result[streams.len() as int], routed[streams.len() as int]));
                } else {
                    assert(opening[k] == later[k - 1]);
                    assert(has_format(result[routed.len() + (k - 1)], later[k - 1].ident));
                }
            } else {
                assert(has_format(result[routed.len() + k], later[k].ident));
            }
        }
    }
}

/// A decode that succeeds yields the stream of the first header and one more
/// for every packet of a new serial: stream 0 has the format of the first
/// header, and each later stream that of the packet that opened it.
pub proof fn lemma_streams_have_their_headers(decoder: DecoderModel)
    ensures
        demux_all(decoder).len() == 1 + openers(decoder.serial, decoder.packets).len(),
        has_format(demux_all(decoder)[0], decoder.ident),
        forall|j: int|
            1 <= j < demux_all(decoder).len() ==> has_format(
                #[trigger] demux_all(decoder)[j],
                openers(decoder.serial, decoder.packets)[j - 1].ident,
            ),
{
    let start = seq![StreamModel::opened(decoder.ident)];
    let result = demux_all(decoder);
    lemma_demux_opens_streams(start, decoder.serial, decoder.packets);
    lemma_demux_is_append_only(start, decoder.serial, decoder.packets);
    assert(extends(result[0], start[0]));
    assert forall|j: int| 1 <= j < result.len() implies has_format(
        #[trigger] result[j],
        openers(decoder.serial, decoder.packets)[j - 1].ident,
    ) by {
        assert(result[j] == result[start.len() + (j - 1)]);
    }
}

/// That no stream of the list holds a chunk without samples.
pub open spec fn chunks_nonempty(streams: Seq<StreamModel>) -> bool {
    forall|i: int, j: int|
        0 <= i < streams.len() && 0 <= j < streams[i].chunks.len() ==> (
        #[trigger] streams[i].chunks[j]).len() > 0
}

/// Demultiplexing never stores a chunk without samples.
pub proof fn lemma_demux_keeps_chunks_nonempty(
    streams: Seq<StreamModel>,
    current_serial: u32,
    packets: Seq<PacketModel>,
)
    requires
        streams.len() >= 1,
        chunks_nonempty(streams),
    ensures
        chunks_nonempty(demux(streams, current_serial, packets)),
    decreases packets.len(),
{
    if packets.len() > 0 {
        let routed = route(streams, current_serial, packets[0]);
        assert(chunks_nonempty(routed)) by {
            assert forall|i: int, j: int|
                0 <= i < routed.len() && 0 <= j < routed[i].chunks.len() implies (
            #[trigger] routed[i].chunks[j]).len() > 0 by {
                if i < streams.len() && j < streams[i].chunks.len() {
                    assert(routed[i].chunks[j] == streams[i].chunks[j]);
                }
            }
        }
        lemma_demux_keeps_chunks_nonempty(routed, packets[0].serial, packets.skip(1));
    }
}

/// No chunk of a decode is empty.
pub proof fn lemma_no_chunk_is_empty(decoder: DecoderModel)
    ensures
        chunks_nonempty(demux_all(decoder)),
{
    lemma_demux_keeps_chunks_nonempty(
        seq![StreamModel::opened(decoder.ident)],
        decoder.serial,
        decoder.packets,
    );
}

/// The number of chunks in all the streams of the list.
pub open spec fn chunk_total(streams: Seq<StreamModel>) -> nat
    decreases streams.len(),
{
    if streams.len() == 0 {
        0
    } else {
        chunk_total(streams.drop_last()) + streams.last().chunks.len()
    }
}

/// The number of packets that have samples.
pub open spec fn packets_with_samples(packets: Seq<PacketModel>) -> nat
    decreases packets.len(),
{
    if packets.len() == 0 {
        0
    } else {
        let here: nat = if packets[0].samples.len() > 0 {
            1
        } else {
            0
        };
        here + packets_with_samples(packets.skip(1))
    }
}

/// One packet adds one chunk where it has samples, and none where it has not.
pub proof fn lemma_route_chunk_total(
    streams: Seq<StreamModel>,
    current_serial: u32,
    packet: PacketModel,
)
    requires
        streams.len() >= 1,
    ensures
        chunk_total(route(streams, current_serial, packet)) == chunk_total(streams) + (
        if packet.samples.len() > 0 {
            1nat
        } else {
            0nat
        }),
{
    let open = if packet.serial != current_serial {
        streams.push(StreamModel::opened(packet.ident))
    } else {
        streams
    };
    if packet.serial != current_serial {
        assert(open.drop_last() =~= streams);
    }
    assert(chunk_total(open) == chunk_total(streams));
    if packet.samples.len() > 0 {
        let routed = open.update(open.len() - 1, open.last().with_chunk(packet.samples));
        assert(routed.drop_last() =~= open.drop_last());
    }
}

/// The chunks added number as many as the packets with samples.
pub proof fn lemma_demux_chunk_total(
    streams: Seq<StreamModel>,
    current_serial: u32,
    packets: Seq<PacketModel>,
)
    requires
        streams.len() >= 1,
    ensures
        chunk_total(demux(streams, current_serial, packets)) == chunk_total(streams)
            + packets_with_samples(packets),
    decreases packets.len(),
{
    if packets.len() > 0 {
        lemma_route_chunk_total(streams, current_serial, packets[0]);
        lemma_demux_chunk_total(
            route(streams, current_serial, packets[0]),
            packets[0].serial,
            packets.skip(1),
        );
    }
}

/// The chunks of a decode number as many as the packets with samples.
pub proof fn lemma_chunks_number_the_packets_with_samples(decoder: DecoderModel)
    ensures
        chunk_total(demux_all(decoder)) == packets_with_samples(decoder.packets),
{
    let start = seq![StreamModel::opened(decoder.ident)];
    assert(start.drop_last() =~= Seq::<StreamModel>::empty());
    assert(chunk_total(start.drop_last()) == 0);
    lemma_demux_chunk_total(start, decoder.serial, decoder.packets);
}

/// A packet without samples, put in anywhere under the serial in force at
/// that point, changes nothing: the streams come out as without it.
pub proof fn lemma_empty_packet_changes_nothing(
    streams: Seq<StreamModel>,
    current_serial: u32,
    front: Seq<PacketModel>,
    packet: PacketModel,
    back: Seq<PacketModel>,
)
    requires
        packet.samples.len() == 0,
        packet.serial == (if front.len() > 0 {
            front.last().serial
        } else {
            current_serial
        }),
    ensures
        demux(streams, current_serial, front + seq![packet] + back) == demux(
            streams,
            current_serial,
            front + back,
        ),
{
    let with = seq![packet] + back;
    assert(front + seq![packet] + back =~= front + with);
    lemma_demux_concat(streams, current_serial, front, with);
    lemma_demux_concat(streams, current_serial, front, back);
    assert(with[0] == packet);
    assert(with.skip(1) =~= back);
}

} // verus!
