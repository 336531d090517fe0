//! Streams and routing on values written out by hand.

use lewton::audio::AudioReadError;
use lewton::header::HeaderReadError;
use lewton::{OggReadError, VorbisError};
use ogg_processor::demux::{decode_ogg, route_packet, DecodedPacket, DecoderRun};
use ogg_processor::error::{BoundsError, DecodeError, DecodeFault};
use ogg_processor::processor::OggProcessor;
use ogg_processor::stream::{Duration, IdentHeader, OggStream, SAMPLE_DIVISOR};

fn stereo() -> IdentHeader {
    IdentHeader { audio_channels: 2, audio_sample_rate: 44100 }
}

fn mono() -> IdentHeader {
    IdentHeader { audio_channels: 1, audio_sample_rate: 8000 }
}

fn normalized(sample: i16) -> f32 {
    sample as f32 / SAMPLE_DIVISOR as f32
}

#[test]
fn new_stream_has_no_chunks() {
    let stream = OggStream::new(&stereo());
    assert_eq!(stream.chunk_count(), 0);
    assert_eq!(stream.channels(), 2);
    assert_eq!(stream.sample_rate(), 44100);
    assert_eq!(stream.duration(), Duration { samples: 0, samples_per_second: 88200 });
}

#[test]
fn add_chunk_appends_and_lengthens() {
    let mut stream = OggStream::new(&stereo());
    stream.add_chunk(&[1, -2, 3, -4]);
    assert_eq!(stream.chunk_count(), 1);
    assert_eq!(stream.get_chunk(0), &[1i16, -2, 3, -4][..]);
    assert_eq!(stream.duration(), Duration { samples: 4, samples_per_second: 88200 });
    stream.add_chunk(&[i16::MIN, i16::MAX]);
    assert_eq!(stream.chunk_count(), 2);
    assert_eq!(stream.get_chunk(0), &[1i16, -2, 3, -4][..]);
    assert_eq!(stream.get_chunk(1), &[i16::MIN, i16::MAX][..]);
    assert_eq!(stream.duration(), Duration { samples: 6, samples_per_second: 88200 });
}

#[test]
fn duration_never_shrinks() {
    let mut stream = OggStream::new(&mono());
    let mut before = stream.duration().samples;
    for len in [3usize, 0, 7, 1] {
        stream.add_chunk(&vec![5i16; len]);
        let after = stream.duration().samples;
        assert!(after >= before);
        assert_eq!(after, before + len as u128);
        before = after;
    }
    assert_eq!(stream.chunk_count(), 4);
}

#[test]
fn one_second_of_samples() {
    let mut stream = OggStream::new(&mono());
    stream.add_chunk(&vec![0i16; 8000]);
    let duration = stream.duration();
    assert_eq!(duration, Duration { samples: 8000, samples_per_second: 8000 });
    assert_eq!(duration.samples as f32 / duration.samples_per_second as f32, 1.0);
}

#[test]
fn widest_format_does_not_overflow() {
    let ident = IdentHeader { audio_channels: u8::MAX, audio_sample_rate: u32::MAX };
    let stream = OggStream::new(&ident);
    assert_eq!(stream.channels(), 255);
    assert_eq!(stream.duration().samples_per_second, 255 * u32::MAX as u64);
}

#[test]
fn samples_are_scaled_by_the_divisor() {
    assert_eq!(SAMPLE_DIVISOR, 65536);
    let mut stream = OggStream::new(&mono());
    stream.add_chunk(&[-32768, 32767, 0]);
    let chunk = stream.get_chunk(0);
    assert_eq!(normalized(chunk[0]), -0.5);
    assert!((normalized(chunk[1]) - 0.499984741).abs() < 1e-9);
    assert_eq!(normalized(chunk[1]), 32767.0 / 65536.0);
    assert_eq!(normalized(chunk[2]), 0.0);
}

#[test]
fn packet_of_the_current_serial_goes_to_the_last_stream() {
    let mut streams = vec![OggStream::new(&stereo())];
    route_packet(&mut streams, 7, 7, &stereo(), &[1, 2]);
    route_packet(&mut streams, 7, 7, &stereo(), &[3, 4, 5, 6]);
    assert_eq!(streams.len(), 1);
    assert_eq!(streams[0].chunk_count(), 2);
    assert_eq!(streams[0].get_chunk(0), &[1i16, 2][..]);
    assert_eq!(streams[0].get_chunk(1), &[3i16, 4, 5, 6][..]);
}

#[test]
fn packet_of_a_new_serial_opens_a_stream() {
    let mut streams = vec![OggStream::new(&stereo())];
    route_packet(&mut streams, 7, 7, &stereo(), &[1, 2]);
    route_packet(&mut streams, 7, 9, &mono(), &[3]);
    route_packet(&mut streams, 9, 9, &mono(), &[4]);
    assert_eq!(streams.len(), 2);
    assert_eq!(streams[0].chunk_count(), 1);
    assert_eq!(streams[0].channels(), 2);
    assert_eq!(streams[0].sample_rate(), 44100);
    assert_eq!(streams[1].chunk_count(), 2);
    assert_eq!(streams[1].channels(), 1);
    assert_eq!(streams[1].sample_rate(), 8000);
    assert_eq!(streams[1].get_chunk(0), &[3i16][..]);
    assert_eq!(streams[1].get_chunk(1), &[4i16][..]);
}

#[test]
fn empty_packet_is_skipped() {
    let mut streams = vec![OggStream::new(&stereo())];
    route_packet(&mut streams, 7, 7, &stereo(), &[1, 2]);
    let before = streams[0].duration();
    route_packet(&mut streams, 7, 7, &stereo(), &[]);
    assert_eq!(streams.len(), 1);
    assert_eq!(streams[0].chunk_count(), 1);
    assert_eq!(streams[0].duration(), before);
}

#[test]
fn empty_packet_of_a_new_serial_opens_an_empty_stream() {
    let mut streams = vec![OggStream::new(&stereo())];
    route_packet(&mut streams, 7, 9, &mono(), &[]);
    assert_eq!(streams.len(), 2);
    assert_eq!(streams[0].chunk_count(), 0);
    assert_eq!(streams[1].chunk_count(), 0);
    assert_eq!(streams[1].channels(), 1);
    assert_eq!(streams[1].duration(), Duration { samples: 0, samples_per_second: 8000 });
}

#[test]
fn serial_that_comes_back_opens_a_stream_again() {
    let mut streams = vec![OggStream::new(&stereo())];
    route_packet(&mut streams, 1, 2, &mono(), &[1]);
    route_packet(&mut streams, 2, 1, &stereo(), &[2, 3]);
    assert_eq!(streams.len(), 3);
    assert_eq!(streams[0].chunk_count(), 0);
    assert_eq!(streams[1].get_chunk(0), &[1i16][..]);
    assert_eq!(streams[2].get_chunk(0), &[2i16, 3][..]);
    assert_eq!(streams[2].channels(), 2);
}

#[test]
fn processor_serves_its_streams_by_index() {
    let mut streams = vec![OggStream::new(&stereo())];
    route_packet(&mut streams, 7, 7, &stereo(), &[1, 2, 3, 4]);
    route_packet(&mut streams, 7, 7, &stereo(), &[5, 6]);
    route_packet(&mut streams, 7, 9, &mono(), &[-1, -2, -3]);
    let processor = OggProcessor::new(streams);
    assert_eq!(processor.get_stream_count(), 2);
    assert_eq!(processor.get_chunk_count(0), 2);
    assert_eq!(processor.get_chunk_count(1), 1);
    assert_eq!(processor.get_channels(0), 2);
    assert_eq!(processor.get_channels(1), 1);
    assert_eq!(processor.get_sample_rate(0), 44100);
    assert_eq!(processor.get_sample_rate(1), 8000);
    assert_eq!(processor.get_duration(0), Duration { samples: 6, samples_per_second: 88200 });
    assert_eq!(processor.get_duration(1), Duration { samples: 3, samples_per_second: 8000 });
    assert_eq!(processor.get_chunk(0, 0), &[1i16, 2, 3, 4][..]);
    assert_eq!(processor.get_chunk(0, 1), &[5i16, 6][..]);
    assert_eq!(processor.get_chunk(1, 0), &[-1i16, -2, -3][..]);
}

#[test]
fn each_fault_has_its_message() {
    assert_eq!(
        DecodeError::Malformed(DecodeFault::Audio).message(),
        "Vorbis bitstream audio decode problem"
    );
    assert_eq!(
        DecodeError::Malformed(DecodeFault::Header).message(),
        "Vorbis bitstream header decode problem"
    );
    assert_eq!(DecodeError::Malformed(DecodeFault::Container).message(), "Ogg decode problem");
}

fn packet(serial: u32, ident: IdentHeader, samples: &[i16]) -> DecodedPacket {
    DecodedPacket { serial, ident, samples: samples.to_vec() }
}

fn two_stream_run() -> DecoderRun {
    DecoderRun {
        serial: 7,
        ident: stereo(),
        packets: vec![
            packet(7, stereo(), &[]),
            packet(7, stereo(), &[1, 2, 3, 4]),
            packet(7, stereo(), &[5, 6]),
            packet(9, mono(), &[-1]),
            packet(9, mono(), &[]),
            packet(9, mono(), &[-2, -3]),
        ],
        fault: None,
    }
}

#[test]
fn run_is_decoded_into_its_streams() {
    let streams = decode_ogg(&Ok(two_stream_run())).unwrap();
    assert_eq!(streams.len(), 2);
    assert_eq!(streams[0].chunk_count(), 2);
    assert_eq!(streams[0].get_chunk(0), &[1i16, 2, 3, 4][..]);
    assert_eq!(streams[0].get_chunk(1), &[5i16, 6][..]);
    assert_eq!(streams[0].channels(), 2);
    assert_eq!(streams[0].sample_rate(), 44100);
    assert_eq!(streams[0].duration(), Duration { samples: 6, samples_per_second: 88200 });
    assert_eq!(streams[1].chunk_count(), 2);
    assert_eq!(streams[1].get_chunk(0), &[-1i16][..]);
    assert_eq!(streams[1].get_chunk(1), &[-2i16, -3][..]);
    assert_eq!(streams[1].channels(), 1);
    assert_eq!(streams[1].sample_rate(), 8000);
    assert_eq!(streams[1].duration(), Duration { samples: 3, samples_per_second: 8000 });
}

#[test]
fn run_without_packets_gives_one_empty_stream() {
    let run = DecoderRun { serial: 1, ident: mono(), packets: vec![], fault: None };
    let processor = OggProcessor::from_buffer(&Ok(run)).unwrap();
    assert_eq!(processor.get_stream_count(), 1);
    assert_eq!(processor.get_chunk_count(0), 0);
    assert_eq!(processor.get_duration(0), Duration { samples: 0, samples_per_second: 8000 });
}

#[test]
fn no_chunk_is_empty_and_chunks_number_the_packets_with_samples() {
    let run = two_stream_run();
    let with_samples = run.packets.iter().filter(|p| !p.samples.is_empty()).count();
    let streams = decode_ogg(&Ok(run)).unwrap();
    let mut chunks = 0;
    for stream in &streams {
        for i in 0..stream.chunk_count() {
            assert!(!stream.get_chunk(i).is_empty());
            chunks += 1;
        }
    }
    assert_eq!(chunks, with_samples);
}

#[test]
fn empty_packet_in_the_run_changes_nothing() {
    let mut with = two_stream_run();
    with.packets.insert(3, packet(7, stereo(), &[]));
    let with = decode_ogg(&Ok(with)).unwrap();
    let without = decode_ogg(&Ok(two_stream_run())).unwrap();
    assert_eq!(with.len(), without.len());
    for (a, b) in with.iter().zip(without.iter()) {
        assert_eq!(a.chunk_count(), b.chunk_count());
        assert_eq!(a.duration(), b.duration());
        for i in 0..a.chunk_count() {
            assert_eq!(a.get_chunk(i), b.get_chunk(i));
        }
    }
}

#[test]
fn decoding_a_run_twice_gives_the_same() {
    let first = decode_ogg(&Ok(two_stream_run())).unwrap();
    let second = decode_ogg(&Ok(two_stream_run())).unwrap();
    assert_eq!(first.len(), second.len());
    for (a, b) in first.iter().zip(second.iter()) {
        assert_eq!(a.chunk_count(), b.chunk_count());
        assert_eq!(a.channels(), b.channels());
        assert_eq!(a.sample_rate(), b.sample_rate());
        assert_eq!(a.duration(), b.duration());
        for i in 0..a.chunk_count() {
            assert_eq!(a.get_chunk(i), b.get_chunk(i));
        }
    }
}

#[test]
fn failed_opening_gives_its_fault() {
    let header = VorbisError::BadHeader(HeaderReadError::NotVorbisHeader);
    assert_eq!(
        decode_ogg(&Err(header)).err(),
        Some(DecodeError::Malformed(DecodeFault::Header))
    );
    let container = VorbisError::OggError(OggReadError::NoCapturePatternFound);
    assert_eq!(
        OggProcessor::from_buffer(&Err(container)).err(),
        Some(DecodeError::Malformed(DecodeFault::Container))
    );
    let audio = VorbisError::BadAudio(AudioReadError::AudioBadFormat);
    assert_eq!(decode_ogg(&Err(audio)).err(), Some(DecodeError::Malformed(DecodeFault::Audio)));
}

#[test]
fn fault_at_the_end_fails_the_whole_decode() {
    let mut run = two_stream_run();
    run.fault = Some(VorbisError::BadAudio(AudioReadError::EndOfPacket));
    assert_eq!(decode_ogg(&Ok(run)).err(), Some(DecodeError::Malformed(DecodeFault::Audio)));
    let mut run = two_stream_run();
    run.fault = Some(VorbisError::OggError(OggReadError::InvalidData));
    assert_eq!(decode_ogg(&Ok(run)).err(), Some(DecodeError::Malformed(DecodeFault::Container)));
}

#[test]
fn invalid_header_is_malformed() {
    let silent = IdentHeader { audio_channels: 0, audio_sample_rate: 44100 };
    let still = IdentHeader { audio_channels: 2, audio_sample_rate: 0 };
    assert!(!silent.is_valid());
    assert!(!still.is_valid());
    assert!(stereo().is_valid());
    let run = DecoderRun { serial: 1, ident: silent, packets: vec![], fault: None };
    assert_eq!(decode_ogg(&Ok(run)).err(), Some(DecodeError::Malformed(DecodeFault::Header)));
    let mut run = two_stream_run();
    run.packets.push(packet(11, still, &[1]));
    assert_eq!(decode_ogg(&Ok(run)).err(), Some(DecodeError::Malformed(DecodeFault::Header)));
    // An invalid header goes before the error that ended the run.
    let mut run = two_stream_run();
    run.packets.push(packet(11, still, &[1]));
    run.fault = Some(VorbisError::BadAudio(AudioReadError::AudioBadFormat));
    assert_eq!(decode_ogg(&Ok(run)).err(), Some(DecodeError::Malformed(DecodeFault::Header)));
}

#[test]
fn index_out_of_range_finds_nothing() {
    let processor = OggProcessor::from_buffer(&Ok(two_stream_run())).unwrap();
    assert_eq!(processor.find_chunk(0, 0), Ok(&[1i16, 2, 3, 4][..]));
    assert_eq!(processor.find_chunk(0, 1), Ok(&[5i16, 6][..]));
    assert_eq!(processor.find_chunk(1, 1), Ok(&[-2i16, -3][..]));
    assert_eq!(processor.find_chunk(0, 2), Err(BoundsError::Chunk));
    assert_eq!(processor.find_chunk(1, 2), Err(BoundsError::Chunk));
    assert_eq!(processor.find_chunk(0, u32::MAX), Err(BoundsError::Chunk));
    assert_eq!(processor.find_chunk(2, 0), Err(BoundsError::Stream));
    assert_eq!(processor.find_chunk(u32::MAX, 0), Err(BoundsError::Stream));
    assert_eq!(processor.find_stream(1).map(|s| s.channels()), Ok(1));
    assert_eq!(processor.find_stream(2).err(), Some(BoundsError::Stream));
}

#[test]
fn stream_without_chunks_has_no_chunk_zero() {
    let mut stream = OggStream::new(&stereo());
    assert_eq!(stream.find_chunk(0), None);
    stream.add_chunk(&[7, 8]);
    assert_eq!(stream.find_chunk(0), Some(&[7i16, 8][..]));
    assert_eq!(stream.find_chunk(1), None);
    assert_eq!(stream.find_chunk(u32::MAX), None);
    assert_eq!(stream.chunk_count(), 1);
    assert_eq!(stream.get_chunk(0), &[7i16, 8][..]);
}
