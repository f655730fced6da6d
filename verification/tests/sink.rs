use crossbeam_channel::{bounded, Receiver, Sender};
use voicebot::spotify::channel::Received;
use voicebot::spotify::sink::{encode_samples, DiscordSink, PcmReader, SinkError};

struct Line {
    audio: Sender<Vec<u8>>,
    flush: Sender<()>,
    reader: PcmReader,
}

fn line() -> Line {
    let (audio, receiver) = bounded::<Vec<u8>>(16);
    let (flush, flush_rx) = bounded::<()>(1);
    Line { audio, flush, reader: PcmReader::new(receiver, flush_rx) }
}

fn sink(capacity: usize) -> (DiscordSink, Receiver<Vec<u8>>, Receiver<()>) {
    let (audio, receiver) = bounded::<Vec<u8>>(capacity);
    let (flush, flush_rx) = bounded::<()>(1);
    (DiscordSink::new(audio, flush), receiver, flush_rx)
}

#[test]
fn samples_are_little_endian() {
    assert!(encode_samples(&vec![]).is_empty());
    assert_eq!(encode_samples(&vec![0x0403_0201, 0xffff_fffe]), [1, 2, 3, 4, 0xfe, 0xff, 0xff, 0xff]);
    let bits: Vec<u32> = [0.5f32, -1.0, 0.0].iter().map(|s| s.to_bits()).collect();
    let expected: Vec<u8> = [0.5f32, -1.0, 0.0].iter().flat_map(|s| s.to_le_bytes()).collect();
    assert_eq!(encode_samples(&bits), expected);
}

#[test]
fn samples_can_be_read_back() {
    let samples = vec![0u32, 1, 255, 256, 0x1234_5678, u32::MAX];
    let bytes = encode_samples(&samples);
    let back: Vec<u32> = bytes
        .chunks(4)
        .map(|c| u32::from_le_bytes([c[0], c[1], c[2], c[3]]))
        .collect();
    assert_eq!(back, samples);
}

#[test]
fn packets_are_sent() {
    let (mut sink, receiver, flush_rx) = sink(4);
    assert!(sink.start().is_ok());
    assert!(sink.write(Some(vec![0x0403_0201])).is_ok());
    assert!(sink.write(None).is_ok());
    assert!(sink.write(Some(vec![])).is_ok());
    assert_eq!(receiver.try_recv(), Ok(vec![1, 2, 3, 4]));
    assert_eq!(receiver.try_recv(), Ok(vec![]));
    assert!(receiver.try_recv().is_err());
    assert!(flush_rx.try_recv().is_err());
}

#[test]
fn a_closed_channel_fails_the_write() {
    let (mut sink, receiver, _flush_rx) = sink(4);
    drop(receiver);
    assert_eq!(
        sink.write(Some(vec![1])),
        Err(SinkError::OnWrite("sending on a disconnected channel".to_string()))
    );
    assert_eq!(sink.write(None), Ok(()));
}

#[test]
fn stopping_signals_a_flush() {
    let (mut sink, _receiver, flush_rx) = sink(4);
    assert!(sink.stop().is_ok());
    assert!(sink.stop().is_ok());
    assert!(flush_rx.try_recv().is_ok());
    assert!(flush_rx.try_recv().is_err());
    drop(flush_rx);
    assert!(sink.stop().is_ok());
}

#[test]
fn audio_passes_through_in_order() {
    let mut line = line();
    line.audio.send(vec![1, 2, 3, 4, 5]).unwrap();
    line.audio.send(vec![]).unwrap();
    line.audio.send(vec![6, 7]).unwrap();
    let mut out = [9u8; 3];
    assert_eq!(line.reader.read(&mut out), Some(3));
    assert_eq!(out, [1, 2, 3]);
    assert_eq!(line.reader.read(&mut out), Some(2));
    assert_eq!(out, [4, 5, 3]);
    assert_eq!(line.reader.read(&mut out), Some(2));
    assert_eq!(out, [6, 7, 3]);
}

#[test]
fn missing_audio_is_bridged_with_silence() {
    let mut line = line();
    let mut out = [9u8; 4];
    assert_eq!(line.reader.read(&mut out), Some(4));
    assert_eq!(out, [0; 4]);
    line.audio.send(vec![]).unwrap();
    out = [9; 4];
    assert_eq!(line.reader.read(&mut out), Some(4));
    assert_eq!(out, [0; 4]);
}

#[test]
fn a_closed_channel_ends_the_stream() {
    let mut line = line();
    line.audio.send(vec![1, 2]).unwrap();
    drop(line.audio);
    let mut out = [9u8; 4];
    assert_eq!(line.reader.read(&mut out), Some(2));
    assert_eq!(out, [1, 2, 9, 9]);
    assert_eq!(line.reader.read(&mut out), Some(0));
    assert_eq!(out, [1, 2, 9, 9]);
}

#[test]
fn a_flush_discards_stale_audio() {
    let mut line = line();
    line.audio.send(vec![1, 2, 3]).unwrap();
    line.audio.send(vec![4]).unwrap();
    line.audio.send(vec![5]).unwrap();
    let mut out = [9u8; 1];
    assert_eq!(line.reader.read(&mut out), Some(1));
    line.flush.send(()).unwrap();
    let mut out = [9u8; 4];
    assert_eq!(line.reader.read(&mut out), Some(4));
    assert_eq!(out, [0; 4]);
    line.audio.send(vec![8]).unwrap();
    assert_eq!(line.reader.read(&mut out), Some(1));
    assert_eq!(out, [8, 0, 0, 0]);
}

#[test]
fn an_empty_buffer_takes_nothing() {
    let mut line = line();
    line.audio.send(vec![1]).unwrap();
    assert_eq!(line.reader.read(&mut []), Some(0));
    let mut out = [9u8; 1];
    assert_eq!(line.reader.read(&mut out), Some(1));
    assert_eq!(out, [1]);
}

#[test]
fn replies_are_taken_up() {
    let mut line = line();
    let mut out = [9u8; 2];
    assert_eq!(line.reader.take_up(Received::Disconnected, &mut out), Some(0));
    assert_eq!(out, [9, 9]);
    assert_eq!(line.reader.take_up(Received::Empty, &mut out), Some(2));
    assert_eq!(out, [0, 0]);
    assert_eq!(line.reader.take_up(Received::Chunk(vec![1, 2, 3]), &mut out), None);
    assert_eq!(line.reader.read(&mut out), Some(2));
    assert_eq!(out, [1, 2]);
}

#[test]
fn the_stream_cannot_be_repositioned() {
    let mut line = line();
    assert!(!line.reader.is_seekable());
    assert_eq!(line.reader.byte_len(), None);
    assert_eq!(line.reader.seek(), Err("PcmReader is not seekable".to_string()));
}

#[test]
fn what_the_sink_writes_the_reader_plays() {
    let (audio, receiver) = bounded::<Vec<u8>>(8);
    let (flush, flush_rx) = bounded::<()>(1);
    let mut sink = DiscordSink::new(audio, flush);
    let mut reader = PcmReader::new(receiver, flush_rx);
    sink.write(Some(vec![0x0403_0201, 0x0807_0605])).unwrap();
    sink.write(Some(vec![0x0c0b_0a09])).unwrap();
    let mut heard = Vec::new();
    let mut out = [0u8; 5];
    while heard.len() < 12 {
        let n = reader.read(&mut out).unwrap();
        heard.extend_from_slice(&out[..n]);
    }
    assert_eq!(heard, [1, 2, 3, 4, 5, 6, 7, 8, 9, 10, 11, 12]);
    sink.write(Some(vec![1])).unwrap();
    sink.stop().unwrap();
    assert_eq!(reader.read(&mut out), Some(5));
    assert_eq!(out, [0; 5]);
}

#[test]
fn only_what_was_written_after_a_flush_is_heard() {
    let (audio, receiver) = bounded::<Vec<u8>>(8);
    let (flush, flush_rx) = bounded::<()>(1);
    let mut sink = DiscordSink::new(audio, flush);
    let mut reader = PcmReader::new(receiver, flush_rx);
    let mut out = [9u8; 3];
    sink.write(Some(vec![0x0403_0201])).unwrap();
    assert_eq!(reader.read(&mut out), Some(3));
    sink.write(Some(vec![0x0807_0605])).unwrap();
    sink.stop().unwrap();
    assert_eq!(reader.read(&mut out), Some(3));
    assert_eq!(out, [0, 0, 0]);
    sink.write(Some(vec![0x0c0b_0a09])).unwrap();
    assert_eq!(reader.read(&mut out), Some(3));
    assert_eq!(out, [9, 10, 11]);
    assert_eq!(reader.read(&mut out), Some(1));
    assert_eq!(out[0], 12);
}
