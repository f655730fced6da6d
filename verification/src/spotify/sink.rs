//! `DiscordSink` takes decoded audio, `PcmReader` hands it to the voice
//! connection.

use crate::spotify::channel::{
    poll_audio, poll_flush, send_audio, send_flush, Received, ReceivedView,
};
use crossbeam_channel::{Receiver, Sender};
use vstd::prelude::*;

verus! {

/// The four bytes of a 32-bit sample, the least significant first.
pub open spec fn sample_bytes(bits: u32) -> Seq<u8> {
    seq![
        (bits % 256) as u8,
        (bits / 0x100 % 256) as u8,
        (bits / 0x1_0000 % 256) as u8,
        (bits / 0x100_0000) as u8,
    ]
}

/// The bytes of `samples` in order.
pub open spec fn pcm_bytes(samples: Seq<u32>) -> Seq<u8>
    decreases samples.len(),
{
    if samples.len() == 0 {
        Seq::empty()
    } else {
        pcm_bytes(samples.drop_last()) + sample_bytes(samples.last())
    }
}

/// The sample that four bytes stand for.
pub open spec fn sample_value(bytes: Seq<u8>) -> int {
    bytes[0] + bytes[1] * 0x100 + bytes[2] * 0x1_0000 + bytes[3] * 0x100_0000
}

/// Four bytes per sample, from which every sample can be read back.
pub proof fn samples_survive(samples: Seq<u32>)
    ensures
        pcm_bytes(samples).len() == 4 * samples.len(),
        forall|i: int|
            0 <= i < samples.len() ==> sample_value(
                #[trigger] pcm_bytes(samples).subrange(4 * i, 4 * i + 4),
            ) == samples[i],
    decreases samples.len(),
{
    if samples.len() > 0 {
        let front = samples.drop_last();
        samples_survive(front);
        assert forall|i: int| 0 <= i < samples.len() implies sample_value(
            #[trigger] pcm_bytes(samples).subrange(4 * i, 4 * i + 4),
        ) == samples[i] by {
            let piece = pcm_bytes(samples).subrange(4 * i, 4 * i + 4);
            if i < front.len() {
                assert(piece =~= pcm_bytes(front).subrange(4 * i, 4 * i + 4));
            } else {
                assert(piece =~= sample_bytes(samples[i]));
            }
        }
    }
}

/// The bytes of `samples`, each given by its 32 bits, as they go over the channel.
pub fn encode_samples(samples: &Vec<u32>) -> (bytes: Vec<u8>)
    ensures
        bytes@ == pcm_bytes(samples@),
{
    let mut bytes: Vec<u8> = Vec::new();
    let mut i: usize = 0;
    while i < samples.len()
        invariant
            i <= samples@.len(),
            bytes@ == pcm_bytes(samples@.take(i as int)),
        decreases samples@.len() - i,
    {
        let bits: u32 = samples[i];
        let ghost before = bytes@;
        bytes.push((bits % 256) as u8);
        bytes.push((bits / 0x100 % 256) as u8);
        bytes.push((bits / 0x1_0000 % 256) as u8);
        bytes.push((bits / 0x100_0000) as u8);
        assert(bytes@ =~= before + sample_bytes(bits));
        assert(samples@.take(i + 1).drop_last() =~= samples@.take(i as int));
        i += 1;
    }
    assert(samples@.take(i as int) =~= samples@);
    bytes
}

/// Why a packet was not played.
#[derive(Debug, PartialEq, Eq)]
pub enum SinkError {
    /// The audio channel did not take it.
    OnWrite(String),
}

/// `DiscordSink` is handed to the player as the audio output.
///
/// It turns every packet of samples into bytes and puts them into a bounded
/// channel, whose capacity holds the decoder back to real time. When a track is
/// stopped, it sends a flush signal, so that the reader discards stale audio.
pub struct DiscordSink {
    sender: Sender<Vec<u8>>,
    flush_tx: Sender<()>,
}

/// What was sent through a sink.
#[verifier::ext_equal]
pub struct SinkView {
    /// The chunks, each with whether the channel took it.
    pub sends: Seq<(Seq<u8>, bool)>,
    /// The flush signals: whether the channel took each.
    pub flushes: Seq<bool>,
}

impl View for DiscordSink {
    type V = SinkView;

    closed spec fn view(&self) -> SinkView {
        SinkView {
            sends: crate::spotify::channel::sends(self.sender),
            flushes: crate::spotify::channel::flush_sends(self.flush_tx),
        }
    }
}

impl DiscordSink {
    /// A sink that sends through the given ends of the two channels.
    pub fn new(sender: Sender<Vec<u8>>, flush_tx: Sender<()>) -> (sink: Self)
        ensures
            sink@.sends == crate::spotify::channel::sends(sender),
            sink@.flushes == crate::spotify::channel::flush_sends(flush_tx),
    {
        DiscordSink { sender, flush_tx }
    }

    /// A track starts: nothing to do.
    pub fn start(&mut self) -> (r: Result<(), SinkError>)
        ensures
            r is Ok,
            final(self)@ == old(self)@,
    {
        Ok(())
    }

    /// A track stops: tell the reader to discard buffered audio, so that the next
    /// track starts cleanly. It does not matter whether the signal was taken.
    pub fn stop(&mut self) -> (r: Result<(), SinkError>)
        ensures
            r is Ok,
            final(self)@.sends == old(self)@.sends,
            final(self)@.flushes.len() == old(self)@.flushes.len() + 1,
            final(self)@.flushes.drop_last() == old(self)@.flushes,
    {
        let _sent = send_flush(&mut self.flush_tx);
        assert(self@.flushes.drop_last() =~= old(self)@.flushes);
        Ok(())
    }

    /// Sends the samples of a packet, each given by its 32 bits. A packet without
    /// decoded samples is skipped.
    pub fn write(&mut self, samples: Option<Vec<u32>>) -> (r: Result<(), SinkError>)
        ensures
            final(self)@.flushes == old(self)@.flushes,
            match samples {
                Some(bits) => final(self)@.sends == old(self)@.sends.push(
                    (pcm_bytes(bits@), r is Ok),
                ),
                None => r is Ok && final(self)@.sends == old(self)@.sends,
            },
            r matches Err(SinkError::OnWrite(message)) ==> message@
                == "sending on a disconnected channel"@,
    {
        match samples {
            Some(bits) => {
                match send_audio(&mut self.sender, encode_samples(&bits)) {
                    Ok(()) => Ok(()),
                    Err(message) => Err(SinkError::OnWrite(message)),
                }
            },
            // Passthrough packets hold no decoded samples.
            None => Ok(()),
        }
    }
}

/// The most polls of the audio channel that one call of `PcmReader::read` makes.
pub const MAX_POLLS: u64 = 0xffff_ffff_ffff_ffff;

/// The audio in `replies`, in order.
pub open spec fn audio_in(replies: Seq<ReceivedView>) -> Seq<u8>
    decreases replies.len(),
{
    if replies.len() == 0 {
        Seq::empty()
    } else {
        audio_in(replies.drop_last()) + match replies.last() {
            ReceivedView::Chunk(bytes) => bytes,
            _ => Seq::empty(),
        }
    }
}

/// `len` bytes of silence.
pub open spec fn silence(len: nat) -> Seq<u8> {
    Seq::new(len, |i: int| 0u8)
}

/// What a read does, given what was left over from earlier reads, whether a flush
/// signal was found, and the replies of the audio channel.
pub struct Played {
    /// What is left over for later reads.
    pub rest: Seq<u8>,
    /// What the caller's buffer holds.
    pub out: Seq<u8>,
    /// How many bytes of it count.
    pub count: nat,
}

/// The outcome of a read into `out`.
///
/// A flush drops all audio and plays silence. Otherwise the audio at hand is
/// played, as much of it as fits. Where there is none, a closed channel ends the
/// stream, and an open one is bridged with silence.
pub open spec fn played(
    rest: Seq<u8>,
    flushed: bool,
    replies: Seq<ReceivedView>,
    out: Seq<u8>,
) -> Played {
    let audio = rest + audio_in(replies);
    let count = if audio.len() < out.len() {
        audio.len()
    } else {
        out.len()
    };
    if flushed {
        Played { rest: Seq::empty(), out: silence(out.len()), count: out.len() }
    } else if audio.len() > 0 {
        Played {
            rest: audio.skip(count as int),
            out: audio.take(count as int) + out.skip(count as int),
            count,
        }
    } else if replies.len() > 0 && replies.last() is Disconnected {
        Played { rest: Seq::empty(), out, count: 0 }
    } else {
        Played { rest: Seq::empty(), out: silence(out.len()), count: out.len() }
    }
}

/// Whether a read goes on after `replies`.
///
/// A flush takes chunks until none is waiting. Otherwise nothing is taken while
/// audio is left over, and else chunks until one holds audio or none is waiting.
pub open spec fn undecided(rest: Seq<u8>, flushed: bool, replies: Seq<ReceivedView>) -> bool {
    if flushed {
        forall|i: int| 0 <= i < replies.len() ==> #[trigger] replies[i] is Chunk
    } else {
        &&& rest.len() == 0
        &&& forall|i: int|
            0 <= i < replies.len() ==> #[trigger] replies[i] == ReceivedView::Chunk(Seq::empty())
    }
}

/// Whether `replies` are those for which a read asks: it goes on after all but the
/// last, and not after that.
pub open spec fn asked(rest: Seq<u8>, flushed: bool, replies: Seq<ReceivedView>) -> bool {
    &&& !undecided(rest, flushed, replies)
    &&& replies.len() > 0 ==> undecided(rest, flushed, replies.drop_last())
}

/// A read that was broken off and taken up again is one read: it asks for the same
/// replies in all, and does the same.
pub proof fn a_read_in_parts_is_one_read(
    rest: Seq<u8>,
    flushed: bool,
    first: Seq<ReceivedView>,
    then: Seq<ReceivedView>,
    out: Seq<u8>,
)
    requires
        undecided(rest, flushed, first),
        asked(Seq::empty(), flushed, then),
    ensures
        asked(rest, flushed, first + then),
        played(rest, flushed, first + then, out) == played(Seq::empty(), flushed, then, out),
{
    let all = first + then;
    assert(then.len() > 0);
    assert(all.drop_last() =~= first + then.drop_last());
    assert forall|i: int| 0 <= i < first.len() implies #[trigger] all[i] == first[i] by {}
    assert forall|i: int| 0 <= i < then.len() implies #[trigger] then[i] == all[first.len() + i] by {}
    assert(!undecided(rest, flushed, all)) by {
        if undecided(rest, flushed, all) {
            assert(undecided(Seq::empty(), flushed, then));
        }
    }
    assert(all.last() == then.last());
    if !flushed {
        lemma_audio_sum(first, then);
        lemma_no_audio(first);
        assert(rest + audio_in(all) =~= Seq::<u8>::empty() + audio_in(then));
    }
}

proof fn lemma_audio_sum(a: Seq<ReceivedView>, b: Seq<ReceivedView>)
    ensures
        audio_in(a + b) == audio_in(a) + audio_in(b),
    decreases b.len(),
{
    if b.len() == 0 {
        assert(a + b =~= a);
        assert(audio_in(a) + audio_in(b) =~= audio_in(a));
    } else {
        lemma_audio_sum(a, b.drop_last());
        assert((a + b).drop_last() =~= a + b.drop_last());
        assert(audio_in(a + b) =~= audio_in(a) + audio_in(b));
    }
}

proof fn lemma_no_audio(replies: Seq<ReceivedView>)
    requires
        undecided(Seq::empty(), false, replies),
    ensures
        audio_in(replies) == Seq::<u8>::empty(),
    decreases replies.len(),
{
    if replies.len() > 0 {
        assert(replies[replies.len() - 1] == replies.last());
        assert forall|i: int| 0 <= i < replies.len() - 1 implies #[trigger] replies.drop_last()[i]
            == ReceivedView::Chunk(Seq::empty()) by {
            assert(replies.drop_last()[i] == replies[i]);
        }
        lemma_no_audio(replies.drop_last());
        assert(audio_in(replies) =~= Seq::<u8>::empty());
    }
}

/// A read: whether it found a flush signal, the replies of the audio channel and the
/// caller's buffer.
pub struct ReadCall {
    pub flushed: bool,
    pub replies: Seq<ReceivedView>,
    pub out: Seq<u8>,
}

/// What is left over after a read.
pub open spec fn rest_of(rest: Seq<u8>, call: ReadCall) -> Seq<u8> {
    played(rest, call.flushed, call.replies, call.out).rest
}

/// The audio that a read hands out. Silence is none.
pub open spec fn heard(rest: Seq<u8>, call: ReadCall) -> Seq<u8> {
    if !call.flushed && (rest + audio_in(call.replies)).len() > 0 {
        let outcome = played(rest, call.flushed, call.replies, call.out);
        outcome.out.take(outcome.count as int)
    } else {
        Seq::empty()
    }
}

/// What is left over after `calls`.
pub open spec fn rest_after(rest: Seq<u8>, calls: Seq<ReadCall>) -> Seq<u8>
    decreases calls.len(),
{
    if calls.len() == 0 {
        rest
    } else {
        rest_of(rest_after(rest, calls.drop_last()), calls.last())
    }
}

/// What of `rest` may still be heard since the last flush in `calls`: all of it, or
/// nothing after a flush.
pub open spec fn rest_since(rest: Seq<u8>, calls: Seq<ReadCall>) -> Seq<u8>
    decreases calls.len(),
{
    if calls.len() == 0 {
        rest
    } else if calls.last().flushed {
        Seq::empty()
    } else {
        rest_since(rest, calls.drop_last())
    }
}

/// All audio that `calls` hand out since the last flush.
pub open spec fn heard_since(rest: Seq<u8>, calls: Seq<ReadCall>) -> Seq<u8>
    decreases calls.len(),
{
    if calls.len() == 0 || calls.last().flushed {
        Seq::empty()
    } else {
        heard_since(rest, calls.drop_last()) + heard(
            rest_after(rest, calls.drop_last()),
            calls.last(),
        )
    }
}

/// All audio that `calls` take out of the channel since the last flush. What the flush
/// itself takes out is dropped.
pub open spec fn taken_since(calls: Seq<ReadCall>) -> Seq<u8>
    decreases calls.len(),
{
    if calls.len() == 0 || calls.last().flushed {
        Seq::empty()
    } else {
        taken_since(calls.drop_last()) + audio_in(calls.last().replies)
    }
}

/// Audio passes through unchanged: what one read without a flush hands out, followed
/// by what it leaves over, is what was left over before, followed by what it took out
/// of the channel.
pub proof fn a_read_keeps_the_stream(rest: Seq<u8>, call: ReadCall)
    requires
        !call.flushed,
    ensures
        heard(rest, call) + rest_of(rest, call) == rest + audio_in(call.replies),
{
    let audio = rest + audio_in(call.replies);
    let outcome = played(rest, false, call.replies, call.out);
    if audio.len() > 0 {
        assert(outcome.out.take(outcome.count as int) =~= audio.take(outcome.count as int));
        assert(audio.take(outcome.count as int) + audio.skip(outcome.count as int) =~= audio);
    } else {
        assert(heard(rest, call) + outcome.rest =~= audio);
    }
}

/// Over any number of reads, no byte is lost, repeated, changed or moved but by a
/// flush: what they hand out since the last one is what they took out of the channel
/// since then, up to what is left over.
pub proof fn reads_keep_the_stream(rest: Seq<u8>, calls: Seq<ReadCall>)
    ensures
        heard_since(rest, calls) + rest_after(rest, calls) == rest_since(rest, calls) + taken_since(
            calls,
        ),
    decreases calls.len(),
{
    if calls.len() == 0 {
        assert(heard_since(rest, calls) + rest_after(rest, calls) =~= rest_since(rest, calls)
            + taken_since(calls));
    } else if calls.last().flushed {
        assert(rest_after(rest, calls) =~= Seq::<u8>::empty());
    } else {
        let front = calls.drop_last();
        let before = rest_after(rest, front);
        let call = calls.last();
        let start = rest_since(rest, front);
        reads_keep_the_stream(rest, front);
        a_read_keeps_the_stream(before, call);
        assert(heard_since(rest, calls) + rest_after(rest, calls) =~= heard_since(rest, front) + (
        heard(before, call) + rest_after(rest, calls)));
        assert(heard_since(rest, front) + (before + audio_in(call.replies)) =~= (heard_since(
            rest,
            front,
        ) + before) + audio_in(call.replies));
        assert(start + taken_since(calls) =~= (start + taken_since(front)) + audio_in(
            call.replies,
        ));
    }
}

/// A write: the samples of the packet, if it held any, and whether the audio channel
/// took them.
pub struct WriteCall {
    pub samples: Option<Seq<u32>>,
    pub taken: bool,
}

/// What `writes` send, each chunk with whether the channel took it.
pub open spec fn sends_of(writes: Seq<WriteCall>) -> Seq<(Seq<u8>, bool)>
    decreases writes.len(),
{
    if writes.len() == 0 {
        Seq::empty()
    } else {
        match writes.last().samples {
            Some(samples) => sends_of(writes.drop_last()).push(
                (pcm_bytes(samples), writes.last().taken),
            ),
            None => sends_of(writes.drop_last()),
        }
    }
}

/// One more write sends what `DiscordSink::write` does.
pub proof fn a_write_is_one_more_send(writes: Seq<WriteCall>, write: WriteCall)
    ensures
        sends_of(writes.push(write)) == match write.samples {
            Some(samples) => sends_of(writes).push((pcm_bytes(samples), write.taken)),
            None => sends_of(writes),
        },
{
    assert(writes.push(write).drop_last() =~= writes);
}

/// The samples of each packet in `writes` that the channel took.
pub open spec fn packets_of(writes: Seq<WriteCall>) -> Seq<Seq<u32>>
    decreases writes.len(),
{
    if writes.len() == 0 {
        Seq::empty()
    } else {
        match writes.last().samples {
            Some(samples) if writes.last().taken => packets_of(writes.drop_last()).push(samples),
            _ => packets_of(writes.drop_last()),
        }
    }
}

/// The samples of `packets`, one packet after the other.
pub open spec fn samples_in(packets: Seq<Seq<u32>>) -> Seq<u32>
    decreases packets.len(),
{
    if packets.len() == 0 {
        Seq::empty()
    } else {
        samples_in(packets.drop_last()) + packets.last()
    }
}

/// The chunks among `sends` that the channel took.
pub open spec fn chunks_sent(sends: Seq<(Seq<u8>, bool)>) -> Seq<Seq<u8>>
    decreases sends.len(),
{
    if sends.len() == 0 {
        Seq::empty()
    } else if sends.last().1 {
        chunks_sent(sends.drop_last()).push(sends.last().0)
    } else {
        chunks_sent(sends.drop_last())
    }
}

/// The chunks in `replies`.
pub open spec fn chunks_in(replies: Seq<ReceivedView>) -> Seq<Seq<u8>>
    decreases replies.len(),
{
    if replies.len() == 0 {
        Seq::empty()
    } else {
        match replies.last() {
            ReceivedView::Chunk(bytes) => chunks_in(replies.drop_last()).push(bytes),
            _ => chunks_in(replies.drop_last()),
        }
    }
}

/// The chunks that `calls` take out of the channel.
pub open spec fn chunks_received(calls: Seq<ReadCall>) -> Seq<Seq<u8>>
    decreases calls.len(),
{
    if calls.len() == 0 {
        Seq::empty()
    } else {
        chunks_received(calls.drop_last()) + chunks_in(calls.last().replies)
    }
}

/// How many of the chunks that `calls` take out of the channel came no later than with
/// the last flush.
pub open spec fn chunks_flushed(calls: Seq<ReadCall>) -> nat
    decreases calls.len(),
{
    if calls.len() == 0 {
        0
    } else if calls.last().flushed {
        chunks_received(calls).len()
    } else {
        chunks_flushed(calls.drop_last())
    }
}

/// The bytes of `chunks`, one chunk after the other.
pub open spec fn joined(chunks: Seq<Seq<u8>>) -> Seq<u8>
    decreases chunks.len(),
{
    if chunks.len() == 0 {
        Seq::empty()
    } else {
        joined(chunks.drop_last()) + chunks.last()
    }
}

proof fn lemma_joined_sum(a: Seq<Seq<u8>>, b: Seq<Seq<u8>>)
    ensures
        joined(a + b) == joined(a) + joined(b),
    decreases b.len(),
{
    if b.len() == 0 {
        assert(a + b =~= a);
        assert(joined(a) + joined(b) =~= joined(a));
    } else {
        lemma_joined_sum(a, b.drop_last());
        assert((a + b).drop_last() =~= a + b.drop_last());
        assert(joined(a + b) =~= joined(a) + joined(b));
    }
}

proof fn lemma_pcm_sum(a: Seq<u32>, b: Seq<u32>)
    ensures
        pcm_bytes(a + b) == pcm_bytes(a) + pcm_bytes(b),
    decreases b.len(),
{
    if b.len() == 0 {
        assert(a + b =~= a);
        assert(pcm_bytes(a) + pcm_bytes(b) =~= pcm_bytes(a));
    } else {
        lemma_pcm_sum(a, b.drop_last());
        assert((a + b).drop_last() =~= a + b.drop_last());
        assert(pcm_bytes(a + b) =~= pcm_bytes(a) + pcm_bytes(b));
    }
}

proof fn lemma_chunks_in(replies: Seq<ReceivedView>)
    ensures
        joined(chunks_in(replies)) == audio_in(replies),
    decreases replies.len(),
{
    if replies.len() > 0 {
        let front = replies.drop_last();
        lemma_chunks_in(front);
        if replies.last() is Chunk {
            assert(chunks_in(replies).drop_last() =~= chunks_in(front));
        } else {
            assert(audio_in(replies) =~= audio_in(front));
        }
    }
}

proof fn lemma_chunks_received(calls: Seq<ReadCall>)
    ensures
        chunks_flushed(calls) <= chunks_received(calls).len(),
        joined(chunks_received(calls).skip(chunks_flushed(calls) as int)) == taken_since(calls),
    decreases calls.len(),
{
    let received = chunks_received(calls);
    let n = chunks_flushed(calls) as int;
    if calls.len() == 0 || calls.last().flushed {
        assert(received.skip(n) =~= Seq::<Seq<u8>>::empty());
    } else {
        let front = calls.drop_last();
        lemma_chunks_received(front);
        lemma_chunks_in(calls.last().replies);
        lemma_joined_sum(chunks_received(front).skip(n), chunks_in(calls.last().replies));
        assert(received.skip(n) =~= chunks_received(front).skip(n) + chunks_in(
            calls.last().replies,
        ));
    }
}

proof fn lemma_chunks_sent(writes: Seq<WriteCall>)
    ensures
        chunks_sent(sends_of(writes)).len() == packets_of(writes).len(),
        forall|i: int|
            0 <= i < packets_of(writes).len() ==> #[trigger] chunks_sent(sends_of(writes))[i]
                == pcm_bytes(packets_of(writes)[i]),
    decreases writes.len(),
{
    if writes.len() > 0 {
        let front = writes.drop_last();
        lemma_chunks_sent(front);
        if writes.last().samples is Some {
            assert(sends_of(writes).drop_last() =~= sends_of(front));
        }
    }
}

proof fn lemma_packets(packets: Seq<Seq<u32>>, chunks: Seq<Seq<u8>>)
    requires
        chunks.len() == packets.len(),
        forall|i: int| 0 <= i < packets.len() ==> #[trigger] chunks[i] == pcm_bytes(packets[i]),
    ensures
        joined(chunks) == pcm_bytes(samples_in(packets)),
    decreases packets.len(),
{
    if packets.len() > 0 {
        lemma_packets(packets.drop_last(), chunks.drop_last());
        lemma_pcm_sum(samples_in(packets.drop_last()), packets.last());
        assert(chunks[chunks.len() - 1] == chunks.last());
    }
}

/// What is written is what is heard: where the channel hands out the chunks that it
/// took, in their order and each once, all audio that reads hand out since the last
/// flush is a beginning of the samples that were written after those that the flush
/// dropped. Together with what the reader still holds it is all of them once every
/// chunk was received.
pub proof fn what_is_written_is_heard(writes: Seq<WriteCall>, calls: Seq<ReadCall>)
    requires
        chunks_received(calls).is_prefix_of(chunks_sent(sends_of(writes))),
    ensures
        ({
            let heard = heard_since(Seq::empty(), calls);
            let written = samples_in(packets_of(writes).skip(chunks_flushed(calls) as int));
            &&& heard.is_prefix_of(pcm_bytes(written))
            &&& chunks_received(calls) == chunks_sent(sends_of(writes)) ==> heard + rest_after(
                Seq::empty(),
                calls,
            ) == pcm_bytes(written)
        }),
{
    let none = Seq::<u8>::empty();
    let n = chunks_flushed(calls) as int;
    let received = chunks_received(calls);
    let sent = chunks_sent(sends_of(writes));
    let waiting = sent.skip(received.len() as int);
    let packets = packets_of(writes).skip(n);
    let written = pcm_bytes(samples_in(packets));
    let heard = heard_since(none, calls);
    reads_keep_the_stream(none, calls);
    lemma_chunks_received(calls);
    lemma_chunks_sent(writes);
    lemma_packets(packets, sent.skip(n));
    assert(sent.skip(n) =~= received.skip(n) + waiting);
    lemma_joined_sum(received.skip(n), waiting);
    lemma_nothing_before(calls);
    assert(none + taken_since(calls) =~= taken_since(calls));
    assert(written == (heard + rest_after(none, calls)) + joined(waiting));
    assert(heard =~= written.take(heard.len() as int));
    if received == sent {
        assert(waiting =~= Seq::<Seq<u8>>::empty());
        assert(written =~= heard + rest_after(none, calls));
    }
}

proof fn lemma_nothing_before(calls: Seq<ReadCall>)
    ensures
        rest_since(Seq::empty(), calls) == Seq::<u8>::empty(),
    decreases calls.len(),
{
    if calls.len() > 0 {
        lemma_nothing_before(calls.drop_last());
    }
}

/// After a flush nothing of the old track is heard: the read plays silence, and
/// nothing is left over.
pub proof fn a_flush_drops_stale_audio(rest: Seq<u8>, replies: Seq<ReceivedView>, out: Seq<u8>)
    ensures
        played(rest, true, replies, out).rest == Seq::<u8>::empty(),
        played(rest, true, replies, out).count == out.len(),
        forall|i: int| 0 <= i < out.len() ==> played(rest, true, replies, out).out[i] == 0,
{
}

/// The stream ends only when the channel is closed and all audio was played: a
/// read into a buffer that is not empty otherwise hands out at least one byte.
pub proof fn only_a_closed_channel_ends_the_stream(
    rest: Seq<u8>,
    flushed: bool,
    replies: Seq<ReceivedView>,
    out: Seq<u8>,
)
    requires
        out.len() > 0,
        played(rest, flushed, replies, out).count == 0,
    ensures
        !flushed,
        rest.len() == 0,
        audio_in(replies).len() == 0,
        replies.len() > 0,
        replies.last() is Disconnected,
{
}

/// Where a reader is with its current read.
#[derive(Debug, Clone, Copy, PartialEq, Eq, Structural)]
pub enum Phase {
    /// The next call begins a read.
    Ready,
    /// A read that found a flush signal was broken off; the next call takes it up.
    Draining,
    /// A read that found no flush signal was broken off; the next call takes it up.
    Waiting,
}

/// Hands the audio of the channel to the voice connection, unchanged.
pub struct PcmReader {
    receiver: Receiver<Vec<u8>>,
    flush_rx: Receiver<()>,
    buf: Vec<u8>,
    pos: usize,
    phase: Phase,
}

/// The state of a reader.
#[verifier::ext_equal]
pub struct ReaderView {
    /// Where it is with its current read.
    pub phase: Phase,
    /// Audio that was taken out of the channel and not played yet.
    pub rest: Seq<u8>,
    /// The replies of the audio channel so far.
    pub polls: Seq<ReceivedView>,
    /// For each poll of the flush channel, whether it found a signal.
    pub flush_polls: Seq<bool>,
}

impl View for PcmReader {
    type V = ReaderView;

    closed spec fn view(&self) -> ReaderView {
        ReaderView {
            phase: self.phase,
            rest: self.buf@.skip(self.pos as int),
            polls: crate::spotify::channel::polls(self.receiver),
            flush_polls: crate::spotify::channel::flush_polls(self.flush_rx),
        }
    }
}

/// Fills `out` with silence.
fn fill_silence(out: &mut [u8])
    ensures
        final(out)@ == silence(old(out)@.len()),
{
    let n: usize = out.len();
    let mut i: usize = 0;
    while i < n
        invariant
            i <= n,
            n == out@.len(),
            n == old(out)@.len(),
            forall|j: int| 0 <= j < i ==> out@[j] == 0,
        decreases n - i,
    {
        out[i] = 0;
        i += 1;
    }
    assert(out@ =~= silence(old(out)@.len()));
}

impl PcmReader {
    /// The position is within the buffer, and a read that was broken off has no audio
    /// at hand.
    pub closed spec fn wf(self) -> bool {
        &&& self.pos <= self.buf@.len()
        &&& self.phase != Phase::Ready ==> self.pos == self.buf@.len()
    }

    /// A reader that takes audio and flush signals from the given ends of the two
    /// channels.
    pub fn new(receiver: Receiver<Vec<u8>>, flush_rx: Receiver<()>) -> (reader: Self)
        ensures
            reader.wf(),
            reader@.phase == Phase::Ready,
            reader@.rest == Seq::<u8>::empty(),
            reader@.polls == crate::spotify::channel::polls(receiver),
            reader@.flush_polls == crate::spotify::channel::flush_polls(flush_rx),
    {
        let reader = PcmReader {
            receiver,
            flush_rx,
            buf: Vec::new(),
            pos: 0,
            phase: Phase::Ready,
        };
        assert(reader@.rest =~= Seq::<u8>::empty());
        reader
    }

    /// Moves as much of the audio at hand as fits to the front of `out`.
    fn play(&mut self, out: &mut [u8]) -> (count: usize)
        requires
            old(self).wf(),
        ensures
            final(self).wf(),
            count == if old(self)@.rest.len() < old(out)@.len() {
                old(self)@.rest.len()
            } else {
                old(out)@.len()
            },
            final(self)@ == (ReaderView {
                rest: old(self)@.rest.skip(count as int),
                ..old(self)@
            }),
            final(out)@ == old(self)@.rest.take(count as int) + old(out)@.skip(count as int),
    {
        let available: usize = self.buf.len() - self.pos;
        let count: usize = if available < out.len() {
            available
        } else {
            out.len()
        };
        let mut i: usize = 0;
        while i < count
            invariant
                i <= count,
                *self == *old(self),
                self.pos + count <= self.buf.len(),
                count <= out@.len(),
                out@.len() == old(out)@.len(),
                forall|j: int| 0 <= j < i ==> out@[j] == self.buf@[self.pos + j],
                forall|j: int| i <= j < out@.len() ==> out@[j] == old(out)@[j],
            decreases count - i,
        {
            out[i] = self.buf[self.pos + i];
            i += 1;
        }
        self.pos = self.pos + count;
        assert(self@.rest =~= old(self)@.rest.skip(count as int));
        assert(out@ =~= old(self)@.rest.take(count as int) + old(out)@.skip(count as int));
        count
    }

    /// Takes up a reply of the audio channel when no audio is at hand. A chunk
    /// becomes the audio at hand; any other reply answers the read, and how many
    /// bytes of `out` count is returned.
    pub fn take_up(&mut self, reply: Received, out: &mut [u8]) -> (answer: Option<usize>)
        requires
            old(self).wf(),
            old(self)@.phase == Phase::Ready,
            old(self)@.rest.len() == 0,
        ensures
            final(self).wf(),
            match reply {
                Received::Chunk(bytes) => answer is None && final(out)@ == old(out)@
                    && final(self)@ == (ReaderView { rest: bytes@, ..old(self)@ }),
                Received::Empty => (answer matches Some(n) && n == old(out)@.len())
                    && final(out)@ == silence(old(out)@.len()) && final(self)@ == old(self)@,
                Received::Disconnected => answer == Some(0usize) && final(out)@ == old(out)@
                    && final(self)@ == old(self)@,
            },
    {
        match reply {
            Received::Chunk(bytes) => {
                self.buf = bytes;
                self.pos = 0;
                assert(self@.rest =~= bytes@);
                None
            },
            // No audio yet: play silence, so that the track stays alive while the
            // next audio loads.
            Received::Empty => {
                fill_silence(out);
                Some(out.len())
            },
            // The player was shut down: end the stream.
            Received::Disconnected => Some(0),
        }
    }

    /// Takes chunks out of the audio channel until none is waiting. Returns whether it
    /// came to that.
    fn drain(&mut self) -> (drained: bool)
        requires
            old(self).wf(),
        ensures
            final(self).wf(),
            final(self)@ == (ReaderView { polls: final(self)@.polls, ..old(self)@ }),
            old(self)@.polls.is_prefix_of(final(self)@.polls),
            ({
                let replies = final(self)@.polls.skip(old(self)@.polls.len() as int);
                if drained {
                    asked(Seq::empty(), true, replies)
                } else {
                    undecided(Seq::empty(), true, replies) && replies.len() == MAX_POLLS
                }
            }),
    {
        let mut budget: u64 = MAX_POLLS;
        let ghost mut replies: Seq<ReceivedView> = Seq::empty();
        while budget > 0
            invariant
                self.wf(),
                self@ == (ReaderView { polls: old(self)@.polls + replies, ..old(self)@ }),
                replies.len() == MAX_POLLS - budget,
                undecided(Seq::empty(), true, replies),
            decreases budget,
        {
            budget -= 1;
            let reply = poll_audio(&mut self.receiver);
            let ghost seen = replies.push(reply@);
            proof {
                assert(self@.polls =~= old(self)@.polls + seen);
                assert(seen =~= self@.polls.skip(old(self)@.polls.len() as int));
                assert(old(self)@.polls =~= self@.polls.take(old(self)@.polls.len() as int));
                assert(seen.drop_last() =~= replies);
            }
            match reply {
                Received::Chunk(_) => {},
                _ => {
                    assert(!(seen[seen.len() - 1] is Chunk));
                    return true;
                },
            }
            proof {
                replies = seen;
            }
        }
        proof {
            assert(replies =~= self@.polls.skip(old(self)@.polls.len() as int));
            assert(old(self)@.polls =~= self@.polls.take(old(self)@.polls.len() as int));
        }
        false
    }

    /// Fills `out` with the next audio, and returns how many bytes of it count.
    ///
    /// A call that has polled the audio channel for the most times and could still go
    /// on breaks the read off: it returns nothing, and the next call takes the read up
    /// where it stopped.
    pub fn read(&mut self, out: &mut [u8]) -> (count: Option<usize>)
        requires
            old(self).wf(),
        ensures
            final(self).wf(),
            old(self)@.phase == Phase::Ready ==> final(self)@.flush_polls.len() == old(
                self,
            )@.flush_polls.len() + 1,
            old(self)@.phase != Phase::Ready ==> final(self)@.flush_polls == old(
                self,
            )@.flush_polls,
            old(self)@.flush_polls.is_prefix_of(final(self)@.flush_polls),
            old(self)@.polls.is_prefix_of(final(self)@.polls),
            ({
                let flushed = match old(self)@.phase {
                    Phase::Ready => final(self)@.flush_polls.last(),
                    Phase::Draining => true,
                    Phase::Waiting => false,
                };
                let replies = final(self)@.polls.skip(old(self)@.polls.len() as int);
                let outcome = played(old(self)@.rest, flushed, replies, old(out)@);
                match count {
                    Some(n) => {
                        &&& asked(old(self)@.rest, flushed, replies)
                        &&& final(self)@.phase == Phase::Ready
                        &&& final(self)@.rest == outcome.rest
                        &&& final(out)@ == outcome.out
                        &&& n == outcome.count
                    },
                    None => {
                        &&& undecided(old(self)@.rest, flushed, replies)
                        &&& replies.len() == MAX_POLLS
                        &&& final(self)@.phase == if flushed {
                            Phase::Draining
                        } else {
                            Phase::Waiting
                        }
                        &&& final(self)@.rest == Seq::<u8>::empty()
                        &&& final(out)@ == old(out)@
                    },
                }
            }),
    {
        let flushed = match self.phase {
            Phase::Ready => poll_flush(&mut self.flush_rx),
            Phase::Draining => true,
            Phase::Waiting => false,
        };
        self.phase = Phase::Ready;
        assert(old(self)@.flush_polls =~= self@.flush_polls.take(
            old(self)@.flush_polls.len() as int,
        ));
        // Track transition: discard stale audio so the new track starts
        // immediately without replaying the tail of the previous one.
        if flushed {
            self.buf.clear();
            self.pos = 0;
            assert(self@.rest =~= Seq::<u8>::empty());
            if !self.drain() {
                self.phase = Phase::Draining;
                return None;
            }
            fill_silence(out);
            return Some(out.len());
        }
        let ghost polls0 = self@.polls;
        let ghost flush_polls = self@.flush_polls;
        let ghost rest0 = self@.rest;
        let ghost out0 = out@;
        assert(polls0.take(polls0.len() as int) =~= polls0);
        if self.pos < self.buf.len() {
            let count = self.play(out);
            assert(self@.polls.skip(polls0.len() as int) =~= Seq::<ReceivedView>::empty());
            assert(rest0 + audio_in(Seq::<ReceivedView>::empty()) =~= rest0);
            return Some(count);
        }
        assert(rest0 =~= Seq::<u8>::empty());
        let mut budget: u64 = MAX_POLLS;
        let ghost mut replies: Seq<ReceivedView> = Seq::empty();
        while budget > 0
            invariant
                self.wf(),
                old(self)@.rest == Seq::<u8>::empty(),
                old(self)@.polls == polls0,
                old(out)@ == out0,
                self@ == (ReaderView {
                    phase: Phase::Ready,
                    rest: Seq::empty(),
                    polls: polls0 + replies,
                    flush_polls,
                }),
                old(self)@.flush_polls.is_prefix_of(flush_polls),
                old(self)@.phase != Phase::Draining,
                old(self)@.phase == Phase::Ready ==> flush_polls.len() == old(
                    self,
                )@.flush_polls.len() + 1 && !flush_polls.last(),
                old(self)@.phase != Phase::Ready ==> flush_polls == old(self)@.flush_polls,
                out@ == out0,
                replies.len() == MAX_POLLS - budget,
                audio_in(replies) == Seq::<u8>::empty(),
                undecided(Seq::empty(), false, replies),
            decreases budget,
        {
            budget -= 1;
            let reply = poll_audio(&mut self.receiver);
            let ghost seen = replies.push(reply@);
            proof {
                assert(seen.drop_last() =~= replies);
                assert(self@.polls =~= polls0 + seen);
                assert(seen =~= self@.polls.skip(polls0.len() as int));
                assert(polls0 =~= self@.polls.take(polls0.len() as int));
                assert(seen[seen.len() - 1] == reply@);
            }
            match self.take_up(reply, out) {
                Some(count) => {
                    assert(Seq::<u8>::empty() + audio_in(seen) =~= Seq::<u8>::empty());
                    return Some(count);
                },
                None => {},
            }
            assert(Seq::<u8>::empty() + audio_in(seen) =~= self@.rest);
            if self.pos < self.buf.len() {
                assert(self@.rest.len() > 0);
                return Some(self.play(out));
            }
            assert(self@.rest =~= Seq::<u8>::empty());
            assert(reply@ == ReceivedView::Chunk(Seq::empty()));
            proof {
                replies = seen;
            }
        }
        proof {
            assert(replies =~= self@.polls.skip(polls0.len() as int));
            assert(polls0 =~= self@.polls.take(polls0.len() as int));
        }
        self.phase = Phase::Waiting;
        None
    }

    /// Refuses to reposition the stream.
    pub fn seek(&mut self) -> (r: Result<u64, String>)
        ensures
            r matches Err(message) && message@ == "PcmReader is not seekable"@,
            *final(self) == *old(self),
    {
        Err("PcmReader is not seekable".to_owned())
    }

    /// The stream cannot be repositioned.
    pub fn is_seekable(&self) -> (seekable: bool)
        ensures
            !seekable,
    {
        false
    }

    /// The length of the stream is not known.
    pub fn byte_len(&self) -> (len: Option<u64>)
        ensures
            len is None,
    {
        None
    }
}

} // verus!
