//! What holds of every packet that is written and of every read.

use crate::spotify::channel::{Received, ReceivedView};
use crate::spotify::sink;
use crate::spotify::sink::{DiscordSink, PcmReader, Phase, SinkError};
use crossbeam_channel::{Receiver, Sender};
use vstd::prelude::*;

verus! {

/// Samples go over the channel as four bytes each, the least significant first, in
/// their order.
pub proof fn samples_become_bytes(samples: Vec<u32>, bytes: Vec<u8>)
    requires
        call_ensures(sink::encode_samples, (&samples,), bytes),
    ensures
        bytes@.len() == 4 * samples@.len(),
        forall|i: int|
            0 <= i < samples@.len() ==> #[trigger] samples@[i] == bytes@[4 * i] + 0x100 * bytes@[4
                * i + 1] + 0x1_0000 * bytes@[4 * i + 2] + 0x100_0000 * bytes@[4 * i + 3],
{
    lemma_bytes(samples@, bytes@);
}

proof fn lemma_bytes(samples: Seq<u32>, bytes: Seq<u8>)
    requires
        bytes == sink::pcm_bytes(samples),
    ensures
        bytes.len() == 4 * samples.len(),
        forall|i: int|
            0 <= i < samples.len() ==> #[trigger] samples[i] == bytes[4 * i] + 0x100 * bytes[4 * i
                + 1] + 0x1_0000 * bytes[4 * i + 2] + 0x100_0000 * bytes[4 * i + 3],
{
    sink::samples_survive(samples);
    assert forall|i: int| 0 <= i < samples.len() implies #[trigger] samples[i] == bytes[4 * i]
        + 0x100 * bytes[4 * i + 1] + 0x1_0000 * bytes[4 * i + 2] + 0x100_0000 * bytes[4 * i
        + 3] by {
        let piece = bytes.subrange(4 * i, 4 * i + 4);
        assert(piece[0] == bytes[4 * i]);
        assert(piece[1] == bytes[4 * i + 1]);
        assert(piece[2] == bytes[4 * i + 2]);
        assert(piece[3] == bytes[4 * i + 3]);
    }
}

/// Every packet with decoded samples is sent once, as one chunk that holds all its
/// samples, and the write succeeds exactly if the channel took it. A packet without
/// any is skipped. No write sends a flush signal.
pub proof fn writes_send_their_samples(
    to: &mut DiscordSink,
    samples: Option<Vec<u32>>,
    r: Result<(), SinkError>,
)
    requires
        call_ensures(DiscordSink::write, (to, samples), r),
    ensures
        final(to)@.flushes == old(to)@.flushes,
        samples is None ==> r is Ok && final(to)@.sends == old(to)@.sends,
        samples matches Some(bits) ==> {
            let chunk = final(to)@.sends.last().0;
            &&& final(to)@.sends == old(to)@.sends.push((chunk, r is Ok))
            &&& chunk.len() == 4 * bits@.len()
            &&& forall|i: int|
                0 <= i < bits@.len() ==> #[trigger] bits@[i] == chunk[4 * i] + 0x100 * chunk[4 * i
                    + 1] + 0x1_0000 * chunk[4 * i + 2] + 0x100_0000 * chunk[4 * i + 3]
        },
        r is Err ==> r == Err::<(), SinkError>(r->Err_0) && (r->Err_0 matches SinkError::OnWrite(
            message,
        ) && message@ == "sending on a disconnected channel"@),
{
    if samples is Some {
        let bits = samples->0;
        let chunk = final(to)@.sends.last().0;
        assert(chunk == sink::pcm_bytes(bits@));
        lemma_bytes(bits@, chunk);
    }
}

/// When a track stops, one flush signal is sent and no audio, and that never fails.
pub proof fn stopping_sends_a_flush(to: &mut DiscordSink, r: Result<(), SinkError>)
    requires
        call_ensures(DiscordSink::stop, (to,), r),
    ensures
        r is Ok,
        final(to)@.sends == old(to)@.sends,
        exists|taken: bool| final(to)@.flushes == #[trigger] old(to)@.flushes.push(taken),
{
    let taken = final(to)@.flushes.last();
    assert(final(to)@.flushes =~= old(to)@.flushes.push(taken));
}

/// When a track starts, nothing is sent.
pub proof fn starting_sends_nothing(to: &mut DiscordSink, r: Result<(), SinkError>)
    requires
        call_ensures(DiscordSink::start, (to,), r),
    ensures
        r is Ok,
        final(to)@.sends == old(to)@.sends,
        final(to)@.flushes == old(to)@.flushes,
{
}

/// A sink sends through the ends that it was made with.
pub proof fn sinks_use_their_channels(
    sender: Sender<Vec<u8>>,
    flush_tx: Sender<()>,
    to: DiscordSink,
)
    requires
        call_ensures(DiscordSink::new, (sender, flush_tx), to),
    ensures
        to@.sends == crate::spotify::channel::sends(sender),
        to@.flushes == crate::spotify::channel::flush_sends(flush_tx),
{
}

/// A new reader has no audio at hand, and takes it from the ends that it was made
/// with.
pub proof fn readers_begin_empty(
    receiver: Receiver<Vec<u8>>,
    flush_rx: Receiver<()>,
    from: PcmReader,
)
    requires
        call_ensures(PcmReader::new, (receiver, flush_rx), from),
    ensures
        from.wf(),
        from@.rest.len() == 0,
        from@.phase == Phase::Ready,
        from@.polls == crate::spotify::channel::polls(receiver),
        from@.flush_polls == crate::spotify::channel::flush_polls(flush_rx),
{
}

/// A read looks for a flush signal once, when it begins, and forgets nothing of what
/// the channels replied.
pub proof fn reads_look_for_a_flush(from: &mut PcmReader, out: &mut [u8], count: Option<usize>)
    requires
        old(from).wf(),
        call_ensures(PcmReader::read, (from, out), count),
    ensures
        final(from).wf(),
        old(from)@.polls.is_prefix_of(final(from)@.polls),
        old(from)@.phase == Phase::Ready ==> exists|found: bool|
            final(from)@.flush_polls == #[trigger] old(from)@.flush_polls.push(found),
        old(from)@.phase != Phase::Ready ==> final(from)@.flush_polls == old(from)@.flush_polls,
        final(out)@.len() == old(out)@.len(),
        count is Some <==> final(from)@.phase == Phase::Ready,
        count matches Some(n) ==> n <= old(out)@.len(),
{
    if old(from)@.phase == Phase::Ready {
        let found = final(from)@.flush_polls.last();
        assert(final(from)@.flush_polls =~= old(from)@.flush_polls.push(found));
    }
}

/// A read that found a flush signal takes out and drops every chunk that is waiting,
/// whatever its size: it ends only with a reply that is no chunk. It drops what was
/// left over too, and plays silence. So nothing that was sent before the flush is
/// handed out later.
pub proof fn a_flush_takes_out_every_chunk(
    from: &mut PcmReader,
    out: &mut [u8],
    count: Option<usize>,
)
    requires
        old(from).wf(),
        call_ensures(PcmReader::read, (from, out), count),
        old(from)@.phase == Phase::Draining || (old(from)@.phase == Phase::Ready && final(from)@.flush_polls.last()),
    ensures
        ({
            let replies = final(from)@.polls.skip(old(from)@.polls.len() as int);
            &&& final(from)@.rest.len() == 0
            &&& replies.len() > 0
            &&& forall|i: int| 0 <= i < replies.len() - 1 ==> #[trigger] replies[i] is Chunk
            &&& count is Some <==> !(replies.last() is Chunk)
            &&& count matches Some(n) ==> {
                &&& replies.last() is Empty || replies.last() is Disconnected
                &&& n == old(out)@.len()
                &&& forall|i: int| 0 <= i < final(out)@.len() ==> final(out)@[i] == 0
            }
            &&& count is None ==> {
                &&& final(from)@.phase == Phase::Draining
                &&& replies.len() == 0xffff_ffff_ffff_ffff
                &&& final(out)@ == old(out)@
            }
        }),
{
    let replies = final(from)@.polls.skip(old(from)@.polls.len() as int);
    if count is Some {
        assert forall|i: int| 0 <= i < replies.len() - 1 implies #[trigger] replies[i] is Chunk by {
            assert(replies.drop_last()[i] == replies[i]);
        }
        if replies.last() is Chunk {
            assert forall|i: int| 0 <= i < replies.len() implies #[trigger] replies[i] is Chunk by {
                if i == replies.len() - 1 {
                    assert(replies[i] == replies.last());
                }
            }
        }
    } else {
        assert(replies[replies.len() - 1] is Chunk);
    }
}

/// A read without a flush that finds audio left over plays that and asks for no more:
/// as much of it as fits, from its front, and the rest stays.
pub proof fn audio_at_hand_is_played_first(
    from: &mut PcmReader,
    out: &mut [u8],
    count: Option<usize>,
)
    requires
        old(from).wf(),
        call_ensures(PcmReader::read, (from, out), count),
        old(from)@.phase == Phase::Ready,
        !final(from)@.flush_polls.last(),
        old(from)@.rest.len() > 0,
    ensures
        final(from)@.polls == old(from)@.polls,
        count is Some,
        count->0 == if old(from)@.rest.len() < old(out)@.len() {
            old(from)@.rest.len()
        } else {
            old(out)@.len()
        },
        forall|i: int| 0 <= i < count->0 ==> final(out)@[i] == old(from)@.rest[i],
        forall|i: int| count->0 <= i < old(out)@.len() ==> final(out)@[i] == old(out)@[i],
        final(from)@.rest == old(from)@.rest.skip(count->0 as int),
{
    let replies = final(from)@.polls.skip(old(from)@.polls.len() as int);
    assert(replies.len() == 0);
    assert(final(from)@.polls =~= old(from)@.polls);
    let rest = old(from)@.rest;
    assert(rest + sink::audio_in(replies) =~= rest);
}

/// A read without a flush and without audio at hand asks for chunks until one holds
/// audio or none is waiting. That chunk is played, as much of it as fits, and the rest
/// of it stays. An empty channel is bridged with silence, and a closed one ends the
/// stream.
pub proof fn the_next_chunk_is_played(
    from: &mut PcmReader,
    out: &mut [u8],
    count: Option<usize>,
)
    requires
        old(from).wf(),
        call_ensures(PcmReader::read, (from, out), count),
        old(from)@.phase == Phase::Waiting || (old(from)@.phase == Phase::Ready && !final(from)@.flush_polls.last()),
        old(from)@.rest.len() == 0,
    ensures
        ({
            let replies = final(from)@.polls.skip(old(from)@.polls.len() as int);
            let len = old(out)@.len();
            &&& replies.len() > 0
            &&& forall|i: int|
                0 <= i < replies.len() - 1 ==> (#[trigger] replies[i] is Chunk
                    && replies[i]->Chunk_0.len() == 0)
            &&& count is None ==> {
                &&& replies.len() == 0xffff_ffff_ffff_ffff
                &&& replies.last() is Chunk
                &&& replies.last()->Chunk_0.len() == 0
                &&& final(from)@.phase == Phase::Waiting
                &&& final(from)@.rest.len() == 0
                &&& final(out)@ == old(out)@
            }
            &&& count matches Some(n) ==> match replies.last() {
                ReceivedView::Chunk(bytes) => {
                    &&& bytes.len() > 0
                    &&& n == if bytes.len() < len {
                        bytes.len()
                    } else {
                        len
                    }
                    &&& forall|i: int| 0 <= i < n ==> final(out)@[i] == bytes[i]
                    &&& forall|i: int| n <= i < len ==> final(out)@[i] == old(out)@[i]
                    &&& final(from)@.rest == bytes.skip(n as int)
                },
                ReceivedView::Empty => {
                    &&& n == len
                    &&& forall|i: int| 0 <= i < len ==> final(out)@[i] == 0
                    &&& final(from)@.rest.len() == 0
                },
                ReceivedView::Disconnected => {
                    &&& n == 0
                    &&& final(out)@ == old(out)@
                    &&& final(from)@.rest.len() == 0
                },
            }
        }),
{
    let replies = final(from)@.polls.skip(old(from)@.polls.len() as int);
    let rest = old(from)@.rest;
    assert(rest =~= Seq::<u8>::empty());
    if count is Some {
        let front = replies.drop_last();
        assert(replies.len() > 0);
        assert forall|i: int| 0 <= i < replies.len() - 1 implies (#[trigger] replies[i] is Chunk
            && replies[i]->Chunk_0.len() == 0) by {
            assert(front[i] == replies[i]);
        }
        lemma_empty_chunks(front);
        let audio = rest + sink::audio_in(replies);
        match replies.last() {
            ReceivedView::Chunk(bytes) => {
                assert(audio =~= bytes);
                if bytes.len() == 0 {
                    assert forall|i: int| 0 <= i < replies.len() implies #[trigger] replies[i]
                        == ReceivedView::Chunk(Seq::empty()) by {
                        if i < replies.len() - 1 {
                            assert(front[i] == replies[i]);
                        } else {
                            assert(bytes =~= Seq::<u8>::empty());
                        }
                    }
                }
            },
            _ => {
                assert(audio =~= Seq::<u8>::empty());
            },
        }
    } else {
        assert(replies[replies.len() - 1] == replies.last());
    }
}

proof fn lemma_empty_chunks(replies: Seq<ReceivedView>)
    requires
        forall|i: int|
            0 <= i < replies.len() ==> (#[trigger] replies[i] is Chunk
                && replies[i]->Chunk_0.len() == 0),
    ensures
        sink::audio_in(replies) == Seq::<u8>::empty(),
    decreases replies.len(),
{
    if replies.len() > 0 {
        let front = replies.drop_last();
        assert forall|i: int| 0 <= i < front.len() implies (#[trigger] front[i] is Chunk
            && front[i]->Chunk_0.len() == 0) by {
            assert(front[i] == replies[i]);
        }
        lemma_empty_chunks(front);
        assert(replies[replies.len() - 1] == replies.last());
        assert(sink::audio_in(replies) =~= Seq::<u8>::empty());
    }
}

/// The audio in replies is that of their chunks, one after the other.
pub proof fn audio_is_what_the_chunks_hold(replies: Seq<ReceivedView>, reply: ReceivedView)
    ensures
        sink::audio_in(Seq::<ReceivedView>::empty()).len() == 0,
        match reply {
            ReceivedView::Chunk(bytes) => sink::audio_in(replies.push(reply)) == sink::audio_in(
                replies,
            ) + bytes,
            _ => sink::audio_in(replies.push(reply)) == sink::audio_in(replies),
        },
{
    assert(replies.push(reply).drop_last() =~= replies);
    assert(sink::audio_in(replies) + Seq::<u8>::empty() =~= sink::audio_in(replies));
}

/// A reply is taken up as it is: a chunk becomes the audio at hand, an empty channel
/// is bridged with silence, and a closed one ends the stream.
pub proof fn replies_are_taken_up(
    from: &mut PcmReader,
    reply: Received,
    out: &mut [u8],
    answer: Option<usize>,
)
    requires
        old(from).wf(),
        old(from)@.phase == Phase::Ready,
        old(from)@.rest.len() == 0,
        call_ensures(PcmReader::take_up, (from, reply, out), answer),
    ensures
        final(from)@.polls == old(from)@.polls,
        final(from)@.flush_polls == old(from)@.flush_polls,
        final(from)@.phase == Phase::Ready,
        match reply {
            Received::Chunk(bytes) => answer is None && final(from)@.rest == bytes@ && final(out)@
                == old(out)@,
            Received::Empty => answer == Some(answer->0) && answer->0 == old(out)@.len() && final(from)@.rest.len() == 0 && final(out)@.len() == old(out)@.len() && forall|i: int|
                0 <= i < final(out)@.len() ==> final(out)@[i] == 0,
            Received::Disconnected => answer == Some(0usize) && final(from)@.rest.len() == 0
                && final(out)@ == old(out)@,
        },
{
}

/// The stream has no length and cannot be repositioned.
pub proof fn streams_only_go_forward(
    from: &mut PcmReader,
    moved: Result<u64, String>,
    seekable: bool,
    len: Option<u64>,
)
    requires
        call_ensures(PcmReader::seek, (from,), moved),
        call_ensures(PcmReader::is_seekable, (&*from,), seekable),
        call_ensures(PcmReader::byte_len, (&*from,), len),
    ensures
        moved matches Err(message) && message@ == "PcmReader is not seekable"@,
        *final(from) == *old(from),
        !seekable,
        len is None,
{
}

} // verus!
