//! The two channels between the decoder and the voice connection: one carries
//! audio, the other the signal to drop stale audio.
//!
//! What a call on a channel returns depends on the threads at the other end. So
//! the contracts speak of the calls that were made through an end: with what, and
//! what came of it.

use crossbeam_channel::{Receiver, Sender, TryRecvError};
use vstd::prelude::*;

verus! {

/// The sending end of a channel of the `crossbeam-channel` crate.
#[verifier::external_type_specification]
#[verifier::external_body]
#[verifier::reject_recursive_types(T)]
pub struct ExSender<T>(crossbeam_channel::Sender<T>);

/// The receiving end of a channel of the `crossbeam-channel` crate.
#[verifier::external_type_specification]
#[verifier::external_body]
#[verifier::reject_recursive_types(T)]
pub struct ExReceiver<T>(crossbeam_channel::Receiver<T>);

/// The reply to a poll of the audio channel.
#[derive(Debug, PartialEq, Eq)]
pub enum Received {
    /// A chunk of audio.
    Chunk(Vec<u8>),
    /// Nothing is waiting.
    Empty,
    /// Nothing is waiting, and nothing will come any more.
    Disconnected,
}

/// What a reply says.
#[verifier::ext_equal]
pub enum ReceivedView {
    Chunk(Seq<u8>),
    Empty,
    Disconnected,
}

impl View for Received {
    type V = ReceivedView;

    open spec fn view(&self) -> ReceivedView {
        match self {
            Received::Chunk(bytes) => ReceivedView::Chunk(bytes@),
            Received::Empty => ReceivedView::Empty,
            Received::Disconnected => ReceivedView::Disconnected,
        }
    }
}

/// The replies that polls of the audio channel had through `r`, in order.
pub uninterp spec fn polls(r: Receiver<Vec<u8>>) -> Seq<ReceivedView>;

/// For each poll of the flush channel through `r`, whether it found a signal.
pub uninterp spec fn flush_polls(r: Receiver<()>) -> Seq<bool>;

/// The chunks that were sent through `s`, each with whether the channel took it.
pub uninterp spec fn sends(s: Sender<Vec<u8>>) -> Seq<(Seq<u8>, bool)>;

/// For each flush signal sent through `s`, whether the channel took it.
pub uninterp spec fn flush_sends(s: Sender<()>) -> Seq<bool>;

/// `Receiver::try_recv` takes the next chunk out of the channel, or says that it
/// is empty, or empty and disconnected. It never waits.
#[verifier::external_body]
pub(crate) fn poll_audio(r: &mut Receiver<Vec<u8>>) -> (reply: Received)
    ensures
        polls(*final(r)) == polls(*old(r)).push(reply@),
{
    match r.try_recv() {
        Ok(bytes) => Received::Chunk(bytes),
        Err(TryRecvError::Empty) => Received::Empty,
        Err(TryRecvError::Disconnected) => Received::Disconnected,
    }
}

/// `Receiver::try_recv` takes a flush signal out of the channel if there is one.
/// It never waits.
#[verifier::external_body]
pub(crate) fn poll_flush(r: &mut Receiver<()>) -> (found: bool)
    ensures
        flush_polls(*final(r)) == flush_polls(*old(r)).push(found),
{
    r.try_recv().is_ok()
}

/// `Sender::send` puts a chunk into the channel, and waits while it is full. It
/// fails, with this message, where the channel is disconnected.
#[verifier::external_body]
pub(crate) fn send_audio(s: &mut Sender<Vec<u8>>, chunk: Vec<u8>) -> (sent: Result<(), String>)
    ensures
        sends(*final(s)) == sends(*old(s)).push((chunk@, sent is Ok)),
        sent matches Err(message) ==> message@ == "sending on a disconnected channel"@,
{
    s.send(chunk).map_err(|e| e.to_string())
}

/// `Sender::try_send` puts a signal into the channel, unless it is full or
/// disconnected. It never waits.
#[verifier::external_body]
pub(crate) fn send_flush(s: &mut Sender<()>) -> (sent: bool)
    ensures
        flush_sends(*final(s)) == flush_sends(*old(s)).push(sent),
{
    s.try_send(()).is_ok()
}

} // verus!
