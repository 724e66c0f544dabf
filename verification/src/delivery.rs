//! What a decoder delivers, whatever the chunks are that the bytes arrive
//! in and whenever the consumer pulls.
//!
//! The statements are about the state machine of `stream` on a ring that
//! hands out the bytes it holds in one piece.

use crate::error::Error;
use crate::general::crc_intact;
use crate::request::{decode, request_len, FrameView};
use crate::ring::RING_SIZE;
use crate::stream::{pull, wake_due, Pull};
use vstd::prelude::*;

verus! {

/// A decoder and the bytes that its ring holds.
pub struct Stream {
    /// The length of the frame that the decoder waits for, once known.
    pub needed: Option<usize>,
    /// The bytes that were stored and not yet released, oldest first.
    pub pending: Seq<u8>,
}

impl Stream {
    /// A new decoder on an empty ring.
    pub open spec fn fresh() -> Stream {
        Stream { needed: None, pending: Seq::empty() }
    }

    /// The stream of a decoder that remembers `needed`, has stored the bytes
    /// `stored` and has given back the first `released` of them.
    pub open spec fn of(needed: Option<usize>, stored: Seq<u8>, released: nat) -> Stream {
        Stream {
            needed,
            pending: if released <= stored.len() {
                stored.skip(released as int)
            } else {
                Seq::empty()
            },
        }
    }

    /// The stream after `chunk` was stored.
    pub open spec fn ingest(self, chunk: Seq<u8>) -> Stream {
        Stream { needed: self.needed, pending: self.pending + chunk }
    }

    /// What a pull does now.
    pub open spec fn pulled(self) -> Pull {
        pull(self.needed, self.pending)
    }

    /// The stream after a pull.
    pub open spec fn after_pull(self) -> Stream {
        Stream {
            needed: self.pulled().needed,
            pending: self.pending.skip(self.pulled().released as int),
        }
    }
}

/// A complete frame of a request that is known: its bytes tell its length,
/// and that is the length it has.
pub open spec fn is_frame(frame: Seq<u8>) -> bool {
    request_len(frame) matches Ok(Some(frame_len)) && frame_len == frame.len()
}

/// What a complete frame says.
pub open spec fn delivered(frame: Seq<u8>) -> Result<FrameView, Error> {
    decode(frame, frame.len() as int)
}

/// What each frame of a sequence says, in their order.
pub open spec fn all_delivered(frames: Seq<Seq<u8>>) -> Seq<Result<FrameView, Error>> {
    frames.map_values(|frame: Seq<u8>| delivered(frame))
}

/// What successive pulls hand out until one has to wait.
pub open spec fn drain(stream: Stream) -> Seq<Result<FrameView, Error>>
    decreases stream.pending.len(),
{
    match stream.pulled().outcome {
        None => Seq::empty(),
        Some(result) => if 0 < stream.pulled().released <= stream.pending.len() {
            seq![result] + drain(stream.after_pull())
        } else {
            seq![result]
        },
    }
}

/// Something that happens to a decoder.
pub enum Event {
    /// The receive interrupt stores a chunk.
    Ingest { chunk: Seq<u8> },
    /// The consumer pulls. A pull that has to wait may be given up.
    Next,
}

/// The bytes that a sequence of events stores, in their order.
pub open spec fn ingested(events: Seq<Event>) -> Seq<u8>
    decreases events.len(),
{
    if events.len() == 0 {
        Seq::empty()
    } else {
        match events.last() {
            Event::Ingest { chunk } => ingested(events.drop_last()) + chunk,
            Event::Next => ingested(events.drop_last()),
        }
    }
}

/// The stream after a sequence of events, and what the pulls among them
/// handed out.
pub open spec fn run(stream: Stream, events: Seq<Event>) -> (Stream, Seq<Result<FrameView, Error>>)
    decreases events.len(),
{
    if events.len() == 0 {
        (stream, Seq::empty())
    } else {
        let (before, handed) = run(stream, events.drop_last());
        match events.last() {
            Event::Ingest { chunk } => (before.ingest(chunk), handed),
            Event::Next => match before.pulled().outcome {
                Some(result) => (before.after_pull(), handed.push(result)),
                None => (before.after_pull(), handed),
            },
        }
    }
}

/// Once the bytes at hand tell the length of a frame, or that its function
/// code is not known, more bytes do not change that.
pub proof fn lemma_request_len_extends(head: Seq<u8>, tail: Seq<u8>)
    requires
        request_len(head) != Ok::<Option<usize>, Error>(None),
    ensures
        request_len(head + tail) == request_len(head),
{
}

/// The beginning of a frame tells the length of the frame or does not tell
/// yet.
pub proof fn lemma_request_len_of_prefix(bytes: Seq<u8>, len: int)
    requires
        0 <= len <= bytes.len(),
        request_len(bytes) is Ok,
    ensures
        request_len(bytes.take(len)) == request_len(bytes) || request_len(bytes.take(len)) == Ok::<
            Option<usize>,
            Error,
        >(None),
{
}

/// What a pull hands out for a complete frame is what the frame says by
/// itself.
pub proof fn lemma_decode_is_local(readable: Seq<u8>, frame_len: usize)
    requires
        request_len(readable) == Ok::<Option<usize>, Error>(Some(frame_len)),
        frame_len <= readable.len(),
    ensures
        is_frame(readable.take(frame_len as int)),
        decode(readable, frame_len as int) == delivered(readable.take(frame_len as int)),
{
    let frame = readable.take(frame_len as int);
    assert(frame.take(frame_len as int) =~= frame);
}

/// Pulling from a stream whose pending bytes begin with complete frames
/// hands out what each of these frames says, and goes on with what is
/// behind them.
pub proof fn lemma_drain_frames(needed: Option<usize>, frames: Seq<Seq<u8>>, tail: Seq<u8>)
    requires
        forall|i: int| 0 <= i < frames.len() ==> is_frame(#[trigger] frames[i]),
        needed matches Some(frame_len) ==> frames.len() > 0 && frame_len == frames[0].len(),
    ensures
        drain(Stream { needed, pending: frames.flatten() + tail }) == all_delivered(frames)
            + drain(Stream { needed: None, pending: tail }),
    decreases frames.len(),
{
    let stream = Stream { needed, pending: frames.flatten() + tail };
    if frames.len() > 0 {
        let first = frames.first();
        let rest = frames.drop_first();
        let behind = rest.flatten() + tail;
        lemma_request_len_extends(first, behind);
        lemma_decode_is_local(stream.pending, first.len() as usize);
        assert(stream.pending.take(first.len() as int) =~= first);
        assert(stream.pending.skip(first.len() as int) =~= behind);
        assert forall|i: int| 0 <= i < rest.len() implies is_frame(#[trigger] rest[i]) by {}
        lemma_drain_frames(None, rest, tail);
    }
}

/// The frames of a stream up to frame `count`, then the frame itself, are
/// the frames up to frame `count + 1`.
proof fn lemma_flatten_one_more(frames: Seq<Seq<u8>>, count: int)
    requires
        0 <= count < frames.len(),
    ensures
        frames.take(count + 1).flatten() == frames.take(count).flatten() + frames[count],
        frames.skip(count).flatten() == frames[count] + frames.skip(count + 1).flatten(),
        frames.flatten() == frames.take(count).flatten() + frames.skip(count).flatten(),
{
    let one = seq![frames[count]];
    assert(frames.take(count + 1) =~= frames.take(count) + one);
    vstd::seq_lib::lemma_flatten_concat(frames.take(count), one);
    one.lemma_flatten_one_element();
    assert(frames.skip(count).drop_first() =~= frames.skip(count + 1));
    assert(frames =~= frames.take(count) + frames.skip(count));
    vstd::seq_lib::lemma_flatten_concat(frames.take(count), frames.skip(count));
}

/// Where a decoder stands among the frames that are on their way: the
/// pulls have handed out what the first frames say, and the pending bytes
/// are the stored bytes behind those frames.
pub open spec fn tracks(
    frames: Seq<Seq<u8>>,
    stream: Stream,
    handed: Seq<Result<FrameView, Error>>,
    stored: Seq<u8>,
) -> bool {
    let count = handed.len() as int;
    &&& count <= frames.len()
    &&& handed == all_delivered(frames).take(count)
    &&& stored == frames.take(count).flatten() + stream.pending
    &&& stream.needed matches Some(frame_len) ==> count < frames.len() && frame_len
        == frames[count].len()
}

/// Storing a chunk keeps a decoder on track.
proof fn lemma_tracks_ingest(
    frames: Seq<Seq<u8>>,
    stream: Stream,
    handed: Seq<Result<FrameView, Error>>,
    stored: Seq<u8>,
    chunk: Seq<u8>,
)
    requires
        tracks(frames, stream, handed, stored),
    ensures
        tracks(frames, stream.ingest(chunk), handed, stored + chunk),
{
    let done = frames.take(handed.len() as int).flatten();
    assert(stored + chunk =~= done + (stream.pending + chunk));
}

/// On track, the pending bytes are the beginning of the frames that are
/// still to be handed out.
proof fn lemma_tracks_pending(
    frames: Seq<Seq<u8>>,
    stream: Stream,
    handed: Seq<Result<FrameView, Error>>,
    stored: Seq<u8>,
)
    requires
        tracks(frames, stream, handed, stored),
        stored.is_prefix_of(frames.flatten()),
    ensures
        stream.pending.is_prefix_of(frames.skip(handed.len() as int).flatten()),
{
    let count = handed.len() as int;
    let done = frames.take(count).flatten();
    let ahead = frames.skip(count).flatten();
    assert(frames =~= frames.take(count) + frames.skip(count));
    vstd::seq_lib::lemma_flatten_concat(frames.take(count), frames.skip(count));
    assert forall|i: int| 0 <= i < stream.pending.len() implies stream.pending[i] == ahead[i] by {
        assert(stored[done.len() + i] == stream.pending[i]);
    }
}

/// A pull that finds the next frame complete hands out what it says.
proof fn lemma_tracks_next_complete(
    frames: Seq<Seq<u8>>,
    stream: Stream,
    handed: Seq<Result<FrameView, Error>>,
    stored: Seq<u8>,
)
    requires
        forall|i: int| 0 <= i < frames.len() ==> is_frame(#[trigger] frames[i]),
        tracks(frames, stream, handed, stored),
        stream.pending.is_prefix_of(frames.skip(handed.len() as int).flatten()),
        handed.len() < frames.len(),
        stream.pending.len() >= frames[handed.len() as int].len(),
    ensures
        stream.pulled().outcome == Some(delivered(frames[handed.len() as int])),
        tracks(
            frames,
            stream.after_pull(),
            handed.push(delivered(frames[handed.len() as int])),
            stored,
        ),
{
    let count = handed.len() as int;
    let frame = frames[count];
    let more = stream.pending.skip(frame.len() as int);
    lemma_flatten_one_more(frames, count);
    lemma_request_len_extends(frame, more);
    lemma_decode_is_local(stream.pending, frame.len() as usize);
    assert(stream.pending.take(frame.len() as int) =~= frame);
    assert(handed.push(delivered(frame)) =~= all_delivered(frames).take(count + 1));
    assert(stored =~= frames.take(count + 1).flatten() + more);
}

/// A pull that finds the next frame incomplete waits.
proof fn lemma_tracks_next_incomplete(
    frames: Seq<Seq<u8>>,
    stream: Stream,
    handed: Seq<Result<FrameView, Error>>,
    stored: Seq<u8>,
)
    requires
        forall|i: int| 0 <= i < frames.len() ==> is_frame(#[trigger] frames[i]),
        tracks(frames, stream, handed, stored),
        stream.pending.is_prefix_of(frames.skip(handed.len() as int).flatten()),
        handed.len() == frames.len() || stream.pending.len() < frames[handed.len() as int].len(),
    ensures
        stream.pulled().outcome is None,
        tracks(frames, stream.after_pull(), handed, stored),
{
    let count = handed.len() as int;
    if count < frames.len() {
        lemma_flatten_one_more(frames, count);
        lemma_request_len_of_prefix(frames[count], stream.pending.len() as int);
    }
    assert(stream.after_pull().pending =~= stream.pending);
}

/// Every run of events that stores the beginning of a sequence of frames
/// is on track.
pub proof fn lemma_run_stays_on_track(frames: Seq<Seq<u8>>, events: Seq<Event>)
    requires
        forall|i: int| 0 <= i < frames.len() ==> is_frame(#[trigger] frames[i]),
        ingested(events).is_prefix_of(frames.flatten()),
    ensures
        tracks(
            frames,
            run(Stream::fresh(), events).0,
            run(Stream::fresh(), events).1,
            ingested(events),
        ),
    decreases events.len(),
{
    if events.len() == 0 {
        assert(all_delivered(frames).take(0) =~= Seq::empty());
    } else {
        let earlier = events.drop_last();
        lemma_run_stays_on_track(frames, earlier);
        let (before, handed) = run(Stream::fresh(), earlier);
        match events.last() {
            Event::Ingest { chunk } => {
                lemma_tracks_ingest(frames, before, handed, ingested(earlier), chunk);
            },
            Event::Next => {
                lemma_tracks_pending(frames, before, handed, ingested(earlier));
                if handed.len() < frames.len() && before.pending.len() >= frames[handed.len() as int].len()
                {
                    lemma_tracks_next_complete(frames, before, handed, ingested(earlier));
                } else {
                    lemma_tracks_next_incomplete(frames, before, handed, ingested(earlier));
                }
            },
        }
    }
}

/// Chunking invariance: however a stream of complete frames is cut into
/// chunks, and whenever the consumer pulls while the chunks arrive, the
/// pulls hand out, one after the other, what the pulls hand out on a decoder
/// that got the whole stream as a single chunk.
pub proof fn chunking_invariance(frames: Seq<Seq<u8>>, events: Seq<Event>)
    requires
        forall|i: int| 0 <= i < frames.len() ==> is_frame(#[trigger] frames[i]),
        ingested(events) == frames.flatten(),
    ensures
        run(Stream::fresh(), events).1 + drain(run(Stream::fresh(), events).0) == drain(
            Stream::fresh().ingest(frames.flatten()),
        ),
{
    let (stream, handed) = run(Stream::fresh(), events);
    let count = handed.len() as int;
    let ahead = frames.skip(count);
    lemma_run_stays_on_track(frames, events);
    lemma_tracks_pending(frames, stream, handed, ingested(events));
    assert(frames =~= frames.take(count) + ahead);
    vstd::seq_lib::lemma_flatten_concat(frames.take(count), ahead);
    assert(stream.pending =~= ahead.flatten() + Seq::<u8>::empty());
    assert forall|i: int| 0 <= i < ahead.len() implies is_frame(#[trigger] ahead[i]) by {}
    lemma_drain_frames(stream.needed, ahead, Seq::empty());
    frames_delivered_in_order(frames);
}

/// Ordering: the pulls hand out what the frames say in the order in which
/// the frames were stored, one result for each frame.
pub proof fn frames_delivered_in_order(frames: Seq<Seq<u8>>)
    requires
        forall|i: int| 0 <= i < frames.len() ==> is_frame(#[trigger] frames[i]),
    ensures
        drain(Stream::fresh().ingest(frames.flatten())) == all_delivered(frames),
        forall|i: int|
            0 <= i < frames.len() ==> #[trigger] drain(
                Stream::fresh().ingest(frames.flatten()),
            )[i] == delivered(frames[i]),
{
    lemma_drain_frames(None, frames, Seq::empty());
}

/// No loss: where the ring holds complete frames, the last of which may
/// have a function code that is not known, the pulls hand out one result
/// for each frame: a request, a checksum error, or the unknown function
/// code.
pub proof fn nothing_lost(frames: Seq<Seq<u8>>, last: Seq<u8>)
    requires
        forall|i: int| 0 <= i < frames.len() ==> is_frame(#[trigger] frames[i]),
        last.len() == 0 || request_len(last) is Err,
    ensures
        drain(Stream::fresh().ingest(frames.flatten() + last)).len() == frames.len() + (if last.len()
            == 0 {
            0nat
        } else {
            1nat
        }),
        forall|i: int|
            0 <= i < frames.len() ==> #[trigger] drain(
                Stream::fresh().ingest(frames.flatten() + last),
            )[i] == delivered(frames[i]),
        forall|i: int|
            0 <= i < frames.len() ==> delivered(#[trigger] frames[i]) is Ok || delivered(frames[i])
                == Err::<FrameView, Error>(Error::Crc),
        last.len() > 0 ==> drain(Stream::fresh().ingest(frames.flatten() + last)).last()
            == Err::<FrameView, Error>(Error::UnknownFunction(last[1])),
{
    let behind = Stream { needed: None, pending: last };
    lemma_drain_frames(None, frames, last);
    if last.len() > 0 {
        assert(drain(behind.after_pull()) =~= Seq::empty());
    }
}

/// No lost wake-up: whenever a pull would hand something out, the arrival
/// of the bytes it would hand it out on is a reason to resume the consumer.
pub proof fn no_lost_wakeup(needed: Option<usize>, readable: Seq<u8>)
    ensures
        pull(needed, readable).outcome is Some ==> wake_due(needed, readable.len()),
{
}

/// Bounded state: a pull gives back no more bytes than are readable, and
/// the length it remembers is that of a frame, which the ring has room for.
pub proof fn pull_is_bounded(needed: Option<usize>, readable: Seq<u8>)
    requires
        needed matches Some(frame_len) ==> 8 <= frame_len <= 264,
    ensures
        pull(needed, readable).released <= readable.len(),
        pull(needed, readable).needed matches Some(frame_len) ==> 8 <= frame_len <= 264
            && frame_len <= RING_SIZE,
{
}

/// Checksum soundness: a request is handed out only for a frame whose
/// checksum is intact.
pub proof fn crc_soundness(needed: Option<usize>, readable: Seq<u8>)
    ensures
        pull(needed, readable).outcome matches Some(Ok(_)) ==> crc_intact(
            readable.take(pull(needed, readable).released as int),
        ),
{
}

/// Cancellation safety: a pull that has to wait takes nothing from the
/// ring, and where it is given up, a new pull does on the bytes that have
/// arrived by then what it would do had the first pull never been made.
pub proof fn cancellation_safety(stream: Stream, arrived: Seq<u8>)
    requires
        stream.pulled().outcome is None,
    ensures
        stream.pulled().released == 0,
        stream.after_pull().pending == stream.pending,
        stream.after_pull().ingest(arrived).pulled() == stream.ingest(arrived).pulled(),
{
    assert(stream.pending.skip(0) =~= stream.pending);
    if stream.needed is None && request_len(stream.pending) != Ok::<Option<usize>, Error>(None) {
        lemma_request_len_extends(stream.pending, arrived);
    }
}

} // verus!
