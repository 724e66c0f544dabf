//! The decoder on its ring.
//!
//! The ring stores each chunk in one piece and hands out the readable bytes
//! that lie in one piece. A frame that arrives in several chunks, some of
//! them before and some behind the point where the ring wraps around, is
//! not seen as complete.

use crate::delivery::Stream;
use crate::error::Error;
use crate::general::crc_intact;
use crate::request::{decoded_view, RequestFrame};
use crate::ring::{
    commit, fill, grant_buf, grant_bytes, grant_exact, grant_room, grant_written, read, release,
    split, RING_SIZE,
};
use crate::stream::{plan, pull, released_by, should_wake, wake_due, Outcome, Step};
use crate::task::{clone_waker, wake};
use bbqueue::{BBBuffer, Consumer, GrantR, GrantW, Producer};
use core::task::Waker;
use vstd::prelude::*;

verus! {

/// A decoder of Modbus RTU requests. The receive interrupt feeds it with
/// `on_data_received`; the consumer pulls requests from it with `next`.
pub struct Modbus<'a> {
    producer: Producer<'a, RING_SIZE>,
    consumer: Consumer<'a, RING_SIZE>,
    waker: Option<Waker>,
    needed_bytes: Option<usize>,
    ledger: Ghost<Ledger>,
}

/// What a decoder has handed to its ring and to its consumer so far.
pub struct Ledger {
    /// The bytes that were committed to the ring, in their order.
    pub stored: Seq<u8>,
    /// How many bytes were given back to the ring, or are given back when
    /// the request that holds on to them is dropped.
    pub released: nat,
    /// How many times a waiting consumer was resumed.
    pub woken: nat,
}

/// What a pull handed out, as the state machine sees it.
pub open spec fn pulled_view(pulled: Option<Result<RequestFrame<'_>, Error>>) -> Outcome {
    match pulled {
        Some(decoded) => Some(decoded_view(decoded)),
        None => None,
    }
}

/// A pull that remembered `needed` and handed out `pulled` did what the
/// state machine does on the readable bytes `readable`.
pub open spec fn pull_agrees(
    needed: Option<usize>,
    readable: Seq<u8>,
    pulled: Option<Result<RequestFrame<'_>, Error>>,
    remembered: Option<usize>,
) -> bool {
    let expected = pull(needed, readable);
    &&& pulled_view(pulled) == expected.outcome
    &&& remembered == expected.needed
    &&& pulled matches Some(Ok(frame)) ==> {
        &&& crc_intact(readable.take(expected.released as int))
        &&& (frame.request is SetCoils || frame.request is SetRegisters)
            ==> frame.request.released_on_drop() == expected.released
    }
}

/// A pull from the ring did what the state machine does on the readable
/// bytes `readable`, and gave `given_back` bytes back to the ring: as many
/// as the state machine says, and where the length of a frame could not be
/// told, what else was readable.
pub open spec fn next_agrees(
    needed: Option<usize>,
    readable: Seq<u8>,
    pulled: Option<Result<RequestFrame<'_>, Error>>,
    remembered: Option<usize>,
    given_back: nat,
) -> bool {
    &&& pull_agrees(needed, readable, pulled, remembered)
    &&& given_back >= pull(needed, readable).released
    &&& given_back == pull(needed, readable).released || pulled matches Some(
        Err(Error::UnknownFunction(_)),
    )
}

impl<'a> Modbus<'a> {
    /// A remembered frame length is one that the length of a frame can be.
    #[verifier::type_invariant]
    spec fn well_formed(&self) -> bool {
        self.needed_bytes matches Some(frame_len) ==> 8 <= frame_len <= 264
    }

    /// The length of the frame that the decoder waits for, once known.
    pub closed spec fn needed(&self) -> Option<usize> {
        self.needed_bytes
    }

    /// Whether a consumer waits to be resumed.
    pub closed spec fn parked(&self) -> bool {
        self.waker is Some
    }

    /// What the decoder has handed to its ring and to its consumer so far.
    pub closed spec fn ledger(&self) -> Ledger {
        self.ledger@
    }

    /// The decoder gave no more bytes back to the ring than it stored there.
    pub open spec fn settled(&self) -> bool {
        self.ledger().released <= self.ledger().stored.len()
    }

    /// The decoder and the bytes that its ring holds: those that it stored
    /// and did not give back.
    pub open spec fn stream(&self) -> Stream {
        Stream::of(self.needed(), self.ledger().stored, self.ledger().released)
    }

    /// A decoder on the ring `bb`, or `None` where the ring is in use
    /// already.
    pub fn new(bb: &'a BBBuffer<RING_SIZE>) -> (modbus: Option<Modbus<'a>>)
        ensures
            modbus matches Some(modbus) ==> modbus.needed() is None && !modbus.parked(),
    {
        Modbus::from_split(split(bb))
    }

    /// A decoder on what the split of a ring gave: on its two halves where
    /// it gave them, and none where the ring refused to be split.
    pub fn from_split(
        halves: Option<(Producer<'a, RING_SIZE>, Consumer<'a, RING_SIZE>)>,
    ) -> (modbus: Option<Modbus<'a>>)
        ensures
            modbus is Some <==> halves is Some,
            modbus matches Some(modbus) ==> modbus.needed() is None && !modbus.parked()
                && modbus.ledger() == (Ledger { stored: Seq::empty(), released: 0, woken: 0 }),
    {
        match halves {
            Some((producer, consumer)) => Some(Modbus::from_halves(producer, consumer)),
            None => None,
        }
    }

    /// A decoder on the two halves of a ring: it waits for the first byte
    /// of a frame, no consumer waits for it, and it has handed nothing to
    /// the ring.
    pub fn from_halves(
        producer: Producer<'a, RING_SIZE>,
        consumer: Consumer<'a, RING_SIZE>,
    ) -> (modbus: Modbus<'a>)
        ensures
            modbus.needed() is None,
            !modbus.parked(),
            modbus.ledger() == (Ledger { stored: Seq::empty(), released: 0, woken: 0 }),
    {
        Modbus {
            producer,
            consumer,
            waker: None,
            needed_bytes: None,
            ledger: Ghost(Ledger { stored: Seq::empty(), released: 0, woken: 0 }),
        }
    }

    /// Call this in the data received interrupt.
    ///
    /// Stores the chunk in the ring, behind the bytes stored before, and
    /// resumes the waiting consumer where the bytes may complete a frame.
    /// Nothing is decoded and no byte is given back to the ring. A chunk
    /// that the ring has no room for is dropped, and `Error::Overflow` says
    /// so; a chunk that is longer than the ring never has room.
    pub fn on_data_received(&mut self, data: &[u8]) -> (stored: Result<(), Error>)
        ensures
            final(self).needed() == old(self).needed(),
            final(self).parked() ==> old(self).parked(),
            data@.len() > RING_SIZE ==> stored is Err,
            stored is Ok && old(self).needed() is None ==> !final(self).parked(),
            match stored {
                Ok(_) => final(self).ledger().stored == old(self).ledger().stored + data@,
                Err(error) => error == Error::Overflow && final(self).parked() == old(
                    self,
                ).parked() && final(self).ledger().stored == old(self).ledger().stored,
            },
            final(self).ledger().released == old(self).ledger().released,
            final(self).ledger().woken == old(self).ledger().woken + (if final(self).parked()
                != old(self).parked() {
                1nat
            } else {
                0nat
            }),
            old(self).settled() ==> {
                &&& final(self).settled()
                &&& stored is Ok ==> final(self).stream() == old(self).stream().ingest(data@)
                &&& stored is Err ==> final(self).stream() == old(self).stream()
            },
    {
        proof {
            use_type_invariant(&*self);
        }
        if data.len() > RING_SIZE {
            return Err(Error::Overflow);
        }
        // Get a grant that is as large as the size of the received data.
        let granted = grant_exact(&mut self.producer, data.len());
        if self.store(granted, data).is_err() {
            return Err(Error::Overflow);
        }
        let readable = match read(&mut self.consumer) {
            Some(rgr) => {
                let readable = grant_buf(&rgr).len();
                self.give_back(rgr, 0);
                readable
            },
            None => 0,
        };
        self.notify(readable);
        assert(old(self).settled() ==> self.stream().pending =~= old(self).stream().pending
            + data@);
        Ok(())
    }

    /// Stores a chunk in the write grant that the ring gave for it, and
    /// commits all of it. Without a grant the chunk is dropped, and
    /// `Error::Overflow` says so.
    pub fn store(&mut self, granted: Option<GrantW<'_, RING_SIZE>>, data: &[u8]) -> (stored:
        Result<(), Error>)
        requires
            granted matches Some(grant) ==> grant_room(&grant) == data@.len(),
        ensures
            stored == (if granted is Some {
                Ok::<(), Error>(())
            } else {
                Err::<(), Error>(Error::Overflow)
            }),
            final(self).needed() == old(self).needed(),
            final(self).parked() == old(self).parked(),
            final(self).ledger() == (if granted is Some {
                Ledger { stored: old(self).ledger().stored + data@, ..old(self).ledger() }
            } else {
                old(self).ledger()
            }),
    {
        proof {
            use_type_invariant(&*self);
        }
        match granted {
            Some(mut wgr) => {
                // Copy the data from the receive buffer into the bbqueue.
                fill(&mut wgr, data);
                let ghost written = grant_written(&wgr);
                // Make sure we commit the stored bytes.
                let committed = commit(wgr, data.len());
                self.ledger = Ghost(
                    Ledger {
                        stored: self.ledger@.stored + written.take(committed as int),
                        ..self.ledger@
                    },
                );
                assert(written.take(committed as int) =~= data@);
                Ok(())
            },
            None => Err(Error::Overflow),
        }
    }

    /// Resumes the waiting consumer, if there is one, where `readable`
    /// bytes in the ring are a reason to.
    pub fn notify(&mut self, readable: usize)
        ensures
            final(self).needed() == old(self).needed(),
            final(self).parked() == (old(self).parked() && !wake_due(
                old(self).needed(),
                readable as nat,
            )),
            final(self).ledger() == (Ledger {
                woken: old(self).ledger().woken + (if old(self).parked() && wake_due(
                    old(self).needed(),
                    readable as nat,
                ) {
                    1nat
                } else {
                    0nat
                }),
                ..old(self).ledger()
            }),
    {
        proof {
            use_type_invariant(&*self);
        }
        if should_wake(self.needed_bytes, readable) {
            let mut taken = None;
            core::mem::swap(&mut taken, &mut self.waker);
            if let Some(waker) = taken {
                let woken = wake(waker);
                self.ledger = Ghost(
                    Ledger { woken: self.ledger@.woken + woken as nat, ..self.ledger@ },
                );
            }
        }
    }

    /// Gives the first `amount` bytes of a read grant back to the ring.
    fn give_back(&mut self, rgr: GrantR<'_, RING_SIZE>, amount: usize)
        requires
            amount <= grant_bytes(&rgr).len(),
        ensures
            final(self).needed() == old(self).needed(),
            final(self).parked() == old(self).parked(),
            final(self).ledger() == (Ledger {
                released: old(self).ledger().released + amount as nat,
                ..old(self).ledger()
            }),
    {
        proof {
            use_type_invariant(&*self);
        }
        let released = release(rgr, amount);
        self.ledger = Ghost(
            Ledger { released: self.ledger@.released + released as nat, ..self.ledger@ },
        );
    }

    /// Pulls the next request.
    ///
    /// Hands out the request that the next complete frame holds, or the
    /// error that the frame gives rise to. Returns `None` where no complete
    /// frame is readable; `waker` is then kept, and is woken when bytes
    /// arrive that may complete the frame.
    ///
    /// What the ring hands out is not known here; whatever bytes they are,
    /// the pull does on them what `pull` says. A function code that is not
    /// known empties the ring.
    pub fn next(&mut self, waker: &Waker) -> (pulled: Option<Result<RequestFrame<'a>, Error>>)
        ensures
            exists|readable: Seq<u8>| #[trigger]
                next_agrees(
                    old(self).needed(),
                    readable,
                    pulled,
                    final(self).needed(),
                    (final(self).ledger().released - old(self).ledger().released) as nat,
                ),
            final(self).ledger().released >= old(self).ledger().released,
            final(self).ledger().stored == old(self).ledger().stored,
            final(self).ledger().woken == old(self).ledger().woken,
            final(self).parked() == (pulled is None || old(self).parked()),
            pulled is Some ==> final(self).needed() is None,
            pulled matches Some(Err(error)) ==> error != Error::Overflow,
    {
        proof {
            use_type_invariant(&*self);
        }
        match read(&mut self.consumer) {
            Some(rgr) => {
                let pulled = self.advance(rgr, waker);
                if let Some(Err(Error::UnknownFunction(_))) = &pulled {
                    // What follows a frame of unknown length cannot be
                    // framed either: the bytes behind a wrap of the ring go
                    // as well.
                    if let Some(rest) = read(&mut self.consumer) {
                        let rest_len = grant_buf(&rest).len();
                        self.give_back(rest, rest_len);
                    }
                }
                assert(next_agrees(
                    old(self).needed(),
                    grant_bytes(&rgr),
                    pulled,
                    self.needed(),
                    (self.ledger().released - old(self).ledger().released) as nat,
                ));
                pulled
            },
            None => {
                // Nothing is readable.
                self.waker = Some(clone_waker(waker));
                assert(next_agrees(
                    old(self).needed(),
                    Seq::<u8>::empty(),
                    None,
                    self.needed(),
                    (self.ledger().released - old(self).ledger().released) as nat,
                ));
                None
            },
        }
    }

    /// Pulls the next request from the bytes that the ring has handed out.
    ///
    /// What is handed out, what is remembered and how many bytes are given
    /// back to the ring is what `pull` says on the bytes of the grant. The
    /// bytes are given back at once or, where a write-multiple request keeps
    /// the grant, when that request is dropped.
    pub fn advance(&mut self, rgr: GrantR<'a, RING_SIZE>, waker: &Waker) -> (pulled: Option<
        Result<RequestFrame<'a>, Error>,
    >)
        ensures
            pull_agrees(old(self).needed(), grant_bytes(&rgr), pulled, final(self).needed()),
            final(self).parked() == (pulled is None || old(self).parked()),
            final(self).ledger() == (Ledger {
                released: old(self).ledger().released + pull(
                    old(self).needed(),
                    grant_bytes(&rgr),
                ).released,
                ..old(self).ledger()
            }),
            old(self).settled() && grant_bytes(&rgr) == old(self).stream().pending ==> {
                &&& final(self).settled()
                &&& final(self).stream() == old(self).stream().after_pull()
            },
    {
        proof {
            use_type_invariant(&*self);
        }
        let readable = grant_buf(&rgr);
        let step = plan(self.needed_bytes, readable);
        let amount = released_by(step, readable.len());
        let pulled = match step {
            Step::Wait { needed } => {
                // Wait on for more bytes.
                self.needed_bytes = needed;
                self.waker = Some(clone_waker(waker));
                self.give_back(rgr, amount);
                None
            },
            Step::Decode { frame_len } => {
                // We don't require anymore bytes to parse the next frame.
                // So we reset everything and parse the frame.
                self.needed_bytes = None;
                let (decoded, released) = RequestFrame::parse_frame(rgr, amount);
                self.ledger = Ghost(
                    Ledger { released: self.ledger@.released + released as nat, ..self.ledger@ },
                );
                Some(decoded)
            },
            Step::Discard { error } => {
                self.needed_bytes = None;
                self.give_back(rgr, amount);
                Some(Err(error))
            },
        };
        proof {
            let before = old(self).stream();
            if old(self).settled() && grant_bytes(&rgr) == before.pending {
                assert(self.stream().pending =~= before.after_pull().pending);
            }
        }
        pulled
    }
}

} // verus!
