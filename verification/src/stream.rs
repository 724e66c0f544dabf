//! The decoder as a state machine over the bytes that are readable.
//!
//! Between two frames the decoder remembers one thing: the length of the
//! frame it is waiting for, once the bytes at hand have told it. Each pull
//! looks at the readable bytes and either hands out what a complete frame
//! says, or asks to be resumed when more bytes have arrived.

use crate::error::Error;
use crate::request::{decode, request_len, FrameView, RequestFrame};
use vstd::prelude::*;

verus! {

/// What a pull decides from the remembered length and the readable bytes.
#[derive(Debug, Clone, Copy, PartialEq, Eq, Structural)]
pub enum Step {
    /// No complete frame is readable. `needed` is the length to remember.
    Wait { needed: Option<usize> },
    /// The first `frame_len` readable bytes are a complete frame.
    Decode { frame_len: usize },
    /// The length of the frame that the readable bytes begin with cannot be
    /// told, and `error` says why. All the readable bytes go.
    Discard { error: Error },
}

/// The step that a pull takes.
pub open spec fn next_step(needed: Option<usize>, readable: Seq<u8>) -> Step {
    match needed {
        Some(frame_len) => if readable.len() >= frame_len {
            Step::Decode { frame_len }
        } else {
            Step::Wait { needed }
        },
        None => match request_len(readable) {
            Ok(Some(frame_len)) => if readable.len() >= frame_len {
                Step::Decode { frame_len }
            } else {
                Step::Wait { needed: Some(frame_len) }
            },
            Ok(None) => Step::Wait { needed: None },
            Err(error) => Step::Discard { error },
        },
    }
}

/// How many of `readable` readable bytes a step gives back to the ring:
/// none where it waits, the frame where it decodes one, all where it
/// discards.
pub open spec fn released_count(step: Step, readable: nat) -> nat {
    match step {
        Step::Wait { .. } => 0,
        Step::Decode { frame_len } => frame_len as nat,
        Step::Discard { .. } => readable,
    }
}

/// The outcome of a pull: `None` where the consumer has to wait.
pub type Outcome = Option<Result<FrameView, Error>>;

/// What a pull hands out, what it remembers, and how many of the readable
/// bytes it gives back to the ring.
pub struct Pull {
    pub outcome: Outcome,
    pub needed: Option<usize>,
    pub released: nat,
}

/// What a pull does on the remembered length `needed` and the readable
/// bytes `readable`.
pub open spec fn pull(needed: Option<usize>, readable: Seq<u8>) -> Pull {
    let step = next_step(needed, readable);
    let released = released_count(step, readable.len());
    match step {
        Step::Wait { needed } => Pull { outcome: None, needed, released },
        Step::Decode { frame_len } => Pull {
            outcome: Some(decode(readable, frame_len as int)),
            needed: None,
            released,
        },
        Step::Discard { error } => Pull { outcome: Some(Err(error)), needed: None, released },
    }
}

/// Whether the arrival of bytes is a reason to resume a waiting consumer:
/// always while no length is remembered, else once that many bytes are
/// readable.
pub open spec fn wake_due(needed: Option<usize>, readable: nat) -> bool {
    match needed {
        None => true,
        Some(frame_len) => readable >= frame_len,
    }
}

/// Decides the step of a pull.
pub fn plan(needed: Option<usize>, readable: &[u8]) -> (step: Step)
    ensures
        step == next_step(needed, readable@),
{
    match needed {
        Some(frame_len) => {
            if readable.len() >= frame_len {
                Step::Decode { frame_len }
            } else {
                Step::Wait { needed }
            }
        },
        None => {
            match RequestFrame::parse_request_len(readable) {
                Ok(Some(frame_len)) => {
                    if readable.len() >= frame_len {
                        Step::Decode { frame_len }
                    } else {
                        Step::Wait { needed: Some(frame_len) }
                    }
                },
                Ok(None) => Step::Wait { needed: None },
                Err(error) => Step::Discard { error },
            }
        },
    }
}

/// The number of bytes that a step gives back to the ring.
pub fn released_by(step: Step, readable: usize) -> (count: usize)
    ensures
        count == released_count(step, readable as nat),
{
    match step {
        Step::Wait { .. } => 0,
        Step::Decode { frame_len } => frame_len,
        Step::Discard { .. } => readable,
    }
}

/// Decides whether to resume a waiting consumer.
pub fn should_wake(needed: Option<usize>, readable: usize) -> (wake: bool)
    ensures
        wake == wake_due(needed, readable as nat),
{
    match needed {
        None => true,
        Some(frame_len) => readable >= frame_len,
    }
}

} // verus!
