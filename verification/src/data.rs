//! Coils and registers, and the views of them that a write-multiple
//! request carries.
//!
//! A view keeps the read grant that the request was decoded from and reads
//! the data bytes in place. The ring gets the bytes of the frame back when
//! the view is dropped.

use crate::ring::{grant_buf, grant_bytes, grant_marked, RING_SIZE};
use crate::wire::{
    field_at, frame_of, payload, read_field, read_frame, read_payload, VALUE_AT,
};
use bbqueue::GrantR;
use vstd::prelude::*;

verus! {

/// State of a single coil. On the wire `On` is 0xFF00 and `Off` is 0x0000.
#[derive(Debug, Clone, Copy, PartialEq, Eq, Structural)]
pub enum CoilState {
    On,
    Off,
}

impl CoilState {
    /// The state that a status field stands for: `On` for 0xFF00, `Off` for
    /// every other value.
    pub open spec fn of_status(status: u16) -> CoilState {
        if status == 0xFF00 {
            CoilState::On
        } else {
            CoilState::Off
        }
    }

    /// The value that stands for the state on the wire.
    pub open spec fn spec_status(self) -> u16 {
        match self {
            CoilState::On => 0xFF00,
            CoilState::Off => 0x0000,
        }
    }

    /// The state that the status field of a write-single-coil request
    /// stands for.
    pub fn from_status(status: u16) -> (state: CoilState)
        ensures
            state == CoilState::of_status(status),
    {
        if status == 0xFF00 {
            CoilState::On
        } else {
            CoilState::Off
        }
    }

    /// The value that stands for the state on the wire.
    #[verifier::when_used_as_spec(spec_status)]
    pub fn status(self) -> (status: u16)
        ensures
            status == self.spec_status(),
            CoilState::of_status(status) == self,
    {
        match self {
            CoilState::On => 0xFF00,
            CoilState::Off => 0x0000,
        }
    }
}

/// Coil `index` of the data bytes `data`: bit `index mod 8` of byte
/// `index / 8`, the lowest bit first. Beyond the data every coil is off.
pub open spec fn coil_at(data: Seq<u8>, index: int) -> CoilState {
    if 0 <= index && index / 8 < data.len() && (data[index / 8] >> ((index % 8) as u8)) & 1 == 1 {
        CoilState::On
    } else {
        CoilState::Off
    }
}

/// The first `count` coils of the data bytes `data`.
pub open spec fn coils(data: Seq<u8>, count: nat) -> Seq<CoilState> {
    Seq::new(count, |index: int| coil_at(data, index))
}

/// Register `index` of the data bytes `data`: bytes `2 * index` and
/// `2 * index + 1`, the high byte first.
pub open spec fn register_at(data: Seq<u8>, index: int) -> u16 {
    field_at(data, 2 * index)
}

/// The first `count` registers of the data bytes `data`.
pub open spec fn registers(data: Seq<u8>, count: nat) -> Seq<u16> {
    Seq::new(count, |index: int| register_at(data, index))
}

/// The coils of a write-multiple-coils request, read in place from the ring.
#[derive(Debug, PartialEq)]
pub struct CoilStore<'a> {
    data: GrantR<'a, RING_SIZE>,
    count: usize,
    frame_len: usize,
}

impl<'a> View for CoilStore<'a> {
    type V = Seq<CoilState>;

    closed spec fn view(&self) -> Seq<CoilState> {
        coils(payload(frame_of(grant_bytes(&self.data), self.frame_len as int)), self.count as nat)
    }
}

impl<'a> CoilStore<'a> {
    /// How many bytes go back to the ring when the view is dropped.
    pub closed spec fn released_on_drop(&self) -> nat {
        grant_marked(&self.data)
    }

    /// A view of the first `count` coils of the write-multiple request that
    /// the bytes of `data` are.
    pub fn new(data: GrantR<'a, RING_SIZE>, count: usize) -> (store: CoilStore<'a>)
        ensures
            store@ == coils(payload(grant_bytes(&data)), count as nat),
            store.released_on_drop() == grant_marked(&data),
    {
        let frame_len = grant_buf(&data).len();
        assert(frame_of(grant_bytes(&data), frame_len as int) =~= grant_bytes(&data));
        CoilStore::framed(data, count, frame_len)
    }

    /// A view of the first `count` coils of the write-multiple request that
    /// the first `frame_len` bytes of `data` are.
    pub fn framed(data: GrantR<'a, RING_SIZE>, count: usize, frame_len: usize) -> (store:
        CoilStore<'a>)
        ensures
            store@ == coils(
                payload(frame_of(grant_bytes(&data), frame_len as int)),
                count as nat,
            ),
            store.released_on_drop() == grant_marked(&data),
    {
        CoilStore { data, count, frame_len }
    }

    /// An iterator over the coils, the first one first.
    pub fn iter(&self) -> (iter: CoilIterator<'_>)
        ensures
            iter@ == self@,
    {
        let frame = read_frame(grant_buf(&self.data), self.frame_len);
        let iter = CoilIterator { current: 0, data: read_payload(frame), count: self.count };
        assert(iter@ =~= self@);
        iter
    }

    /// The number of coils.
    pub fn len(&self) -> (count: usize)
        ensures
            count == self@.len(),
    {
        self.count
    }
}

/// Walks over coils that are packed eight to a byte.
pub struct CoilIterator<'a> {
    current: usize,
    data: &'a [u8],
    count: usize,
}

impl<'a> View for CoilIterator<'a> {
    type V = Seq<CoilState>;

    /// The coils that are still to come.
    closed spec fn view(&self) -> Seq<CoilState> {
        if self.current <= self.count {
            coils(self.data@, self.count as nat).skip(self.current as int)
        } else {
            Seq::empty()
        }
    }
}

impl<'a> CoilIterator<'a> {
    /// An iterator over the first `count` coils of the data bytes `data`.
    pub fn new(data: &'a [u8], count: usize) -> (iter: CoilIterator<'a>)
        ensures
            iter@ == coils(data@, count as nat),
    {
        let iter = CoilIterator { current: 0, data, count };
        assert(iter@ =~= coils(data@, count as nat));
        iter
    }

    /// Hands out the next coil, or `None` when all have been handed out.
    pub fn next(&mut self) -> (item: Option<CoilState>)
        ensures
            match item {
                Some(state) => old(self)@.len() > 0 && state == old(self)@[0] && final(self)@
                    == old(self)@.skip(1),
                None => old(self)@.len() == 0 && final(self)@ == old(self)@,
            },
    {
        if self.current < self.count {
            let byte = self.current / 8;
            let bit = (self.current % 8) as u8;
            let on = byte < self.data.len() && (self.data[byte] >> bit) & 1 == 1;
            self.current += 1;
            assert(old(self)@[0] == coil_at(self.data@, old(self).current as int));
            assert(self@ =~= old(self)@.skip(1));
            Some(if on { CoilState::On } else { CoilState::Off })
        } else {
            None
        }
    }
}

/// The registers of a write-multiple-registers request, read in place from
/// the ring.
#[derive(Debug, PartialEq)]
pub struct RegisterStore<'a> {
    data: GrantR<'a, RING_SIZE>,
    frame_len: usize,
}

/// The registers of the write-multiple request that `frame` is, as many as
/// its count field says.
pub open spec fn registers_of(frame: Seq<u8>) -> Seq<u16> {
    registers(payload(frame), field_at(frame, VALUE_AT as int) as nat)
}

impl<'a> View for RegisterStore<'a> {
    type V = Seq<u16>;

    closed spec fn view(&self) -> Seq<u16> {
        registers_of(frame_of(grant_bytes(&self.data), self.frame_len as int))
    }
}

impl<'a> RegisterStore<'a> {
    /// How many bytes go back to the ring when the view is dropped.
    pub closed spec fn released_on_drop(&self) -> nat {
        grant_marked(&self.data)
    }

    /// A view of the registers of the write-multiple request that the bytes
    /// of `data` are.
    pub fn new(data: GrantR<'a, RING_SIZE>) -> (store: RegisterStore<'a>)
        ensures
            store@ == registers_of(grant_bytes(&data)),
            store.released_on_drop() == grant_marked(&data),
    {
        let frame_len = grant_buf(&data).len();
        assert(frame_of(grant_bytes(&data), frame_len as int) =~= grant_bytes(&data));
        RegisterStore::framed(data, frame_len)
    }

    /// A view of the registers of the write-multiple request that the first
    /// `frame_len` bytes of `data` are.
    pub fn framed(data: GrantR<'a, RING_SIZE>, frame_len: usize) -> (store: RegisterStore<'a>)
        ensures
            store@ == registers_of(frame_of(grant_bytes(&data), frame_len as int)),
            store.released_on_drop() == grant_marked(&data),
    {
        RegisterStore { data, frame_len }
    }

    /// An iterator over the registers, the first one first.
    pub fn iter(&self) -> (iter: RegisterIterator<'_>)
        ensures
            iter@ == self@,
    {
        let frame = read_frame(grant_buf(&self.data), self.frame_len);
        let iter = RegisterIterator {
            current: 0,
            data: read_payload(frame),
            count: read_field(frame, VALUE_AT) as usize,
        };
        assert(iter@ =~= self@);
        iter
    }

    /// The number of registers.
    pub fn len(&self) -> (count: usize)
        ensures
            count == self@.len(),
    {
        read_field(read_frame(grant_buf(&self.data), self.frame_len), VALUE_AT) as usize
    }
}

/// Walks over registers that are stored as pairs of bytes.
pub struct RegisterIterator<'a> {
    current: usize,
    data: &'a [u8],
    count: usize,
}

impl<'a> View for RegisterIterator<'a> {
    type V = Seq<u16>;

    /// The registers that are still to come.
    closed spec fn view(&self) -> Seq<u16> {
        if self.current <= self.count {
            registers(self.data@, self.count as nat).skip(self.current as int)
        } else {
            Seq::empty()
        }
    }
}

impl<'a> RegisterIterator<'a> {
    /// An iterator over the first `count` registers of the data bytes
    /// `data`.
    pub fn new(data: &'a [u8], count: usize) -> (iter: RegisterIterator<'a>)
        ensures
            iter@ == registers(data@, count as nat),
    {
        let iter = RegisterIterator { current: 0, data, count };
        assert(iter@ =~= registers(data@, count as nat));
        iter
    }

    /// Hands out the next register, or `None` when all have been handed
    /// out.
    pub fn next(&mut self) -> (item: Option<u16>)
        ensures
            match item {
                Some(value) => old(self)@.len() > 0 && value == old(self)@[0] && final(self)@
                    == old(self)@.skip(1),
                None => old(self)@.len() == 0 && final(self)@ == old(self)@,
            },
    {
        if self.current < self.count {
            let pairs = self.data.len() / 2;
            let value = if self.current <= pairs {
                read_field(self.data, 2 * self.current)
            } else {
                // Both bytes lie beyond the data.
                0
            };
            self.current += 1;
            assert(old(self)@[0] == register_at(self.data@, old(self).current as int));
            assert(self@ =~= old(self)@.skip(1));
            Some(value)
        } else {
            None
        }
    }
}

} // verus!
