//! The byte ring between the receive interrupt and the decoder.
//!
//! The ring is a `bbqueue::BBBuffer`. Verus sees its handles and grants as
//! opaque values; what this module states of them is taken on trust from
//! the source of `bbqueue`.

use vstd::prelude::*;

verus! {

/// Capacity in bytes of the ring that a decoder runs on.
pub const RING_SIZE: usize = 2048;

#[verifier::external_type_specification]
#[verifier::external_body]
pub struct ExBBBuffer<const N: usize>(bbqueue::BBBuffer<N>);

#[verifier::external_type_specification]
#[verifier::external_body]
pub struct ExProducer<'a, const N: usize>(bbqueue::Producer<'a, N>);

#[verifier::external_type_specification]
#[verifier::external_body]
pub struct ExConsumer<'a, const N: usize>(bbqueue::Consumer<'a, N>);

#[verifier::external_type_specification]
#[verifier::external_body]
pub struct ExGrantW<'a, const N: usize>(bbqueue::GrantW<'a, N>);

#[verifier::external_type_specification]
#[verifier::external_body]
pub struct ExGrantR<'a, const N: usize>(bbqueue::GrantR<'a, N>);

/// The committed bytes that a read grant gives access to, oldest first.
/// They stay as they are for as long as the grant lives.
pub uninterp spec fn grant_bytes(grant: &bbqueue::GrantR<'_, RING_SIZE>) -> Seq<u8>;

/// How many of its bytes a read grant hands back to the ring when it is
/// dropped.
pub uninterp spec fn grant_marked(grant: &bbqueue::GrantR<'_, RING_SIZE>) -> nat;

/// The number of bytes that a write grant has room for.
pub uninterp spec fn grant_room(grant: &bbqueue::GrantW<'_, RING_SIZE>) -> nat;

/// The bytes that lie in a write grant, as many as it has room for.
pub uninterp spec fn grant_written(grant: &bbqueue::GrantW<'_, RING_SIZE>) -> Seq<u8>;

/// Calls `BBBuffer::try_split`, which fails when the buffer was split
/// before; the failure comes back as `None`. Nothing is claimed of the
/// handles.
#[verifier::external_body]
pub(crate) fn split<'a>(buffer: &'a bbqueue::BBBuffer<RING_SIZE>) -> Option<
    (bbqueue::Producer<'a, RING_SIZE>, bbqueue::Consumer<'a, RING_SIZE>),
> {
    buffer.try_split().ok()
}

/// Calls `Producer::grant_exact`, which fails when the ring has no
/// contiguous room of that size or a write grant is still alive; the
/// failure comes back as `None`. Trusted: a grant that is given has room
/// for exactly `size` bytes, and the call does not panic. It adds `size`
/// to a cursor that is at most the capacity, so `size` is kept within the
/// capacity.
#[verifier::external_body]
pub(crate) fn grant_exact<'a>(
    producer: &mut bbqueue::Producer<'a, RING_SIZE>,
    size: usize,
) -> (granted: Option<bbqueue::GrantW<'a, RING_SIZE>>)
    requires
        size <= RING_SIZE,
    ensures
        granted matches Some(grant) ==> grant_room(&grant) == size,
    no_unwind
{
    producer.grant_exact(size).ok()
}

/// Calls `GrantW::buf` and copies `data` into the slice it returns, which
/// has the length of the grant. Trusted: the grant then holds the bytes of
/// `data`, and its room is as before.
#[verifier::external_body]
pub(crate) fn fill(grant: &mut bbqueue::GrantW<'_, RING_SIZE>, data: &[u8])
    requires
        grant_room(old(grant)) == data@.len(),
    ensures
        grant_room(final(grant)) == grant_room(old(grant)),
        grant_written(final(grant)) == data@,
{
    grant.buf().copy_from_slice(data)
}

/// Calls `GrantW::commit`, which makes the first `used` bytes of the grant
/// readable behind those that were readable before, and ends the grant.
/// Trusted: with `used` within the room of the grant that many bytes are
/// committed, and their number comes back.
#[verifier::external_body]
pub(crate) fn commit(grant: bbqueue::GrantW<'_, RING_SIZE>, used: usize) -> (committed: usize)
    requires
        used <= grant_room(&grant),
    ensures
        committed == used,
{
    grant.commit(used);
    used
}

/// Calls `Consumer::read`, which gives access to the readable bytes that
/// lie in one piece, and fails when nothing is readable or a read grant is
/// still alive; the failure comes back as `None`. Trusted: the call does
/// not panic. Nothing is claimed of the grant.
#[verifier::external_body]
pub(crate) fn read<'a>(consumer: &mut bbqueue::Consumer<'a, RING_SIZE>) -> (granted: Option<
    bbqueue::GrantR<'a, RING_SIZE>,
>)
    no_unwind
{
    consumer.read().ok()
}

/// Calls `GrantR::buf`. Trusted: the slice holds the bytes of the grant.
#[verifier::external_body]
pub(crate) fn grant_buf<'g>(grant: &'g bbqueue::GrantR<'_, RING_SIZE>) -> (buf: &'g [u8])
    ensures
        buf@ == grant_bytes(grant),
{
    grant.buf()
}

/// Calls `GrantR::to_release`. Trusted: the grant is then marked to hand
/// back `amount` bytes when it is dropped, all of them where `amount`
/// exceeds its length, and its bytes are as before.
#[verifier::external_body]
pub(crate) fn mark_release(grant: &mut bbqueue::GrantR<'_, RING_SIZE>, amount: usize)
    ensures
        grant_bytes(final(grant)) == grant_bytes(old(grant)),
        grant_marked(final(grant)) == if amount <= grant_bytes(old(grant)).len() {
            amount as nat
        } else {
            grant_bytes(old(grant)).len()
        },
{
    grant.to_release(amount)
}

/// Calls `GrantR::release`, which hands the first `used` bytes of the grant
/// back to the ring and ends the grant. Trusted: with `used` within the
/// length of the grant that many bytes are handed back, and their number
/// comes back.
#[verifier::external_body]
pub(crate) fn release(grant: bbqueue::GrantR<'_, RING_SIZE>, used: usize) -> (released: usize)
    requires
        used <= grant_bytes(&grant).len(),
    ensures
        released == used,
{
    grant.release(used);
    used
}

} // verus!
