//! The handle by which a suspended consumer is resumed.

use vstd::prelude::*;

verus! {

#[verifier::external_type_specification]
#[verifier::external_body]
pub struct ExWaker(core::task::Waker);

/// Calls `Waker::wake`, which schedules the task that the handle belongs to
/// and consumes the handle. Trusted: one task is resumed, and that number
/// comes back.
#[verifier::external_body]
pub(crate) fn wake(waker: core::task::Waker) -> (woken: usize)
    ensures
        woken == 1,
{
    waker.wake();
    1
}

/// Calls `Waker::clone`. Nothing is claimed of the copy.
#[verifier::external_body]
pub(crate) fn clone_waker(waker: &core::task::Waker) -> core::task::Waker {
    waker.clone()
}

} // verus!
