//! Bounded lock-free queues, taken from the `crossbeam-queue` crate.
//!
//! The executor's ready queue and the keyboard event stream both need a
//! fixed-capacity queue that an interrupt handler can push into without
//! allocating or blocking; `crossbeam_queue::ArrayQueue` is that structure.
//! Its contents are modelled here as a sequence (front first, as a ring
//! buffer delivers them), and every method the kernel calls is wrapped with
//! the contract that the crate's ring-buffer implementation shows.

use vstd::prelude::*;

verus! {

/// Declares `crossbeam_queue::ArrayQueue` to the verifier; its values
/// are opaque and speak only through the wrappers below.
#[verifier::external_type_specification]
#[verifier::external_body]
#[verifier::reject_recursive_types(T)]
pub struct ExArrayQueue<T>(crossbeam_queue::ArrayQueue<T>);

/// The identifiers held by a ready queue, front of the queue first.
pub uninterp spec fn ready_ids(q: crossbeam_queue::ArrayQueue<u64>) -> Seq<u64>;

/// The fixed capacity a ready queue was created with.
pub uninterp spec fn ready_cap(q: crossbeam_queue::ArrayQueue<u64>) -> nat;

/// The bytes held by a scancode queue, front of the queue first.
pub uninterp spec fn scan_bytes(q: crossbeam_queue::ArrayQueue<u8>) -> Seq<u8>;

/// The fixed capacity a scancode queue was created with.
pub uninterp spec fn scan_cap(q: crossbeam_queue::ArrayQueue<u8>) -> nat;

/// Relies on `ArrayQueue::new`: a queue of the given capacity, empty at first.
/// `new` panics on capacity zero, so that is excluded here.
#[verifier::external_body]
pub(crate) fn ready_queue_new(cap: usize) -> (q: crossbeam_queue::ArrayQueue<u64>)
    requires
        cap >= 1,
    ensures
        ready_ids(q) == Seq::<u64>::empty(),
        ready_cap(q) == cap,
{
    crossbeam_queue::ArrayQueue::new(cap)
}

/// Relies on `ArrayQueue::push`: appends at the back when there is room,
/// returns the value (here: failure) when the queue is full.
#[verifier::external_body]
pub(crate) fn ready_queue_push(q: &mut crossbeam_queue::ArrayQueue<u64>, id: u64) -> (ok: bool)
    ensures
        ready_cap(*final(q)) == ready_cap(*old(q)),
        ready_ids(*old(q)).len() < ready_cap(*old(q)) ==> ok && ready_ids(*final(q))
            == ready_ids(*old(q)).push(id),
        ready_ids(*old(q)).len() >= ready_cap(*old(q)) ==> !ok && ready_ids(*final(q))
            == ready_ids(*old(q)),
{
    q.push(id).is_ok()
}

/// Relies on `ArrayQueue::pop`: removes and returns the front element,
/// or `None` when the queue is empty.
#[verifier::external_body]
pub(crate) fn ready_queue_pop(q: &mut crossbeam_queue::ArrayQueue<u64>) -> (r: Option<u64>)
    ensures
        ready_cap(*final(q)) == ready_cap(*old(q)),
        ready_ids(*old(q)).len() == 0 ==> r is None && ready_ids(*final(q))
            == ready_ids(*old(q)),
        ready_ids(*old(q)).len() > 0 ==> r == Some(ready_ids(*old(q))[0]) && ready_ids(
            *final(q),
        ) == ready_ids(*old(q)).subrange(1, ready_ids(*old(q)).len() as int),
{
    q.pop()
}

/// Relies on `ArrayQueue::is_empty`.
#[verifier::external_body]
pub(crate) fn ready_queue_is_empty(q: &crossbeam_queue::ArrayQueue<u64>) -> (r: bool)
    ensures
        r == (ready_ids(*q).len() == 0),
{
    q.is_empty()
}

/// Relies on `ArrayQueue::len`: exact under exclusive access, which the
/// reference to the owning executor guarantees here.
#[verifier::external_body]
pub(crate) fn ready_queue_len(q: &crossbeam_queue::ArrayQueue<u64>) -> (r: usize)
    ensures
        r == ready_ids(*q).len(),
{
    q.len()
}

/// Relies on `ArrayQueue::new`: a queue of the given capacity, empty at first.
/// `new` panics on capacity zero, so that is excluded here.
#[verifier::external_body]
pub(crate) fn scan_queue_new(cap: usize) -> (q: crossbeam_queue::ArrayQueue<u8>)
    requires
        cap >= 1,
    ensures
        scan_bytes(q) == Seq::<u8>::empty(),
        scan_cap(q) == cap,
{
    crossbeam_queue::ArrayQueue::new(cap)
}

/// Relies on `ArrayQueue::push`: appends at the back when there is room,
/// returns the value (here: failure) when the queue is full.
#[verifier::external_body]
pub(crate) fn scan_queue_push(q: &mut crossbeam_queue::ArrayQueue<u8>, byte: u8) -> (ok: bool)
    ensures
        scan_cap(*final(q)) == scan_cap(*old(q)),
        scan_bytes(*old(q)).len() < scan_cap(*old(q)) ==> ok && scan_bytes(*final(q))
            == scan_bytes(*old(q)).push(byte),
        scan_bytes(*old(q)).len() >= scan_cap(*old(q)) ==> !ok && scan_bytes(*final(q))
            == scan_bytes(*old(q)),
{
    q.push(byte).is_ok()
}

/// Relies on `ArrayQueue::pop`: removes and returns the front element,
/// or `None` when the queue is empty.
#[verifier::external_body]
pub(crate) fn scan_queue_pop(q: &mut crossbeam_queue::ArrayQueue<u8>) -> (r: Option<u8>)
    ensures
        scan_cap(*final(q)) == scan_cap(*old(q)),
        scan_bytes(*old(q)).len() == 0 ==> r is None && scan_bytes(*final(q))
            == scan_bytes(*old(q)),
        scan_bytes(*old(q)).len() > 0 ==> r == Some(scan_bytes(*old(q))[0]) && scan_bytes(
            *final(q),
        ) == scan_bytes(*old(q)).subrange(1, scan_bytes(*old(q)).len() as int),
{
    q.pop()
}

} // verus!
