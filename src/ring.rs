//! The fixed-capacity ring buffers of the `ringbuffer` crate, as the library
//! sees them: an ordered sequence of items, oldest first.

use crate::collector::RssiEntry;
use ringbuffer::{ConstGenericRingBuffer, RingBuffer};
use vstd::prelude::*;

verus! {

#[verifier::external_type_specification]
#[verifier::external_body]
#[verifier::reject_recursive_types(T)]
pub struct ExConstGenericRingBuffer<T, const CAP: usize>(ConstGenericRingBuffer<T, CAP>);

/// The entries that a sample log holds, oldest first.
pub uninterp spec fn log_items(b: ConstGenericRingBuffer<RssiEntry, 32>) -> Seq<RssiEntry>;

/// The values that a minima window holds, oldest first.
pub uninterp spec fn window_items(b: ConstGenericRingBuffer<u8, 4>) -> Seq<u8>;

/// What a push onto a ring of capacity `cap` leaves: the oldest item is
/// evicted first when the ring is full.
pub open spec fn ring_push<T>(s: Seq<T>, v: T, cap: nat) -> Seq<T> {
    if s.len() >= cap {
        s.drop_first().push(v)
    } else {
        s.push(v)
    }
}

/// Relies on `ConstGenericRingBuffer::new`: a new ring is empty.
#[verifier::external_body]
pub(crate) fn log_new() -> (r: ConstGenericRingBuffer<RssiEntry, 32>)
    ensures
        log_items(r) == Seq::<RssiEntry>::empty(),
{
    ConstGenericRingBuffer::new()
}

/// Relies on `RingBuffer::enqueue` (`push`): appends at the newest end and,
/// when the ring is full, first drops its oldest item.
#[verifier::external_body]
pub(crate) fn log_enqueue(b: &mut ConstGenericRingBuffer<RssiEntry, 32>, v: RssiEntry)
    requires
        log_items(*old(b)).len() <= 32,
    ensures
        log_items(*final(b)) == ring_push(log_items(*old(b)), v, 32),
{
    b.enqueue(v)
}

/// Relies on `RingBuffer::len`: the number of items held.
#[verifier::external_body]
pub(crate) fn log_len(b: &ConstGenericRingBuffer<RssiEntry, 32>) -> (r: usize)
    ensures
        r == log_items(*b).len(),
{
    b.len()
}

/// Relies on `RingBuffer::get_signed`: index `-1` is the newest item and
/// `-len` the oldest.
#[verifier::external_body]
pub(crate) fn log_get_signed(b: &ConstGenericRingBuffer<RssiEntry, 32>, index: isize) -> (r:
    Option<RssiEntry>)
    requires
        -(log_items(*b).len() as int) <= index < 0,
    ensures
        r == Some(log_items(*b)[log_items(*b).len() + index]),
{
    b.get_signed(index).copied()
}

/// Relies on `RingBuffer::skip`: drops the oldest item; no change when empty.
#[verifier::external_body]
pub(crate) fn log_skip(b: &mut ConstGenericRingBuffer<RssiEntry, 32>)
    ensures
        log_items(*old(b)).len() > 0 ==> log_items(*final(b)) == log_items(*old(b)).drop_first(),
        log_items(*old(b)).len() == 0 ==> log_items(*final(b)) == log_items(*old(b)),
{
    b.skip()
}

/// Relies on `ConstGenericRingBuffer::new`: a new ring is empty.
#[verifier::external_body]
pub(crate) fn window_new() -> (r: ConstGenericRingBuffer<u8, 4>)
    ensures
        window_items(r) == Seq::<u8>::empty(),
{
    ConstGenericRingBuffer::new()
}

/// Relies on `RingBuffer::enqueue` (`push`): appends at the newest end and,
/// when the ring is full, first drops its oldest item.
#[verifier::external_body]
pub(crate) fn window_enqueue(b: &mut ConstGenericRingBuffer<u8, 4>, v: u8)
    requires
        window_items(*old(b)).len() <= 4,
    ensures
        window_items(*final(b)) == ring_push(window_items(*old(b)), v, 4),
{
    b.enqueue(v)
}

/// Relies on `RingBuffer::len`: the number of items held.
#[verifier::external_body]
pub(crate) fn window_len(b: &ConstGenericRingBuffer<u8, 4>) -> (r: usize)
    ensures
        r == window_items(*b).len(),
{
    b.len()
}

/// Relies on `RingBuffer::get_signed`: index `-1` is the newest item and
/// `-len` the oldest.
#[verifier::external_body]
pub(crate) fn window_get_signed(b: &ConstGenericRingBuffer<u8, 4>, index: isize) -> (r: Option<u8>)
    requires
        -(window_items(*b).len() as int) <= index < 0,
    ensures
        r == Some(window_items(*b)[window_items(*b).len() + index]),
{
    b.get_signed(index).copied()
}

/// Relies on `RingBuffer::skip`: drops the oldest item; no change when empty.
#[verifier::external_body]
pub(crate) fn window_skip(b: &mut ConstGenericRingBuffer<u8, 4>)
    ensures
        window_items(*old(b)).len() > 0 ==> window_items(*final(b)) == window_items(
            *old(b),
        ).drop_first(),
        window_items(*old(b)).len() == 0 ==> window_items(*final(b)) == window_items(*old(b)),
{
    b.skip()
}

} // verus!
