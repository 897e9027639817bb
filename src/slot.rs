use vstd::prelude::*;
use std::sync::Arc;
use std::sync::Mutex;
use crate::point::Point;
use crate::raster::RasterFrame;
use crate::stream::{batch, PointStream};

verus! {

/// Declares std's `Mutex`, which guards the slot's value; nothing inside
/// it is read by proofs.
#[verifier::external_type_specification]
#[verifier::external_body]
#[verifier::reject_recursive_types(T)]
pub struct ExMutex<T: ?Sized>(Mutex<T>);

/// Relies on Mutex::new: a fresh lock around the given value.
#[verifier::external_body]
fn empty_slot() -> (r: Mutex<Option<Arc<RasterFrame>>>) {
    Mutex::new(None)
}

/// Relies on Mutex::lock: the whole previous value is replaced under the
/// lock; a poisoned lock leaves it as it was.
#[verifier::external_body]
fn store(slot: &Mutex<Option<Arc<RasterFrame>>>, frame: Arc<RasterFrame>) {
    if let Ok(mut held) = slot.lock() {
        *held = Some(frame);
    }
}

/// Relies on Mutex::try_lock: without waiting, the value held, or `None`
/// when the lock is taken or poisoned.
#[verifier::external_body]
fn load(slot: &Mutex<Option<Arc<RasterFrame>>>) -> (r: Option<Arc<RasterFrame>>) {
    match slot.try_lock() {
        Ok(held) => held.clone(),
        Err(_) => None,
    }
}

/// The latest raster from a producer, shared with the stream. Frames are
/// swapped whole, so a reader sees one published frame or none.
pub struct SharedRasterSlot {
    slot: Mutex<Option<Arc<RasterFrame>>>,
}

impl SharedRasterSlot {
    /// A slot that holds no frame yet.
    pub fn new() -> (r: SharedRasterSlot) {
        SharedRasterSlot { slot: empty_slot() }
    }

    /// Replaces the held frame by `frame`.
    pub fn publish(&self, frame: RasterFrame) {
        store(&self.slot, Arc::new(frame));
    }

    /// The most recently published frame, or `None` when none was published
    /// yet or the slot is busy at this instant; never waits.
    pub fn try_sample(&self) -> (r: Option<Arc<RasterFrame>>) {
        load(&self.slot)
    }
}

impl PointStream {
    /// Exactly `n` points, colored from the frame that `slot` holds at this
    /// instant; when it holds none, or one that cannot be sampled, as if no
    /// frame were at hand.
    pub fn next_batch_from_slot(&mut self, n: usize, slot: &SharedRasterSlot) -> (r: Vec<Point>)
        requires
            old(self).wf(),
        ensures
            final(self).wf(),
            r@.len() == n,
            (final(self).source, r@) == batch(old(self).source, None, n as nat) || exists|
                f: RasterFrame,
            |
                f.wf() && (final(self).source, r@) == batch(old(self).source, Some(&f), n as nat),
    {
        let held = slot.try_sample();
        match held {
            Some(frame) => {
                let f: &RasterFrame = &*frame;
                if f.is_usable() {
                    self.next_batch(n, Some(f))
                } else {
                    self.next_batch(n, None)
                }
            },
            None => self.next_batch(n, None),
        }
    }
}

} // verus!
