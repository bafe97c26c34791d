//! The display loop's state machine.
//!
//! The display starts empty, accumulates records as the result conduit
//! hands them over (re-rendering after each), moves to awaiting a quit key
//! once the conduit closes, and terminates on the quit key. Terminated is
//! absorbing: the process exits afterward. The record collection is owned
//! here exclusively; producers only ever touch the conduit.

use vstd::prelude::*;

use crate::record::LocationRecord;

verus! {

/// The key that ends the display loop.
pub const QUIT_KEY: char = 'q';

/// Where the display loop stands.
#[derive(Clone, Copy, Debug, PartialEq, Eq, Structural)]
pub enum DisplayPhase {
    /// Nothing received yet; the panel shows no marks.
    Empty,
    /// Records are arriving; each one triggers a redraw.
    Accumulating,
    /// The conduit is closed; waiting for the quit key.
    AwaitingQuit,
    /// The quit key arrived; absorbing.
    Terminated,
}

/// The display loop's owned state: its phase and the records received so
/// far, in arrival order.
pub struct DisplayState {
    pub phase: DisplayPhase,
    pub records: Vec<LocationRecord>,
}

impl DisplayState {
    /// Every accumulated record is well formed.
    pub open spec fn wf(self) -> bool {
        forall|i: int| 0 <= i < self.records@.len() ==> (#[trigger] self.records@[i]).wf()
    }

    /// A fresh display: empty phase, no records.
    pub fn new() -> (s: Self)
        ensures
            s.phase is Empty,
            s.records@.len() == 0,
            s.wf(),
    {
        DisplayState { phase: DisplayPhase::Empty, records: Vec::new() }
    }

    /// One record arrived: it is appended to the owned collection, in
    /// arrival order, and the display accumulates.
    pub fn on_record(&mut self, r: LocationRecord)
        requires
            old(self).phase is Empty || old(self).phase is Accumulating,
            old(self).wf(),
            r.wf(),
        ensures
            final(self).phase is Accumulating,
            final(self).records@ == old(self).records@.push(r),
            final(self).wf(),
    {
        self.records.push(r);
        self.phase = DisplayPhase::Accumulating;
    }

    /// The conduit closed: no further record will arrive; the display now
    /// waits for the quit key, its records unchanged.
    pub fn on_closed(&mut self)
        requires
            old(self).phase is Empty || old(self).phase is Accumulating,
        ensures
            final(self).phase is AwaitingQuit,
            final(self).records == old(self).records,
    {
        self.phase = DisplayPhase::AwaitingQuit;
    }

    /// A key arrived while awaiting quit: the quit key terminates the
    /// display, any other key leaves it waiting; the records never change.
    pub fn on_key(&mut self, key: char)
        requires
            old(self).phase is AwaitingQuit,
        ensures
            final(self).records == old(self).records,
            final(self).phase is Terminated <==> key == QUIT_KEY,
            key != QUIT_KEY ==> final(self).phase is AwaitingQuit,
    {
        if key == QUIT_KEY {
            self.phase = DisplayPhase::Terminated;
        }
    }
}

} // verus!
