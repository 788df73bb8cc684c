//! What the dispatcher asks of whoever runs it.

use crate::inhibit::{InhibitRequest, InhibitRequestView};
use vstd::prelude::*;

verus! {

/// The outside work that a transition needs next. The dispatcher decides; it
/// does no reading, no asking and no releasing itself. `H` is the handle of
/// an inhibition lock.
#[derive(Debug, PartialEq, Eq)]
pub enum Demand<H> {
    /// Nothing is left to do.
    Nothing,
    /// Look for the manifest of download `id` at `path`, which lies in the
    /// library with index `root`, and report with `manifest_loaded`.
    Load { id: usize, root: usize, path: String },
    /// Ask the power manager for a lock with `request`, and hand the lock
    /// over with `lock_acquired`.
    Inhibit { id: usize, request: InhibitRequest },
    /// Release this lock: the dispatcher has let go of it.
    Release { handle: H },
}

/// A `Demand` as the contracts speak of it.
pub enum DemandView<H> {
    Nothing,
    Load { id: usize, root: usize, path: Seq<char> },
    Inhibit { id: usize, request: InhibitRequestView },
    Release { handle: H },
}

impl<H> View for Demand<H> {
    type V = DemandView<H>;

    open spec fn view(&self) -> DemandView<H> {
        match *self {
            Demand::Nothing => DemandView::Nothing,
            Demand::Load { id, root, path } => DemandView::Load { id, root, path: path@ },
            Demand::Inhibit { id, request } => DemandView::Inhibit { id, request: request@ },
            Demand::Release { handle } => DemandView::Release { handle },
        }
    }
}

/// The demand to release `lock`, where there is one.
pub open spec fn release_of<H>(lock: Option<H>) -> DemandView<H> {
    match lock {
        Some(handle) => DemandView::Release { handle },
        None => DemandView::Nothing,
    }
}

} // verus!
