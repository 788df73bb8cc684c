//! The dispatcher's two tables as mathematical maps, and its transitions as
//! functions on them.

use crate::demand::{release_of, DemandView};
use crate::error::Error;
use crate::event::Transition;
use crate::inhibit::request_for;
use crate::manifest::{manifest_path_of, ManifestReadView};
use vstd::prelude::*;

verus! {

/// What a dispatcher holds: the library roots in the order in which they are
/// searched, the lock of each download that runs, and the display name of
/// each download that has been resolved.
pub struct StateView<H> {
    pub roots: Seq<Seq<char>>,
    pub locks: Map<usize, H>,
    pub names: Map<usize, Seq<char>>,
}

impl<H> StateView<H> {
    /// A lock is held only for a download whose name is known.
    pub open spec fn wf(self) -> bool {
        self.locks.dom().subset_of(self.names.dom())
    }

    /// The tables before any event.
    pub open spec fn fresh(roots: Seq<Seq<char>>) -> Self {
        StateView { roots, locks: Map::empty(), names: Map::empty() }
    }

    /// The lock held for `id`, if one is.
    pub open spec fn held(self, id: usize) -> Option<H> {
        if self.locks.contains_key(id) {
            Some(self.locks[id])
        } else {
            None
        }
    }

    /// The cached name of `id`, if there is one.
    pub open spec fn known(self, id: usize) -> Option<Seq<char>> {
        if self.names.contains_key(id) {
            Some(self.names[id])
        } else {
            None
        }
    }

    /// The demand to look for the manifest of `id` in the library with index
    /// `root`; nothing where the roots end before it.
    pub open spec fn load_from(self, id: usize, root: int) -> DemandView<H> {
        if 0 <= root < self.roots.len() && root <= usize::MAX {
            DemandView::Load {
                id,
                root: root as usize,
                path: manifest_path_of(self.roots[root], id),
            }
        } else {
            DemandView::Nothing
        }
    }

    /// What a start of `id` asks for first: the lock, where the name is
    /// cached; else the manifest in the first library.
    pub open spec fn begin(self, id: usize) -> DemandView<H> {
        match self.known(id) {
            Some(name) => DemandView::Inhibit { id, request: request_for(name) },
            None => self.load_from(id, 0),
        }
    }

    /// The tables once `name` was resolved for `id`: a name that is cached stays.
    pub open spec fn remember(self, id: usize, name: Seq<char>) -> Self {
        if self.names.contains_key(id) {
            self
        } else {
            StateView { names: self.names.insert(id, name), ..self }
        }
    }

    /// The tables after a library gave `found` for `id`: a name is remembered,
    /// anything else changes nothing.
    pub open spec fn after_manifest(self, id: usize, found: ManifestReadView) -> Self {
        match found {
            ManifestReadView::Name(name) => self.remember(id, name),
            _ => self,
        }
    }

    /// What is asked for next after the library with index `root` gave `found`
    /// for `id`. A cached name decides alone. Else a missing manifest sends the
    /// search to the next library, an unreadable one ends it, a malformed one
    /// is an error, and a name asks for the lock.
    pub open spec fn manifest_demand(self, id: usize, root: usize, found: ManifestReadView) -> Result<
        DemandView<H>,
        Error,
    > {
        match self.known(id) {
            Some(name) => Ok(DemandView::Inhibit { id, request: request_for(name) }),
            None => match found {
                ManifestReadView::Missing => Ok(self.load_from(id, root + 1)),
                ManifestReadView::Unreadable => Ok(DemandView::Nothing),
                ManifestReadView::Malformed => Err(Error::MalformedManifest),
                ManifestReadView::Name(name) => Ok(
                    DemandView::Inhibit { id, request: request_for(name) },
                ),
            },
        }
    }

    /// The tables after the lock `handle` was granted for `id`. It takes the
    /// place of the lock held for `id`; for a download without a cached name
    /// it is not kept.
    pub open spec fn grant(self, id: usize, handle: H) -> Self {
        if self.names.contains_key(id) {
            StateView { locks: self.locks.insert(id, handle), ..self }
        } else {
            self
        }
    }

    /// The lock that leaves the tables when `handle` is granted for `id`.
    pub open spec fn grant_releases(self, id: usize, handle: H) -> Option<H> {
        if self.names.contains_key(id) {
            self.held(id)
        } else {
            Some(handle)
        }
    }

    /// The tables after a stop of `id`: both entries are gone. The lock that
    /// leaves is `held(id)`.
    pub open spec fn stop(self, id: usize) -> Self {
        StateView { locks: self.locks.remove(id), names: self.names.remove(id), ..self }
    }

    /// The tables after an event that was decoded as `decoded`: a stop clears
    /// the download's entries. A start changes nothing before the outside
    /// work that it demands is done, and neither does an event that means no
    /// transition or could not be decoded.
    pub open spec fn after_event(self, decoded: Result<Option<Transition>, Error>) -> Self {
        match decoded {
            Ok(Some(Transition::Stop(id))) => self.stop(id),
            _ => self,
        }
    }

    /// What an event that was decoded as `decoded` comes to: its transition,
    /// and what that asks for first. A start asks as `begin` says, a stop
    /// hands back the lock that was held, and no transition asks for nothing.
    pub open spec fn event_outcome(self, decoded: Result<Option<Transition>, Error>) -> Result<
        (Option<Transition>, DemandView<H>),
        Error,
    > {
        match decoded {
            Err(e) => Err(e),
            Ok(None) => Ok((None, DemandView::Nothing)),
            Ok(Some(Transition::Start(id))) => Ok((Some(Transition::Start(id)), self.begin(id))),
            Ok(Some(Transition::Stop(id))) => Ok(
                (Some(Transition::Stop(id)), release_of(self.held(id))),
            ),
        }
    }
}

} // verus!
