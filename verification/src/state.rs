//! The dispatcher: it turns events into transitions and keeps the two tables.

use crate::demand::{release_of, Demand, DemandView};
use crate::error::Error;
use crate::event::{transition_of, Event, Transition};
use crate::inhibit::InhibitRequest;
use crate::manifest::{manifest_path, ManifestRead};
use crate::model::StateView;
use crate::text::texts;
use std::collections::HashMap;
use vstd::prelude::*;

verus! {

broadcast use vstd::std_specs::hash::group_hash_axioms;

/// A result with its demand as the contracts speak of it.
pub open spec fn demand_view<H>(r: Result<Demand<H>, Error>) -> Result<DemandView<H>, Error> {
    match r {
        Ok(demand) => Ok(demand@),
        Err(e) => Err(e),
    }
}

/// The result of `process` with its demand as the contracts speak of it.
pub open spec fn outcome_view<H>(r: Result<(Option<Transition>, Demand<H>), Error>) -> Result<
    (Option<Transition>, DemandView<H>),
    Error,
> {
    match r {
        Ok((transition, demand)) => Ok((transition, demand@)),
        Err(e) => Err(e),
    }
}

/// The dispatcher's state. `H` is the handle of an inhibition lock: the
/// dispatcher keeps each handle it is given until it hands it back in a
/// `Demand::Release`.
pub struct State<H> {
    libraries: Vec<String>,
    locks: HashMap<usize, H>,
    names: HashMap<usize, String>,
}

impl<H> View for State<H> {
    type V = StateView<H>;

    closed spec fn view(&self) -> StateView<H> {
        StateView {
            roots: texts(self.libraries@),
            locks: self.locks@,
            names: self.names@.map_values(|name: String| name@),
        }
    }
}

impl<H> State<H> {
    /// A dispatcher that searches `libraries` in their order and holds nothing yet.
    pub fn new(libraries: Vec<String>) -> (state: Self)
        ensures
            state@ == StateView::<H>::fresh(texts(libraries@)),
    {
        let state = State { libraries, locks: HashMap::new(), names: HashMap::new() };
        assert(state@.names =~= Map::empty());
        state
    }

    /// The library roots, in the order in which they are searched.
    pub fn libraries(&self) -> (roots: &Vec<String>)
        ensures
            texts(roots@) == self@.roots,
    {
        &self.libraries
    }

    /// Whether a lock is held for the download `appid`.
    pub fn is_inhibited(&self, appid: usize) -> (held: bool)
        ensures
            held == self@.locks.contains_key(appid),
    {
        self.locks.contains_key(&appid)
    }

    /// The lock held for the download `appid`.
    pub fn lock(&self, appid: usize) -> (held: Option<&H>)
        ensures
            match held {
                Some(handle) => self@.held(appid) == Some(*handle),
                None => self@.held(appid) is None,
            },
    {
        self.locks.get(&appid)
    }

    /// The number of downloads for which a lock is held.
    pub fn lock_count(&self) -> (n: usize)
        ensures
            n == self@.locks.len(),
    {
        self.locks.len()
    }

    /// The number of downloads whose name is cached.
    pub fn name_count(&self) -> (n: usize)
        ensures
            n == self@.names.len(),
    {
        assert(self@.names.dom() =~= self.names@.dom());
        self.names.len()
    }

    /// The cached display name of the download `appid`.
    pub fn get_app_name(&self, appid: usize) -> (name: Option<String>)
        ensures
            match name {
                Some(text) => self@.known(appid) == Some(text@),
                None => self@.known(appid) is None,
            },
    {
        match self.names.get(&appid) {
            Some(name) => Some(name.clone()),
            None => None,
        }
    }

    /// The demand to look for the manifest of `appid` in the library with index `root`.
    fn load_demand(&self, appid: usize, root: usize) -> (demand: Demand<H>)
        ensures
            demand@ == self@.load_from(appid, root as int),
    {
        if root < self.libraries.len() {
            Demand::Load {
                id: appid,
                root,
                path: manifest_path(self.libraries[root].as_str(), appid),
            }
        } else {
            Demand::Nothing
        }
    }

    /// Begins a start of the download `appid`: says what it needs first.
    pub fn start_inhibit(&self, appid: usize) -> (demand: Demand<H>)
        ensures
            demand@ == self@.begin(appid),
    {
        match self.get_app_name(appid) {
            Some(name) => Demand::Inhibit {
                id: appid,
                request: InhibitRequest::for_download(name.as_str()),
            },
            None => self.load_demand(appid, 0),
        }
    }

    /// Takes in what the library with index `root` gave for the download `appid`.
    pub fn manifest_loaded(&mut self, appid: usize, root: usize, found: ManifestRead) -> (r: Result<
        Demand<H>,
        Error,
    >)
        ensures
            final(self)@ == old(self)@.after_manifest(appid, found@),
            demand_view(r) == old(self)@.manifest_demand(appid, root, found@),
    {
        if let Some(name) = self.get_app_name(appid) {
            return Ok(
                Demand::Inhibit { id: appid, request: InhibitRequest::for_download(name.as_str()) },
            );
        }
        match found {
            ManifestRead::Missing => {
                if root < self.libraries.len() {
                    Ok(self.load_demand(appid, root + 1))
                } else {
                    Ok(Demand::Nothing)
                }
            },
            ManifestRead::Unreadable => Ok(Demand::Nothing),
            ManifestRead::Malformed => Err(Error::MalformedManifest),
            ManifestRead::Name(name) => {
                let request = InhibitRequest::for_download(name.as_str());
                self.names.insert(appid, name);
                assert(self@.names =~= old(self)@.names.insert(appid, name@));
                Ok(Demand::Inhibit { id: appid, request })
            },
        }
    }

    /// Takes over the lock `handle`, granted for the download `appid`.
    pub fn lock_acquired(&mut self, appid: usize, handle: H) -> (demand: Demand<H>)
        ensures
            final(self)@ == old(self)@.grant(appid, handle),
            demand@ == release_of(old(self)@.grant_releases(appid, handle)),
    {
        if self.names.contains_key(&appid) {
            match self.locks.insert(appid, handle) {
                Some(displaced) => Demand::Release { handle: displaced },
                None => Demand::Nothing,
            }
        } else {
            Demand::Release { handle }
        }
    }

    /// Ends the download `appid`: forgets its name and lets go of its lock.
    pub fn stop_inhibit(&mut self, appid: usize) -> (demand: Demand<H>)
        ensures
            final(self)@ == old(self)@.stop(appid),
            demand@ == release_of(old(self)@.held(appid)),
    {
        let lock = self.locks.remove(&appid);
        self.names.remove(&appid);
        assert(self@.names =~= old(self)@.names.remove(appid));
        match lock {
            Some(handle) => Demand::Release { handle },
            None => Demand::Nothing,
        }
    }

    /// Takes one event: decodes it and applies the transition that it means.
    pub fn process(&mut self, event: &Event) -> (r: Result<(Option<Transition>, Demand<H>), Error>)
        ensures
            final(self)@ == old(self)@.after_event(transition_of(event.name_view(), event.mask)),
            outcome_view(r) == old(self)@.event_outcome(
                transition_of(event.name_view(), event.mask),
            ),
    {
        let transition = match event.transition() {
            Ok(transition) => transition,
            Err(e) => {
                return Err(e);
            },
        };
        let demand = match transition {
            Some(Transition::Start(appid)) => self.start_inhibit(appid),
            Some(Transition::Stop(appid)) => self.stop_inhibit(appid),
            None => Demand::Nothing,
        };
        Ok((transition, demand))
    }
}

} // verus!
