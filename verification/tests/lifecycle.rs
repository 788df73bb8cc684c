use inotify::EventMask;
use steam_inhibit::{Demand, Event, InhibitRequest, ManifestRead, State, Transition};

#[derive(Debug, PartialEq, Eq)]
struct Handle(&'static str);

fn start(name: &str) -> Event<'_> {
    Event { name: Some(name.as_bytes()), mask: EventMask::ACCESS.bits() }
}

fn stop(name: &str) -> Event<'_> {
    Event { name: Some(name.as_bytes()), mask: EventMask::CLOSE_WRITE.bits() }
}

fn one_library() -> State<Handle> {
    State::new(vec!["/srv/steam".to_string()])
}

/// A whole start of the download 5, named "Five", which takes `handle`.
fn start_five(state: &mut State<Handle>, handle: Handle) -> Demand<Handle> {
    let (_, demand) = state.process(&start("state_5_0")).unwrap();
    let demand = match demand {
        Demand::Load { id, root, .. } => {
            state.manifest_loaded(id, root, ManifestRead::Name("Five".to_string())).unwrap()
        }
        other => other,
    };
    match demand {
        Demand::Inhibit { id, .. } => state.lock_acquired(id, handle),
        other => panic!("no lock was asked for: {:?}", other),
    }
}

#[test]
fn stop_of_idle_download_changes_nothing() {
    let mut state = one_library();
    start_five(&mut state, Handle("a"));
    let step = state.process(&stop("state_9_0"));
    assert_eq!(step, Ok((Some(Transition::Stop(9)), Demand::Nothing)));
    assert_eq!(state.lock_count(), 1);
    assert_eq!(state.name_count(), 1);
    assert_eq!(state.lock(5), Some(&Handle("a")));
    assert_eq!(state.get_app_name(5), Some("Five".to_string()));
}

#[test]
fn stop_twice_releases_once() {
    let mut state = one_library();
    start_five(&mut state, Handle("a"));
    assert_eq!(state.stop_inhibit(5), Demand::Release { handle: Handle("a") });
    assert_eq!(state.stop_inhibit(5), Demand::Nothing);
    assert_eq!(state.lock_count(), 0);
    assert_eq!(state.name_count(), 0);
}

#[test]
fn stop_on_empty_state_is_no_error() {
    let mut state = one_library();
    assert_eq!(state.process(&stop("state_1_0")), Ok((Some(Transition::Stop(1)), Demand::Nothing)));
    assert_eq!(state.lock_count(), 0);
    assert_eq!(state.name_count(), 0);
}

#[test]
fn repeated_starts_keep_one_lock_the_latest() {
    let mut state = one_library();
    assert_eq!(start_five(&mut state, Handle("a")), Demand::Nothing);
    assert_eq!(start_five(&mut state, Handle("b")), Demand::Release { handle: Handle("a") });
    assert_eq!(start_five(&mut state, Handle("c")), Demand::Release { handle: Handle("b") });
    assert_eq!(state.lock_count(), 1);
    assert_eq!(state.lock(5), Some(&Handle("c")));
}

#[test]
fn start_after_stop_holds_the_new_lock() {
    let mut state = one_library();
    start_five(&mut state, Handle("a"));
    state.process(&stop("state_5_1")).unwrap();
    assert_eq!(state.lock(5), None);
    assert_eq!(start_five(&mut state, Handle("b")), Demand::Nothing);
    assert_eq!(state.lock(5), Some(&Handle("b")));
    assert_eq!(state.lock_count(), 1);
}

#[test]
fn every_lock_taken_is_handed_back_once() {
    let mut state = one_library();
    let mut released: Vec<Handle> = Vec::new();
    let mut keep = |demand: Demand<Handle>| {
        if let Demand::Release { handle } = demand {
            released.push(handle);
        }
    };
    keep(start_five(&mut state, Handle("a")));
    keep(start_five(&mut state, Handle("b")));
    keep(state.process(&stop("state_5_0")).unwrap().1);
    keep(state.process(&stop("state_5_0")).unwrap().1);
    keep(start_five(&mut state, Handle("c")));
    keep(state.process(&stop("state_5_0")).unwrap().1);
    assert_eq!(released, vec![Handle("a"), Handle("b"), Handle("c")]);
    assert_eq!(state.lock_count(), 0);
}

#[test]
fn downloads_do_not_disturb_each_other() {
    let mut state = one_library();
    start_five(&mut state, Handle("five"));
    state.process(&start("state_6_0")).unwrap();
    state.manifest_loaded(6, 0, ManifestRead::Name("Six".to_string())).unwrap();
    assert_eq!(state.lock_acquired(6, Handle("six")), Demand::Nothing);
    assert_eq!(state.lock_count(), 2);
    assert_eq!(state.process(&stop("state_5_0")).unwrap().1, Demand::Release { handle: Handle("five") });
    assert_eq!(state.lock(6), Some(&Handle("six")));
    assert_eq!(state.get_app_name(6), Some("Six".to_string()));
    assert_eq!(state.lock_count(), 1);
}

#[test]
fn cached_name_is_used_without_a_search() {
    let mut state = one_library();
    start_five(&mut state, Handle("a"));
    let (transition, demand) = state.process(&start("state_5_3")).unwrap();
    assert_eq!(transition, Some(Transition::Start(5)));
    assert_eq!(
        demand,
        Demand::Inhibit { id: 5, request: InhibitRequest::for_download("Five") }
    );
    assert_eq!(state.start_inhibit(5), demand);
}

#[test]
fn cached_name_is_never_updated() {
    let mut state = one_library();
    start_five(&mut state, Handle("a"));
    let next = state.manifest_loaded(5, 0, ManifestRead::Name("Other".to_string()));
    assert_eq!(
        next,
        Ok(Demand::Inhibit { id: 5, request: InhibitRequest::for_download("Five") })
    );
    assert_eq!(state.get_app_name(5), Some("Five".to_string()));
    assert_eq!(
        state.manifest_loaded(5, 0, ManifestRead::Malformed),
        Ok(Demand::Inhibit { id: 5, request: InhibitRequest::for_download("Five") })
    );
    assert_eq!(state.get_app_name(5), Some("Five".to_string()));
}

#[test]
fn stop_clears_the_cached_name() {
    let mut state = one_library();
    start_five(&mut state, Handle("a"));
    state.process(&stop("state_5_0")).unwrap();
    assert_eq!(
        state.start_inhibit(5),
        Demand::Load { id: 5, root: 0, path: "/srv/steam/steamapps/appmanifest_5.acf".to_string() }
    );
    let next = state.manifest_loaded(5, 0, ManifestRead::Name("Renamed".to_string()));
    assert_eq!(
        next,
        Ok(Demand::Inhibit { id: 5, request: InhibitRequest::for_download("Renamed") })
    );
}

#[test]
fn unknown_download_leaves_no_entries() {
    let mut state = one_library();
    let (_, demand) = state.process(&start("state_8_0")).unwrap();
    assert_eq!(
        demand,
        Demand::Load { id: 8, root: 0, path: "/srv/steam/steamapps/appmanifest_8.acf".to_string() }
    );
    assert_eq!(state.manifest_loaded(8, 0, ManifestRead::Missing), Ok(Demand::Nothing));
    assert_eq!(state.lock(8), None);
    assert_eq!(state.get_app_name(8), None);
    assert_eq!(state.lock_count(), 0);
    assert_eq!(state.name_count(), 0);
}

#[test]
fn lock_for_a_download_without_name_is_handed_back() {
    let mut state = one_library();
    assert_eq!(state.lock_acquired(3, Handle("stray")), Demand::Release { handle: Handle("stray") });
    assert_eq!(state.lock_count(), 0);
    assert!(!state.is_inhibited(3));
}

#[test]
fn missing_manifest_past_the_last_library_ends_the_search() {
    let mut state = one_library();
    assert_eq!(state.manifest_loaded(8, 4, ManifestRead::Missing), Ok(Demand::Nothing));
    assert_eq!(state.manifest_loaded(8, usize::MAX, ManifestRead::Missing), Ok(Demand::Nothing));
}

#[test]
fn new_state_keeps_the_libraries_in_order() {
    let state: State<Handle> = State::new(vec!["/b".to_string(), "/a".to_string()]);
    assert_eq!(state.libraries(), &vec!["/b".to_string(), "/a".to_string()]);
    assert_eq!(state.lock_count(), 0);
    assert_eq!(state.name_count(), 0);
}
