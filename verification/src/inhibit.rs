//! The request that keeps the machine awake.

use vstd::prelude::*;

verus! {

/// One request to the power manager for an inhibition lock.
#[derive(Clone, Debug, PartialEq, Eq)]
pub struct InhibitRequest {
    /// What is to be inhibited.
    pub what: String,
    /// The application that asks.
    pub who: String,
    /// The reason, for people to read.
    pub why: String,
    /// How the lock acts towards whoever wants the machine to sleep.
    pub mode: String,
}

/// An `InhibitRequest` as the contracts speak of it.
pub struct InhibitRequestView {
    pub what: Seq<char>,
    pub who: Seq<char>,
    pub why: Seq<char>,
    pub mode: Seq<char>,
}

impl View for InhibitRequest {
    type V = InhibitRequestView;

    open spec fn view(&self) -> InhibitRequestView {
        InhibitRequestView {
            what: self.what@,
            who: self.who@,
            why: self.why@,
            mode: self.mode@,
        }
    }
}

/// The request made while the download called `name` runs: sleep is blocked,
/// in the name of Steam, and the reason names the download.
pub open spec fn request_for(name: Seq<char>) -> InhibitRequestView {
    InhibitRequestView {
        what: "sleep"@,
        who: "Steam"@,
        why: "Downloading "@ + name,
        mode: "block"@,
    }
}

impl InhibitRequest {
    /// The request to make while the download called `name` runs.
    pub fn for_download(name: &str) -> (request: InhibitRequest)
        ensures
            request@ == request_for(name@),
    {
        let mut why = "Downloading ".to_owned();
        why.append(name);
        InhibitRequest {
            what: "sleep".to_owned(),
            who: "Steam".to_owned(),
            why,
            mode: "block".to_owned(),
        }
    }
}

} // verus!
