//! The conditions that end the watch.

use vstd::prelude::*;

verus! {

/// A condition that the dispatcher cannot recover from. Whoever runs the
/// dispatcher reports it and stops.
#[derive(Clone, Copy, Debug, PartialEq, Eq, Structural)]
pub enum Error {
    /// A file name starts like a download's state file, but the field that
    /// should hold the identifier is no number that fits.
    MalformedIdentifier,
    /// A manifest file is there and was read, but is not a manifest.
    MalformedManifest,
}

impl Error {
    /// A line for the console.
    pub fn message(&self) -> (text: &'static str)
        ensures
            text@ == match *self {
                Error::MalformedIdentifier => "malformed download identifier in a state file's name"@,
                Error::MalformedManifest => "manifest file is present but cannot be parsed"@,
            },
    {
        match self {
            Error::MalformedIdentifier => "malformed download identifier in a state file's name",
            Error::MalformedManifest => "manifest file is present but cannot be parsed",
        }
    }
}

} // verus!
