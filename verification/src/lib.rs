//! Keeps the machine awake while a game download runs.
//!
//! The dispatcher in [`state`] takes filesystem change events, finds the
//! download that each is about, and says what has to be done outside: look
//! for a manifest, ask for an inhibition lock, release one. It does none of
//! that itself. [`laws`] states what holds of every run.

pub mod decimal;
pub mod demand;
pub mod error;
pub mod event;
pub mod inhibit;
pub mod laws;
pub mod library;
pub mod manifest;
pub mod model;
pub mod state;
pub mod text;

pub use demand::Demand;
pub use error::Error;
pub use event::{Event, Transition};
pub use inhibit::InhibitRequest;
pub use library::{get_library_paths, IndexRead};
pub use manifest::ManifestRead;
pub use state::State;
