//! Where a download's manifest lies, and what reading it can give.

use crate::decimal::{decimal_digits, push_decimal};
use crate::text::{join_path, joined};
use vstd::prelude::*;

verus! {

/// The manifest of download `id`, as a path below a library root.
pub open spec fn manifest_file(id: usize) -> Seq<char> {
    "steamapps/appmanifest_"@ + decimal_digits(id as nat) + ".acf"@
}

/// The manifest of download `id` in the library at `root`.
pub open spec fn manifest_path_of(root: Seq<char>, id: usize) -> Seq<char> {
    joined(root, manifest_file(id))
}

/// The path at which the library at `root` keeps the manifest of download `id`.
pub fn manifest_path(root: &str, id: usize) -> (path: String)
    ensures
        path@ == manifest_path_of(root@, id),
{
    let mut file = "steamapps/appmanifest_".to_owned();
    push_decimal(&mut file, id);
    file.append(".acf");
    join_path(root, file.as_str())
}

/// What came of looking for a manifest at one path.
#[derive(Clone, Debug, PartialEq, Eq)]
pub enum ManifestRead {
    /// No regular file is at the path.
    Missing,
    /// A regular file is there, but its text could not be read.
    Unreadable,
    /// The file was read, and is no manifest with a name in it.
    Malformed,
    /// The display name that the manifest gives.
    Name(String),
}

/// A `ManifestRead` as the contracts speak of it.
pub enum ManifestReadView {
    Missing,
    Unreadable,
    Malformed,
    Name(Seq<char>),
}

impl View for ManifestRead {
    type V = ManifestReadView;

    open spec fn view(&self) -> ManifestReadView {
        match *self {
            ManifestRead::Missing => ManifestReadView::Missing,
            ManifestRead::Unreadable => ManifestReadView::Unreadable,
            ManifestRead::Malformed => ManifestReadView::Malformed,
            ManifestRead::Name(name) => ManifestReadView::Name(name@),
        }
    }
}

} // verus!
