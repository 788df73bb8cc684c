//! Where the game libraries are: the paths to look at, and what the index
//! files found there add up to.

use crate::text::{join_path, joined, texts};
use vstd::prelude::*;

verus! {

/// The places below the home directory where a Steam installation is looked
/// for when none is named, in the order in which they are tried.
pub open spec fn default_installations() -> Seq<Seq<char>> {
    seq![".local/share/Steam"@, ".var/app/com.valvesoftware.Steam/data/Steam"@]
}

/// The installations to look at: the one that is named, else the default ones.
pub open spec fn installations_of(named: Option<Seq<char>>) -> Seq<Seq<char>> {
    match named {
        Some(dir) => seq![dir],
        None => default_installations(),
    }
}

/// The index of library folders that the installation at `dir` keeps, `dir`
/// taken from the home directory.
pub open spec fn index_path_of(home: Seq<char>, dir: Seq<char>) -> Seq<char> {
    joined(joined(home, dir), "steamapps/libraryfolders.vdf"@)
}

/// The index files to read, in the order in which their folders count.
pub open spec fn index_paths_of(home: Seq<char>, named: Option<Seq<char>>) -> Seq<Seq<char>> {
    installations_of(named).map_values(|dir: Seq<char>| index_path_of(home, dir))
}

/// The directory of a library in which downloads keep their state files.
pub open spec fn download_dir_of(root: Seq<char>) -> Seq<char> {
    joined(root, "steamapps/downloading"@)
}

/// The path of the index file of the installation at `dir`.
pub fn index_path(home: &str, dir: &str) -> (path: String)
    ensures
        path@ == index_path_of(home@, dir@),
{
    let installation = join_path(home, dir);
    join_path(installation.as_str(), "steamapps/libraryfolders.vdf")
}

/// The paths of the index files to read for the user whose home directory is
/// `home`; `named` is the installation that the environment names, if it
/// names one.
pub fn index_paths(home: &str, named: Option<&str>) -> (paths: Vec<String>)
    ensures
        texts(paths@) == index_paths_of(
            home@,
            match named {
                Some(dir) => Some(dir@),
                None => None,
            },
        ),
{
    let mut paths: Vec<String> = Vec::new();
    match named {
        Some(dir) => {
            paths.push(index_path(home, dir));
        },
        None => {
            paths.push(index_path(home, ".local/share/Steam"));
            paths.push(index_path(home, ".var/app/com.valvesoftware.Steam/data/Steam"));
        },
    }
    assert(texts(paths@) =~= index_paths_of(
        home@,
        match named {
            Some(dir) => Some(dir@),
            None => None,
        },
    ));
    paths
}

/// The directory to watch for the library at `root`.
pub fn download_dir(root: &str) -> (path: String)
    ensures
        path@ == download_dir_of(root@),
{
    join_path(root, "steamapps/downloading")
}

/// What came of reading one index file.
#[derive(Clone, Debug, PartialEq, Eq)]
pub enum IndexRead {
    /// The file is not there, or its text could not be read.
    Unreadable,
    /// The file was read, and is no index of library folders.
    Malformed,
    /// The paths of the library folders that the index lists, in its order.
    Folders(Vec<String>),
}

/// An `IndexRead` as the contracts speak of it.
pub enum IndexReadView {
    Unreadable,
    Malformed,
    Folders(Seq<Seq<char>>),
}

impl View for IndexRead {
    type V = IndexReadView;

    open spec fn view(&self) -> IndexReadView {
        match *self {
            IndexRead::Unreadable => IndexReadView::Unreadable,
            IndexRead::Malformed => IndexReadView::Malformed,
            IndexRead::Folders(folders) => IndexReadView::Folders(texts(folders@)),
        }
    }
}

/// The view of each read.
pub open spec fn reads_view(reads: Seq<IndexRead>) -> Seq<IndexReadView> {
    Seq::new(reads.len(), |i: int| reads[i]@)
}

/// The folders that one read adds.
pub open spec fn folders_of(read: IndexReadView) -> Seq<Seq<char>> {
    match read {
        IndexReadView::Folders(folders) => folders,
        _ => Seq::empty(),
    }
}

/// The folders of all reads, one read after the other.
pub open spec fn all_folders(reads: Seq<IndexReadView>) -> Seq<Seq<char>>
    decreases reads.len(),
{
    if reads.len() == 0 {
        Seq::empty()
    } else {
        all_folders(reads.drop_last()) + folders_of(reads.last())
    }
}

/// Whether one of the reads found a file that is no index.
pub open spec fn any_malformed(reads: Seq<IndexReadView>) -> bool {
    exists|i: int| 0 <= i < reads.len() && (#[trigger] reads[i]) is Malformed
}

/// The library roots that the reads add up to. The search never fails: where
/// one index is malformed there are no roots at all; an index that could not
/// be read adds none.
pub open spec fn roots_of(reads: Seq<IndexReadView>) -> Seq<Seq<char>> {
    if any_malformed(reads) {
        Seq::empty()
    } else {
        all_folders(reads)
    }
}

/// Puts together the library roots from what reading the index files gave,
/// `reads` in the order of the files.
pub fn get_library_paths(reads: &Vec<IndexRead>) -> (roots: Vec<String>)
    ensures
        texts(roots@) == roots_of(reads_view(reads@)),
{
    let ghost views = reads_view(reads@);
    let mut roots: Vec<String> = Vec::new();
    let mut i: usize = 0;
    while i < reads.len()
        invariant
            0 <= i <= reads.len(),
            views == reads_view(reads@),
            !any_malformed(views.take(i as int)),
            texts(roots@) == all_folders(views.take(i as int)),
        decreases reads.len() - i,
    {
        assert(views.take(i + 1).drop_last() =~= views.take(i as int));
        assert(views.take(i + 1).last() == reads[i as int]@);
        match &reads[i] {
            IndexRead::Unreadable => {},
            IndexRead::Malformed => {
                assert(views[i as int] is Malformed);
                return Vec::new();
            },
            IndexRead::Folders(folders) => {
                let ghost before = roots@;
                let mut j: usize = 0;
                while j < folders.len()
                    invariant
                        0 <= j <= folders.len(),
                        texts(roots@) == texts(before) + texts(folders@).take(j as int),
                    decreases folders.len() - j,
                {
                    let ghost so_far = roots@;
                    roots.push(folders[j].clone());
                    assert(texts(roots@) =~= texts(so_far).push(folders[j as int]@));
                    assert(texts(folders@).take(j + 1) =~= texts(folders@).take(j as int).push(
                        folders[j as int]@,
                    ));
                    j = j + 1;
                }
                assert(texts(folders@).take(j as int) =~= texts(folders@));
            },
        }
        assert(!any_malformed(views.take(i + 1))) by {
            if any_malformed(views.take(i + 1)) {
                let k = choose|k: int|
                    0 <= k < views.take(i + 1).len() && (#[trigger] views.take(i + 1)[k])
                        is Malformed;
                if k < i {
                    assert(views.take(i as int)[k] is Malformed);
                }
            }
        }
        i = i + 1;
    }
    assert(views.take(i as int) =~= views);
    roots
}

} // verus!
