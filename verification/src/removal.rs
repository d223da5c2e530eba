//! How the entries of a file are removed from the cache.
use vstd::prelude::*;

use crate::layout::{entry_paths, fail_marker_path};
use crate::path::{FilePath, PathView};
use crate::size::{all_sizes, ThumbnailSize};
use crate::uri::{
    cache_filename, optional_uri, thumbnail_cache_filename, thumbnail_uri_from_path, view_of,
};
use crate::walk::FileKind;

verus! {

/// How the removal of one file ended.
#[derive(Copy, Clone, Debug, PartialEq, Eq, Structural)]
pub enum RemoveOutcome {
    /// The file is removed.
    Removed,
    /// There was no such file.
    NotFound,
    /// The file could not be removed.
    Failed,
}

/// Whether the file is gone: one that was not there is.
pub fn remove_file_if_exists(outcome: RemoveOutcome) -> (gone: bool)
    ensures
        gone <==> outcome == RemoveOutcome::Removed || outcome == RemoveOutcome::NotFound,
{
    match outcome {
        RemoveOutcome::Removed => true,
        RemoveOutcome::NotFound => true,
        RemoveOutcome::Failed => false,
    }
}

/// A removal as a view: the files, how many of them are gone, and whether one could not be removed.
#[verifier::ext_equal]
pub struct RemovalView {
    pub paths: Seq<PathView>,
    pub gone: nat,
    pub failed: bool,
}

impl RemovalView {
    /// The removal of the given files, before the first of them.
    pub open spec fn of(paths: Seq<PathView>) -> RemovalView {
        RemovalView { paths, gone: 0, failed: false }
    }

    /// The file that is to be removed next; none once all are gone or one could not be removed.
    pub open spec fn next(self) -> Option<PathView> {
        if self.failed || self.gone >= self.paths.len() {
            None
        } else {
            Some(self.paths[self.gone as int])
        }
    }

    /// The removal after the next file.
    pub open spec fn after(self, outcome: RemoveOutcome) -> RemovalView {
        if self.next() is None {
            self
        } else if outcome == RemoveOutcome::Failed {
            RemovalView { failed: true, ..self }
        } else {
            RemovalView { gone: self.gone + 1, ..self }
        }
    }

    /// The removal after several files.
    pub open spec fn after_all(self, outcomes: Seq<RemoveOutcome>) -> RemovalView
        decreases outcomes.len(),
    {
        if outcomes.len() == 0 {
            self
        } else {
            self.after_all(outcomes.drop_last()).after(outcomes.last())
        }
    }
}

/// Files that are to be removed, one after the other, up to the first that cannot be.
#[derive(Debug, PartialEq, Eq)]
pub struct Removal {
    paths: Vec<FilePath>,
    gone: usize,
    failed: bool,
}

impl View for Removal {
    type V = RemovalView;

    closed spec fn view(&self) -> RemovalView {
        RemovalView {
            paths: self.paths@.map_values(|path: FilePath| path@),
            gone: self.gone as nat,
            failed: self.failed,
        }
    }
}

impl Removal {
    #[verifier::type_invariant]
    spec fn is_within_paths(self) -> bool {
        self.gone <= self.paths@.len()
    }

    /// A removal of nothing.
    fn nothing() -> (removal: Removal)
        ensures
            removal@ == RemovalView::of(Seq::empty()),
    {
        let removal = Removal { paths: Vec::new(), gone: 0, failed: false };
        assert(removal@ =~= RemovalView::of(Seq::empty()));
        removal
    }

    /// The file that is to be removed next; none once all are gone or one could not be removed.
    pub fn next(&self) -> (path: Option<&FilePath>)
        ensures
            view_of(path) == self@.next(),
    {
        if self.failed || self.gone >= self.paths.len() {
            None
        } else {
            Some(&self.paths[self.gone])
        }
    }

    /// Takes note of how the removal of the next file ended.
    pub fn record(&mut self, outcome: RemoveOutcome)
        ensures
            final(self)@ == old(self)@.after(outcome),
    {
        if !self.failed && self.gone < self.paths.len() {
            if remove_file_if_exists(outcome) {
                self.gone = self.gone + 1;
            } else {
                self.failed = true;
            }
        }
    }

    /// Whether no file has been met so far that could not be removed.
    pub fn succeeded(&self) -> (succeeded: bool)
        ensures
            succeeded == !self@.failed,
    {
        !self.failed
    }
}

/// The removal of everything that the cache can have under a name: the thumbnail of each size, and
/// then the fail marker.
pub fn remove_cached_entries(cache_base_dir: &FilePath, cache_filename: &str) -> (removal: Removal)
    ensures
        removal@ == RemovalView::of(entry_paths(cache_base_dir@, cache_filename@)),
{
    let ghost entries = entry_paths(cache_base_dir@, cache_filename@);
    let mut paths: Vec<FilePath> = Vec::new();
    let sizes: [ThumbnailSize; 4] = ThumbnailSize::ALL;
    let mut next: usize = 0;
    while next < 4
        invariant
            next <= 4,
            sizes@ == all_sizes(),
            entries == entry_paths(cache_base_dir@, cache_filename@),
            paths@.len() == next,
            forall|i: int| 0 <= i < next ==> (#[trigger] paths@[i])@ == entries[i],
        decreases 4 - next,
    {
        let size: ThumbnailSize = sizes[next];
        assert(size == all_sizes()[next as int]);
        let path = cache_base_dir.join_text(size.subdirectory_name()).join_text(cache_filename);
        assert(path@ == entries[next as int]);
        paths.push(path);
        next += 1;
    }
    paths.push(fail_marker_path(cache_base_dir, cache_filename));
    let removal = Removal { paths, gone: 0, failed: false };
    assert(removal@.paths =~= entries);
    removal
}

/// The removal of everything that the cache has for a URI; of nothing without a URI or a cache.
pub open spec fn removal_for(base: Option<PathView>, uri: Option<Seq<char>>) -> RemovalView {
    if base is Some && uri is Some {
        RemovalView::of(entry_paths(base->0, cache_filename(uri->0)))
    } else {
        RemovalView::of(Seq::empty())
    }
}

/// The removal of everything that the cache has for `file_uri`.
pub fn remove_thumbnails_for_uri(file_uri: &str, cache_base_dir: Option<&FilePath>) -> (removal: Removal)
    ensures
        removal@ == removal_for(view_of(cache_base_dir), Some(file_uri@)),
{
    match cache_base_dir {
        Some(base) => {
            let filename = thumbnail_cache_filename(file_uri);
            remove_cached_entries(base, filename.as_str())
        },
        None => Removal::nothing(),
    }
}

/// The removal of everything that the cache has for a path that needs no resolving.
pub fn remove_thumbnails_for_canonical_path(
    path: &FilePath,
    cache_base_dir: Option<&FilePath>,
) -> (removal: Removal)
    ensures
        removal@ == removal_for(view_of(cache_base_dir), optional_uri(Some(path@))),
{
    match thumbnail_uri_from_path(path) {
        Ok(file_uri) => remove_thumbnails_for_uri(file_uri.as_str(), cache_base_dir),
        Err(_) => Removal::nothing(),
    }
}

/// The removal of everything that the cache has for a file of the given kind, whose URI is
/// `file_uri`, if it has one. A symbolic link has no thumbnails of its own.
pub fn remove_thumbnails(
    kind: Option<FileKind>,
    file_uri: Option<&str>,
    cache_base_dir: Option<&FilePath>,
) -> (removal: Removal)
    ensures
        kind == Some(FileKind::Symlink) ==> removal@ == RemovalView::of(Seq::empty()),
        kind != Some(FileKind::Symlink) ==> removal@ == removal_for(
            view_of(cache_base_dir),
            match file_uri {
                Some(uri) => Some(uri@),
                None => None,
            },
        ),
{
    match kind {
        Some(FileKind::Symlink) => Removal::nothing(),
        _ => match file_uri {
            Some(uri) => remove_thumbnails_for_uri(uri, cache_base_dir),
            None => Removal::nothing(),
        },
    }
}

/// As long as nothing fails, the files go one by one, in order, and all of them in the end.
pub proof fn removal_goes_through_all_paths(paths: Seq<PathView>, outcomes: Seq<RemoveOutcome>)
    requires
        outcomes.len() <= paths.len(),
        !outcomes.contains(RemoveOutcome::Failed),
    ensures
        RemovalView::of(paths).after_all(outcomes) == (RemovalView {
            paths,
            gone: outcomes.len(),
            failed: false,
        }),
        outcomes.len() < paths.len() ==> RemovalView::of(paths).after_all(outcomes).next() == Some(
            paths[outcomes.len() as int],
        ),
        outcomes.len() == paths.len() ==> RemovalView::of(paths).after_all(outcomes).next() is None,
    decreases outcomes.len(),
{
    if outcomes.len() > 0 {
        let shorter = outcomes.drop_last();
        assert forall|i: int| 0 <= i < shorter.len() implies shorter[i] != RemoveOutcome::Failed by {
            assert(outcomes.contains(outcomes[i]));
        }
        assert(outcomes.contains(outcomes.last()));
        removal_goes_through_all_paths(paths, shorter);
    }
}

/// The first failure ends the removal: the files after it stay, whatever comes later.
pub proof fn removal_stops_at_first_failure(
    paths: Seq<PathView>,
    before: Seq<RemoveOutcome>,
    later: Seq<RemoveOutcome>,
)
    requires
        before.len() < paths.len(),
        !before.contains(RemoveOutcome::Failed),
    ensures
        RemovalView::of(paths).after_all(before.push(RemoveOutcome::Failed) + later) == (RemovalView {
            paths,
            gone: before.len(),
            failed: true,
        }),
        RemovalView::of(paths).after_all(before.push(RemoveOutcome::Failed) + later).next() is None,
    decreases later.len(),
{
    let stopped = before.push(RemoveOutcome::Failed);
    let outcomes = stopped + later;
    if later.len() == 0 {
        assert(outcomes.drop_last() =~= before);
        removal_goes_through_all_paths(paths, before);
    } else {
        assert(outcomes.drop_last() =~= stopped + later.drop_last());
        removal_stops_at_first_failure(paths, before, later.drop_last());
    }
}

/// With a cache and a URI, everything under the name of the URI is still to be removed; without
/// one of them, nothing is.
pub proof fn removal_is_for_all_entries_of_the_uri(base: Option<PathView>, uri: Option<Seq<char>>)
    ensures
        removal_for(base, uri).gone == 0,
        !removal_for(base, uri).failed,
        base is None || uri is None ==> removal_for(base, uri).paths.len() == 0
            && removal_for(base, uri).next() is None,
        base is Some && uri is Some ==> removal_for(base, uri).paths == entry_paths(
            base->0,
            cache_filename(uri->0),
        ) && removal_for(base, uri).next() == Some(
            entry_paths(base->0, cache_filename(uri->0))[0],
        ),
{
}

} // verus!
