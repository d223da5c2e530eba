//! What a renamed or deleted directory means for the cache.
use vstd::prelude::*;

use crate::path::{FilePath, PathView};
use crate::uri::view_of;

verus! {

/// What a file is, without following a symbolic link.
#[derive(Copy, Clone, Debug, PartialEq, Eq, Structural)]
pub enum FileKind {
    Directory,
    Symlink,
    Other,
}

/// A file that was met on a walk through a directory.
#[derive(Debug, PartialEq, Eq)]
pub struct WalkEntry {
    pub path: FilePath,
    pub kind: FileKind,
}

impl View for WalkEntry {
    type V = (PathView, FileKind);

    open spec fn view(&self) -> (PathView, FileKind) {
        (self.path@, self.kind)
    }
}

/// The entries of a walk.
pub open spec fn walked(entries: Seq<WalkEntry>) -> Seq<(PathView, FileKind)> {
    entries.map_values(|entry: WalkEntry| entry@)
}

/// A file that has moved with the directory above it.
#[derive(Debug, PartialEq, Eq)]
pub struct TreeMove {
    pub old_path: FilePath,
    pub new_path: FilePath,
}

impl View for TreeMove {
    type V = (PathView, PathView);

    open spec fn view(&self) -> (PathView, PathView) {
        (self.old_path@, self.new_path@)
    }
}

/// The old and the new path of a walked file that has moved. Directories and symbolic links have no
/// thumbnails to move.
pub open spec fn moved(old_root: PathView, new_root: PathView, entry: (PathView, FileKind)) -> Option<
    (PathView, PathView),
> {
    if entry.1 == FileKind::Other && entry.0.starts_with(new_root) {
        Some((old_root.join(entry.0.strip_prefix(new_root)->0), entry.0))
    } else {
        None
    }
}

/// The old and new paths of all the walked files that have moved, in the order of the walk.
pub open spec fn all_moved(
    old_root: PathView,
    new_root: PathView,
    entries: Seq<(PathView, FileKind)>,
) -> Seq<(PathView, PathView)>
    decreases entries.len(),
{
    if entries.len() == 0 {
        Seq::empty()
    } else {
        let before = all_moved(old_root, new_root, entries.drop_last());
        match moved(old_root, new_root, entries.last()) {
            Some(paths) => before.push(paths),
            None => before,
        }
    }
}

/// The moves whose thumbnails have to be relocated after `old_root` became `new_root`, from a walk
/// through `new_root`. Without a cache there are none.
pub fn relocate_thumbnails_tree(
    old_root: &FilePath,
    new_root: &FilePath,
    cache_base_dir: Option<&FilePath>,
    entries: &Vec<WalkEntry>,
) -> (moves: Vec<TreeMove>)
    ensures
        cache_base_dir is None ==> moves@.len() == 0,
        cache_base_dir is Some ==> moves@.map_values(|one: TreeMove| one@) == all_moved(
            old_root@,
            new_root@,
            walked(entries@),
        ),
{
    if cache_base_dir.is_none() {
        return Vec::new();
    }
    relocate_thumbnails_tree_in(old_root, new_root, entries)
}

/// The moves whose thumbnails have to be relocated after `old_root` became `new_root`.
pub fn relocate_thumbnails_tree_in(
    old_root: &FilePath,
    new_root: &FilePath,
    entries: &Vec<WalkEntry>,
) -> (moves: Vec<TreeMove>)
    ensures
        moves@.map_values(|one: TreeMove| one@) == all_moved(
            old_root@,
            new_root@,
            walked(entries@),
        ),
{
    let ghost all = walked(entries@);
    let mut moves: Vec<TreeMove> = Vec::new();
    let mut next: usize = 0;
    while next < entries.len()
        invariant
            next <= entries@.len(),
            all == walked(entries@),
            moves@.map_values(|one: TreeMove| one@) == all_moved(
                old_root@,
                new_root@,
                all.take(next as int),
            ),
        decreases entries@.len() - next,
    {
        let ghost before = moves@.map_values(|one: TreeMove| one@);
        assert(all.take(next + 1).drop_last() =~= all.take(next as int));
        assert(all.take(next + 1).last() == entries@[next as int]@);
        let entry = &entries[next];
        if let FileKind::Other = entry.kind {
            if let Some(relative) = entry.path.strip_prefix(new_root) {
                let one = TreeMove {
                    old_path: old_root.join(&relative),
                    new_path: entry.path.clone(),
                };
                let ghost paths = one@;
                moves.push(one);
                assert(moves@.map_values(|one: TreeMove| one@) =~= before.push(paths));
            }
        }
        next += 1;
    }
    assert(all.take(next as int) =~= all);
    moves
}

/// What is below a renamed directory keeps its place there: its old path is below the old root
/// where its new path is below the new one, and only files that are no directories or symbolic
/// links move. (Nothing can be said of the empty path as the new root where a path is absolute or
/// begins with `.`.)
pub proof fn moves_keep_relative_paths(
    old_root: PathView,
    new_root: PathView,
    entries: Seq<(PathView, FileKind)>,
    index: int,
)
    requires
        0 <= index < all_moved(old_root, new_root, entries).len(),
        forall|i: int| 0 <= i < entries.len() ==> (#[trigger] entries[i]).0.well_formed(),
        new_root.is_empty() ==> old_root.is_empty() || {
            let new_path = all_moved(old_root, new_root, entries)[index].1;
            !new_path.absolute && !new_path.is_dotted()
        },
    ensures
        ({
            let (old_path, new_path) = all_moved(old_root, new_root, entries)[index];
            &&& entries.contains((new_path, FileKind::Other))
            &&& new_path.strip_prefix(new_root) is Some
            &&& old_path.strip_prefix(old_root) == new_path.strip_prefix(new_root)
        }),
    decreases entries.len(),
{
    let shorter = entries.drop_last();
    let before = all_moved(old_root, new_root, shorter);
    let (old_path, new_path) = all_moved(old_root, new_root, entries)[index];
    if index < before.len() {
        moves_keep_relative_paths(old_root, new_root, shorter, index);
        let place = choose|i: int| 0 <= i < shorter.len() && shorter[i] == (new_path, FileKind::Other);
        assert(entries[place] == (new_path, FileKind::Other));
    } else {
        assert(entries[entries.len() - 1] == (new_path, FileKind::Other));
        let relative = new_path.strip_prefix(new_root)->0;
        if !relative.absolute {
            crate::path::strip_prefix_undoes_join(old_root, relative);
            if relative.is_dotted() && !new_root.is_empty() {
                let place = new_root.components.len() as int;
                assert(entries[entries.len() - 1].0.well_formed());
                assert(relative.components[0] == new_path.components[place]);
            }
        }
    }
}

/// Every file on the walk that is below the renamed directory, and no directory or symbolic link,
/// is among the moves.
pub proof fn every_moved_file_is_listed(
    old_root: PathView,
    new_root: PathView,
    entries: Seq<(PathView, FileKind)>,
    index: int,
)
    requires
        0 <= index < entries.len(),
        entries[index].1 == FileKind::Other,
        entries[index].0.starts_with(new_root),
    ensures
        all_moved(old_root, new_root, entries).contains(
            (
                old_root.join(entries[index].0.strip_prefix(new_root)->0),
                entries[index].0,
            ),
        ),
    decreases entries.len(),
{
    let shorter = entries.drop_last();
    let before = all_moved(old_root, new_root, shorter);
    let all = all_moved(old_root, new_root, entries);
    let wanted = (old_root.join(entries[index].0.strip_prefix(new_root)->0), entries[index].0);
    if index < shorter.len() {
        every_moved_file_is_listed(old_root, new_root, shorter, index);
        let place = choose|i: int| 0 <= i < before.len() && before[i] == wanted;
        assert(all[place] == wanted);
    } else {
        assert(all[all.len() - 1] == wanted);
    }
}

/// Whose thumbnails a deletion leaves behind, as a view.
pub enum RemovalScopeView {
    Nothing,
    File,
    Tree(Seq<PathView>),
}

/// Whose thumbnails a deletion leaves behind.
#[derive(Debug, PartialEq, Eq)]
pub enum RemovalScope {
    /// Nobody's.
    Nothing,
    /// Those of the file itself.
    File,
    /// Those of each of the paths.
    Tree(Vec<FilePath>),
}

impl View for RemovalScope {
    type V = RemovalScopeView;

    open spec fn view(&self) -> RemovalScopeView {
        match self {
            RemovalScope::Nothing => RemovalScopeView::Nothing,
            RemovalScope::File => RemovalScopeView::File,
            RemovalScope::Tree(paths) => RemovalScopeView::Tree(
                paths@.map_values(|path: FilePath| path@),
            ),
        }
    }
}

/// The directory through which the walk goes: the resolved one, where it can be resolved.
pub open spec fn walk_root(path: PathView, canonical: Option<PathView>) -> PathView {
    match canonical {
        Some(resolved) => resolved,
        None => path,
    }
}

/// The paths of the walked files that are no symbolic links, in the order of the walk.
pub open spec fn unlinked(entries: Seq<(PathView, FileKind)>) -> Seq<PathView>
    decreases entries.len(),
{
    if entries.len() == 0 {
        Seq::empty()
    } else if entries.last().1 == FileKind::Symlink {
        unlinked(entries.drop_last())
    } else {
        unlinked(entries.drop_last()).push(entries.last().0)
    }
}

/// The directory through which the walk goes.
pub fn removal_root(path: &FilePath, canonical: Option<&FilePath>) -> (root: FilePath)
    ensures
        root@ == walk_root(path@, view_of(canonical)),
{
    match canonical {
        Some(resolved) => resolved.clone(),
        None => path.clone(),
    }
}

/// Whose thumbnails go with the file at `path`, of the given kind, which resolves to `canonical`:
/// nobody's if the file cannot be inspected or is a symbolic link, for a directory its own and
/// those of everything on a walk through it but symbolic links.
pub fn remove_thumbnails_recursive(
    path: &FilePath,
    kind: Option<FileKind>,
    canonical: Option<&FilePath>,
    entries: &Vec<WalkEntry>,
) -> (scope: RemovalScope)
    ensures
        scope@ == (match kind {
            None => RemovalScopeView::Nothing,
            Some(FileKind::Symlink) => RemovalScopeView::Nothing,
            Some(FileKind::Other) => RemovalScopeView::File,
            Some(FileKind::Directory) => RemovalScopeView::Tree(
                seq![walk_root(path@, view_of(canonical))] + unlinked(walked(entries@)),
            ),
        }),
{
    match kind {
        None => RemovalScope::Nothing,
        Some(FileKind::Symlink) => RemovalScope::Nothing,
        Some(FileKind::Other) => RemovalScope::File,
        Some(FileKind::Directory) => {
            let root = removal_root(path, canonical);
            let ghost start = root@;
            let ghost all = walked(entries@);
            let mut paths: Vec<FilePath> = Vec::new();
            paths.push(root);
            assert(paths@.map_values(|path: FilePath| path@) =~= seq![start] + unlinked(
                all.take(0),
            ));
            let mut next: usize = 0;
            while next < entries.len()
                invariant
                    next <= entries@.len(),
                    all == walked(entries@),
                    paths@.map_values(|path: FilePath| path@) == seq![start] + unlinked(
                        all.take(next as int),
                    ),
                decreases entries@.len() - next,
            {
                let ghost before = paths@.map_values(|path: FilePath| path@);
                assert(all.take(next + 1).drop_last() =~= all.take(next as int));
                assert(all.take(next + 1).last() == entries@[next as int]@);
                let entry = &entries[next];
                match entry.kind {
                    FileKind::Symlink => {},
                    _ => {
                        let path = entry.path.clone();
                        let ghost added = path@;
                        paths.push(path);
                        assert(paths@.map_values(|path: FilePath| path@) =~= before.push(added));
                    },
                }
                assert(paths@.map_values(|path: FilePath| path@) =~= seq![start] + unlinked(
                    all.take(next + 1),
                ));
                next += 1;
            }
            assert(all.take(next as int) =~= all);
            RemovalScope::Tree(paths)
        },
    }
}

/// The thumbnails of everything on the walk but symbolic links go, and of nothing else on it.
pub proof fn unlinked_leaves_out_links_only(entries: Seq<(PathView, FileKind)>, path: PathView)
    ensures
        unlinked(entries).contains(path) <==> entries.contains((path, FileKind::Directory))
            || entries.contains((path, FileKind::Other)),
    decreases entries.len(),
{
    if entries.len() > 0 {
        let shorter = entries.drop_last();
        let last = entries.last();
        unlinked_leaves_out_links_only(shorter, path);
        assert(shorter.push(last) =~= entries);
        assert forall|entry: (PathView, FileKind)| #[trigger]
            entries.contains(entry) <==> shorter.contains(entry) || entry == last by {
            vstd::seq_lib::lemma_seq_contains_after_push(shorter, last, entry);
        }
        if last.1 != FileKind::Symlink {
            vstd::seq_lib::lemma_seq_contains_after_push(unlinked(shorter), last.0, path);
        }
    }
}

/// The moves of a walk are those of its parts, one after the other.
pub proof fn moves_of_parts(
    old_root: PathView,
    new_root: PathView,
    first: Seq<(PathView, FileKind)>,
    second: Seq<(PathView, FileKind)>,
)
    ensures
        all_moved(old_root, new_root, first + second) == all_moved(old_root, new_root, first)
            + all_moved(old_root, new_root, second),
    decreases second.len(),
{
    if second.len() == 0 {
        assert(first + second =~= first);
        assert(all_moved(old_root, new_root, first) + all_moved(old_root, new_root, second)
            =~= all_moved(old_root, new_root, first));
    } else {
        assert((first + second).drop_last() =~= first + second.drop_last());
        moves_of_parts(old_root, new_root, first, second.drop_last());
        assert(all_moved(old_root, new_root, first + second) =~= all_moved(
            old_root,
            new_root,
            first,
        ) + all_moved(old_root, new_root, second));
    }
}

/// A file on the walk that is neither a directory nor a symbolic link and stands below the new root
/// is one move, from the place below the old root that has the same components behind it; anything
/// else is none. (Below the empty path stands everything, as it is.)
pub proof fn moves_of_one_entry(old_root: PathView, new_root: PathView, entry: (PathView, FileKind))
    requires
        entry.0.well_formed(),
    ensures
        ({
            let moves = all_moved(old_root, new_root, seq![entry]);
            let n = new_root.components.len() as int;
            if !new_root.absolute && n == 0 {
                moves == if entry.1 == FileKind::Other {
                    seq![(old_root.join(entry.0), entry.0)]
                } else {
                    Seq::empty()
                }
            } else if entry.1 == FileKind::Other && entry.0.absolute == new_root.absolute && n
                <= entry.0.components.len() && (forall|i: int|
                0 <= i < n ==> entry.0.components[i] == #[trigger] new_root.components[i]) {
                moves == seq![
                    (
                        PathView {
                            absolute: old_root.absolute,
                            components: old_root.components + entry.0.components.skip(n),
                        },
                        entry.0,
                    ),
                ]
            } else {
                moves.len() == 0
            }
        }),
{
    let n = new_root.components.len() as int;
    let rest = entry.0.components.skip(n);
    assert(seq![entry].drop_last() =~= Seq::empty());
    reveal_with_fuel(all_moved, 2);
    crate::path::prefixes_are_made_of_components(entry.0, new_root);
    if new_root.is_empty() {
        assert(all_moved(old_root, new_root, seq![entry]) =~= if entry.1 == FileKind::Other {
            seq![(old_root.join(entry.0), entry.0)]
        } else {
            Seq::empty()
        });
    } else if entry.1 == FileKind::Other && entry.0.starts_with(new_root) {
        let relative = entry.0.strip_prefix(new_root)->0;
        assert(!relative.is_dotted()) by {
            if relative.is_dotted() {
                assert(relative.components[0] == entry.0.components[n]);
                assert(crate::path::is_component_at(entry.0.components[n], n, entry.0.absolute));
            }
        }
        assert(old_root.join(relative).components =~= old_root.components + rest);
        assert(all_moved(old_root, new_root, seq![entry]) =~= seq![
            (
                PathView {
                    absolute: old_root.absolute,
                    components: old_root.components + rest,
                },
                entry.0,
            ),
        ]);
    }
}

/// What is left of a walk without the symbolic links is what is left of its parts, one after the
/// other.
pub proof fn unlinked_of_parts(first: Seq<(PathView, FileKind)>, second: Seq<(PathView, FileKind)>)
    ensures
        unlinked(first + second) == unlinked(first) + unlinked(second),
    decreases second.len(),
{
    if second.len() == 0 {
        assert(first + second =~= first);
        assert(unlinked(first) + unlinked(second) =~= unlinked(first));
    } else {
        assert((first + second).drop_last() =~= first + second.drop_last());
        unlinked_of_parts(first, second.drop_last());
        assert(unlinked(first + second) =~= unlinked(first) + unlinked(second));
    }
}

/// What is left of one entry is its path, unless it is a symbolic link.
pub proof fn unlinked_of_one_entry(entry: (PathView, FileKind))
    ensures
        entry.1 == FileKind::Symlink ==> unlinked(seq![entry]) == Seq::<PathView>::empty(),
        entry.1 != FileKind::Symlink ==> unlinked(seq![entry]) == seq![entry.0],
{
    assert(seq![entry].drop_last() =~= Seq::empty());
    reveal_with_fuel(unlinked, 2);
    if entry.1 != FileKind::Symlink {
        assert(unlinked(seq![entry]) =~= seq![entry.0]);
    }
}

/// The walk goes through the resolved directory where there is one, else through the given one.
pub proof fn walk_starts_at_the_resolved_directory(path: PathView, resolved: PathView)
    ensures
        walk_root(path, Some(resolved)) == resolved,
        walk_root(path, None) == path,
{
}

/// Every entry of a walk counts, in order, with its path and its kind.
pub proof fn walks_keep_their_entries(entries: Seq<WalkEntry>, index: int)
    requires
        0 <= index < entries.len(),
    ensures
        walked(entries).len() == entries.len(),
        walked(entries)[index] == (entries[index].path@, entries[index].kind),
{
}

/// A move is an old path and a new path, and a scope names what it holds.
pub proof fn moves_and_scopes_name_their_paths(one: TreeMove, paths: Vec<FilePath>, index: int)
    requires
        0 <= index < paths@.len(),
    ensures
        one@ == (one.old_path@, one.new_path@),
        RemovalScope::Nothing@ == RemovalScopeView::Nothing,
        RemovalScope::File@ == RemovalScopeView::File,
        RemovalScope::Tree(paths)@ matches RemovalScopeView::Tree(named) && named.len()
            == paths@.len() && named[index] == paths@[index]@,
{
}

} // verus!
