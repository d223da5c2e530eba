//! Where the entries of the cache stand.
use vstd::prelude::*;
use vstd::utf8::encode_utf8;

use crate::path::{FilePath, PathView};
use crate::size::ThumbnailSize;

verus! {

/// The directory of the fail markers of this version of the program.
pub open spec fn marker_directory() -> Seq<char> {
    "cosmic-files-0.1.0"@
}

/// The directory of the cache below the user's cache directory.
pub open spec fn base_below(cache_dir: PathView) -> PathView {
    cache_dir.join_text("thumbnails"@)
}

/// The directory of the thumbnails of a size.
pub open spec fn size_directory(base: PathView, size: ThumbnailSize) -> PathView {
    base.join_text(size.directory())
}

/// The thumbnail of a size under a name.
pub open spec fn thumbnail_entry(base: PathView, size: ThumbnailSize, filename: Seq<char>) -> PathView {
    size_directory(base, size).join_text(filename)
}

/// The fail marker under a name.
pub open spec fn fail_marker(base: PathView, filename: Seq<char>) -> PathView {
    base.join_text("fail"@).join_text(marker_directory()).join_text(filename)
}

/// The directory of the cache below the user's cache directory; without one nothing is cached.
pub fn thumbnail_cache_base_dir(cache_dir: Option<&FilePath>) -> (base: Option<FilePath>)
    ensures
        match cache_dir {
            Some(directory) => base matches Some(path) && path@ == base_below(directory@),
            None => base is None,
        },
{
    match cache_dir {
        Some(directory) => Some(directory.join_text("thumbnails")),
        None => None,
    }
}

/// Where the fail marker stands that has the name `cache_filename`.
pub fn fail_marker_path(cache_base_dir: &FilePath, cache_filename: &str) -> (path: FilePath)
    ensures
        path@ == fail_marker(cache_base_dir@, cache_filename@),
{
    cache_base_dir.join_text("fail").join_text("cosmic-files-0.1.0").join_text(cache_filename)
}

/// All the files that the cache can have under a name, in the order in which they are removed.
pub open spec fn entry_paths(base: PathView, filename: Seq<char>) -> Seq<PathView> {
    seq![
        thumbnail_entry(base, ThumbnailSize::Normal, filename),
        thumbnail_entry(base, ThumbnailSize::Large, filename),
        thumbnail_entry(base, ThumbnailSize::XLarge, filename),
        thumbnail_entry(base, ThumbnailSize::XXLarge, filename),
        fail_marker(base, filename),
    ]
}

/// A name that is one component of a path.
pub open spec fn is_file_name(name: Seq<char>) -> bool {
    crate::path::is_component(encode_utf8(name))
}

/// The names of the cache's own directories are components of a path, and tell the sizes and the
/// fail markers apart.
proof fn directory_names_are_components()
    ensures
        forall|size: ThumbnailSize| is_file_name(#[trigger] size.directory()),
        forall|size: ThumbnailSize|
            encode_utf8(#[trigger] size.directory()).len() == size.directory().len(),
        ThumbnailSize::Normal.directory().len() == 6,
        ThumbnailSize::Large.directory().len() == 5,
        ThumbnailSize::XLarge.directory().len() == 7,
        ThumbnailSize::XXLarge.directory().len() == 8,
        is_file_name("fail"@),
        is_file_name(marker_directory()),
        is_file_name("thumbnails"@),
{
    reveal_strlit("normal");
    reveal_strlit("large");
    reveal_strlit("x-large");
    reveal_strlit("xx-large");
    reveal_strlit("fail");
    reveal_strlit("cosmic-files-0.1.0");
    reveal_strlit("thumbnails");
    crate::path::ascii_name_is_one_component("fail"@);
    crate::path::ascii_name_is_one_component(marker_directory());
    crate::path::ascii_name_is_one_component("thumbnails"@);
    assert forall|size: ThumbnailSize| is_file_name(#[trigger] size.directory()) && encode_utf8(
        size.directory(),
    ).len() == size.directory().len() by {
        crate::path::ascii_name_is_one_component(size.directory());
    }
}

/// Joining a path with a name adds one component.
proof fn spelled_as_one_component(name: Seq<char>)
    requires
        is_file_name(name),
    ensures
        forall|base: PathView| #[trigger]
            base.join_text(name) == (PathView {
                absolute: base.absolute,
                components: base.components.push(encode_utf8(name)),
            }),
{
    crate::path::component_spells_itself(encode_utf8(name));
    assert forall|base: PathView| #[trigger]
        base.join_text(name) == (PathView {
            absolute: base.absolute,
            components: base.components.push(encode_utf8(name)),
        }) by {
        assert(base.join_text(name).components =~= base.components.push(encode_utf8(name)));
    }
}

/// Every entry of the cache stands below the cache's directory, thumbnails in the directory of
/// their size.
pub proof fn entries_stand_below_base(base: PathView, filename: Seq<char>, size: ThumbnailSize)
    requires
        is_file_name(filename),
    ensures
        thumbnail_entry(base, size, filename).starts_with(base),
        thumbnail_entry(base, size, filename).parent() == Some(size_directory(base, size)),
        fail_marker(base, filename).starts_with(base),
        fail_marker(base, filename).parent() == Some(
            base.join_text("fail"@).join_text(marker_directory()),
        ),
{
    directory_names_are_components();
    spelled_as_one_component(filename);
    spelled_as_one_component(size.directory());
    spelled_as_one_component("fail"@);
    spelled_as_one_component(marker_directory());
    let name = encode_utf8(filename);
    let thumbnail = thumbnail_entry(base, size, filename);
    let marker = fail_marker(base, filename);
    let directory = size_directory(base, size);
    let markers = base.join_text("fail"@).join_text(marker_directory());
    assert(is_file_name(size.directory()));
    assert(thumbnail.components == directory.components + seq![name]);
    assert(marker.components == markers.components + seq![name]);
    assert(thumbnail.components.subrange(0, base.components.len() as int) =~= base.components);
    assert(marker.components.subrange(0, base.components.len() as int) =~= base.components);
    assert(thumbnail.components.drop_last() =~= directory.components);
    assert(marker.components.drop_last() =~= markers.components);
}

/// What is removed under a name is all that the cache can have under it.
pub proof fn entry_paths_are_complete(base: PathView, filename: Seq<char>, size: ThumbnailSize)
    ensures
        entry_paths(base, filename).contains(thumbnail_entry(base, size, filename)),
        entry_paths(base, filename).contains(fail_marker(base, filename)),
{
    let paths = entry_paths(base, filename);
    assert(paths[0] == thumbnail_entry(base, ThumbnailSize::Normal, filename));
    assert(paths[1] == thumbnail_entry(base, ThumbnailSize::Large, filename));
    assert(paths[2] == thumbnail_entry(base, ThumbnailSize::XLarge, filename));
    assert(paths[3] == thumbnail_entry(base, ThumbnailSize::XXLarge, filename));
    assert(paths[4] == fail_marker(base, filename));
}

/// No two entries of the cache share a file: not two sizes, not two names, and not a thumbnail and
/// a fail marker.
pub proof fn entries_are_apart(
    base: PathView,
    filename: Seq<char>,
    other: Seq<char>,
    size: ThumbnailSize,
    other_size: ThumbnailSize,
)
    requires
        is_file_name(filename),
        is_file_name(other),
    ensures
        thumbnail_entry(base, size, filename) == thumbnail_entry(base, other_size, other) <==> size
            == other_size && filename == other,
        fail_marker(base, filename) == fail_marker(base, other) <==> filename == other,
        thumbnail_entry(base, size, filename) != fail_marker(base, other),
{
    directory_names_are_components();
    spelled_as_one_component(filename);
    spelled_as_one_component(other);
    spelled_as_one_component(size.directory());
    spelled_as_one_component(other_size.directory());
    spelled_as_one_component("fail"@);
    spelled_as_one_component(marker_directory());
    let n = base.components.len() as int;
    let left = thumbnail_entry(base, size, filename).components;
    let right = thumbnail_entry(base, other_size, other).components;
    assert(is_file_name(size.directory()) && is_file_name(other_size.directory()));
    assert(left[n] == encode_utf8(size.directory()) && left[n + 1] == encode_utf8(filename));
    assert(right[n] == encode_utf8(other_size.directory()) && right[n + 1] == encode_utf8(other));
    let marker = fail_marker(base, filename).components;
    let other_marker = fail_marker(base, other).components;
    assert(marker.len() == n + 3 && other_marker.len() == n + 3 && left.len() == n + 2);
    assert(marker[n + 2] == encode_utf8(filename) && other_marker[n + 2] == encode_utf8(other));
    vstd::utf8::encode_utf8_decode_utf8(filename);
    vstd::utf8::encode_utf8_decode_utf8(other);
    if filename == other {
        assert(marker =~= other_marker);
        if size == other_size {
            assert(left =~= right);
        }
    }
}

/// A thumbnail stands in the directory of its size, right below the directory of the cache, and a
/// fail marker in that of the program, below the one for failures; both under the given name.
pub proof fn entries_have_their_places(base: PathView, size: ThumbnailSize, filename: Seq<char>)
    requires
        is_file_name(filename),
    ensures
        ({
            let directory = match size {
                ThumbnailSize::Normal => "normal"@,
                ThumbnailSize::Large => "large"@,
                ThumbnailSize::XLarge => "x-large"@,
                ThumbnailSize::XXLarge => "xx-large"@,
            };
            &&& size_directory(base, size) == (PathView {
                absolute: base.absolute,
                components: base.components.push(encode_utf8(directory)),
            })
            &&& thumbnail_entry(base, size, filename) == (PathView {
                absolute: base.absolute,
                components: base.components.push(encode_utf8(directory)).push(
                    encode_utf8(filename),
                ),
            })
            &&& fail_marker(base, filename) == (PathView {
                absolute: base.absolute,
                components: base.components.push(encode_utf8("fail"@)).push(
                    encode_utf8("cosmic-files-0.1.0"@),
                ).push(encode_utf8(filename)),
            })
        }),
{
    directory_names_are_components();
    assert(is_file_name(size.directory()));
    spelled_as_one_component(filename);
    spelled_as_one_component(size.directory());
    spelled_as_one_component("fail"@);
    spelled_as_one_component(marker_directory());
}

/// The cache stands in one directory right below the user's cache directory.
pub proof fn cache_has_its_place(cache_dir: PathView)
    ensures
        base_below(cache_dir) == (PathView {
            absolute: cache_dir.absolute,
            components: cache_dir.components.push(encode_utf8("thumbnails"@)),
        }),
{
    directory_names_are_components();
    spelled_as_one_component("thumbnails"@);
}

/// What is removed under a name is a thumbnail of some size or the fail marker of that name, each
/// of them once.
pub proof fn entry_paths_hold_nothing_else(base: PathView, filename: Seq<char>, index: int)
    requires
        0 <= index < entry_paths(base, filename).len(),
    ensures
        entry_paths(base, filename).len() == 5,
        index < 4 ==> exists|size: ThumbnailSize|
            entry_paths(base, filename)[index] == #[trigger] thumbnail_entry(base, size, filename),
        index == 4 ==> entry_paths(base, filename)[index] == fail_marker(base, filename),
        is_file_name(filename) ==> forall|other: int|
            0 <= other < 5 && other != index ==> #[trigger] entry_paths(base, filename)[other]
                != entry_paths(base, filename)[index],
{
    let paths = entry_paths(base, filename);
    let sizes = crate::size::all_sizes();
    assert forall|i: int| 0 <= i < 4 implies paths[i] == thumbnail_entry(base, sizes[i], filename) by {}
    if index < 4 {
        assert(paths[index] == thumbnail_entry(base, sizes[index], filename));
    }
    if is_file_name(filename) {
        assert forall|other: int| 0 <= other < 5 && other != index implies #[trigger] paths[other]
            != paths[index] by {
            let one = if index < 4 {
                sizes[index]
            } else {
                ThumbnailSize::Normal
            };
            let two = if other < 4 {
                sizes[other]
            } else {
                ThumbnailSize::Normal
            };
            entries_are_apart(base, filename, filename, one, two);
            entries_are_apart(base, filename, filename, two, one);
        }
    }
}

} // verus!
