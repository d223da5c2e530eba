use image::{DynamicImage, RgbaImage};
use thumbnail_cacher::cacher::cacher_for;
use thumbnail_cacher::metadata::{ModifiedTime, SourceMetadata};
use thumbnail_cacher::path::FilePath;
use thumbnail_cacher::relocation::{
    CacheSnapshot, CopyAction, CopyEvent, RelocateAction, RelocateEvent, ThumbnailRelocation,
};
use thumbnail_cacher::removal::{
    remove_cached_entries, remove_file_if_exists, remove_thumbnails,
    remove_thumbnails_for_canonical_path, remove_thumbnails_for_uri, Removal, RemoveOutcome,
};
use thumbnail_cacher::size::ThumbnailSize;
use thumbnail_cacher::walk::{
    relocate_thumbnails_tree, relocate_thumbnails_tree_in, remove_thumbnails_recursive,
    removal_root, FileKind, RemovalScope, WalkEntry,
};

const NEW_NAME: &str = "3e7c86e9ffa29eccd10a6a3911f5160c.png";

fn path(text: &str) -> FilePath {
    FilePath::parse(text.as_bytes())
}

fn text(path: &FilePath) -> String {
    String::from_utf8(path.to_bytes()).unwrap()
}

fn state(len: u64, seconds: u64) -> Option<SourceMetadata> {
    Some(SourceMetadata { len, modified: ModifiedTime::SinceEpoch(seconds) })
}

fn thumbnail(metadata: Option<SourceMetadata>) -> Vec<u8> {
    let cacher = cacher_for(
        &path("/old.pdf"),
        "file:///old.pdf",
        &path("/c"),
        "x.png",
        ThumbnailSize::Normal,
    );
    let image = DynamicImage::ImageRgba8(RgbaImage::new(4, 4));
    cacher.update_with_image(image, metadata).unwrap().contents
}

fn nothing() -> CacheSnapshot {
    CacheSnapshot { normal: None, large: None, x_large: None, xx_large: None, fail_marker: None }
}

fn relocation(sizes: Vec<ThumbnailSize>, marker: bool) -> ThumbnailRelocation {
    ThumbnailRelocation {
        from: path("/old.pdf"),
        cache_base_dir: path("/c"),
        cache_filename: "old.png".to_string(),
        valid_sizes: sizes,
        valid_fail_marker: marker,
    }
}

fn uri() -> String {
    "file:///source.pdf".to_string()
}

fn remaining(mut removal: Removal) -> Vec<String> {
    let mut paths = Vec::new();
    while let Some(path) = removal.next() {
        paths.push(text(path));
        removal.record(RemoveOutcome::NotFound);
    }
    paths
}

#[test]
fn links_and_missing_files_are_not_captured() {
    let capture = |kind: Option<FileKind>, uri: Option<String>, base: Option<&FilePath>| {
        ThumbnailRelocation::new(&path("/old.pdf"), uri, base, kind, &nothing(), state(1, 2))
    };
    let base = path("/c");
    assert!(capture(Some(FileKind::Other), Some(uri()), Some(&base)).is_some());
    assert!(capture(Some(FileKind::Directory), Some(uri()), Some(&base)).is_some());
    assert!(capture(Some(FileKind::Symlink), Some(uri()), Some(&base)).is_none());
    assert!(capture(None, Some(uri()), Some(&base)).is_none());
    assert!(capture(Some(FileKind::Other), None, Some(&base)).is_none());
    assert!(capture(Some(FileKind::Other), Some(uri()), None).is_none());
}

#[test]
fn exactly_the_valid_entries_are_captured() {
    let snapshot = CacheSnapshot {
        normal: Some(thumbnail(state(1, 2))),
        large: Some(thumbnail(state(1, 3))),
        x_large: Some(thumbnail(state(1, 2))),
        xx_large: None,
        fail_marker: Some(thumbnail(state(1, 2))),
    };
    let captured = ThumbnailRelocation::new_in(
        &path("/key.pdf"),
        "file:///old.pdf".to_string(),
        &path("/c"),
        Some(FileKind::Other),
        &snapshot,
        state(1, 2),
    )
    .unwrap();
    assert_eq!(captured.from, path("/key.pdf"));
    assert_eq!(captured.valid_sizes, vec![ThumbnailSize::Normal, ThumbnailSize::XLarge]);
    assert!(captured.valid_fail_marker);
}

#[test]
fn copying_goes_through_the_entries_in_order() {
    let relocation = relocation(vec![ThumbnailSize::Normal], true);
    let mut run = relocation.copy(&path("/source.pdf"), Some(&uri()));

    assert_eq!(run.action(), CopyAction::PrepareDirectory(&path("/c/normal")));
    run.step(CopyEvent::Prepared(true));
    assert_eq!(
        run.action(),
        CopyAction::Read { source: Some(&path("/c/normal/old.png")), described: &path("/source.pdf") }
    );
    run.step(CopyEvent::Contents { source: Some(thumbnail(state(1, 2))), metadata: state(5, 6) });
    let published = path(&format!("/c/normal/{NEW_NAME}"));
    assert!(matches!(run.action(), CopyAction::Publish(entry) if entry.path == published));
    run.step(CopyEvent::Published(true));

    assert_eq!(
        run.action(),
        CopyAction::PrepareDirectory(&path("/c/fail/cosmic-files-0.1.0"))
    );
    run.step(CopyEvent::Prepared(true));
    assert_eq!(
        run.action(),
        CopyAction::Read { source: None, described: &path("/source.pdf") }
    );
    run.step(CopyEvent::Contents { source: None, metadata: state(5, 6) });
    let marker = path(&format!("/c/fail/cosmic-files-0.1.0/{NEW_NAME}"));
    assert!(matches!(run.action(), CopyAction::Publish(entry) if entry.path == marker));
    run.step(CopyEvent::Published(false));
    assert_eq!(run.action(), CopyAction::Finished(true));
}

#[test]
fn published_entries_describe_the_new_file() {
    let relocation = relocation(vec![ThumbnailSize::Normal], false);
    let mut run = relocation.copy(&path("/source.pdf"), Some(&uri()));
    run.step(CopyEvent::Prepared(true));
    run.step(CopyEvent::Contents { source: Some(thumbnail(state(1, 2))), metadata: state(5, 6) });
    let cacher = cacher_for(
        &path("/source.pdf"),
        &uri(),
        &path("/c"),
        NEW_NAME,
        ThumbnailSize::Normal,
    );
    match run.action() {
        CopyAction::Publish(entry) => {
            assert!(cacher.is_thumbnail_valid(Some(&entry.contents), state(5, 6)));
            assert!(!cacher.is_thumbnail_valid(Some(&entry.contents), state(1, 2)));
        }
        other => panic!("{other:?}"),
    }
}

#[test]
fn entries_that_fail_are_passed_over() {
    let sizes = vec![ThumbnailSize::Normal, ThumbnailSize::Large, ThumbnailSize::XLarge];
    let relocation = relocation(sizes, true);
    let mut run = relocation.copy(&path("/source.pdf"), Some(&uri()));
    // No directory.
    run.step(CopyEvent::Prepared(false));
    assert_eq!(run.action(), CopyAction::PrepareDirectory(&path("/c/large")));
    // No contents.
    run.step(CopyEvent::Prepared(true));
    run.step(CopyEvent::Contents { source: None, metadata: state(1, 2) });
    assert_eq!(run.action(), CopyAction::PrepareDirectory(&path("/c/x-large")));
    // No PNG file.
    run.step(CopyEvent::Prepared(true));
    run.step(CopyEvent::Contents { source: Some(vec![1, 2, 3]), metadata: state(1, 2) });
    // No state to record.
    run.step(CopyEvent::Prepared(true));
    run.step(CopyEvent::Contents { source: None, metadata: None });
    assert_eq!(run.action(), CopyAction::Finished(false));
}

#[test]
fn other_answers_change_nothing() {
    let relocation = relocation(vec![ThumbnailSize::Normal], false);
    let mut run = relocation.copy(&path("/source.pdf"), Some(&uri()));
    let fresh = relocation.copy(&path("/source.pdf"), Some(&uri()));
    run.step(CopyEvent::Published(true));
    run.step(CopyEvent::Contents { source: None, metadata: None });
    assert_eq!(run, fresh);
    let mut finished = relocation.copy(&path("/source.pdf"), None);
    finished.step(CopyEvent::Prepared(true));
    assert_eq!(finished.action(), CopyAction::Finished(false));
}

#[test]
fn nothing_is_copied_without_a_uri() {
    let run = relocation(vec![ThumbnailSize::Normal], true).copy(&path("x"), None);
    assert_eq!(run.action(), CopyAction::Finished(false));
}

#[test]
fn old_entries_go_once_the_file_is_gone() {
    let mut run = relocation(Vec::new(), false).relocate(&path("/source.pdf"), Some(&uri()));
    assert_eq!(run.action(), RelocateAction::CheckExists(&path("/old.pdf")));
    run.step(RelocateEvent::Remove(RemoveOutcome::Removed));
    run.step(RelocateEvent::Exists(false));
    let mut removed = Vec::new();
    while let RelocateAction::Remove(path) = run.action() {
        removed.push(text(path));
        run.step(RelocateEvent::Remove(RemoveOutcome::Removed));
    }
    assert_eq!(
        removed,
        [
            "/c/normal/old.png",
            "/c/large/old.png",
            "/c/x-large/old.png",
            "/c/xx-large/old.png",
            "/c/fail/cosmic-files-0.1.0/old.png",
        ]
    );
    assert_eq!(run.action(), RelocateAction::Finished(false));
}

#[test]
fn old_entries_stay_with_the_file() {
    let mut run = relocation(vec![ThumbnailSize::Normal], false)
        .relocate(&path("/source.pdf"), Some(&uri()));
    // The question is not asked before the copying is over.
    run.step(RelocateEvent::Exists(false));
    assert_eq!(
        run.action(),
        RelocateAction::Copy(CopyAction::PrepareDirectory(&path("/c/normal")))
    );
    run.step(RelocateEvent::Copy(CopyEvent::Prepared(true)));
    run.step(RelocateEvent::Copy(CopyEvent::Contents {
        source: Some(thumbnail(state(1, 2))),
        metadata: state(5, 6),
    }));
    run.step(RelocateEvent::Copy(CopyEvent::Published(true)));
    assert_eq!(run.action(), RelocateAction::CheckExists(&path("/old.pdf")));
    run.step(RelocateEvent::Exists(true));
    assert_eq!(run.action(), RelocateAction::Finished(true));
}

#[test]
fn a_move_copies_as_a_copy_does() {
    let sizes = vec![ThumbnailSize::Normal, ThumbnailSize::Large];
    let relocation = relocation(sizes, true);
    let mut copy = relocation.copy(&path("/source.pdf"), Some(&uri()));
    let mut run = relocation.relocate(&path("/source.pdf"), Some(&uri()));
    let answers = || {
        vec![
            CopyEvent::Prepared(false),
            CopyEvent::Prepared(true),
            CopyEvent::Contents { source: Some(thumbnail(state(1, 2))), metadata: state(5, 6) },
            CopyEvent::Published(true),
            CopyEvent::Prepared(true),
            CopyEvent::Contents { source: None, metadata: state(5, 6) },
            CopyEvent::Published(false),
        ]
    };
    for (copied, moved) in answers().into_iter().zip(answers()) {
        match run.action() {
            RelocateAction::Copy(action) => assert_eq!(action, copy.action()),
            other => panic!("{other:?}"),
        }
        copy.step(copied);
        run.step(RelocateEvent::Copy(moved));
    }
    assert_eq!(copy.action(), CopyAction::Finished(true));
    assert_eq!(run.action(), RelocateAction::CheckExists(&path("/old.pdf")));
    run.step(RelocateEvent::Exists(false));
    for _ in 0..5 {
        assert!(matches!(run.action(), RelocateAction::Remove(_)));
        run.step(RelocateEvent::Remove(RemoveOutcome::NotFound));
    }
    assert_eq!(run.action(), RelocateAction::Finished(true));
}

#[test]
fn a_failed_removal_does_not_change_the_result() {
    let mut run = relocation(Vec::new(), false).relocate(&path("/source.pdf"), Some(&uri()));
    run.step(RelocateEvent::Exists(false));
    run.step(RelocateEvent::Remove(RemoveOutcome::Failed));
    assert_eq!(run.action(), RelocateAction::Finished(false));
}

#[test]
fn removals_stop_at_the_first_failure() {
    let mut removal = remove_cached_entries(&path("/c"), "old.png");
    removal.record(RemoveOutcome::Removed);
    removal.record(RemoveOutcome::NotFound);
    assert_eq!(removal.next(), Some(&path("/c/x-large/old.png")));
    assert!(removal.succeeded());
    removal.record(RemoveOutcome::Failed);
    assert_eq!(removal.next(), None);
    assert!(!removal.succeeded());
    removal.record(RemoveOutcome::Removed);
    assert_eq!(removal.next(), None);
    assert!(!removal.succeeded());
}

#[test]
fn a_missing_file_counts_as_removed() {
    assert!(remove_file_if_exists(RemoveOutcome::Removed));
    assert!(remove_file_if_exists(RemoveOutcome::NotFound));
    assert!(!remove_file_if_exists(RemoveOutcome::Failed));
}

#[test]
fn everything_under_a_uri_is_removed() {
    let base = path("/c");
    let expected: Vec<String> = ["normal", "large", "x-large", "xx-large", "fail/cosmic-files-0.1.0"]
        .into_iter()
        .map(|directory| format!("/c/{directory}/{NEW_NAME}"))
        .collect();
    assert_eq!(remaining(remove_thumbnails_for_uri(&uri(), Some(&base))), expected);
    assert_eq!(
        remaining(remove_thumbnails_for_canonical_path(&path("/source.pdf"), Some(&base))),
        expected
    );
    assert_eq!(
        remaining(remove_thumbnails(Some(FileKind::Other), Some(&uri()), Some(&base))),
        expected
    );
    assert_eq!(remaining(remove_thumbnails(None, Some(&uri()), Some(&base))), expected);
    assert_eq!(remaining(relocation(Vec::new(), false).remove_cached()).len(), 5);
}

#[test]
fn nothing_is_removed_for_links_or_without_a_cache() {
    let base = path("/c");
    assert!(remaining(remove_thumbnails_for_uri(&uri(), None)).is_empty());
    let link = remove_thumbnails(Some(FileKind::Symlink), Some(&uri()), Some(&base));
    assert!(remaining(link).is_empty());
    assert!(remaining(remove_thumbnails(None, None, Some(&base))).is_empty());
    assert!(remaining(remove_thumbnails_for_canonical_path(&path("x"), Some(&base))).is_empty());
}

#[test]
fn moved_files_keep_their_place_below_the_root() {
    let entries = vec![
        WalkEntry { path: path("/new"), kind: FileKind::Directory },
        WalkEntry { path: path("/new/a"), kind: FileKind::Other },
        WalkEntry { path: path("/new/link"), kind: FileKind::Symlink },
        WalkEntry { path: path("/new/b/c"), kind: FileKind::Other },
        WalkEntry { path: path("/elsewhere"), kind: FileKind::Other },
    ];
    let moves = relocate_thumbnails_tree_in(&path("/old"), &path("/new"), &entries);
    let moved: Vec<(String, String)> = moves
        .iter()
        .map(|one| (text(&one.old_path), text(&one.new_path)))
        .collect();
    assert_eq!(
        moved,
        [
            ("/old/a".to_string(), "/new/a".to_string()),
            ("/old/b/c".to_string(), "/new/b/c".to_string()),
        ]
    );
    let base = path("/c");
    assert_eq!(
        relocate_thumbnails_tree(&path("/old"), &path("/new"), Some(&base), &entries),
        moves
    );
    assert!(relocate_thumbnails_tree(&path("/old"), &path("/new"), None, &entries).is_empty());
}

#[test]
fn a_renamed_file_moves_as_the_root_itself() {
    let entries = vec![WalkEntry { path: path("/new.jpg"), kind: FileKind::Other }];
    let moves = relocate_thumbnails_tree_in(&path("/old.jpg"), &path("/new.jpg"), &entries);
    assert_eq!(moves.len(), 1);
    assert_eq!(moves[0].old_path, path("/old.jpg"));
}

#[test]
fn deleted_trees_lose_all_thumbnails_but_those_of_links() {
    let entries = vec![
        WalkEntry { path: path("/real"), kind: FileKind::Directory },
        WalkEntry { path: path("/real/link"), kind: FileKind::Symlink },
        WalkEntry { path: path("/real/a"), kind: FileKind::Other },
    ];
    let scope = |kind: Option<FileKind>, canonical: Option<&FilePath>| {
        remove_thumbnails_recursive(&path("dir"), kind, canonical, &entries)
    };
    let real = path("/real");
    assert_eq!(
        scope(Some(FileKind::Directory), Some(&real)),
        RemovalScope::Tree(vec![path("/real"), path("/real"), path("/real/a")])
    );
    assert_eq!(
        scope(Some(FileKind::Directory), None),
        RemovalScope::Tree(vec![path("dir"), path("/real"), path("/real/a")])
    );
    assert_eq!(scope(Some(FileKind::Other), Some(&real)), RemovalScope::File);
    assert_eq!(scope(Some(FileKind::Symlink), Some(&real)), RemovalScope::Nothing);
    assert_eq!(scope(None, Some(&real)), RemovalScope::Nothing);
    assert_eq!(removal_root(&path("dir"), Some(&real)), real);
    assert_eq!(removal_root(&path("dir"), None), path("dir"));
}
