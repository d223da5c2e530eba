use std::collections::BTreeMap;

use image::{DynamicImage, RgbaImage};
use thumbnail_cacher::cacher::{cacher_for, CacheEntry, ThumbnailCacher};
use thumbnail_cacher::layout::fail_marker_path;
use thumbnail_cacher::metadata::{ModifiedTime, SourceMetadata};
use thumbnail_cacher::path::FilePath;
use thumbnail_cacher::relocation::{
    valid_entries, CacheSnapshot, CopyAction, CopyEvent, RelocateAction, RelocateEvent,
    RelocateRun, ThumbnailRelocation,
};
use thumbnail_cacher::removal::{remove_cached_entries, RemoveOutcome};
use thumbnail_cacher::size::ThumbnailSize;
use thumbnail_cacher::uri::{
    thumbnail_cache_filename, thumbnail_uri_from_path, thumbnail_uri_or_from_path,
};
use thumbnail_cacher::walk::{relocate_thumbnails_tree_in, FileKind, WalkEntry};

/// A file system in memory: the contents and the modification time of each file.
struct Disk {
    files: BTreeMap<Vec<u8>, (Vec<u8>, u64)>,
    clock: u64,
}

impl Disk {
    fn new() -> Disk {
        Disk { files: BTreeMap::new(), clock: 1_700_000_000 }
    }

    fn write(&mut self, path: &FilePath, contents: &[u8]) {
        self.clock += 1;
        self.files.insert(path.to_bytes(), (contents.to_vec(), self.clock));
    }

    fn rename(&mut self, from: &FilePath, to: &FilePath) {
        let file = self.files.remove(&from.to_bytes()).unwrap();
        self.files.insert(to.to_bytes(), file);
    }

    fn holds(&self, path: &FilePath) -> bool {
        self.files.contains_key(&path.to_bytes())
    }

    fn read(&self, path: &FilePath) -> Option<Vec<u8>> {
        self.files.get(&path.to_bytes()).map(|file| file.0.clone())
    }

    fn metadata(&self, path: &FilePath) -> Option<SourceMetadata> {
        self.files.get(&path.to_bytes()).map(|file| SourceMetadata {
            len: file.0.len() as u64,
            modified: ModifiedTime::SinceEpoch(file.1),
        })
    }

    fn publish(&mut self, entry: &CacheEntry) {
        assert_eq!(entry.path.parent().as_ref(), Some(&entry.directory));
        self.write(&entry.path, &entry.contents);
    }

    fn remove(&mut self, path: &FilePath) -> RemoveOutcome {
        match self.files.remove(&path.to_bytes()) {
            Some(_) => RemoveOutcome::Removed,
            None => RemoveOutcome::NotFound,
        }
    }

    fn is_valid(&self, cacher: &ThumbnailCacher, path: &FilePath) -> bool {
        let contents = self.read(path);
        cacher.is_thumbnail_valid(contents.as_deref(), self.metadata(&cacher.file_path))
    }

    fn snapshot(&self, base: &FilePath, filename: &str) -> CacheSnapshot {
        let read = |size: ThumbnailSize| {
            self.read(&base.join_text(size.subdirectory_name()).join_text(filename))
        };
        CacheSnapshot {
            normal: read(ThumbnailSize::Normal),
            large: read(ThumbnailSize::Large),
            x_large: read(ThumbnailSize::XLarge),
            xx_large: read(ThumbnailSize::XXLarge),
            fail_marker: self.read(&fail_marker_path(base, filename)),
        }
    }

    fn valid_entries(
        &self,
        cacher: &ThumbnailCacher,
        base: &FilePath,
        filename: &str,
    ) -> (Vec<ThumbnailSize>, bool) {
        valid_entries(
            &cacher.file_uri,
            &self.snapshot(base, filename),
            self.metadata(&cacher.file_path),
        )
    }

    fn relocate(&mut self, mut run: RelocateRun) -> bool {
        loop {
            let event = match run.action() {
                RelocateAction::Copy(CopyAction::PrepareDirectory(_)) => {
                    RelocateEvent::Copy(CopyEvent::Prepared(true))
                }
                RelocateAction::Copy(CopyAction::Read { source, described }) => {
                    RelocateEvent::Copy(CopyEvent::Contents {
                        source: source.and_then(|path| self.read(path)),
                        metadata: self.metadata(described),
                    })
                }
                RelocateAction::Copy(CopyAction::Publish(entry)) => {
                    self.publish(entry);
                    RelocateEvent::Copy(CopyEvent::Published(true))
                }
                RelocateAction::Copy(CopyAction::Finished(_)) => unreachable!(),
                RelocateAction::CheckExists(path) => RelocateEvent::Exists(self.holds(path)),
                RelocateAction::Remove(path) => RelocateEvent::Remove(self.remove(path)),
                RelocateAction::Finished(copied) => return copied,
            };
            run.step(event);
        }
    }
}

fn root() -> FilePath {
    FilePath::parse(b"/tmp/root")
}

fn test_cacher(disk: &mut Disk, size: ThumbnailSize) -> ThumbnailCacher {
    let source = root().join_text("source.pdf");
    disk.write(&source, b"source data");
    let thumbnail_dir = root().join_text(size.subdirectory_name());
    ThumbnailCacher {
        file_path: source,
        file_uri: "file:///source.pdf".to_string(),
        thumbnail_path: thumbnail_dir.join_text("thumbnail.png"),
        thumbnail_dir,
        thumbnail_size: size,
        thumbnail_fail_marker_path: fail_marker_path(&root(), "thumbnail.png"),
    }
}

fn external_png(width: u32, height: u32) -> Vec<u8> {
    let mut file = Vec::new();
    {
        let mut encoder = png::Encoder::new(&mut file, width, height);
        encoder.set_color(png::ColorType::Rgba);
        encoder.set_depth(png::BitDepth::Eight);
        encoder
            .write_header()
            .unwrap()
            .write_image_data(&vec![0x7f; width as usize * height as usize * 4])
            .unwrap();
    }
    file
}

fn update_with_image(disk: &mut Disk, cacher: &ThumbnailCacher, width: u32, height: u32) -> FilePath {
    let image = DynamicImage::ImageRgba8(RgbaImage::new(width, height));
    let entry = cacher.update_with_image(image, disk.metadata(&cacher.file_path)).unwrap();
    disk.publish(&entry);
    entry.path
}

#[test]
fn external_thumbnail_is_staged_with_freedesktop_metadata() {
    let mut disk = Disk::new();
    let cacher = test_cacher(&mut disk, ThumbnailSize::Normal);
    let external = external_png(64, 32);

    let entry = cacher
        .update_with_temp_file(&external, disk.metadata(&cacher.file_path))
        .unwrap();
    disk.publish(&entry);

    let cached_path = entry.path;
    assert_eq!(cached_path, cacher.thumbnail_path);
    assert!(disk.is_valid(&cacher, &cached_path));
    let contents = disk.read(&cached_path).unwrap();
    let reader = png::Decoder::new(std::io::Cursor::new(contents)).read_info().unwrap();
    let texts = &reader.info().uncompressed_latin1_text;
    assert!(texts
        .iter()
        .any(|text| text.keyword == "Software" && text.text == "COSMIC Files"));
    assert!(texts
        .iter()
        .any(|text| text.keyword == "Thumb::URI" && text.text == cacher.file_uri));
}

#[test]
fn oversized_external_thumbnail_is_rejected() {
    let mut disk = Disk::new();
    let cacher = test_cacher(&mut disk, ThumbnailSize::Normal);
    let external = external_png(129, 1);

    let updated = cacher.update_with_temp_file(&external, disk.metadata(&cacher.file_path));
    assert!(updated.is_err());
    assert!(!disk.holds(&cacher.thumbnail_path));
}

#[test]
fn image_and_failure_updates_publish_valid_cache_entries() {
    let mut disk = Disk::new();
    let cacher = test_cacher(&mut disk, ThumbnailSize::Normal);

    let cached_path = update_with_image(&mut disk, &cacher, 16, 8);
    assert!(disk.is_valid(&cacher, &cached_path));

    let marker = cacher.create_fail_marker(disk.metadata(&cacher.file_path)).unwrap();
    disk.publish(&marker);
    assert!(disk.is_valid(&cacher, &cacher.thumbnail_fail_marker_path));
}

#[test]
fn cached_thumbnail_can_be_rewritten_for_a_new_path() {
    let mut disk = Disk::new();
    let source = test_cacher(&mut disk, ThumbnailSize::Normal);
    let cached_path = update_with_image(&mut disk, &source, 16, 8);

    let renamed = root().join_text("renamed.pdf");
    disk.write(&renamed, b"source data");
    let thumbnail_dir = root().join_text(ThumbnailSize::Normal.subdirectory_name());
    let dest = ThumbnailCacher {
        file_path: renamed,
        file_uri: "file:///renamed.pdf".to_string(),
        thumbnail_path: thumbnail_dir.join_text("renamed.png"),
        thumbnail_dir,
        thumbnail_size: ThumbnailSize::Normal,
        thumbnail_fail_marker_path: root().join_text("fail/renamed.png"),
    };

    let cached = disk.read(&cached_path).unwrap();
    let entry = dest.update_from_file(&cached, disk.metadata(&dest.file_path)).unwrap();
    disk.publish(&entry);

    assert!(disk.is_valid(&dest, &dest.thumbnail_path));
}

#[test]
fn relocation_ignores_invalid_cache_entries() {
    let mut disk = Disk::new();
    let cacher = test_cacher(&mut disk, ThumbnailSize::Normal);
    update_with_image(&mut disk, &cacher, 16, 8);

    let (sizes, failed) = disk.valid_entries(&cacher, &root(), "thumbnail.png");
    assert_eq!(sizes, vec![ThumbnailSize::Normal]);
    assert!(!failed);

    // Changing the file invalidates the entry, so it is not relocated.
    disk.write(&cacher.file_path, b"modified source data");
    let (sizes, failed) = disk.valid_entries(&cacher, &root(), "thumbnail.png");
    assert!(sizes.is_empty());
    assert!(!failed);

    // Fail markers are only relocated when still valid.
    let marker = cacher.create_fail_marker(disk.metadata(&cacher.file_path)).unwrap();
    disk.publish(&marker);
    let (_, failed) = disk.valid_entries(&cacher, &root(), "thumbnail.png");
    assert!(failed);
}

#[test]
fn moved_path_relocates_valid_entries_against_new_metadata() {
    let mut disk = Disk::new();
    let file = root().join_text("photo.jpg");
    disk.write(&file, b"image data");
    let cache_base = root().join_text("cache");

    let old_uri = thumbnail_uri_from_path(&file).unwrap();
    let old_filename = thumbnail_cache_filename(&old_uri);
    let old_cacher =
        cacher_for(&file, &old_uri, &cache_base, &old_filename, ThumbnailSize::Normal);
    update_with_image(&mut disk, &old_cacher, 4, 4);

    let new_file = root().join_text("renamed.jpg");
    disk.rename(&file, &new_file);

    let relocation = ThumbnailRelocation::new_in(
        &file,
        old_uri,
        &cache_base,
        Some(FileKind::Other),
        &disk.snapshot(&cache_base, &old_filename),
        disk.metadata(&new_file),
    )
    .expect("the valid entry should be captured");
    let new_uri = thumbnail_uri_from_path(&new_file).unwrap();
    let run = relocation.relocate(&new_file, Some(&new_uri));
    assert!(disk.relocate(run));

    let new_filename = thumbnail_cache_filename(&new_uri);
    let new_cacher =
        cacher_for(&new_file, &new_uri, &cache_base, &new_filename, ThumbnailSize::Normal);
    assert!(disk.is_valid(&new_cacher, &new_cacher.thumbnail_path));
    assert!(!disk.holds(&cache_base.join_text("normal").join_text(&old_filename)));
}

#[test]
fn directory_rename_relocates_descendant_thumbnails() {
    let mut disk = Disk::new();
    let old_dir = root().join_text("old");
    let cache_base = root().join_text("cache");
    let relative_paths = ["photo.jpg", "nested/deep.jpg"];

    for relative in relative_paths {
        let file = old_dir.join_text(relative);
        disk.write(&file, b"image data");
        let uri = thumbnail_uri_from_path(&file).unwrap();
        let filename = thumbnail_cache_filename(&uri);
        let cacher = cacher_for(&file, &uri, &cache_base, &filename, ThumbnailSize::Normal);
        update_with_image(&mut disk, &cacher, 4, 4);
    }

    let new_dir = root().join_text("new");
    for relative in relative_paths {
        disk.rename(&old_dir.join_text(relative), &new_dir.join_text(relative));
    }

    let walk = vec![
        WalkEntry { path: new_dir.clone(), kind: FileKind::Directory },
        WalkEntry { path: new_dir.join_text("photo.jpg"), kind: FileKind::Other },
        WalkEntry { path: new_dir.join_text("nested"), kind: FileKind::Directory },
        WalkEntry { path: new_dir.join_text("nested/deep.jpg"), kind: FileKind::Other },
    ];
    for one in relocate_thumbnails_tree_in(&old_dir, &new_dir, &walk) {
        let uri = thumbnail_uri_or_from_path(None, &one.old_path).unwrap();
        let snapshot = disk.snapshot(&cache_base, &thumbnail_cache_filename(&uri));
        let relocation = ThumbnailRelocation::new_in(
            &one.old_path,
            uri,
            &cache_base,
            Some(FileKind::Other),
            &snapshot,
            disk.metadata(&one.new_path),
        )
        .unwrap();
        let new_uri = thumbnail_uri_from_path(&one.new_path).unwrap();
        disk.relocate(relocation.relocate(&one.new_path, Some(&new_uri)));
    }

    for relative in relative_paths {
        let new_file = new_dir.join_text(relative);
        let new_uri = thumbnail_uri_from_path(&new_file).unwrap();
        let new_filename = thumbnail_cache_filename(&new_uri);
        let new_cacher =
            cacher_for(&new_file, &new_uri, &cache_base, &new_filename, ThumbnailSize::Normal);
        assert!(
            disk.is_valid(&new_cacher, &new_cacher.thumbnail_path),
            "missing relocated thumbnail for {relative}"
        );

        let old_file = old_dir.join_text(relative);
        let old_uri = thumbnail_uri_from_path(&old_file).unwrap();
        let old_filename = thumbnail_cache_filename(&old_uri);
        assert!(
            !disk.holds(&cache_base.join_text("normal").join_text(&old_filename)),
            "old thumbnail not removed for {relative}"
        );
    }
}

#[test]
fn remove_cached_entries_delete_thumbnail_and_fail_marker() {
    let mut disk = Disk::new();
    let cacher = test_cacher(&mut disk, ThumbnailSize::Normal);
    update_with_image(&mut disk, &cacher, 16, 8);
    let marker = cacher.create_fail_marker(disk.metadata(&cacher.file_path)).unwrap();
    disk.publish(&marker);
    assert!(disk.holds(&cacher.thumbnail_path));
    assert!(disk.holds(&cacher.thumbnail_fail_marker_path));

    let mut removal = remove_cached_entries(&root(), "thumbnail.png");
    while let Some(path) = removal.next() {
        let outcome = disk.remove(path);
        removal.record(outcome);
    }
    assert!(removal.succeeded());

    assert!(!disk.holds(&cacher.thumbnail_path));
    assert!(!disk.holds(&cacher.thumbnail_fail_marker_path));
}

#[test]
fn relocation_copies_every_valid_size_and_the_fail_marker() {
    let mut disk = Disk::new();
    let file = root().join_text("photo.jpg");
    disk.write(&file, b"image data");
    let base = root().join_text("cache");
    let uri = thumbnail_uri_from_path(&file).unwrap();
    let filename = thumbnail_cache_filename(&uri);
    for size in [ThumbnailSize::Large, ThumbnailSize::XXLarge] {
        let cacher = cacher_for(&file, &uri, &base, &filename, size);
        update_with_image(&mut disk, &cacher, 2000, 10);
    }
    let cacher = cacher_for(&file, &uri, &base, &filename, ThumbnailSize::Normal);
    let marker = cacher.create_fail_marker(disk.metadata(&file)).unwrap();
    disk.publish(&marker);

    let copy = root().join_text("copy.jpg");
    disk.write(&copy, b"other image data");
    let relocation = ThumbnailRelocation::new(
        &file,
        Some(uri.clone()),
        Some(&base),
        Some(FileKind::Other),
        &disk.snapshot(&base, &filename),
        disk.metadata(&file),
    )
    .unwrap();
    assert_eq!(relocation.valid_sizes, vec![ThumbnailSize::Large, ThumbnailSize::XXLarge]);
    assert!(relocation.valid_fail_marker);
    assert_eq!(relocation.from, file);
    assert_eq!(relocation.cache_filename, filename);

    // The file is still there, so its entries stay.
    let copy_uri = thumbnail_uri_from_path(&copy).unwrap();
    let copy_filename = thumbnail_cache_filename(&copy_uri);
    assert!(disk.relocate(relocation.relocate(&copy, Some(&copy_uri))));
    for size in [ThumbnailSize::Large, ThumbnailSize::XXLarge] {
        let old = cacher_for(&file, &uri, &base, &filename, size);
        let new = cacher_for(&copy, &copy_uri, &base, &copy_filename, size);
        assert!(disk.is_valid(&old, &old.thumbnail_path));
        assert!(disk.is_valid(&new, &new.thumbnail_path));
        assert!(!disk.is_valid(&new, &old.thumbnail_path));
        assert!(disk.is_valid(&new, &new.thumbnail_fail_marker_path));
    }
    assert!(!disk.holds(&base.join_text("normal").join_text(&copy_filename)));
}
