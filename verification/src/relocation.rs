//! How the entries of a file follow it to another path.
use vstd::prelude::*;

use crate::cacher::{
    cacher_for, cacher_in, holds_image, CacheEntry, CacherView, EntryView, ThumbnailCacher,
    UpdateError, LONGEST_URI,
};
use crate::layout::{entry_paths, fail_marker, thumbnail_entry};
use crate::metadata::{bytes_of, entry_is_valid, is_valid_entry, recorded_texts, SourceMetadata};
use crate::path::{FilePath, PathView};
use crate::png_file::{is_encodable, png_contents, png_header, png_pixels, PngHeader};
use crate::removal::{remove_cached_entries, Removal, RemovalView, RemoveOutcome};
use crate::size::{all_sizes, ThumbnailSize};
use crate::uri::{cache_filename, thumbnail_cache_filename, view_of};
use crate::walk::FileKind;

verus! {

/// What can be read of the files that the cache has under one name.
#[derive(Debug, PartialEq, Eq)]
pub struct CacheSnapshot {
    pub normal: Option<Vec<u8>>,
    pub large: Option<Vec<u8>>,
    pub x_large: Option<Vec<u8>>,
    pub xx_large: Option<Vec<u8>>,
    pub fail_marker: Option<Vec<u8>>,
}

/// What an optional file holds.
pub open spec fn optional_bytes(contents: Option<Vec<u8>>) -> Option<Seq<u8>> {
    match contents {
        Some(bytes) => Some(bytes@),
        None => None,
    }
}

/// The characters of an optional text.
pub open spec fn borrowed_text(text: Option<&String>) -> Option<Seq<char>> {
    match text {
        Some(given) => Some(given@),
        None => None,
    }
}

/// Borrows what an optional file holds.
fn optional_slice(contents: &Option<Vec<u8>>) -> (slice: Option<&[u8]>)
    ensures
        bytes_of(slice) == optional_bytes(*contents),
{
    match contents {
        Some(bytes) => Some(bytes.as_slice()),
        None => None,
    }
}

impl CacheSnapshot {
    /// What can be read of the thumbnail of a size.
    pub open spec fn thumbnail(self, size: ThumbnailSize) -> Option<Seq<u8>> {
        match size {
            ThumbnailSize::Normal => optional_bytes(self.normal),
            ThumbnailSize::Large => optional_bytes(self.large),
            ThumbnailSize::XLarge => optional_bytes(self.x_large),
            ThumbnailSize::XXLarge => optional_bytes(self.xx_large),
        }
    }

    fn thumbnail_contents(&self, size: ThumbnailSize) -> (contents: Option<&[u8]>)
        ensures
            bytes_of(contents) == self.thumbnail(size),
    {
        match size {
            ThumbnailSize::Normal => optional_slice(&self.normal),
            ThumbnailSize::Large => optional_slice(&self.large),
            ThumbnailSize::XLarge => optional_slice(&self.x_large),
            ThumbnailSize::XXLarge => optional_slice(&self.xx_large),
        }
    }
}

/// The sizes among the given ones in which there is a valid thumbnail.
pub open spec fn valid_among(
    snapshot: CacheSnapshot,
    uri: Seq<char>,
    metadata: Option<SourceMetadata>,
    sizes: Seq<ThumbnailSize>,
) -> Seq<ThumbnailSize> {
    sizes.filter(|size: ThumbnailSize| is_valid_entry(snapshot.thumbnail(size), uri, metadata))
}

/// The sizes in which the cache has a valid thumbnail of the file of `file_uri`, from the smallest
/// to the largest, and whether it has a valid fail marker.
pub fn valid_entries(
    file_uri: &String,
    snapshot: &CacheSnapshot,
    metadata: Option<SourceMetadata>,
) -> (valid: (Vec<ThumbnailSize>, bool))
    ensures
        valid.0@ == valid_among(*snapshot, file_uri@, metadata, all_sizes()),
        valid.1 == is_valid_entry(optional_bytes(snapshot.fail_marker), file_uri@, metadata),
{
    let sizes: [ThumbnailSize; 4] = ThumbnailSize::ALL;
    let mut valid_sizes: Vec<ThumbnailSize> = Vec::new();
    let mut next: usize = 0;
    assert(all_sizes().take(0) =~= Seq::empty());
    while next < 4
        invariant
            next <= 4,
            sizes@ == all_sizes(),
            valid_sizes@ == valid_among(
                *snapshot,
                file_uri@,
                metadata,
                all_sizes().take(next as int),
            ),
        decreases 4 - next,
    {
        let size: ThumbnailSize = sizes[next];
        assert(size == all_sizes()[next as int]);
        proof {
            let shorter = all_sizes().take(next as int);
            assert(all_sizes().take(next + 1) =~= shorter.push(size));
            shorter.lemma_filter_push(
                size,
                |size: ThumbnailSize| is_valid_entry(snapshot.thumbnail(size), file_uri@, metadata),
            );
        }
        if entry_is_valid(snapshot.thumbnail_contents(size), file_uri, metadata) {
            valid_sizes.push(size);
        }
        next += 1;
    }
    assert(all_sizes().take(4) =~= all_sizes());
    let valid_fail_marker: bool = entry_is_valid(
        optional_slice(&snapshot.fail_marker),
        file_uri,
        metadata,
    );
    (valid_sizes, valid_fail_marker)
}

/// The entries of a file that is to move, as a view.
#[verifier::ext_equal]
pub struct RelocationView {
    pub from: PathView,
    pub cache_base_dir: PathView,
    pub cache_filename: Seq<char>,
    pub valid_sizes: Seq<ThumbnailSize>,
    pub valid_fail_marker: bool,
}

/// The valid entries that the cache has for a file that is to be copied or moved.
#[derive(Debug, PartialEq, Eq)]
pub struct ThumbnailRelocation {
    /// The file.
    pub from: FilePath,
    /// The directory of the cache.
    pub cache_base_dir: FilePath,
    /// The name of the file's entries.
    pub cache_filename: String,
    /// The sizes in which there is a valid thumbnail.
    pub valid_sizes: Vec<ThumbnailSize>,
    /// Whether there is a valid fail marker.
    pub valid_fail_marker: bool,
}

impl View for ThumbnailRelocation {
    type V = RelocationView;

    open spec fn view(&self) -> RelocationView {
        RelocationView {
            from: self.from@,
            cache_base_dir: self.cache_base_dir@,
            cache_filename: self.cache_filename@,
            valid_sizes: self.valid_sizes@,
            valid_fail_marker: self.valid_fail_marker,
        }
    }
}

/// The view of an optional relocation.
pub open spec fn relocation_of(relocation: Option<ThumbnailRelocation>) -> Option<RelocationView> {
    match relocation {
        Some(found) => Some(found@),
        None => None,
    }
}

/// The valid entries of a file, where it can be inspected and is no symbolic link.
pub open spec fn captured(
    from: PathView,
    uri: Seq<char>,
    base: PathView,
    kind: Option<FileKind>,
    snapshot: CacheSnapshot,
    metadata: Option<SourceMetadata>,
) -> Option<RelocationView> {
    if kind is None || kind == Some(FileKind::Symlink) {
        None
    } else {
        Some(
            RelocationView {
                from,
                cache_base_dir: base,
                cache_filename: cache_filename(uri),
                valid_sizes: valid_among(snapshot, uri, metadata, all_sizes()),
                valid_fail_marker: is_valid_entry(
                    optional_bytes(snapshot.fail_marker),
                    uri,
                    metadata,
                ),
            },
        )
    }
}

/// One entry that follows the file, as a view.
#[verifier::ext_equal]
pub struct JobView {
    pub source: Option<PathView>,
    pub directory: PathView,
    pub cacher: CacherView,
}

impl JobView {
    /// The new entry, from what can be read of the old one and what the file system says of the
    /// file at its new path.
    pub open spec fn staged(
        self,
        source: Option<Seq<u8>>,
        metadata: Option<SourceMetadata>,
    ) -> Option<EntryView> {
        match self.source {
            Some(_) => match source {
                Some(contents) => match self.cacher.rewritten(contents, metadata) {
                    Ok(entry) => Some(entry),
                    Err(_) => None,
                },
                None => None,
            },
            None => match self.cacher.failed(metadata) {
                Ok(entry) => Some(entry),
                Err(_) => None,
            },
        }
    }
}

impl RelocationView {
    /// What the thumbnail of a size needs to follow the file to `to`.
    pub open spec fn thumbnail_job(self, to: PathView, to_uri: Seq<char>, size: ThumbnailSize) -> JobView {
        let cacher = cacher_in(to, to_uri, self.cache_base_dir, cache_filename(to_uri), size);
        JobView {
            source: Some(thumbnail_entry(self.cache_base_dir, size, self.cache_filename)),
            directory: cacher.thumbnail_dir,
            cacher,
        }
    }

    /// What the fail marker needs to follow the file to `to`.
    pub open spec fn marker_job(self, to: PathView, to_uri: Seq<char>) -> JobView {
        let cacher = cacher_in(
            to,
            to_uri,
            self.cache_base_dir,
            cache_filename(to_uri),
            ThumbnailSize::Normal,
        );
        JobView { source: None, directory: cacher.thumbnail_fail_marker_path.parent()->0, cacher }
    }

    /// The valid thumbnails, and then the fail marker if it is valid.
    pub open spec fn jobs(self, to: PathView, to_uri: Seq<char>) -> Seq<JobView> {
        let thumbnails = self.valid_sizes.map_values(
            |size: ThumbnailSize| self.thumbnail_job(to, to_uri, size),
        );
        if self.valid_fail_marker {
            thumbnails.push(self.marker_job(to, to_uri))
        } else {
            thumbnails
        }
    }

    /// The copying of the entries to the file at `to`; nothing is copied if that has no URI.
    pub open spec fn copying(self, to: PathView, to_uri: Option<Seq<char>>) -> CopyView {
        CopyView {
            jobs: match to_uri {
                Some(uri) => self.jobs(to, uri),
                None => Seq::empty(),
            },
            done: 0,
            stage: CopyStageView::Prepare,
            copied: false,
        }
    }
}

/// Where the copying of one entry stands, as a view.
pub enum CopyStageView {
    Prepare,
    Rewrite,
    Publish(EntryView),
}

/// What the file system answers to a step of the copying, as a view.
pub enum CopyEventView {
    Prepared(bool),
    Contents { source: Option<Seq<u8>>, metadata: Option<SourceMetadata> },
    Published(bool),
}

/// What the file system is asked for a step of the copying, as a view.
pub enum CopyActionView {
    PrepareDirectory(PathView),
    Read { source: Option<PathView>, described: PathView },
    Publish(EntryView),
    Finished(bool),
}

/// The copying of the entries of a file, as a view.
#[verifier::ext_equal]
pub struct CopyView {
    pub jobs: Seq<JobView>,
    pub done: nat,
    pub stage: CopyStageView,
    pub copied: bool,
}

impl CopyView {
    /// The entry after the current one is next, and something is copied if `published`.
    pub open spec fn skip_to_next(self, published: bool) -> CopyView {
        CopyView {
            jobs: self.jobs,
            done: self.done + 1,
            stage: CopyStageView::Prepare,
            copied: self.copied || published,
        }
    }

    /// What is to be done next.
    pub open spec fn action(self) -> CopyActionView {
        if self.done >= self.jobs.len() {
            CopyActionView::Finished(self.copied)
        } else {
            let job = self.jobs[self.done as int];
            match self.stage {
                CopyStageView::Prepare => CopyActionView::PrepareDirectory(job.directory),
                CopyStageView::Rewrite => CopyActionView::Read {
                    source: job.source,
                    described: job.cacher.file_path,
                },
                CopyStageView::Publish(entry) => CopyActionView::Publish(entry),
            }
        }
    }

    /// The copying after the file system's answer. An entry that cannot be copied is passed over;
    /// an answer to another question than the one asked changes nothing.
    pub open spec fn after(self, event: CopyEventView) -> CopyView {
        if self.done >= self.jobs.len() {
            self
        } else {
            match (self.stage, event) {
                (CopyStageView::Prepare, CopyEventView::Prepared(true)) => CopyView {
                    stage: CopyStageView::Rewrite,
                    ..self
                },
                (CopyStageView::Prepare, CopyEventView::Prepared(false)) => self.skip_to_next(
                    false,
                ),
                (
                    CopyStageView::Rewrite,
                    CopyEventView::Contents { source, metadata },
                ) => match self.jobs[self.done as int].staged(source, metadata) {
                    Some(entry) => CopyView { stage: CopyStageView::Publish(entry), ..self },
                    None => self.skip_to_next(false),
                },
                (CopyStageView::Publish(_), CopyEventView::Published(published)) => {
                    self.skip_to_next(published)
                },
                _ => self,
            }
        }
    }

    /// Whether an entry that an answer makes ready to be published describes the file at its new
    /// path in the state that was answered.
    pub open spec fn stages_valid(self, event: CopyEventView, stage: CopyStageView) -> bool {
        match (event, stage) {
            (CopyEventView::Contents { source, metadata }, CopyStageView::Publish(entry)) => {
                let uri = self.jobs[self.done as int].cacher.file_uri;
                self.done < self.jobs.len() && self.stage is Rewrite && uri.len() <= LONGEST_URI
                    ==> is_valid_entry(Some(entry.contents), uri, metadata)
            },
            _ => true,
        }
    }

    /// Whether an entry that an answer makes ready to be published for a thumbnail holds the image
    /// of the old thumbnail, which is not larger than the size of the thumbnail.
    pub open spec fn stages_image(self, event: CopyEventView, stage: CopyStageView) -> bool {
        match (event, stage) {
            (CopyEventView::Contents { source, metadata }, CopyStageView::Publish(entry)) => {
                let job = self.jobs[self.done as int];
                let limit = job.cacher.decoded_bytes();
                let edge = job.cacher.thumbnail_size.edge();
                self.done < self.jobs.len() && self.stage is Rewrite && job.source is Some ==> {
                    &&& source is Some
                    &&& png_header(source->0, limit) is Some
                    &&& png_header(source->0, limit)->0.width <= edge
                    &&& png_header(source->0, limit)->0.height <= edge
                    &&& png_pixels(source->0, limit) is Some
                    &&& job.cacher.file_uri.len() <= LONGEST_URI ==> holds_image(
                        entry.contents,
                        png_header(source->0, limit)->0,
                        png_pixels(source->0, limit)->0,
                    )
                }
            },
            _ => true,
        }
    }

    /// The copying after several answers.
    pub open spec fn after_all(self, events: Seq<CopyEventView>) -> CopyView
        decreases events.len(),
    {
        if events.len() == 0 {
            self
        } else {
            self.after_all(events.drop_last()).after(events.last())
        }
    }

    /// Nothing is begun that is not to be done.
    pub open spec fn well_formed(self) -> bool {
        self.done <= self.jobs.len() && (self.done == self.jobs.len() ==> self.stage is Prepare)
    }

    /// Whether this is an answer to the question that is asked.
    pub open spec fn is_answered_by(self, event: CopyEventView) -> bool {
        match (self.action(), event) {
            (CopyActionView::PrepareDirectory(_), CopyEventView::Prepared(_)) => true,
            (CopyActionView::Read { .. }, CopyEventView::Contents { .. }) => true,
            (CopyActionView::Publish(_), CopyEventView::Published(_)) => true,
            _ => false,
        }
    }

    /// How many answers are left at most.
    pub open spec fn steps_left(self) -> int {
        3 * (self.jobs.len() - self.done) - match self.stage {
            CopyStageView::Prepare => 0int,
            CopyStageView::Rewrite => 1,
            CopyStageView::Publish(_) => 2,
        }
    }
}

/// One entry that follows the file.
#[derive(Debug, PartialEq, Eq)]
struct CopyJob {
    /// The old entry; the fail marker has nothing to be read.
    source: Option<FilePath>,
    /// The directory of the new entry.
    directory: FilePath,
    /// The cache of the file at its new path.
    cacher: ThumbnailCacher,
}

impl View for CopyJob {
    type V = JobView;

    closed spec fn view(&self) -> JobView {
        JobView {
            source: match self.source {
                Some(path) => Some(path@),
                None => None,
            },
            directory: self.directory@,
            cacher: self.cacher@,
        }
    }
}

/// Where the copying of one entry stands.
#[derive(Debug, PartialEq, Eq)]
enum CopyStage {
    Prepare,
    Rewrite,
    Publish(CacheEntry),
}

impl View for CopyStage {
    type V = CopyStageView;

    closed spec fn view(&self) -> CopyStageView {
        match self {
            CopyStage::Prepare => CopyStageView::Prepare,
            CopyStage::Rewrite => CopyStageView::Rewrite,
            CopyStage::Publish(entry) => CopyStageView::Publish(entry@),
        }
    }
}

/// What the file system answers to a step of the copying.
#[derive(Debug, PartialEq, Eq)]
pub enum CopyEvent {
    /// Whether the directory is there and private.
    Prepared(bool),
    /// What can be read of the old entry, and what the file system says of the file.
    Contents { source: Option<Vec<u8>>, metadata: Option<SourceMetadata> },
    /// Whether the new entry is in its place.
    Published(bool),
}

impl View for CopyEvent {
    type V = CopyEventView;

    open spec fn view(&self) -> CopyEventView {
        match self {
            CopyEvent::Prepared(prepared) => CopyEventView::Prepared(*prepared),
            CopyEvent::Contents { source, metadata } => CopyEventView::Contents {
                source: optional_bytes(*source),
                metadata: *metadata,
            },
            CopyEvent::Published(published) => CopyEventView::Published(*published),
        }
    }
}

/// What the file system is asked for a step of the copying.
#[derive(Debug, PartialEq, Eq)]
pub enum CopyAction<'a> {
    /// Make a directory if there is none, and make it private.
    PrepareDirectory(&'a FilePath),
    /// Read the old entry, if there is one to read, and inspect the file that it describes.
    Read { source: Option<&'a FilePath>, described: &'a FilePath },
    /// Put the new entry in its place.
    Publish(&'a CacheEntry),
    /// Nothing; whether anything has been copied.
    Finished(bool),
}

impl<'a> View for CopyAction<'a> {
    type V = CopyActionView;

    open spec fn view(&self) -> CopyActionView {
        match self {
            CopyAction::PrepareDirectory(directory) => CopyActionView::PrepareDirectory(
                directory@,
            ),
            CopyAction::Read { source, described } => CopyActionView::Read {
                source: view_of(*source),
                described: described@,
            },
            CopyAction::Publish(entry) => CopyActionView::Publish(entry@),
            CopyAction::Finished(copied) => CopyActionView::Finished(*copied),
        }
    }
}

/// The copying of the entries of a file, one after the other.
#[derive(Debug, PartialEq, Eq)]
pub struct CopyRun {
    jobs: Vec<CopyJob>,
    done: usize,
    stage: CopyStage,
    copied: bool,
}

impl View for CopyRun {
    type V = CopyView;

    closed spec fn view(&self) -> CopyView {
        CopyView {
            jobs: self.jobs@.map_values(|job: CopyJob| job@),
            done: self.done as nat,
            stage: self.stage@,
            copied: self.copied,
        }
    }
}

impl CopyJob {
    /// Makes the new entry.
    fn stage(&self, source: Option<&[u8]>, metadata: Option<SourceMetadata>) -> (entry: Option<
        CacheEntry,
    >)
        ensures
            match entry {
                Some(made) => self@.staged(bytes_of(source), metadata) == Some(made@),
                None => self@.staged(bytes_of(source), metadata) is None,
            },
            entry matches Some(made) ==> self@.cacher.file_uri.len() <= LONGEST_URI
                ==> is_valid_entry(Some(made@.contents), self@.cacher.file_uri, metadata),
            entry matches Some(made) ==> self@.source is Some ==> {
                let limit = self@.cacher.decoded_bytes();
                let edge = self@.cacher.thumbnail_size.edge();
                &&& source is Some
                &&& png_header(bytes_of(source)->0, limit) is Some
                &&& png_header(bytes_of(source)->0, limit)->0.width <= edge
                &&& png_header(bytes_of(source)->0, limit)->0.height <= edge
                &&& png_pixels(bytes_of(source)->0, limit) is Some
                &&& self@.cacher.file_uri.len() <= LONGEST_URI ==> holds_image(
                    made@.contents,
                    png_header(bytes_of(source)->0, limit)->0,
                    png_pixels(bytes_of(source)->0, limit)->0,
                )
            },
    {
        let made: Result<CacheEntry, UpdateError> = match &self.source {
            Some(_) => match source {
                Some(contents) => self.cacher.update_from_file(contents, metadata),
                None => {
                    return None;
                },
            },
            None => self.cacher.create_fail_marker(metadata),
        };
        match made {
            Ok(entry) => Some(entry),
            Err(_) => None,
        }
    }
}

impl CopyRun {
    #[verifier::type_invariant]
    spec fn is_within_jobs(self) -> bool {
        self.done <= self.jobs@.len()
    }

    /// What is to be done next.
    pub fn action(&self) -> (action: CopyAction<'_>)
        ensures
            action@ == self@.action(),
    {
        if self.done >= self.jobs.len() {
            return CopyAction::Finished(self.copied);
        }
        let job = &self.jobs[self.done];
        assert(self@.jobs[self.done as int] == job@);
        match &self.stage {
            CopyStage::Prepare => CopyAction::PrepareDirectory(&job.directory),
            CopyStage::Rewrite => CopyAction::Read {
                source: match &job.source {
                    Some(path) => Some(path),
                    None => None,
                },
                described: &job.cacher.file_path,
            },
            CopyStage::Publish(entry) => CopyAction::Publish(entry),
        }
    }

    /// Takes note of the file system's answer. An entry that is thereby ready to be published
    /// describes the file at its new path in the state that was answered.
    pub fn step(&mut self, event: CopyEvent)
        ensures
            final(self)@ == old(self)@.after(event@),
            old(self)@.stages_valid(event@, final(self)@.stage),
            old(self)@.stages_image(event@, final(self)@.stage),
    {
        proof {
            use_type_invariant(&*self);
        }
        if self.done >= self.jobs.len() {
            return;
        }
        assert(self@.jobs[self.done as int] == self.jobs@[self.done as int]@);
        let published: bool = match (&self.stage, event) {
            (CopyStage::Prepare, CopyEvent::Prepared(prepared)) => {
                if prepared {
                    self.stage = CopyStage::Rewrite;
                    return;
                }
                false
            },
            (CopyStage::Rewrite, CopyEvent::Contents { source, metadata }) => {
                match self.jobs[self.done].stage(optional_slice(&source), metadata) {
                    Some(entry) => {
                        self.stage = CopyStage::Publish(entry);
                        return;
                    },
                    None => false,
                }
            },
            (CopyStage::Publish(_), CopyEvent::Published(published)) => published,
            _ => {
                return;
            },
        };
        if published {
            self.copied = true;
        }
        self.stage = CopyStage::Prepare;
        self.done = self.done + 1;
    }
}

/// The moving of the entries of a file, as a view.
#[verifier::ext_equal]
pub struct RelocateView {
    pub from: PathView,
    pub copy: CopyView,
    pub old_entries: RemovalView,
    pub gone: Option<bool>,
}

/// What the file system answers to a step of the moving, as a view.
pub enum RelocateEventView {
    Copy(CopyEventView),
    Exists(bool),
    Remove(RemoveOutcome),
}

/// What the file system is asked for a step of the moving, as a view.
pub enum RelocateActionView {
    Copy(CopyActionView),
    CheckExists(PathView),
    Remove(PathView),
    Finished(bool),
}

impl RelocateView {
    /// What is to be done next: the copying, then, where the file is no longer at its old path, the
    /// removal of the old entries.
    pub open spec fn action(self) -> RelocateActionView {
        match self.copy.action() {
            CopyActionView::Finished(copied) => match self.gone {
                None => RelocateActionView::CheckExists(self.from),
                Some(true) => match self.old_entries.next() {
                    Some(path) => RelocateActionView::Remove(path),
                    None => RelocateActionView::Finished(copied),
                },
                Some(false) => RelocateActionView::Finished(copied),
            },
            action => RelocateActionView::Copy(action),
        }
    }

    /// The moving after the file system's answer. An answer to another question than the one asked
    /// changes nothing.
    pub open spec fn after(self, event: RelocateEventView) -> RelocateView {
        match (self.action(), event) {
            (RelocateActionView::Copy(_), RelocateEventView::Copy(answer)) => RelocateView {
                copy: self.copy.after(answer),
                ..self
            },
            (RelocateActionView::CheckExists(_), RelocateEventView::Exists(exists)) => {
                RelocateView { gone: Some(!exists), ..self }
            },
            (RelocateActionView::Remove(_), RelocateEventView::Remove(outcome)) => RelocateView {
                old_entries: self.old_entries.after(outcome),
                ..self
            },
            _ => self,
        }
    }

    /// The moving after several answers.
    pub open spec fn after_all(self, events: Seq<RelocateEventView>) -> RelocateView
        decreases events.len(),
    {
        if events.len() == 0 {
            self
        } else {
            self.after_all(events.drop_last()).after(events.last())
        }
    }
}

impl RelocateView {
    /// Whether this is an answer to the question that is asked.
    pub open spec fn is_answered_by(self, event: RelocateEventView) -> bool {
        match (self.action(), event) {
            (RelocateActionView::Copy(_), RelocateEventView::Copy(answer)) => {
                self.copy.is_answered_by(answer)
            },
            (RelocateActionView::CheckExists(_), RelocateEventView::Exists(_)) => true,
            (RelocateActionView::Remove(_), RelocateEventView::Remove(_)) => true,
            _ => false,
        }
    }

    /// How many answers are left at most.
    pub open spec fn steps_left(self) -> int {
        let removals = if self.gone == Some(false) || self.old_entries.failed {
            0
        } else {
            self.old_entries.paths.len() - self.old_entries.gone
        };
        let check = if self.gone is None {
            1int
        } else {
            0
        };
        self.copy.steps_left() + check + removals
    }
}

impl RelocationView {
    /// The moving of the entries to the file at `to`.
    pub open spec fn relocating(self, to: PathView, to_uri: Option<Seq<char>>) -> RelocateView {
        RelocateView {
            from: self.from,
            copy: self.copying(to, to_uri),
            old_entries: RemovalView::of(entry_paths(self.cache_base_dir, self.cache_filename)),
            gone: None,
        }
    }
}

/// What the file system answers to a step of the moving.
#[derive(Debug, PartialEq, Eq)]
pub enum RelocateEvent {
    /// An answer to a step of the copying.
    Copy(CopyEvent),
    /// Whether the file is still at its old path.
    Exists(bool),
    /// How the removal of an old entry ended.
    Remove(RemoveOutcome),
}

impl View for RelocateEvent {
    type V = RelocateEventView;

    open spec fn view(&self) -> RelocateEventView {
        match self {
            RelocateEvent::Copy(event) => RelocateEventView::Copy(event@),
            RelocateEvent::Exists(exists) => RelocateEventView::Exists(*exists),
            RelocateEvent::Remove(outcome) => RelocateEventView::Remove(*outcome),
        }
    }
}

/// What the file system is asked for a step of the moving.
#[derive(Debug, PartialEq, Eq)]
pub enum RelocateAction<'a> {
    /// A step of the copying.
    Copy(CopyAction<'a>),
    /// Find out whether the file is still at its old path.
    CheckExists(&'a FilePath),
    /// Remove an old entry.
    Remove(&'a FilePath),
    /// Nothing; whether anything has been copied.
    Finished(bool),
}

impl<'a> View for RelocateAction<'a> {
    type V = RelocateActionView;

    open spec fn view(&self) -> RelocateActionView {
        match self {
            RelocateAction::Copy(action) => RelocateActionView::Copy(action@),
            RelocateAction::CheckExists(path) => RelocateActionView::CheckExists(path@),
            RelocateAction::Remove(path) => RelocateActionView::Remove(path@),
            RelocateAction::Finished(copied) => RelocateActionView::Finished(*copied),
        }
    }
}

/// The moving of the entries of a file: they are copied, and the old ones are removed where the
/// file is no longer at its old path.
#[derive(Debug, PartialEq, Eq)]
pub struct RelocateRun {
    from: FilePath,
    copy: CopyRun,
    old_entries: Removal,
    gone: Option<bool>,
}

impl View for RelocateRun {
    type V = RelocateView;

    closed spec fn view(&self) -> RelocateView {
        RelocateView {
            from: self.from@,
            copy: self.copy@,
            old_entries: self.old_entries@,
            gone: self.gone,
        }
    }
}

impl RelocateRun {
    /// What is to be done next.
    pub fn action(&self) -> (action: RelocateAction<'_>)
        ensures
            action@ == self@.action(),
    {
        match self.copy.action() {
            CopyAction::Finished(copied) => match self.gone {
                None => RelocateAction::CheckExists(&self.from),
                Some(true) => match self.old_entries.next() {
                    Some(path) => RelocateAction::Remove(path),
                    None => RelocateAction::Finished(copied),
                },
                Some(false) => RelocateAction::Finished(copied),
            },
            action => RelocateAction::Copy(action),
        }
    }

    /// Takes note of the file system's answer. An entry that is thereby ready to be published
    /// describes the file at its new path in the state that was answered.
    pub fn step(&mut self, event: RelocateEvent)
        ensures
            final(self)@ == old(self)@.after(event@),
            event@ matches RelocateEventView::Copy(answer) ==> old(self)@.copy.stages_valid(
                answer,
                final(self)@.copy.stage,
            ) && old(self)@.copy.stages_image(answer, final(self)@.copy.stage),
    {
        let copying: bool = match self.copy.action() {
            CopyAction::Finished(_) => false,
            _ => true,
        };
        match event {
            RelocateEvent::Copy(answer) => {
                if copying {
                    self.copy.step(answer);
                }
            },
            RelocateEvent::Exists(exists) => {
                if !copying && self.gone.is_none() {
                    self.gone = Some(!exists);
                }
            },
            RelocateEvent::Remove(outcome) => {
                if !copying {
                    if let Some(true) = self.gone {
                        self.old_entries.record(outcome);
                    }
                }
            },
        }
    }
}

impl ThumbnailRelocation {
    /// The valid entries of the file at `from`, from what can be read of its files in the cache and
    /// what the file system says of it. There are none to follow a file that cannot be inspected,
    /// has no URI or is a symbolic link, and none without a cache.
    pub fn new(
        from: &FilePath,
        file_uri: Option<String>,
        cache_base_dir: Option<&FilePath>,
        kind: Option<FileKind>,
        snapshot: &CacheSnapshot,
        metadata: Option<SourceMetadata>,
    ) -> (relocation: Option<Self>)
        ensures
            match (cache_base_dir, file_uri) {
                (Some(base), Some(uri)) => relocation_of(relocation) == captured(
                    from@,
                    uri@,
                    base@,
                    kind,
                    *snapshot,
                    metadata,
                ),
                _ => relocation is None,
            },
    {
        match (cache_base_dir, file_uri) {
            (Some(base), Some(uri)) => Self::new_in(from, uri, base, kind, snapshot, metadata),
            _ => None,
        }
    }

    /// The valid entries that the cache has under `file_uri`, for a file that was at `key_path`.
    pub fn new_in(
        key_path: &FilePath,
        file_uri: String,
        cache_base_dir: &FilePath,
        kind: Option<FileKind>,
        snapshot: &CacheSnapshot,
        metadata: Option<SourceMetadata>,
    ) -> (relocation: Option<Self>)
        ensures
            relocation_of(relocation) == captured(
                key_path@,
                file_uri@,
                cache_base_dir@,
                kind,
                *snapshot,
                metadata,
            ),
    {
        match kind {
            None => None,
            Some(FileKind::Symlink) => None,
            Some(_) => {
                let (valid_sizes, valid_fail_marker) = valid_entries(&file_uri, snapshot, metadata);
                Some(
                    ThumbnailRelocation {
                        from: key_path.clone(),
                        cache_base_dir: cache_base_dir.clone(),
                        cache_filename: thumbnail_cache_filename(file_uri.as_str()),
                        valid_sizes,
                        valid_fail_marker,
                    },
                )
            },
        }
    }

    /// The copying of the entries to the file at `to`, whose URI is `to_uri`, if it has one.
    pub fn copy(&self, to: &FilePath, to_uri: Option<&String>) -> (run: CopyRun)
        ensures
            run@ == self@.copying(to@, borrowed_text(to_uri)),
    {
        self.copy_entries(to, to_uri)
    }

    /// The moving of the entries to the file at `to`, whose URI is `to_uri`, if it has one.
    pub fn relocate(&self, to: &FilePath, to_uri: Option<&String>) -> (run: RelocateRun)
        ensures
            run@ == self@.relocating(to@, borrowed_text(to_uri)),
    {
        RelocateRun {
            from: self.from.clone(),
            copy: self.copy_entries(to, to_uri),
            old_entries: self.remove_cached(),
            gone: None,
        }
    }

    /// The removal of everything that the cache can have for the file at its old path.
    pub fn remove_cached(&self) -> (removal: Removal)
        ensures
            removal@ == RemovalView::of(entry_paths(self@.cache_base_dir, self@.cache_filename)),
    {
        remove_cached_entries(&self.cache_base_dir, self.cache_filename.as_str())
    }

    fn copy_entries(&self, to: &FilePath, to_uri: Option<&String>) -> (run: CopyRun)
        ensures
            run@ == self@.copying(to@, borrowed_text(to_uri)),
    {
        let mut jobs: Vec<CopyJob> = Vec::new();
        if let Some(uri) = to_uri {
            let ghost wanted = self@.jobs(to@, uri@);
            let to_filename = thumbnail_cache_filename(uri.as_str());
            let mut next: usize = 0;
            while next < self.valid_sizes.len()
                invariant
                    next <= self.valid_sizes@.len() <= wanted.len(),
                    wanted == self@.jobs(to@, uri@),
                    to_filename@ == cache_filename(uri@),
                    jobs@.len() == next,
                    forall|i: int| 0 <= i < next ==> (#[trigger] jobs@[i])@ == wanted[i],
                decreases self.valid_sizes@.len() - next,
            {
                let size: ThumbnailSize = self.valid_sizes[next];
                let cacher = cacher_for(
                    to,
                    uri.as_str(),
                    &self.cache_base_dir,
                    to_filename.as_str(),
                    size,
                );
                let source = self.cache_base_dir.join_text(size.subdirectory_name()).join_text(
                    self.cache_filename.as_str(),
                );
                let job = CopyJob {
                    source: Some(source),
                    directory: cacher.thumbnail_dir.clone(),
                    cacher,
                };
                assert(job@ =~= wanted[next as int]);
                jobs.push(job);
                next += 1;
            }
            if self.valid_fail_marker {
                let cacher = cacher_for(
                    to,
                    uri.as_str(),
                    &self.cache_base_dir,
                    to_filename.as_str(),
                    ThumbnailSize::Normal,
                );
                proof {
                    crate::uri::cache_filename_is_one_component(uri@);
                    crate::layout::entries_stand_below_base(
                        self@.cache_base_dir,
                        cache_filename(uri@),
                        ThumbnailSize::Normal,
                    );
                }
                if let Some(directory) = cacher.thumbnail_fail_marker_path.parent() {
                    let job = CopyJob { source: None, directory, cacher };
                    assert(job@ =~= wanted.last());
                    jobs.push(job);
                }
            }
            assert(jobs@.map_values(|job: CopyJob| job@) =~= wanted);
        }
        let run = CopyRun { jobs, done: 0, stage: CopyStage::Prepare, copied: false };
        assert(run@ =~= self@.copying(to@, borrowed_text(to_uri)));
        run
    }
}

/// Every answer to what is asked brings the end of the copying closer, any other changes nothing,
/// and the end is reached when no answer is left.
pub proof fn copying_comes_to_an_end(run: CopyView, event: CopyEventView)
    requires
        run.well_formed(),
    ensures
        run.after(event).well_formed(),
        run.after(event).jobs == run.jobs,
        run.is_answered_by(event) ==> 0 <= run.after(event).steps_left() < run.steps_left(),
        !run.is_answered_by(event) ==> run.after(event) == run,
        run.steps_left() == 0 <==> run.action() is Finished,
{
    if run.done < run.jobs.len() {
        match (run.stage, event) {
            (CopyStageView::Rewrite, CopyEventView::Contents { source, metadata }) => {
                let staged = run.jobs[run.done as int].staged(source, metadata);
                assert(run.after(event).jobs == run.jobs);
            },
            _ => {},
        }
    }
}

/// Every entry is tried once and then the next one, whatever becomes of it: it is passed over where
/// its directory or its contents cannot be prepared, and else published.
pub proof fn every_entry_is_tried(
    run: CopyView,
    source: Option<Seq<u8>>,
    metadata: Option<SourceMetadata>,
    published: bool,
)
    requires
        run.done < run.jobs.len(),
        run.stage is Prepare,
    ensures
        run.after(CopyEventView::Prepared(false)) == run.skip_to_next(false),
        ({
            let read = run.after(CopyEventView::Prepared(true)).after(
                CopyEventView::Contents { source, metadata },
            );
            match run.jobs[run.done as int].staged(source, metadata) {
                None => read == run.skip_to_next(false),
                Some(entry) => read.action() == CopyActionView::Publish(entry) && read.after(
                    CopyEventView::Published(published),
                ) == run.skip_to_next(published),
            }
        }),
{
}

/// Something is copied by an answer exactly where an entry was to be published and was.
pub proof fn copied_by_publishing_only(run: CopyView, event: CopyEventView)
    ensures
        run.after(event).copied <==> run.copied || run.action() is Publish && event
            == CopyEventView::Published(true),
{
}

/// As long as no entry is published nothing is copied, and what is copied stays so.
pub proof fn copied_needs_a_published_entry(run: CopyView, events: Seq<CopyEventView>)
    ensures
        run.copied ==> run.after_all(events).copied,
        !events.contains(CopyEventView::Published(true)) ==> run.after_all(events).copied
            == run.copied,
    decreases events.len(),
{
    if events.len() > 0 {
        let shorter = events.drop_last();
        copied_needs_a_published_entry(run, shorter);
        copied_by_publishing_only(run.after_all(shorter), events.last());
        if !events.contains(CopyEventView::Published(true)) {
            assert(events.contains(events.last()));
            assert forall|i: int| 0 <= i < shorter.len() implies shorter[i]
                != CopyEventView::Published(true) by {
                assert(events.contains(events[i]));
            }
        }
    }
}

/// Exactly the valid entries follow a file: the thumbnail of a size is read to be copied where it
/// is valid, and a fail marker is made where there is a valid one.
pub proof fn exactly_valid_entries_follow(
    from: PathView,
    uri: Seq<char>,
    base: PathView,
    kind: Option<FileKind>,
    snapshot: CacheSnapshot,
    metadata: Option<SourceMetadata>,
    to: PathView,
    to_uri: Seq<char>,
    size: ThumbnailSize,
)
    requires
        kind is Some,
        kind != Some(FileKind::Symlink),
    ensures
        ({
            let relocation = captured(from, uri, base, kind, snapshot, metadata)->0;
            let jobs = relocation.jobs(to, to_uri);
            &&& is_valid_entry(snapshot.thumbnail(size), uri, metadata) <==> jobs.contains(
                relocation.thumbnail_job(to, to_uri, size),
            )
            &&& is_valid_entry(optional_bytes(snapshot.fail_marker), uri, metadata)
                <==> jobs.contains(relocation.marker_job(to, to_uri))
        }),
{
    let relocation = captured(from, uri, base, kind, snapshot, metadata)->0;
    let jobs = relocation.jobs(to, to_uri);
    let sizes = relocation.valid_sizes;
    let valid = |size: ThumbnailSize| is_valid_entry(snapshot.thumbnail(size), uri, metadata);
    let job = relocation.thumbnail_job(to, to_uri, size);
    let marker = relocation.marker_job(to, to_uri);
    assert(all_sizes().contains(size)) by {
        assert(all_sizes()[0] == ThumbnailSize::Normal);
        assert(all_sizes()[1] == ThumbnailSize::Large);
        assert(all_sizes()[2] == ThumbnailSize::XLarge);
        assert(all_sizes()[3] == ThumbnailSize::XXLarge);
    }
    assert(sizes == all_sizes().filter(valid));
    let index = choose|i: int| 0 <= i < all_sizes().len() && all_sizes()[i] == size;
    if valid(size) {
        all_sizes().lemma_filter_contains(valid, index);
        let place = choose|i: int| 0 <= i < sizes.len() && sizes[i] == size;
        assert(jobs[place] == job);
    }
    if jobs.contains(job) {
        let place = choose|i: int| 0 <= i < jobs.len() && jobs[i] == job;
        assert(job.source is Some && marker.source is None);
        assert(jobs[place].cacher.thumbnail_size == sizes[place]);
        all_sizes().lemma_filter_pred(valid, place);
    }
    if jobs.contains(marker) {
        let place = choose|i: int| 0 <= i < jobs.len() && jobs[i] == marker;
        assert(place < sizes.len() ==> jobs[place].source is Some);
    }
    if relocation.valid_fail_marker {
        assert(jobs[jobs.len() - 1] == marker);
    }
}

/// What is published for a file stands where its new name says, in the directory that was prepared,
/// and is none of the old entries as long as the names differ.
pub proof fn published_entries_are_new(
    relocation: RelocationView,
    uri: Seq<char>,
    to: PathView,
    to_uri: Seq<char>,
    index: int,
    source: Option<Seq<u8>>,
    metadata: Option<SourceMetadata>,
)
    requires
        relocation.cache_filename == cache_filename(uri),
        0 <= index < relocation.jobs(to, to_uri).len(),
        relocation.jobs(to, to_uri)[index].staged(source, metadata) is Some,
    ensures
        ({
            let base = relocation.cache_base_dir;
            let job = relocation.jobs(to, to_uri)[index];
            let entry = job.staged(source, metadata)->0;
            &&& entry.directory == job.directory
            &&& entry.path.parent() == Some(entry.directory)
            &&& entry_paths(base, cache_filename(to_uri)).contains(entry.path)
            &&& cache_filename(uri) != cache_filename(to_uri) ==> !entry_paths(
                base,
                cache_filename(uri),
            ).contains(entry.path)
        }),
{
    let base = relocation.cache_base_dir;
    let job = relocation.jobs(to, to_uri)[index];
    let entry = job.staged(source, metadata)->0;
    let old_name = cache_filename(uri);
    let new_name = cache_filename(to_uri);
    let old_entries = entry_paths(base, old_name);
    let new_entries = entry_paths(base, new_name);
    let size = job.cacher.thumbnail_size;
    crate::uri::cache_filename_is_one_component(uri);
    crate::uri::cache_filename_is_one_component(to_uri);
    crate::layout::entries_stand_below_base(base, new_name, size);
    assert(new_entries[0] == thumbnail_entry(base, ThumbnailSize::Normal, new_name));
    assert(new_entries[1] == thumbnail_entry(base, ThumbnailSize::Large, new_name));
    assert(new_entries[2] == thumbnail_entry(base, ThumbnailSize::XLarge, new_name));
    assert(new_entries[3] == thumbnail_entry(base, ThumbnailSize::XXLarge, new_name));
    assert(new_entries[4] == fail_marker(base, new_name));
    if index < relocation.valid_sizes.len() {
        assert(job == relocation.thumbnail_job(to, to_uri, relocation.valid_sizes[index]));
        assert(entry.path == thumbnail_entry(base, size, new_name));
    } else {
        assert(job == relocation.marker_job(to, to_uri));
        assert(entry.path == fail_marker(base, new_name));
    }
    if old_name != new_name {
        assert forall|i: int| 0 <= i < old_entries.len() implies old_entries[i] != entry.path by {
            let other = if i < 4 {
                all_sizes()[i]
            } else {
                ThumbnailSize::Normal
            };
            crate::layout::entries_are_apart(base, new_name, old_name, size, other);
            crate::layout::entries_are_apart(base, old_name, new_name, other, size);
        }
    }
}

/// What holds of every state that the moving comes to.
proof fn moving_keeps_order(
    relocation: RelocationView,
    to: PathView,
    to_uri: Option<Seq<char>>,
    events: Seq<RelocateEventView>,
)
    ensures
        ({
            let start = relocation.relocating(to, to_uri);
            let run = start.after_all(events);
            &&& run.old_entries.paths == start.old_entries.paths
            &&& run.gone != Some(true) ==> run.old_entries == start.old_entries
            &&& run.gone == Some(true) ==> events.contains(RelocateEventView::Exists(false))
            &&& run.gone is Some ==> run.copy.action() is Finished
        }),
    decreases events.len(),
{
    if events.len() > 0 {
        let shorter = events.drop_last();
        moving_keeps_order(relocation, to, to_uri, shorter);
        let before = relocation.relocating(to, to_uri).after_all(shorter);
        assert(events[events.len() - 1] == events.last());
        if before.gone == Some(true) {
            let place = choose|i: int|
                0 <= i < shorter.len() && shorter[i] == RelocateEventView::Exists(false);
            assert(events[place] == RelocateEventView::Exists(false));
        }
    }
}

/// An old entry is removed only when the copying is over and the file was found to be no longer at
/// its old path, and nothing but the old entries is removed.
pub proof fn old_entries_go_only_with_the_file(
    relocation: RelocationView,
    to: PathView,
    to_uri: Option<Seq<char>>,
    events: Seq<RelocateEventView>,
)
    ensures
        ({
            let run = relocation.relocating(to, to_uri).after_all(events);
            &&& run.action() matches RelocateActionView::Remove(path) ==> {
                &&& run.copy.action() is Finished
                &&& events.contains(RelocateEventView::Exists(false))
                &&& entry_paths(relocation.cache_base_dir, relocation.cache_filename).contains(path)
            }
            &&& !events.contains(RelocateEventView::Exists(false)) ==> run.old_entries
                == relocation.relocating(to, to_uri).old_entries
        }),
{
    moving_keeps_order(relocation, to, to_uri, events);
}

/// Removing the old entries does not change whether anything was copied.
pub proof fn removal_does_not_change_the_result(run: RelocateView, event: RelocateEventView)
    requires
        run.copy.action() is Finished,
    ensures
        run.after(event).copy == run.copy,
        run.action() matches RelocateActionView::Finished(copied) ==> copied == run.copy.copied
            && run.after(event) == run,
{
}

/// The moving ends: every answer to what is asked brings the end closer, and any other changes
/// nothing.
pub proof fn moving_comes_to_an_end(run: RelocateView, event: RelocateEventView)
    requires
        run.copy.well_formed(),
        run.old_entries.gone <= run.old_entries.paths.len(),
    ensures
        run.after(event).copy.well_formed(),
        run.after(event).old_entries.gone <= run.after(event).old_entries.paths.len(),
        run.is_answered_by(event) ==> 0 <= run.after(event).steps_left() < run.steps_left(),
        !run.is_answered_by(event) ==> run.after(event) == run,
        run.steps_left() == 0 <==> run.action() is Finished,
{
    copying_comes_to_an_end(run.copy, CopyEventView::Published(true));
    if let RelocateEventView::Copy(answer) = event {
        copying_comes_to_an_end(run.copy, answer);
        copying_comes_to_an_end(run.copy.after(answer), answer);
    }
}

impl CopyView {
    /// Whether the answer at `index` said that an entry was published, when that was asked.
    pub open spec fn publishes_at(self, events: Seq<CopyEventView>, index: int) -> bool {
        self.after_all(events.take(index)).action() is Publish && events[index]
            == CopyEventView::Published(true)
    }

    /// The files of the cache after an answer.
    pub open spec fn files_after(
        self,
        event: CopyEventView,
        files: Map<PathView, Seq<u8>>,
    ) -> Map<PathView, Seq<u8>> {
        match (self.action(), event) {
            (CopyActionView::Publish(entry), CopyEventView::Published(true)) => files.insert(
                entry.path,
                entry.contents,
            ),
            _ => files,
        }
    }

    /// The files of the cache after several answers.
    pub open spec fn files_after_all(
        self,
        events: Seq<CopyEventView>,
        files: Map<PathView, Seq<u8>>,
    ) -> Map<PathView, Seq<u8>>
        decreases events.len(),
    {
        if events.len() == 0 {
            files
        } else {
            self.after_all(events.drop_last()).files_after(
                events.last(),
                self.files_after_all(events.drop_last(), files),
            )
        }
    }
}

impl RelocateView {
    /// The files of the cache after an answer.
    pub open spec fn files_after(
        self,
        event: RelocateEventView,
        files: Map<PathView, Seq<u8>>,
    ) -> Map<PathView, Seq<u8>> {
        match (self.action(), event) {
            (
                RelocateActionView::Copy(_),
                RelocateEventView::Copy(answer),
            ) => self.copy.files_after(answer, files),
            (RelocateActionView::Remove(path), RelocateEventView::Remove(outcome)) => if outcome
                == RemoveOutcome::Failed {
                files
            } else {
                files.remove(path)
            },
            _ => files,
        }
    }

    /// The files of the cache after several answers.
    pub open spec fn files_after_all(
        self,
        events: Seq<RelocateEventView>,
        files: Map<PathView, Seq<u8>>,
    ) -> Map<PathView, Seq<u8>>
        decreases events.len(),
    {
        if events.len() == 0 {
            files
        } else {
            self.after_all(events.drop_last()).files_after(
                events.last(),
                self.files_after_all(events.drop_last(), files),
            )
        }
    }
}

/// Over a whole run, something is copied exactly if some answer said that an entry was published
/// when that was asked.
pub proof fn copied_means_something_was_published(run: CopyView, events: Seq<CopyEventView>)
    ensures
        run.after_all(events).copied <==> run.copied || exists|i: int|
            0 <= i < events.len() && #[trigger] run.publishes_at(events, i),
    decreases events.len(),
{
    if events.len() > 0 {
        let shorter = events.drop_last();
        let last = events.len() - 1;
        copied_means_something_was_published(run, shorter);
        copied_by_publishing_only(run.after_all(shorter), events.last());
        assert(events.take(last) =~= shorter);
        assert(run.publishes_at(events, last) <==> run.after_all(shorter).action() is Publish
            && events.last() == CopyEventView::Published(true));
        assert forall|i: int| 0 <= i < last implies run.publishes_at(events, i)
            == #[trigger] run.publishes_at(shorter, i) by {
            assert(events.take(i) =~= shorter.take(i));
        }
        if exists|i: int| 0 <= i < shorter.len() && #[trigger] run.publishes_at(shorter, i) {
            let place = choose|i: int|
                0 <= i < shorter.len() && #[trigger] run.publishes_at(shorter, i);
            assert(run.publishes_at(events, place));
        }
        if exists|i: int| 0 <= i < events.len() && #[trigger] run.publishes_at(events, i) {
            let place = choose|i: int|
                0 <= i < events.len() && #[trigger] run.publishes_at(events, i);
            if place < last {
                assert(run.publishes_at(shorter, place));
            }
        }
    }
}

/// The answers to the copying, as answers to the moving.
pub open spec fn copy_answers(answers: Seq<CopyEventView>) -> Seq<RelocateEventView> {
    answers.map_values(|answer: CopyEventView| RelocateEventView::Copy(answer))
}

/// What became of the old entries, as answers to the moving.
pub open spec fn remove_answers(outcomes: Seq<RemoveOutcome>) -> Seq<RelocateEventView> {
    outcomes.map_values(|outcome: RemoveOutcome| RelocateEventView::Remove(outcome))
}

/// The moving copies as the copying does.
proof fn moving_copies_alike(
    start: RelocateView,
    answers: Seq<CopyEventView>,
    files: Map<PathView, Seq<u8>>,
)
    requires
        start.gone is None,
    ensures
        start.after_all(copy_answers(answers)) == (RelocateView {
            copy: start.copy.after_all(answers),
            ..start
        }),
        start.files_after_all(copy_answers(answers), files) == start.copy.files_after_all(
            answers,
            files,
        ),
    decreases answers.len(),
{
    if answers.len() > 0 {
        let shorter = answers.drop_last();
        moving_copies_alike(start, shorter, files);
        assert(copy_answers(answers).drop_last() =~= copy_answers(shorter));
        assert(copy_answers(answers).last() == RelocateEventView::Copy(answers.last()));
    }
}

/// Once the file is gone, the old entries go one after the other.
proof fn moving_removes_in_order(
    start: RelocateView,
    before: Seq<RelocateEventView>,
    outcomes: Seq<RemoveOutcome>,
    files: Map<PathView, Seq<u8>>,
)
    requires
        start.after_all(before).copy.action() is Finished,
        start.after_all(before).gone == Some(true),
        start.after_all(before).old_entries == RemovalView::of(start.old_entries.paths),
        outcomes.len() <= start.old_entries.paths.len(),
        !outcomes.contains(RemoveOutcome::Failed),
    ensures
        ({
            let paths = start.old_entries.paths;
            let events = before + remove_answers(outcomes);
            let earlier = start.files_after_all(before, files);
            let later = start.files_after_all(events, files);
            &&& start.after_all(events) == (RelocateView {
                old_entries: RemovalView { paths, gone: outcomes.len(), failed: false },
                ..start.after_all(before)
            })
            &&& forall|path: PathView| #[trigger]
                later.contains_key(path) <==> earlier.contains_key(path) && !paths.take(
                    outcomes.len() as int,
                ).contains(path)
            &&& forall|path: PathView| #[trigger]
                later.contains_key(path) ==> later[path] == earlier[path]
        }),
    decreases outcomes.len(),
{
    let paths = start.old_entries.paths;
    let events = before + remove_answers(outcomes);
    if outcomes.len() == 0 {
        assert(events =~= before);
        assert(paths.take(0) =~= Seq::empty());
    } else {
        let shorter = outcomes.drop_last();
        assert forall|i: int| 0 <= i < shorter.len() implies shorter[i] != RemoveOutcome::Failed by {
            assert(outcomes.contains(outcomes[i]));
        }
        assert(outcomes.contains(outcomes.last()));
        moving_removes_in_order(start, before, shorter, files);
        assert(events.drop_last() =~= before + remove_answers(shorter));
        assert(events.last() == RelocateEventView::Remove(outcomes.last()));
        let removed = paths[shorter.len() as int];
        let fewer = paths.take(shorter.len() as int);
        let more = paths.take(outcomes.len() as int);
        assert(more =~= fewer.push(removed));
        assert forall|path: PathView| #[trigger]
            more.contains(path) <==> fewer.contains(path) || path == removed by {
            vstd::seq_lib::lemma_seq_contains_after_push(fewer, removed, path);
        }
        let earlier = start.files_after_all(before, files);
        let previous = start.files_after_all(before + remove_answers(shorter), files);
        let later = start.files_after_all(events, files);
        assert(start.after_all(before + remove_answers(shorter)).action()
            == RelocateActionView::Remove(removed));
        assert(later == previous.remove(removed));
        assert forall|path: PathView| #[trigger]
            later.contains_key(path) <==> earlier.contains_key(path) && !more.contains(path) by {
            assert(previous.contains_key(path) <==> earlier.contains_key(path) && !fewer.contains(
                path,
            ));
        }
        assert forall|path: PathView| #[trigger] later.contains_key(path) implies later[path]
            == earlier[path] by {
            assert(previous.contains_key(path));
        }
    }
}

/// What the copying has ready to be published comes from one of its entries.
proof fn copying_publishes_its_jobs(run: CopyView, events: Seq<CopyEventView>)
    requires
        run.stage is Prepare,
    ensures
        run.after_all(events).jobs == run.jobs,
        run.after_all(events).action() matches CopyActionView::Publish(entry) ==> exists|
            index: int,
            source: Option<Seq<u8>>,
            metadata: Option<SourceMetadata>,
        |
            0 <= index < run.jobs.len() && #[trigger] run.jobs[index].staged(source, metadata)
                == Some(entry),
    decreases events.len(),
{
    if events.len() > 0 {
        let before = run.after_all(events.drop_last());
        copying_publishes_its_jobs(run, events.drop_last());
        match events.last() {
            CopyEventView::Contents { source, metadata } => {
                if before.done < before.jobs.len() && before.stage is Rewrite {
                    let staged = run.jobs[before.done as int].staged(source, metadata);
                    assert(before.jobs[before.done as int].staged(source, metadata) == staged);
                }
            },
            _ => {},
        }
    }
}

/// Copying leaves the old entries as they are, as long as the names differ.
pub proof fn copying_leaves_old_entries(
    relocation: RelocationView,
    uri: Seq<char>,
    to: PathView,
    to_uri: Option<Seq<char>>,
    answers: Seq<CopyEventView>,
    files: Map<PathView, Seq<u8>>,
    path: PathView,
)
    requires
        relocation.cache_filename == cache_filename(uri),
        to_uri matches Some(new_uri) ==> cache_filename(new_uri) != cache_filename(uri),
        entry_paths(relocation.cache_base_dir, relocation.cache_filename).contains(path),
    ensures
        ({
            let copied = relocation.copying(to, to_uri).files_after_all(answers, files);
            &&& copied.contains_key(path) <==> files.contains_key(path)
            &&& files.contains_key(path) ==> copied[path] == files[path]
        }),
    decreases answers.len(),
{
    if answers.len() > 0 {
        let shorter = answers.drop_last();
        let start = relocation.copying(to, to_uri);
        let before = start.after_all(shorter);
        copying_leaves_old_entries(relocation, uri, to, to_uri, shorter, files, path);
        copying_publishes_its_jobs(start, shorter);
        if let CopyActionView::Publish(entry) = before.action() {
            let (index, source, metadata) = choose|
                index: int,
                source: Option<Seq<u8>>,
                metadata: Option<SourceMetadata>,
            |
                0 <= index < start.jobs.len() && #[trigger] start.jobs[index].staged(
                    source,
                    metadata,
                ) == Some(entry);
            published_entries_are_new(relocation, uri, to, to_uri->0, index, source, metadata);
        }
    }
}

/// A whole move: it copies what a copy copies on the same answers and has the same result. If the
/// file is still at its old path, nothing else happens, and the old entries are as they were, as
/// long as the names differ. If it is not, all the old entries are gone in the end, even where
/// nothing was copied, and no other file is touched.
pub proof fn moving_copies_and_removes(
    relocation: RelocationView,
    uri: Seq<char>,
    to: PathView,
    to_uri: Option<Seq<char>>,
    answers: Seq<CopyEventView>,
    outcomes: Seq<RemoveOutcome>,
    files: Map<PathView, Seq<u8>>,
)
    requires
        relocation.cache_filename == cache_filename(uri),
        relocation.copying(to, to_uri).after_all(answers).action() is Finished,
        outcomes.len() == 5,
        !outcomes.contains(RemoveOutcome::Failed),
    ensures
        ({
            let old_entries = entry_paths(relocation.cache_base_dir, relocation.cache_filename);
            let copying = relocation.copying(to, to_uri);
            let result = copying.after_all(answers).copied;
            let copied = copying.files_after_all(answers, files);
            let moving = relocation.relocating(to, to_uri);
            let copies = copy_answers(answers);
            let stayed = copies.push(RelocateEventView::Exists(true));
            let left = copies.push(RelocateEventView::Exists(false)) + remove_answers(outcomes);
            let moved = moving.files_after_all(left, files);
            &&& moving.after_all(copies).action() == RelocateActionView::CheckExists(
                relocation.from,
            )
            &&& moving.after_all(stayed).action() == RelocateActionView::Finished(result)
            &&& moving.files_after_all(stayed, files) == copied
            &&& to_uri is None || cache_filename(to_uri->0) != cache_filename(uri) ==> {
                &&& forall|path: PathView|
                    old_entries.contains(path) ==> (#[trigger] copied.contains_key(path)
                        <==> files.contains_key(path))
                &&& forall|path: PathView|
                    old_entries.contains(path) && files.contains_key(path)
                        ==> #[trigger] copied[path] == files[path]
            }
            &&& moving.after_all(left).action() == RelocateActionView::Finished(result)
            &&& forall|path: PathView| #[trigger]
                moved.contains_key(path) <==> copied.contains_key(path) && !old_entries.contains(
                    path,
                )
            &&& forall|path: PathView| #[trigger]
                moved.contains_key(path) ==> moved[path] == copied[path]
        }),
{
    let old_entries = entry_paths(relocation.cache_base_dir, relocation.cache_filename);
    let copied = relocation.copying(to, to_uri).files_after_all(answers, files);
    let moving = relocation.relocating(to, to_uri);
    let copies = copy_answers(answers);
    let stayed = copies.push(RelocateEventView::Exists(true));
    let gone = copies.push(RelocateEventView::Exists(false));
    moving_copies_alike(moving, answers, files);
    assert(stayed.drop_last() =~= copies);
    assert(gone.drop_last() =~= copies);
    assert(old_entries.len() == 5);
    moving_removes_in_order(moving, gone, outcomes, files);
    assert(old_entries.take(5) =~= old_entries);
    if to_uri is None || cache_filename(to_uri->0) != cache_filename(uri) {
        assert forall|path: PathView| old_entries.contains(path) implies (
        #[trigger] copied.contains_key(path) <==> files.contains_key(path)) by {
            copying_leaves_old_entries(relocation, uri, to, to_uri, answers, files, path);
        }
        assert forall|path: PathView|
            old_entries.contains(path) && files.contains_key(path) implies #[trigger] copied[path]
            == files[path] by {
            copying_leaves_old_entries(relocation, uri, to, to_uri, answers, files, path);
        }
    }
}

/// What is read under a size is the file of that size.
pub proof fn snapshot_keeps_sizes_apart(snapshot: CacheSnapshot)
    ensures
        snapshot.thumbnail(ThumbnailSize::Normal) == optional_bytes(snapshot.normal),
        snapshot.thumbnail(ThumbnailSize::Large) == optional_bytes(snapshot.large),
        snapshot.thumbnail(ThumbnailSize::XLarge) == optional_bytes(snapshot.x_large),
        snapshot.thumbnail(ThumbnailSize::XXLarge) == optional_bytes(snapshot.xx_large),
{
}

/// A file is captured with the path it had, the directory of the cache, the name of its URI, the
/// sizes in which its thumbnail is valid, from the smallest to the largest and each once, and
/// whether its fail marker is valid; a symbolic link and what cannot be inspected are not.
pub proof fn captured_entries_are_the_valid_ones(
    from: PathView,
    uri: Seq<char>,
    base: PathView,
    kind: Option<FileKind>,
    snapshot: CacheSnapshot,
    metadata: Option<SourceMetadata>,
)
    ensures
        ({
            let captured = captured(from, uri, base, kind, snapshot, metadata);
            &&& captured is None <==> kind is None || kind == Some(FileKind::Symlink)
            &&& captured matches Some(relocation) ==> {
                &&& relocation.from == from
                &&& relocation.cache_base_dir == base
                &&& relocation.cache_filename == cache_filename(uri)
                &&& forall|size: ThumbnailSize| #[trigger]
                    relocation.valid_sizes.contains(size) <==> is_valid_entry(
                        snapshot.thumbnail(size),
                        uri,
                        metadata,
                    )
                &&& forall|i: int, j: int|
                    0 <= i < j < relocation.valid_sizes.len() ==> (
                    #[trigger] relocation.valid_sizes[i]).edge() < (
                    #[trigger] relocation.valid_sizes[j]).edge()
                &&& relocation.valid_fail_marker <==> is_valid_entry(
                    optional_bytes(snapshot.fail_marker),
                    uri,
                    metadata,
                )
            }
        }),
{
    if kind is Some && kind != Some(FileKind::Symlink) {
        let sizes = all_sizes();
        let valid = |size: ThumbnailSize| is_valid_entry(snapshot.thumbnail(size), uri, metadata);
        let chosen = sizes.filter(valid);
        assert(valid_among(snapshot, uri, metadata, sizes) == chosen);
        assert forall|size: ThumbnailSize| #[trigger] chosen.contains(size) <==> valid(size) by {
            assert(sizes[0] == ThumbnailSize::Normal && sizes[1] == ThumbnailSize::Large && sizes[2]
                == ThumbnailSize::XLarge && sizes[3] == ThumbnailSize::XXLarge);
            let index = choose|i: int| 0 <= i < 4 && sizes[i] == size;
            if valid(size) {
                sizes.lemma_filter_contains(valid, index);
            }
            if chosen.contains(size) {
                let place = choose|i: int| 0 <= i < chosen.len() && chosen[i] == size;
                sizes.lemma_filter_pred(valid, place);
            }
        }
        filtered_sizes_grow(sizes, valid);
    }
}

/// Sizes that grow still grow once some are left out.
proof fn filtered_sizes_grow(sizes: Seq<ThumbnailSize>, keep: spec_fn(ThumbnailSize) -> bool)
    requires
        forall|i: int, j: int|
            0 <= i < j < sizes.len() ==> (#[trigger] sizes[i]).edge() < (#[trigger] sizes[j]).edge(),
    ensures
        forall|i: int, j: int|
            0 <= i < j < sizes.filter(keep).len() ==> (#[trigger] sizes.filter(keep)[i]).edge() < (
            #[trigger] sizes.filter(keep)[j]).edge(),
    decreases sizes.len(),
{
    reveal(Seq::filter);
    if sizes.len() > 0 {
        let shorter = sizes.drop_last();
        filtered_sizes_grow(shorter, keep);
        assert forall|i: int| 0 <= i < shorter.filter(keep).len() implies (
        #[trigger] shorter.filter(keep)[i]).edge() < sizes.last().edge() by {
            let size = shorter.filter(keep)[i];
            assert(shorter.filter(keep).contains(size));
            shorter.lemma_filter_contains_rev(keep, size);
            let place = choose|k: int| 0 <= k < shorter.len() && shorter[k] == size;
            assert(sizes[place] == size);
            assert(sizes[sizes.len() - 1] == sizes.last());
        }
    }
}

/// Every valid thumbnail is one job, in order, and the fail marker, if it is valid, is the last one.
/// A thumbnail is read where it stands under the old name and goes to the place of the same size
/// under the name of the new URI; both kinds describe the file at its new path under its new URI.
pub proof fn jobs_lead_from_old_to_new_places(
    relocation: RelocationView,
    to: PathView,
    to_uri: Seq<char>,
    index: int,
)
    requires
        crate::layout::is_file_name(relocation.cache_filename),
        0 <= index < relocation.jobs(to, to_uri).len(),
    ensures
        ({
            let base = relocation.cache_base_dir;
            let jobs = relocation.jobs(to, to_uri);
            let job = jobs[index];
            let n = relocation.valid_sizes.len();
            let name = cache_filename(to_uri);
            &&& jobs.len() == n + if relocation.valid_fail_marker {
                1int
            } else {
                0
            }
            &&& job.cacher.file_path == to
            &&& job.cacher.file_uri == to_uri
            &&& index < n ==> {
                let size = relocation.valid_sizes[index];
                &&& job.source == Some(thumbnail_entry(base, size, relocation.cache_filename))
                &&& job.cacher.thumbnail_size == size
                &&& job.cacher.thumbnail_path == thumbnail_entry(base, size, name)
                &&& job.cacher.thumbnail_path.parent() == Some(job.directory)
                &&& job.cacher.thumbnail_dir == job.directory
            }
            &&& index == n ==> {
                &&& job.source is None
                &&& job.cacher.thumbnail_fail_marker_path == fail_marker(base, name)
                &&& job.cacher.thumbnail_fail_marker_path.parent() == Some(job.directory)
            }
        }),
{
    let size = if index < relocation.valid_sizes.len() {
        relocation.valid_sizes[index]
    } else {
        ThumbnailSize::Normal
    };
    crate::uri::cache_filename_is_one_component(to_uri);
    crate::layout::entries_stand_below_base(
        relocation.cache_base_dir,
        cache_filename(to_uri),
        size,
    );
}

/// What is made of an old thumbnail for the new path holds the image that is read from the old one,
/// with what is recorded of the file at its new path and nothing else; it is not made of one that
/// cannot be read or is larger than its size.
pub proof fn copied_thumbnails_keep_the_image(
    job: JobView,
    source: Option<Seq<u8>>,
    metadata: Option<SourceMetadata>,
)
    requires
        job.source is Some,
    ensures
        ({
            let limit = job.cacher.decoded_bytes();
            let edge = job.cacher.thumbnail_size.edge();
            let header = png_header(source->0, limit);
            let pixels = png_pixels(source->0, limit);
            let texts = recorded_texts(
                job.cacher.file_uri,
                metadata->0.len,
                metadata->0.mtime()->0,
            );
            let made = job.staged(source, metadata);
            &&& made is Some <==> source is Some && header is Some && header->0.width <= edge
                && header->0.height <= edge && pixels is Some && metadata is Some && !(
            metadata->0.modified is Unknown) && is_encodable(header->0, texts, pixels->0)
            &&& made matches Some(entry) ==> {
                &&& entry.directory == job.cacher.thumbnail_dir
                &&& entry.path == job.cacher.thumbnail_path
                &&& entry.contents == png_contents(header->0, texts, pixels->0)
            }
        }),
{
    if source is Some {
        crate::cacher::rewriting_keeps_the_image(job.cacher, source->0, metadata);
    }
}

/// A fail marker that follows a file is a new one for the file at its new path, whatever was read.
pub proof fn copied_fail_markers_are_new(
    job: JobView,
    source: Option<Seq<u8>>,
    metadata: Option<SourceMetadata>,
)
    requires
        job.source is None,
    ensures
        ({
            let marker = job.cacher.thumbnail_fail_marker_path;
            let header = PngHeader { width: 1, height: 1, color_type: 0, bit_depth: 1 };
            let made = job.staged(source, metadata);
            &&& made is Some <==> marker.components.len() > 0 && metadata is Some && !(
            metadata->0.modified is Unknown) && (forall|i: int|
                0 <= i < job.cacher.file_uri.len() ==> (#[trigger] job.cacher.file_uri[i]) as int
                    <= 0xff)
            &&& made matches Some(entry) ==> {
                &&& entry.path == marker
                &&& marker.parent() == Some(entry.directory)
                &&& entry.contents == png_contents(
                    header,
                    recorded_texts(job.cacher.file_uri, metadata->0.len, metadata->0.mtime()->0),
                    seq![0u8],
                )
            }
        }),
{
    crate::cacher::fail_markers_record_the_state(job.cacher, metadata);
    crate::path::parent_lacks_the_last_component(job.cacher.thumbnail_fail_marker_path);
}

/// The copying starts with the first entry and nothing copied, and without a URI there is no entry.
pub proof fn copying_starts_at_the_first_entry(
    relocation: RelocationView,
    to: PathView,
    to_uri: Option<Seq<char>>,
)
    ensures
        ({
            let run = relocation.copying(to, to_uri);
            &&& run.done == 0
            &&& run.stage is Prepare
            &&& !run.copied
            &&& run.well_formed()
            &&& to_uri is None ==> run.jobs.len() == 0 && run.action()
                == CopyActionView::Finished(false)
            &&& to_uri matches Some(uri) ==> run.jobs == relocation.jobs(to, uri)
        }),
{
}

/// What the copying asks for belongs to the entry whose turn it is: its directory, then the old
/// entry and the file that the new one describes, then the publishing of the new one; and when no
/// entry is left, it says whether anything was copied.
pub proof fn copying_asks_for_the_current_entry(run: CopyView)
    ensures
        run.done >= run.jobs.len() ==> run.action() == CopyActionView::Finished(run.copied),
        run.done < run.jobs.len() ==> {
            let job = run.jobs[run.done as int];
            match run.stage {
                CopyStageView::Prepare => run.action() == CopyActionView::PrepareDirectory(
                    job.directory,
                ),
                CopyStageView::Rewrite => run.action() == (CopyActionView::Read {
                    source: job.source,
                    described: job.cacher.file_path,
                }),
                CopyStageView::Publish(entry) => run.action() == CopyActionView::Publish(entry),
            }
        },
{
}

/// An entry takes three answers at most, and then the very next one has its turn: after a directory
/// that cannot be prepared, after contents of which no entry can be made, and after the publishing,
/// whether it succeeded or not. Nothing else changes but that a success counts as copied.
pub proof fn copying_goes_on_with_the_next_entry(
    run: CopyView,
    source: Option<Seq<u8>>,
    metadata: Option<SourceMetadata>,
    entry: EntryView,
    published: bool,
)
    requires
        run.done < run.jobs.len(),
    ensures
        run.stage is Prepare ==> {
            let prepared = run.after(CopyEventView::Prepared(true));
            let failed = run.after(CopyEventView::Prepared(false));
            &&& prepared.jobs == run.jobs && prepared.done == run.done && prepared.copied
                == run.copied && prepared.stage is Rewrite
            &&& failed.jobs == run.jobs && failed.done == run.done + 1 && failed.copied
                == run.copied && failed.stage is Prepare
        },
        run.stage is Rewrite ==> {
            let read = run.after(CopyEventView::Contents { source, metadata });
            let made = run.jobs[run.done as int].staged(source, metadata);
            &&& read.jobs == run.jobs && read.copied == run.copied
            &&& made is None ==> read.done == run.done + 1 && read.stage is Prepare
            &&& made matches Some(staged) ==> read.done == run.done && read.stage
                == CopyStageView::Publish(staged)
        },
        run.stage == CopyStageView::Publish(entry) ==> {
            let next = run.after(CopyEventView::Published(published));
            &&& next.jobs == run.jobs && next.done == run.done + 1 && next.stage is Prepare
            &&& next.copied == (run.copied || published)
        },
{
}

/// The moving starts with the copying, and knows nothing yet of the file at its old path; the old
/// entries are all that the cache can have under the old name.
pub proof fn moving_starts_with_the_copying(
    relocation: RelocationView,
    to: PathView,
    to_uri: Option<Seq<char>>,
)
    ensures
        ({
            let run = relocation.relocating(to, to_uri);
            &&& run.from == relocation.from
            &&& run.copy == relocation.copying(to, to_uri)
            &&& run.gone is None
            &&& run.old_entries.paths == entry_paths(
                relocation.cache_base_dir,
                relocation.cache_filename,
            )
            &&& run.old_entries.gone == 0 && !run.old_entries.failed
        }),
{
}

/// The first old entry that cannot be removed ends the moving, with the result of the copying.
pub proof fn moving_ends_at_a_failed_removal(run: RelocateView)
    requires
        run.action() is Remove,
    ensures
        ({
            let ended = run.after(RelocateEventView::Remove(RemoveOutcome::Failed));
            &&& ended.action() == RelocateActionView::Finished(run.copy.copied)
            &&& ended.copy == run.copy && ended.from == run.from && ended.gone == run.gone
            &&& ended.old_entries.paths == run.old_entries.paths && ended.old_entries.gone
                == run.old_entries.gone
        }),
{
}

/// What is read of a file and given as a text is taken whole.
pub proof fn contents_are_taken_whole(contents: Vec<u8>, text: &String)
    ensures
        optional_bytes(Some(contents)) == Some(contents@),
        optional_bytes(None) is None,
        borrowed_text(Some(text)) == Some(text@),
        borrowed_text(None) is None,
{
}

/// An answer to a step of the copying says what the file system said.
pub proof fn copy_answers_are_taken_as_they_are(
    success: bool,
    source: Option<Vec<u8>>,
    metadata: Option<SourceMetadata>,
)
    ensures
        CopyEvent::Prepared(success)@ == CopyEventView::Prepared(success),
        CopyEvent::Published(success)@ == CopyEventView::Published(success),
        (CopyEvent::Contents { source, metadata })@ == (CopyEventView::Contents {
            source: match source {
                Some(bytes) => Some(bytes@),
                None => None,
            },
            metadata,
        }),
{
}

/// A step of the copying asks for the paths and the entry that it names.
pub proof fn copy_steps_name_what_they_ask_for(
    path: &FilePath,
    other: &FilePath,
    entry: &CacheEntry,
    copied: bool,
)
    ensures
        CopyAction::PrepareDirectory(path)@ == CopyActionView::PrepareDirectory(path@),
        (CopyAction::Read { source: Some(path), described: other })@ == (CopyActionView::Read {
            source: Some(path@),
            described: other@,
        }),
        (CopyAction::Read { source: None, described: other })@ == (CopyActionView::Read {
            source: None,
            described: other@,
        }),
        CopyAction::Publish(entry)@ == CopyActionView::Publish(entry@),
        CopyAction::Finished(copied)@ == CopyActionView::Finished(copied),
{
}

/// A step of the moving asks for what it names, and an answer to it says what the file system said.
pub proof fn move_steps_name_what_they_ask_for(
    path: &FilePath,
    flag: bool,
    outcome: RemoveOutcome,
    answer: CopyEvent,
)
    ensures
        RelocateAction::CheckExists(path)@ == RelocateActionView::CheckExists(path@),
        RelocateAction::Remove(path)@ == RelocateActionView::Remove(path@),
        RelocateAction::Finished(flag)@ == RelocateActionView::Finished(flag),
        RelocateAction::Copy(CopyAction::PrepareDirectory(path))@ == RelocateActionView::Copy(
            CopyActionView::PrepareDirectory(path@),
        ),
        RelocateEvent::Exists(flag)@ == RelocateEventView::Exists(flag),
        RelocateEvent::Remove(outcome)@ == RelocateEventView::Remove(outcome),
        RelocateEvent::Copy(answer)@ == RelocateEventView::Copy(answer@),
{
}

} // verus!
