//! The cached thumbnail of one file.
use vstd::prelude::*;
use vstd::utf8::encode_utf8;

use crate::frame::{
    can_be_scaled, image_layout, image_samples, is_scalable, rgba_header, rgba_thumbnail,
    thumbnail_of, Frame,
};
use crate::layout::{fail_marker, fail_marker_path, size_directory, thumbnail_entry};
use crate::metadata::{bytes_of, entry_is_valid, is_valid_entry, recorded_texts, SourceMetadata};
use crate::path::{FilePath, PathView};
use crate::png_file::{
    chunk_texts, is_encodable, is_latin1, png_contents, png_header, png_pixels, png_texts,
    read_png_header, read_png_pixels, write_png, PngHeader, TextChunk, GRAYSCALE, INDEXED,
    LONGEST_EDGE, RGBA,
};
use crate::size::ThumbnailSize;
use crate::text::{decimal, decimal_text};
use crate::uri::{
    cache_filename, thumbnail_cache_filename, thumbnail_uri_from_path, uri_of_path, view_of,
    UriError,
};

verus! {

/// The longest URI with which a written entry is sure to be read back: with the rest of what is
/// recorded, the decoder reads as much by default.
pub const LONGEST_URI: usize = 0x1ef_ffcc;

/// The bits of a file's mode that are its permissions.
pub const PERMISSION_BITS: u32 = 0o777;

/// The permissions of a directory that only its owner can use.
pub const PRIVATE_DIRECTORY: u32 = 0o700;

/// The permissions of a published entry.
pub const PRIVATE_FILE: u32 = 0o600;

/// How the name begins under which an entry is staged before it is published.
pub const STAGING_PREFIX: &'static str = ".cosmic-files-";

/// The cached thumbnail of one file, in one size, as a view.
#[verifier::ext_equal]
pub struct CacherView {
    pub file_path: PathView,
    pub file_uri: Seq<char>,
    pub thumbnail_dir: PathView,
    pub thumbnail_path: PathView,
    pub thumbnail_size: ThumbnailSize,
    pub thumbnail_fail_marker_path: PathView,
}

/// The cached thumbnail of one file, in one size, in the thumbnail cache that the programs of a
/// freedesktop.org desktop share.
#[derive(Debug, PartialEq, Eq)]
pub struct ThumbnailCacher {
    /// The file that the thumbnail shows.
    pub file_path: FilePath,
    /// The URI of that file.
    pub file_uri: String,
    /// The directory of the thumbnail.
    pub thumbnail_dir: FilePath,
    /// Where the thumbnail stands.
    pub thumbnail_path: FilePath,
    /// The size of the thumbnail.
    pub thumbnail_size: ThumbnailSize,
    /// Where it is recorded that no thumbnail could be made.
    pub thumbnail_fail_marker_path: FilePath,
}

impl View for ThumbnailCacher {
    type V = CacherView;

    open spec fn view(&self) -> CacherView {
        CacherView {
            file_path: self.file_path@,
            file_uri: self.file_uri@,
            thumbnail_dir: self.thumbnail_dir@,
            thumbnail_path: self.thumbnail_path@,
            thumbnail_size: self.thumbnail_size,
            thumbnail_fail_marker_path: self.thumbnail_fail_marker_path@,
        }
    }
}

/// The cached thumbnail of a file, below the cache's directory.
pub open spec fn cacher_in(
    file_path: PathView,
    file_uri: Seq<char>,
    base: PathView,
    filename: Seq<char>,
    size: ThumbnailSize,
) -> CacherView {
    CacherView {
        file_path,
        file_uri,
        thumbnail_dir: size_directory(base, size),
        thumbnail_path: thumbnail_entry(base, size, filename),
        thumbnail_size: size,
        thumbnail_fail_marker_path: fail_marker(base, filename),
    }
}

/// The cached thumbnail of `file_path`, under the name `cache_filename` below `cache_base_dir`.
pub fn cacher_for(
    file_path: &FilePath,
    file_uri: &str,
    cache_base_dir: &FilePath,
    cache_filename: &str,
    size: ThumbnailSize,
) -> (cacher: ThumbnailCacher)
    ensures
        cacher@ == cacher_in(file_path@, file_uri@, cache_base_dir@, cache_filename@, size),
{
    let thumbnail_dir = cache_base_dir.join_text(size.subdirectory_name());
    ThumbnailCacher {
        file_path: file_path.clone(),
        file_uri: file_uri.to_string(),
        thumbnail_path: thumbnail_dir.join_text(cache_filename),
        thumbnail_dir,
        thumbnail_size: size,
        thumbnail_fail_marker_path: fail_marker_path(cache_base_dir, cache_filename),
    }
}

/// Why there is no cache for a file.
#[derive(Debug, PartialEq, Eq)]
pub enum CacherError {
    /// The file cannot be resolved, for the reason given.
    Unresolved(String),
    /// The resolved file has no URI.
    Uri(UriError),
    /// There is no cache directory.
    NoCacheDirectory,
    /// The directory of the thumbnails cannot be prepared, for the reason given.
    Directory(String),
}

impl CacherError {
    /// What the error says, with `shown_path` for the path that it is about.
    pub open spec fn says(&self, shown_path: Seq<char>) -> Seq<char> {
        match self {
            CacherError::Unresolved(reason) => "failed to create URI for "@ + shown_path + ": "@
                + reason@,
            CacherError::Uri(error) => "failed to create URI for "@ + shown_path + ": "@
                + error.says(shown_path),
            CacherError::NoCacheDirectory => "failed to get thumbnail cache directory"@,
            CacherError::Directory(reason) => "failed to prepare thumbnail cache directory "@
                + shown_path + ": "@ + reason@,
        }
    }

    /// The message of the error. `shown_path` is the path of the directory for one that cannot be
    /// prepared, and else the path of the file.
    pub fn message(&self, shown_path: &str) -> (message: String)
        ensures
            message@ == self.says(shown_path@),
    {
        match self {
            CacherError::Unresolved(reason) => "failed to create URI for ".to_string().concat(
                shown_path,
            ).concat(": ").concat(reason.as_str()),
            CacherError::Uri(error) => "failed to create URI for ".to_string().concat(
                shown_path,
            ).concat(": ").concat(error.message(shown_path).as_str()),
            CacherError::NoCacheDirectory => "failed to get thumbnail cache directory".to_string(),
            CacherError::Directory(
                reason,
            ) => "failed to prepare thumbnail cache directory ".to_string().concat(
                shown_path,
            ).concat(": ").concat(reason.as_str()),
        }
    }
}

/// An answer of the cache as a view.
pub enum CachedThumbnailView {
    Valid(PathView, Option<ThumbnailSize>),
    RequiresUpdate(ThumbnailSize),
    Failed,
}

/// What the cache has for a file.
#[derive(Debug, PartialEq, Eq)]
pub enum CachedThumbnail {
    /// The cached thumbnail is valid and should be used with size if known.
    Valid((FilePath, Option<ThumbnailSize>)),
    /// The cached thumbnail doesn't exist or it's invalid and needs to be recreated with the
    /// pixel size.
    RequiresUpdate(ThumbnailSize),
    /// The cached thumbnail is in a failed state: it could not be created in the past and
    /// shouldn't be tried again.
    Failed,
}

impl View for CachedThumbnail {
    type V = CachedThumbnailView;

    open spec fn view(&self) -> CachedThumbnailView {
        match self {
            CachedThumbnail::Valid(found) => CachedThumbnailView::Valid(found.0@, found.1),
            CachedThumbnail::RequiresUpdate(size) => CachedThumbnailView::RequiresUpdate(*size),
            CachedThumbnail::Failed => CachedThumbnailView::Failed,
        }
    }
}

/// A file that is to be published in the cache, as a view.
#[verifier::ext_equal]
pub struct EntryView {
    pub directory: PathView,
    pub path: PathView,
    pub contents: Seq<u8>,
}

/// A file that is to be published in the cache: staged under another name in `directory`, and
/// then moved to `path`.
#[derive(Debug, PartialEq, Eq)]
pub struct CacheEntry {
    pub directory: FilePath,
    pub path: FilePath,
    pub contents: Vec<u8>,
}

impl View for CacheEntry {
    type V = EntryView;

    open spec fn view(&self) -> EntryView {
        EntryView {
            directory: self.directory@,
            path: self.path@,
            contents: self.contents@,
        }
    }
}

/// Why there is no new entry, as a view.
pub enum UpdateFailure {
    Decode,
    Oversized { width: u32, height: u32, maximum: u32 },
    NoMetadata,
    NoModifiedTime,
    NoFailDirectory,
    Encode,
}

/// Why there is no new entry.
#[derive(Debug)]
pub enum UpdateError {
    /// The thumbnail cannot be decoded.
    Decode(png::DecodingError),
    /// The thumbnail is larger than its size allows.
    Oversized { width: u32, height: u32, maximum: u32 },
    /// The source file cannot be inspected.
    NoMetadata,
    /// The source file has no modification time.
    NoModifiedTime,
    /// The fail marker would have no parent directory.
    NoFailDirectory,
    /// The thumbnail or its texts cannot be encoded.
    Encode(png::EncodingError),
}

impl View for UpdateError {
    type V = UpdateFailure;

    open spec fn view(&self) -> UpdateFailure {
        match self {
            UpdateError::Decode(_) => UpdateFailure::Decode,
            UpdateError::Oversized { width, height, maximum } => UpdateFailure::Oversized {
                width: *width,
                height: *height,
                maximum: *maximum,
            },
            UpdateError::NoMetadata => UpdateFailure::NoMetadata,
            UpdateError::NoModifiedTime => UpdateFailure::NoModifiedTime,
            UpdateError::NoFailDirectory => UpdateFailure::NoFailDirectory,
            UpdateError::Encode(_) => UpdateFailure::Encode,
        }
    }
}

/// The view of an update's result.
pub open spec fn outcome(result: Result<CacheEntry, UpdateError>) -> Result<
    EntryView,
    UpdateFailure,
> {
    match result {
        Ok(entry) => Ok(entry@),
        Err(error) => Err(error@),
    }
}

impl UpdateError {
    /// What the error says where it comes from the cache itself.
    pub open spec fn says(&self) -> Option<Seq<char>> {
        match self {
            UpdateError::Oversized { width, height, maximum } => Some(
                "thumbnail output "@ + decimal_text(*width as nat) + "x"@ + decimal_text(
                    *height as nat,
                ) + " exceeds cache size "@ + decimal_text(*maximum as nat) + "x"@ + decimal_text(
                    *maximum as nat,
                ),
            ),
            UpdateError::NoFailDirectory => Some(
                "thumbnail fail marker has no parent directory"@,
            ),
            _ => None,
        }
    }

    /// The message of an error of the cache itself; the others say what is wrong themselves.
    pub fn message(&self) -> (message: Option<String>)
        ensures
            crate::uri::text_of(message) == self.says(),
    {
        match self {
            UpdateError::Oversized { width, height, maximum } => {
                let edge = decimal(*maximum as u64);
                Some(
                    "thumbnail output ".to_string().concat(decimal(*width as u64).as_str()).concat(
                        "x",
                    ).concat(decimal(*height as u64).as_str()).concat(" exceeds cache size ").concat(
                        edge.as_str(),
                    ).concat("x").concat(edge.as_str()),
                )
            },
            UpdateError::NoFailDirectory => Some(
                "thumbnail fail marker has no parent directory".to_string(),
            ),
            _ => None,
        }
    }
}

/// The entry with the pixels of an image and what is to be recorded of the source file.
pub open spec fn staged(
    directory: PathView,
    path: PathView,
    uri: Seq<char>,
    header: PngHeader,
    pixels: Seq<u8>,
    metadata: Option<SourceMetadata>,
) -> Result<EntryView, UpdateFailure> {
    match metadata {
        None => Err(UpdateFailure::NoMetadata),
        Some(current) => match current.mtime() {
            None => Err(UpdateFailure::NoModifiedTime),
            Some(mtime) => {
                let texts = recorded_texts(uri, current.len, mtime);
                if is_encodable(header, texts, pixels) {
                    Ok(EntryView { directory, path, contents: png_contents(header, texts, pixels) })
                } else {
                    Err(UpdateFailure::Encode)
                }
            },
        },
    }
}

/// Whether the state of a source file can be recorded: the file is there, its modification time is
/// known, and its URI can be written to a PNG file.
pub open spec fn is_recordable(uri: Seq<char>, metadata: Option<SourceMetadata>) -> bool {
    metadata matches Some(current) && current.mtime() is Some && is_latin1(uri)
}

/// Whether the image is read back from the contents of a PNG file, by any decoder that may
/// allocate at least a row of it.
pub open spec fn holds_image(contents: Seq<u8>, header: PngHeader, pixels: Seq<u8>) -> bool {
    &&& forall|limit: usize|
        header.row_bytes() <= limit ==> #[trigger] png_header(contents, limit) == Some(header)
    &&& forall|limit: usize|
        header.row_bytes() <= limit ==> #[trigger] png_pixels(contents, limit) == Some(pixels)
}

/// Whether the contents of an entry describe a source file in one state, and no other file and no
/// other state.
pub open spec fn describes_only(contents: Seq<u8>, uri: Seq<char>, recorded: SourceMetadata) -> bool {
    forall|other_uri: Seq<char>, current: SourceMetadata| #[trigger]
        is_valid_entry(Some(contents), other_uri, Some(current)) <==> other_uri == uri && current.len
            == recorded.len && current.mtime() == recorded.mtime()
}

/// Whether the contents of an entry are what was put into it, for a URI that is not too long: the
/// image is read back from them, their texts are those that are recorded, no others, and they
/// describe the source file in the state that was recorded, and in no other.
pub open spec fn is_written_entry(
    contents: Seq<u8>,
    header: PngHeader,
    pixels: Seq<u8>,
    uri: Seq<char>,
    metadata: Option<SourceMetadata>,
) -> bool {
    uri.len() <= LONGEST_URI ==> {
        &&& holds_image(contents, header, pixels)
        &&& metadata matches Some(recorded) && recorded.mtime() matches Some(mtime) && png_texts(
            contents,
        ) == Some(recorded_texts(uri, recorded.len, mtime))
        &&& is_valid_entry(Some(contents), uri, metadata)
        &&& describes_only(contents, uri, metadata->0)
    }
}

/// A file with the texts that are recorded of a source file describes that file in that state only.
proof fn recorded_entry_describes_only(
    contents: Seq<u8>,
    uri: Seq<char>,
    recorded: SourceMetadata,
)
    requires
        recorded.mtime() is Some,
    ensures
        png_texts(contents) == Some(recorded_texts(uri, recorded.len, recorded.mtime()->0)) ==> {
            &&& is_valid_entry(Some(contents), uri, Some(recorded))
            &&& describes_only(contents, uri, recorded)
        },
{
    if png_texts(contents) == Some(recorded_texts(uri, recorded.len, recorded.mtime()->0)) {
        assert forall|other_uri: Seq<char>, current: SourceMetadata| #[trigger]
            is_valid_entry(Some(contents), other_uri, Some(current)) <==> other_uri == uri
                && current.len == recorded.len && current.mtime() == recorded.mtime() by {
            crate::metadata::recorded_texts_describe_one_state(uri, recorded, other_uri, current);
        }
        assert(is_valid_entry(Some(contents), uri, Some(recorded)));
    }
}

impl CacherView {
    /// How many bytes a decoder may allocate for a thumbnail of this size: those of the size's
    /// largest frame with four samples of 16 bits.
    pub open spec fn decoded_bytes(self) -> usize {
        (self.thumbnail_size.edge() * self.thumbnail_size.edge() * 8) as usize
    }

    /// What the cache has for the file.
    pub open spec fn lookup(
        self,
        base: Option<PathView>,
        is_file: bool,
        thumbnail: Option<Seq<u8>>,
        marker: Option<Seq<u8>>,
        metadata: Option<SourceMetadata>,
    ) -> CachedThumbnailView {
        if is_file && base is Some && self.file_path.starts_with(base->0) {
            CachedThumbnailView::Valid(self.file_path, None)
        } else if is_valid_entry(thumbnail, self.file_uri, metadata) {
            CachedThumbnailView::Valid(self.thumbnail_path, Some(self.thumbnail_size))
        } else if is_valid_entry(marker, self.file_uri, metadata) {
            CachedThumbnailView::Failed
        } else {
            CachedThumbnailView::RequiresUpdate(self.thumbnail_size)
        }
    }

    /// The entry that the pixels of an image make.
    pub open spec fn updated(
        self,
        header: PngHeader,
        pixels: Seq<u8>,
        metadata: Option<SourceMetadata>,
    ) -> Result<EntryView, UpdateFailure> {
        staged(
            self.thumbnail_dir,
            self.thumbnail_path,
            self.file_uri,
            header,
            pixels,
            metadata,
        )
    }

    /// The entry that another thumbnail makes: with its pixels, and none of its texts.
    pub open spec fn rewritten(
        self,
        thumbnail: Seq<u8>,
        metadata: Option<SourceMetadata>,
    ) -> Result<EntryView, UpdateFailure> {
        let limit = self.decoded_bytes();
        let maximum = self.thumbnail_size.edge();
        match png_header(thumbnail, limit) {
            None => Err(UpdateFailure::Decode),
            Some(header) => if !header.fits(maximum) {
                Err(
                    UpdateFailure::Oversized {
                        width: header.width,
                        height: header.height,
                        maximum,
                    },
                )
            } else {
                match png_pixels(thumbnail, limit) {
                    None => Err(UpdateFailure::Decode),
                    Some(pixels) => self.updated(header, pixels, metadata),
                }
            },
        }
    }

    /// The header of a fail marker: one pixel of one bit.
    pub open spec fn marker_header() -> PngHeader {
        PngHeader { width: 1, height: 1, color_type: GRAYSCALE, bit_depth: 1 }
    }

    /// The entry that records that no thumbnail could be made.
    pub open spec fn failed(self, metadata: Option<SourceMetadata>) -> Result<
        EntryView,
        UpdateFailure,
    > {
        match self.thumbnail_fail_marker_path.parent() {
            None => Err(UpdateFailure::NoFailDirectory),
            Some(directory) => staged(
                directory,
                self.thumbnail_fail_marker_path,
                self.file_uri,
                CacherView::marker_header(),
                seq![0u8],
                metadata,
            ),
        }
    }
}

impl ThumbnailCacher {
    /// The cache for the thumbnail of `file_path`, which resolves to `resolved_path`, if it can be
    /// resolved.
    ///
    /// The directory of the result still has to be prepared.
    pub fn new(
        file_path: &FilePath,
        resolved_path: Result<&FilePath, String>,
        cache_base_dir: Option<&FilePath>,
        thumbnail_size: ThumbnailSize,
    ) -> (cacher: Result<Self, CacherError>)
        ensures
            match resolved_path {
                Err(reason) => cacher == Err::<Self, CacherError>(CacherError::Unresolved(reason)),
                Ok(resolved) => if !resolved@.absolute {
                    cacher == Err::<Self, CacherError>(CacherError::Uri(UriError::NotAbsolute))
                } else {
                    match cache_base_dir {
                        None => cacher == Err::<Self, CacherError>(CacherError::NoCacheDirectory),
                        Some(base) => cacher matches Ok(made) && made@ == cacher_in(
                            file_path@,
                            uri_of_path(resolved@),
                            base@,
                            cache_filename(uri_of_path(resolved@)),
                            thumbnail_size,
                        ),
                    }
                },
            },
            cacher matches Ok(made) ==> is_latin1(made@.file_uri),
    {
        let resolved = match resolved_path {
            Ok(resolved) => resolved,
            Err(reason) => {
                return Err(CacherError::Unresolved(reason));
            },
        };
        match thumbnail_uri_from_path(resolved) {
            Err(error) => Err(CacherError::Uri(error)),
            Ok(uri) => match cache_base_dir {
                None => Err(CacherError::NoCacheDirectory),
                Some(base) => {
                    let filename = thumbnail_cache_filename(uri.as_str());
                    Ok(cacher_for(file_path, uri.as_str(), base, filename.as_str(), thumbnail_size))
                },
            },
        }
    }

    /// What the cache has for the file. `source_is_file` says whether the file is there and is a
    /// regular file, `thumbnail` and `fail_marker` are what can be read at the two paths, and
    /// `metadata` is what the file system says of the file.
    ///
    /// A file that is already a thumbnail is its own thumbnail.
    pub fn get_cached_thumbnail(
        &self,
        cache_base_dir: Option<&FilePath>,
        source_is_file: bool,
        thumbnail: Option<&[u8]>,
        fail_marker: Option<&[u8]>,
        metadata: Option<SourceMetadata>,
    ) -> (cached: CachedThumbnail)
        ensures
            cached@ == self@.lookup(
                view_of(cache_base_dir),
                source_is_file,
                bytes_of(thumbnail),
                bytes_of(fail_marker),
                metadata,
            ),
    {
        if let Some(base) = cache_base_dir {
            if source_is_file && self.file_path.starts_with(base) {
                return CachedThumbnail::Valid((self.file_path.clone(), None));
            }
        }
        if self.is_thumbnail_valid(thumbnail, metadata) {
            return CachedThumbnail::Valid((self.thumbnail_path.clone(), Some(self.thumbnail_size)));
        }
        if self.is_thumbnail_valid(fail_marker, metadata) {
            return CachedThumbnail::Failed;
        }
        CachedThumbnail::RequiresUpdate(self.thumbnail_size)
    }

    /// The directory of the thumbnail.
    pub fn thumbnail_dir(&self) -> (directory: &FilePath)
        ensures
            directory@ == self@.thumbnail_dir,
    {
        &self.thumbnail_dir
    }

    /// The permissions that a directory of the cache has to get, if any.
    pub open spec fn private_mode(mode: u32) -> Option<u32> {
        if mode & PERMISSION_BITS == PRIVATE_DIRECTORY {
            None
        } else {
            Some(PRIVATE_DIRECTORY)
        }
    }

    /// The permissions that a directory of the cache has to get where those that it has are not
    /// private to its owner.
    pub fn ensure_private_directory(mode: u32) -> (change: Option<u32>)
        ensures
            change == (if mode & PERMISSION_BITS == PRIVATE_DIRECTORY {
                None::<u32>
            } else {
                Some(PRIVATE_DIRECTORY)
            }),
            change == Self::private_mode(mode),
            change matches Some(changed) ==> changed & PERMISSION_BITS == PRIVATE_DIRECTORY,
    {
        assert(PRIVATE_DIRECTORY & PERMISSION_BITS == PRIVATE_DIRECTORY) by (bit_vector);
        if mode & PERMISSION_BITS != PRIVATE_DIRECTORY {
            Some(PRIVATE_DIRECTORY)
        } else {
            None
        }
    }

    /// Whether a file of the cache, if it can be read, describes the file as it is now.
    pub fn is_thumbnail_valid(
        &self,
        contents: Option<&[u8]>,
        metadata: Option<SourceMetadata>,
    ) -> (valid: bool)
        ensures
            valid == is_valid_entry(bytes_of(contents), self@.file_uri, metadata),
    {
        entry_is_valid(contents, &self.file_uri, metadata)
    }

    /// How many bytes a decoder may allocate for a thumbnail of this size.
    pub fn maximum_decoded_bytes(&self) -> (bytes: usize)
        ensures
            bytes == self@.decoded_bytes(),
            bytes as int == self@.thumbnail_size.edge() * self@.thumbnail_size.edge() * 8,
    {
        let edge: usize = self.thumbnail_size.pixel_size() as usize;
        assert(edge * edge <= 1024 * 1024) by (nonlinear_arith)
            requires
                0 <= edge <= 1024,
        ;
        edge * edge * 8
    }

    /// Adds what an entry records of the file to the texts of a PNG file.
    pub fn add_thumbnail_text_metadata(
        &self,
        texts: &mut Vec<TextChunk>,
        metadata: Option<SourceMetadata>,
    ) -> (added: Result<(), UpdateError>)
        ensures
            match metadata {
                None => added matches Err(error) && error@ == UpdateFailure::NoMetadata,
                Some(current) => match current.mtime() {
                    None => added matches Err(error) && error@ == UpdateFailure::NoModifiedTime,
                    Some(mtime) => added is Ok && chunk_texts(final(texts)@) == chunk_texts(
                        old(texts)@,
                    ) + recorded_texts(self@.file_uri, current.len, mtime),
                },
            },
            added is Err ==> final(texts)@ == old(texts)@,
    {
        let current: SourceMetadata = match metadata {
            Some(current) => current,
            None => {
                return Err(UpdateError::NoMetadata);
            },
        };
        let mtime: u64 = match current.recorded_mtime() {
            Some(mtime) => mtime,
            None => {
                return Err(UpdateError::NoModifiedTime);
            },
        };
        texts.push(
            TextChunk { keyword: "Software".to_string(), text: "COSMIC Files".to_string() },
        );
        texts.push(
            TextChunk { keyword: "Thumb::URI".to_string(), text: self.file_uri.clone() },
        );
        texts.push(
            TextChunk { keyword: "Thumb::Size".to_string(), text: decimal(current.len) },
        );
        texts.push(TextChunk { keyword: "Thumb::MTime".to_string(), text: decimal(mtime) });
        assert(chunk_texts(texts@) =~= chunk_texts(old(texts)@) + recorded_texts(
            self@.file_uri,
            current.len,
            mtime,
        ));
        Ok(())
    }

    /// Makes an entry of an image and what is to be recorded of the file.
    fn stage_entry(
        &self,
        directory: &FilePath,
        path: &FilePath,
        header: PngHeader,
        pixels: &[u8],
        metadata: Option<SourceMetadata>,
    ) -> (entry: Result<CacheEntry, UpdateError>)
        requires
            header.has_depth(),
            header.fits(LONGEST_EDGE),
        ensures
            outcome(entry) == staged(
                directory@,
                path@,
                self@.file_uri,
                header,
                pixels@,
                metadata,
            ),
            entry matches Ok(made) ==> is_written_entry(
                made.contents@,
                header,
                pixels@,
                self@.file_uri,
                metadata,
            ),
            header.is_valid() && header.color_type != INDEXED && pixels@.len()
                == header.pixel_bytes() ==> (entry is Ok <==> is_recordable(
                self@.file_uri,
                metadata,
            )),
    {
        let mut texts: Vec<TextChunk> = Vec::new();
        match self.add_thumbnail_text_metadata(&mut texts, metadata) {
            Ok(()) => {},
            Err(error) => {
                return Err(error);
            },
        }
        proof {
            let current = metadata->0;
            let mtime = current.mtime()->0;
            assert(chunk_texts(texts@) =~= recorded_texts(self@.file_uri, current.len, mtime));
            crate::metadata::recorded_texts_fit_png(self@.file_uri, current.len, mtime);
        }
        match write_png(header, &texts, pixels) {
            Ok(contents) => {
                proof {
                    recorded_entry_describes_only(contents@, self@.file_uri, metadata->0);
                }
                Ok(CacheEntry { directory: directory.clone(), path: path.clone(), contents })
            },
            Err(error) => Err(UpdateError::Encode(error)),
        }
    }

    /// Makes the entry that holds the pixels of another thumbnail, and of its texts none: what is
    /// recorded comes from the file itself.
    pub fn update_from_file(
        &self,
        thumbnail_file: &[u8],
        metadata: Option<SourceMetadata>,
    ) -> (entry: Result<CacheEntry, UpdateError>)
        ensures
            outcome(entry) == self@.rewritten(thumbnail_file@, metadata),
            entry matches Ok(made) ==> is_written_entry(
                made.contents@,
                png_header(thumbnail_file@, self@.decoded_bytes())->0,
                png_pixels(thumbnail_file@, self@.decoded_bytes())->0,
                self@.file_uri,
                metadata,
            ),
            png_header(thumbnail_file@, self@.decoded_bytes()) matches Some(header)
                ==> header.fits(self@.thumbnail_size.edge()) && header.color_type != INDEXED
                && png_pixels(thumbnail_file@, self@.decoded_bytes()) is Some ==> (entry
                is Ok <==> is_recordable(self@.file_uri, metadata)),
            entry is Ok ==> png_header(thumbnail_file@, self@.decoded_bytes()) is Some && png_pixels(
                thumbnail_file@,
                self@.decoded_bytes(),
            ) is Some,
            png_header(thumbnail_file@, self@.decoded_bytes()) matches Some(header)
                ==> header.width > self@.thumbnail_size.edge() || header.height
                > self@.thumbnail_size.edge() ==> (entry matches Err(error) && error@ == (
            UpdateFailure::Oversized {
                width: header.width,
                height: header.height,
                maximum: self@.thumbnail_size.edge(),
            })),
            entry matches Ok(made) ==> made@.directory == self@.thumbnail_dir && made@.path
                == self@.thumbnail_path,
    {
        let limit: usize = self.maximum_decoded_bytes();
        let header: PngHeader = match read_png_header(thumbnail_file, limit) {
            Ok(header) => header,
            Err(error) => {
                return Err(UpdateError::Decode(error));
            },
        };
        let maximum: u32 = self.thumbnail_size.pixel_size();
        if header.width > maximum || header.height > maximum {
            return Err(
                UpdateError::Oversized { width: header.width, height: header.height, maximum },
            );
        }
        match read_png_pixels(thumbnail_file, limit) {
            Ok(pixels) => self.stage_entry(
                &self.thumbnail_dir,
                &self.thumbnail_path,
                header,
                pixels.as_slice(),
                metadata,
            ),
            Err(error) => Err(UpdateError::Decode(error)),
        }
    }

    /// Makes the entry that holds the pixels of the thumbnail in a temporary file.
    pub fn update_with_temp_file(
        &self,
        temp_file: &[u8],
        metadata: Option<SourceMetadata>,
    ) -> (entry: Result<CacheEntry, UpdateError>)
        ensures
            outcome(entry) == self@.rewritten(temp_file@, metadata),
            entry matches Ok(made) ==> is_written_entry(
                made.contents@,
                png_header(temp_file@, self@.decoded_bytes())->0,
                png_pixels(temp_file@, self@.decoded_bytes())->0,
                self@.file_uri,
                metadata,
            ),
            entry is Ok ==> png_header(temp_file@, self@.decoded_bytes()) is Some && png_pixels(
                temp_file@,
                self@.decoded_bytes(),
            ) is Some,
            png_header(temp_file@, self@.decoded_bytes()) matches Some(header)
                ==> header.width > self@.thumbnail_size.edge() || header.height
                > self@.thumbnail_size.edge() ==> (entry matches Err(error) && error@ == (
            UpdateFailure::Oversized {
                width: header.width,
                height: header.height,
                maximum: self@.thumbnail_size.edge(),
            })),
            entry matches Ok(made) ==> made@.directory == self@.thumbnail_dir && made@.path
                == self@.thumbnail_path,
    {
        self.update_from_file(temp_file, metadata)
    }

    /// Makes the entry that shows an image, scaled to the size of the thumbnail; nothing where the
    /// image is too large to be scaled.
    pub fn update_with_image_if_scalable(
        &self,
        image: image::DynamicImage,
        metadata: Option<SourceMetadata>,
    ) -> (entry: Option<Result<CacheEntry, UpdateError>>)
        ensures
            entry is Some <==> is_scalable(image_layout(image), self@.thumbnail_size.edge()),
            image_layout(image).0 <= 200 * self@.thumbnail_size.edge() && image_layout(image).1
                <= 200 * self@.thumbnail_size.edge() ==> entry is Some,
            entry matches Some(made) ==> ({
                let (width, height, pixels) = rgba_thumbnail(
                    image_samples(image),
                    image_layout(image),
                    self@.thumbnail_size.edge(),
                );
                &&& 1 <= width <= self@.thumbnail_size.edge()
                &&& 1 <= height <= self@.thumbnail_size.edge()
                &&& outcome(made) == self@.updated(rgba_header(width, height), pixels, metadata)
                &&& made matches Ok(written) ==> is_written_entry(
                    written.contents@,
                    rgba_header(width, height),
                    pixels,
                    self@.file_uri,
                    metadata,
                )
                &&& made is Ok <==> is_recordable(self@.file_uri, metadata)
            }),
    {
        proof {
            let layout = image_layout(image);
            let edge = self@.thumbnail_size.edge();
            if layout.0 <= 200 * edge && layout.1 <= 200 * edge {
                crate::frame::ordinary_images_are_scalable(layout, edge);
            }
        }
        if can_be_scaled(&image, self.thumbnail_size) {
            Some(self.update_with_image(image, metadata))
        } else {
            None
        }
    }

    /// Makes the entry that shows an image, scaled to the size of the thumbnail.
    pub fn update_with_image(
        &self,
        image: image::DynamicImage,
        metadata: Option<SourceMetadata>,
    ) -> (entry: Result<CacheEntry, UpdateError>)
        requires
            is_scalable(image_layout(image), self@.thumbnail_size.edge()),
        ensures
            ({
                let (width, height, pixels) = rgba_thumbnail(
                    image_samples(image),
                    image_layout(image),
                    self@.thumbnail_size.edge(),
                );
                &&& 1 <= width <= self@.thumbnail_size.edge()
                &&& 1 <= height <= self@.thumbnail_size.edge()
                &&& outcome(entry) == self@.updated(rgba_header(width, height), pixels, metadata)
                &&& entry matches Ok(made) ==> is_written_entry(
                    made.contents@,
                    rgba_header(width, height),
                    pixels,
                    self@.file_uri,
                    metadata,
                )
            }),
            entry is Ok <==> is_recordable(self@.file_uri, metadata),
    {
        let frame = thumbnail_of(image, self.thumbnail_size.pixel_size());
        self.update_with_frame(&frame, metadata)
    }

    /// Makes the entry that holds the given pixels.
    pub fn update_with_frame(&self, frame: &Frame, metadata: Option<SourceMetadata>) -> (entry: Result<
        CacheEntry,
        UpdateError,
    >)
        requires
            frame.width <= self@.thumbnail_size.edge(),
            frame.height <= self@.thumbnail_size.edge(),
        ensures
            outcome(entry) == self@.updated(
                rgba_header(frame.width, frame.height),
                frame.pixels@,
                metadata,
            ),
            entry matches Ok(made) ==> is_written_entry(
                made.contents@,
                rgba_header(frame.width, frame.height),
                frame.pixels@,
                self@.file_uri,
                metadata,
            ),
            frame.width > 0 && frame.height > 0 && frame.pixels@.len() == rgba_header(
                frame.width,
                frame.height,
            ).pixel_bytes() ==> (entry is Ok <==> is_recordable(self@.file_uri, metadata)),
    {
        let header = PngHeader {
            width: frame.width,
            height: frame.height,
            color_type: RGBA,
            bit_depth: 8,
        };
        self.stage_entry(
            &self.thumbnail_dir,
            &self.thumbnail_path,
            header,
            frame.pixels.as_slice(),
            metadata,
        )
    }

    /// Makes the entry that records that no thumbnail could be made: a PNG file of one pixel.
    pub fn create_fail_marker(&self, metadata: Option<SourceMetadata>) -> (entry: Result<
        CacheEntry,
        UpdateError,
    >)
        ensures
            outcome(entry) == self@.failed(metadata),
            entry is Ok <==> self@.thumbnail_fail_marker_path.parent() is Some && is_recordable(
                self@.file_uri,
                metadata,
            ),
            entry matches Ok(made) ==> is_written_entry(
                made.contents@,
                CacherView::marker_header(),
                seq![0u8],
                self@.file_uri,
                metadata,
            ),
    {
        let header = PngHeader { width: 1, height: 1, color_type: GRAYSCALE, bit_depth: 1 };
        let pixels: [u8; 1] = [0];
        match self.thumbnail_fail_marker_path.parent() {
            Some(directory) => {
                assert(pixels@ =~= seq![0u8]);
                self.stage_entry(
                    &directory,
                    &self.thumbnail_fail_marker_path,
                    header,
                    pixels.as_slice(),
                    metadata,
                )
            },
            None => Err(UpdateError::NoFailDirectory),
        }
    }
}

/// An entry can be rewritten for any file whose state can be recorded: the new entry has the same
/// image and the texts of that file.
pub proof fn written_entry_can_be_rewritten(
    contents: Seq<u8>,
    header: PngHeader,
    pixels: Seq<u8>,
    cacher: CacherView,
    metadata: Option<SourceMetadata>,
)
    requires
        holds_image(contents, header, pixels),
        header.is_valid(),
        header.color_type != INDEXED,
        header.fits(cacher.thumbnail_size.edge()),
        pixels.len() == header.pixel_bytes(),
        is_recordable(cacher.file_uri, metadata),
    ensures
        cacher.rewritten(contents, metadata) == cacher.updated(header, pixels, metadata),
        cacher.rewritten(contents, metadata) == Ok::<EntryView, UpdateFailure>(
            EntryView {
                directory: cacher.thumbnail_dir,
                path: cacher.thumbnail_path,
                contents: png_contents(
                    header,
                    recorded_texts(cacher.file_uri, metadata->0.len, metadata->0.mtime()->0),
                    pixels,
                ),
            },
        ),
{
    let edge = cacher.thumbnail_size.edge() as int;
    let limit = cacher.decoded_bytes();
    let width = header.width as int;
    let samples = header.samples();
    let depth = header.bit_depth as int;
    assert(width * samples * depth <= edge * 64) by (nonlinear_arith)
        requires
            0 <= width <= edge,
            1 <= samples <= 4,
            1 <= depth <= 16,
    ;
    assert(edge * edge * 8 <= 1024 * 1024 * 8 && edge * 8 <= edge * edge * 8) by (nonlinear_arith)
        requires
            128 <= edge <= 1024,
    ;
    assert(header.row_bytes() <= limit);
    assert(png_header(contents, limit) == Some(header));
    assert(png_pixels(contents, limit) == Some(pixels));
    crate::metadata::recorded_texts_fit_png(
        cacher.file_uri,
        metadata->0.len,
        metadata->0.mtime()->0,
    );
}

/// A file that is not in the cache itself has the thumbnail that was written for the state it is
/// in, and has to get a new one once that state changes, unless a fail marker says that there can
/// be none.
pub proof fn lookup_follows_written_entry(
    cacher: CacherView,
    base: Option<PathView>,
    is_file: bool,
    contents: Seq<u8>,
    marker: Option<Seq<u8>>,
    recorded: SourceMetadata,
    current: SourceMetadata,
)
    requires
        describes_only(contents, cacher.file_uri, recorded),
        !(is_file && base is Some && cacher.file_path.starts_with(base->0)),
    ensures
        ({
            let found = cacher.lookup(base, is_file, Some(contents), marker, Some(current));
            if current.len == recorded.len && current.mtime() == recorded.mtime() {
                found == CachedThumbnailView::Valid(
                    cacher.thumbnail_path,
                    Some(cacher.thumbnail_size),
                )
            } else if is_valid_entry(marker, cacher.file_uri, Some(current)) {
                found == CachedThumbnailView::Failed
            } else {
                found == CachedThumbnailView::RequiresUpdate(cacher.thumbnail_size)
            }
        }),
{
    assert(is_valid_entry(Some(contents), cacher.file_uri, Some(current)) <==> current.len
        == recorded.len && current.mtime() == recorded.mtime());
}

/// A file that could get no thumbnail is not tried again in the state that was recorded, and is
/// once that state changes.
pub proof fn lookup_follows_fail_marker(
    cacher: CacherView,
    base: Option<PathView>,
    is_file: bool,
    thumbnail: Option<Seq<u8>>,
    marker: Seq<u8>,
    recorded: SourceMetadata,
    current: SourceMetadata,
)
    requires
        describes_only(marker, cacher.file_uri, recorded),
        !is_valid_entry(thumbnail, cacher.file_uri, Some(current)),
        !(is_file && base is Some && cacher.file_path.starts_with(base->0)),
    ensures
        cacher.lookup(base, is_file, thumbnail, Some(marker), Some(current)) == (if current.len
            == recorded.len && current.mtime() == recorded.mtime() {
            CachedThumbnailView::Failed
        } else {
            CachedThumbnailView::RequiresUpdate(cacher.thumbnail_size)
        }),
{
    assert(is_valid_entry(Some(marker), cacher.file_uri, Some(current)) <==> current.len
        == recorded.len && current.mtime() == recorded.mtime());
}

/// A file in one state for which there is no thumbnail counts as failed once that is recorded, and
/// has its thumbnail once one is written after all, though the fail marker is still there.
pub proof fn later_thumbnail_outweighs_fail_marker(
    cacher: CacherView,
    base: Option<PathView>,
    is_file: bool,
    earlier: Option<Seq<u8>>,
    marker: Seq<u8>,
    later: Seq<u8>,
    state: SourceMetadata,
)
    requires
        describes_only(marker, cacher.file_uri, state),
        describes_only(later, cacher.file_uri, state),
        cacher.lookup(base, is_file, earlier, None, Some(state)) is RequiresUpdate,
    ensures
        cacher.lookup(base, is_file, earlier, Some(marker), Some(state))
            == CachedThumbnailView::Failed,
        cacher.lookup(base, is_file, Some(later), Some(marker), Some(state))
            == CachedThumbnailView::Valid(cacher.thumbnail_path, Some(cacher.thumbnail_size)),
{
    lookup_follows_fail_marker(cacher, base, is_file, earlier, marker, state, state);
    lookup_follows_written_entry(cacher, base, is_file, later, Some(marker), state, state);
}

/// A thumbnail is its own thumbnail, whatever the cache has for it.
pub proof fn thumbnails_have_no_thumbnails(
    cacher: CacherView,
    base: PathView,
    thumbnail: Option<Seq<u8>>,
    marker: Option<Seq<u8>>,
    metadata: Option<SourceMetadata>,
)
    requires
        cacher.file_path.starts_with(base),
    ensures
        cacher.lookup(Some(base), true, thumbnail, marker, metadata) == CachedThumbnailView::Valid(
            cacher.file_path,
            None,
        ),
{
}

/// No entry is made of a thumbnail that is larger than the size of the cache in either edge: that is
/// the error for it, and it names the edges.
pub proof fn oversized_thumbnails_are_refused(
    cacher: CacherView,
    thumbnail: Seq<u8>,
    metadata: Option<SourceMetadata>,
)
    ensures
        ({
            let edge = cacher.thumbnail_size.edge();
            let made = cacher.rewritten(thumbnail, metadata);
            &&& made is Ok ==> {
                &&& png_header(thumbnail, cacher.decoded_bytes()) is Some
                &&& png_header(thumbnail, cacher.decoded_bytes())->0.width <= edge
                &&& png_header(thumbnail, cacher.decoded_bytes())->0.height <= edge
            }
            &&& png_header(thumbnail, cacher.decoded_bytes()) matches Some(header) ==> (header.width
                > edge || header.height > edge) ==> made == Err::<EntryView, UpdateFailure>(
                UpdateFailure::Oversized {
                    width: header.width,
                    height: header.height,
                    maximum: edge,
                },
            )
        }),
{
}

/// What a thumbnail makes holds its image as it was read, with what is recorded of the source file
/// and nothing else, in the place of the thumbnail; and each thing that can be wrong is the error
/// for it.
pub proof fn rewriting_keeps_the_image(
    cacher: CacherView,
    thumbnail: Seq<u8>,
    metadata: Option<SourceMetadata>,
)
    ensures
        ({
            let header = png_header(thumbnail, cacher.decoded_bytes());
            let pixels = png_pixels(thumbnail, cacher.decoded_bytes());
            let edge = cacher.thumbnail_size.edge();
            let made = cacher.rewritten(thumbnail, metadata);
            let texts = recorded_texts(
                cacher.file_uri,
                metadata->0.len,
                metadata->0.mtime()->0,
            );
            if header is None {
                made == Err::<EntryView, UpdateFailure>(UpdateFailure::Decode)
            } else if header->0.width > edge || header->0.height > edge {
                made is Err
            } else if pixels is None {
                made == Err::<EntryView, UpdateFailure>(UpdateFailure::Decode)
            } else if metadata is None {
                made == Err::<EntryView, UpdateFailure>(UpdateFailure::NoMetadata)
            } else if metadata->0.modified is Unknown {
                made == Err::<EntryView, UpdateFailure>(UpdateFailure::NoModifiedTime)
            } else if is_encodable(header->0, texts, pixels->0) {
                &&& made matches Ok(entry)
                &&& entry.directory == cacher.thumbnail_dir
                &&& entry.path == cacher.thumbnail_path
                &&& entry.contents == png_contents(header->0, texts, pixels->0)
            } else {
                made == Err::<EntryView, UpdateFailure>(UpdateFailure::Encode)
            }
        }),
{
}

/// What an image makes holds its pixels with what is recorded of the source file and nothing else,
/// in the place of the thumbnail. It is made exactly if the state of the file can be recorded.
pub proof fn updating_keeps_the_image(
    cacher: CacherView,
    width: u32,
    height: u32,
    pixels: Seq<u8>,
    metadata: Option<SourceMetadata>,
)
    requires
        width > 0,
        height > 0,
        pixels.len() == 4 * width * height,
    ensures
        ({
            let header = PngHeader { width, height, color_type: 6, bit_depth: 8 };
            let made = cacher.updated(header, pixels, metadata);
            &&& made is Ok <==> metadata is Some && !(metadata->0.modified is Unknown) && (forall|
                i: int,
            |
                0 <= i < cacher.file_uri.len() ==> (#[trigger] cacher.file_uri[i]) as int <= 0xff)
            &&& made matches Ok(entry) ==> {
                &&& entry.directory == cacher.thumbnail_dir
                &&& entry.path == cacher.thumbnail_path
                &&& entry.contents == png_contents(
                    header,
                    recorded_texts(cacher.file_uri, metadata->0.len, metadata->0.mtime()->0),
                    pixels,
                )
            }
        }),
{
    let header = PngHeader { width, height, color_type: 6, bit_depth: 8 };
    crate::frame::rgba_headers_have_four_bytes_per_pixel(width, height);
    crate::metadata::recorded_texts_fit_png(
        cacher.file_uri,
        metadata->0.len,
        metadata->0.mtime()->0,
    );
    if metadata is Some && metadata->0.mtime() is Some {
        let texts = recorded_texts(cacher.file_uri, metadata->0.len, metadata->0.mtime()->0);
        assert(is_encodable(header, texts, pixels) <==> is_latin1(cacher.file_uri));
    }
}

/// A fail marker is one black pixel of one bit with what is recorded of the source file, in the
/// place of the marker. It is made exactly if that place has a directory and the state of the file
/// can be recorded.
pub proof fn fail_markers_record_the_state(cacher: CacherView, metadata: Option<SourceMetadata>)
    ensures
        ({
            let marker = cacher.thumbnail_fail_marker_path;
            let header = PngHeader { width: 1, height: 1, color_type: 0, bit_depth: 1 };
            let made = cacher.failed(metadata);
            &&& marker.components.len() == 0 ==> made == Err::<EntryView, UpdateFailure>(
                UpdateFailure::NoFailDirectory,
            )
            &&& made is Ok <==> marker.components.len() > 0 && metadata is Some && !(
            metadata->0.modified is Unknown) && (forall|i: int|
                0 <= i < cacher.file_uri.len() ==> (#[trigger] cacher.file_uri[i]) as int <= 0xff)
            &&& made matches Ok(entry) ==> {
                &&& entry.directory == (PathView {
                    absolute: marker.absolute,
                    components: marker.components.drop_last(),
                })
                &&& entry.path == marker
                &&& entry.contents == png_contents(
                    header,
                    recorded_texts(cacher.file_uri, metadata->0.len, metadata->0.mtime()->0),
                    seq![0u8],
                )
            }
        }),
{
    let header = PngHeader { width: 1, height: 1, color_type: 0, bit_depth: 1 };
    crate::metadata::recorded_texts_fit_png(
        cacher.file_uri,
        metadata->0.len,
        metadata->0.mtime()->0,
    );
    if metadata is Some && metadata->0.mtime() is Some {
        let texts = recorded_texts(cacher.file_uri, metadata->0.len, metadata->0.mtime()->0);
        assert(header.pixel_bytes() == 1);
        assert(is_encodable(header, texts, seq![0u8]) <==> is_latin1(cacher.file_uri));
    }
}

/// The state of a file can be recorded exactly if the file system says it, and every character of
/// the URI is one of ISO 8859-1.
pub proof fn recordable_states_are_known(uri: Seq<char>, metadata: Option<SourceMetadata>)
    ensures
        is_recordable(uri, metadata) <==> metadata is Some && !(metadata->0.modified is Unknown) && (
        forall|i: int| 0 <= i < uri.len() ==> (#[trigger] uri[i]) as int <= 0xff),
{
}

/// What the cache has for a file, whoever put it there: the file itself if it is a regular file in
/// the cache; else the thumbnail if that is valid; else a failure if the fail marker is valid; else
/// nothing, and the thumbnail is to be made in the size of the cache.
pub proof fn lookup_takes_the_first_valid_answer(
    cacher: CacherView,
    base: Option<PathView>,
    is_file: bool,
    thumbnail: Option<Seq<u8>>,
    marker: Option<Seq<u8>>,
    metadata: Option<SourceMetadata>,
)
    ensures
        ({
            let found = cacher.lookup(base, is_file, thumbnail, marker, metadata);
            let inside = is_file && base is Some && cacher.file_path.starts_with(base->0);
            let valid = is_valid_entry(thumbnail, cacher.file_uri, metadata);
            let failed = is_valid_entry(marker, cacher.file_uri, metadata);
            &&& inside <==> found is Valid && found->Valid_1 is None
            &&& inside ==> found == CachedThumbnailView::Valid(cacher.file_path, None)
            &&& !inside && valid ==> found == CachedThumbnailView::Valid(
                cacher.thumbnail_path,
                Some(cacher.thumbnail_size),
            )
            &&& found is Failed <==> !inside && !valid && failed
            &&& found is RequiresUpdate <==> !inside && !valid && !failed
            &&& found matches CachedThumbnailView::RequiresUpdate(size) ==> size
                == cacher.thumbnail_size
        }),
{
}

/// The cached thumbnail of a file stands for that file under that URI, in the directory of the size
/// below the cache's, under the given name, and its fail marker below the directory for failures.
pub proof fn cacher_has_its_places(
    file_path: PathView,
    file_uri: Seq<char>,
    base: PathView,
    filename: Seq<char>,
    size: ThumbnailSize,
)
    requires
        crate::layout::is_file_name(filename),
    ensures
        ({
            let cacher = cacher_in(file_path, file_uri, base, filename, size);
            let name = encode_utf8(filename);
            let directory = match size {
                ThumbnailSize::Normal => "normal"@,
                ThumbnailSize::Large => "large"@,
                ThumbnailSize::XLarge => "x-large"@,
                ThumbnailSize::XXLarge => "xx-large"@,
            };
            &&& cacher.file_path == file_path
            &&& cacher.file_uri == file_uri
            &&& cacher.thumbnail_size == size
            &&& cacher.thumbnail_dir == (PathView {
                absolute: base.absolute,
                components: base.components.push(encode_utf8(directory)),
            })
            &&& cacher.thumbnail_path == (PathView {
                absolute: base.absolute,
                components: base.components.push(encode_utf8(directory)).push(name),
            })
            &&& cacher.thumbnail_fail_marker_path == (PathView {
                absolute: base.absolute,
                components: base.components.push(encode_utf8("fail"@)).push(
                    encode_utf8("cosmic-files-0.1.0"@),
                ).push(name),
            })
        }),
{
    crate::layout::entries_have_their_places(base, size, filename);
}

/// A decoder may allocate as much as the largest image of the size takes, and no more.
pub proof fn decoded_bytes_hold_the_largest_image(cacher: CacherView, header: PngHeader)
    ensures
        cacher.decoded_bytes() == cacher.thumbnail_size.edge() * cacher.thumbnail_size.edge() * 8,
        header.is_valid() && header.fits(cacher.thumbnail_size.edge()) ==> header.pixel_bytes()
            <= cacher.decoded_bytes(),
        ({
            let largest = PngHeader {
                width: cacher.thumbnail_size.edge(),
                height: cacher.thumbnail_size.edge(),
                color_type: 6,
                bit_depth: 16,
            };
            largest.pixel_bytes() == cacher.decoded_bytes()
        }),
{
    let edge = cacher.thumbnail_size.edge() as int;
    assert(edge * edge * 8 <= 1024 * 1024 * 8) by (nonlinear_arith)
        requires
            0 <= edge <= 1024,
    ;
    if header.is_valid() && header.fits(cacher.thumbnail_size.edge()) {
        let width = header.width as int;
        let height = header.height as int;
        let samples = header.samples();
        let depth = header.bit_depth as int;
        assert(width * samples * depth <= edge * 64) by (nonlinear_arith)
            requires
                0 <= width <= edge,
                1 <= samples <= 4,
                1 <= depth <= 16,
        ;
        let row = header.row_bytes();
        assert(width * samples * depth >= 0) by (nonlinear_arith)
            requires
                0 <= width,
                1 <= samples,
                1 <= depth,
        ;
        assert(row * height <= edge * edge * 8) by (nonlinear_arith)
            requires
                0 <= row <= edge * 8,
                0 <= height <= edge,
        ;
    }
    assert(edge * 4 * 16 == 64 * edge);
    assert((edge * 8) * edge == edge * edge * 8) by (nonlinear_arith);
}

/// What the errors say: what went wrong, the path it is about, and the reason.
pub proof fn errors_name_path_and_reason(error: CacherError, shown_path: Seq<char>)
    ensures
        error matches CacherError::Unresolved(reason) ==> error.says(shown_path)
            == "failed to create URI for "@ + shown_path + ": "@ + reason@,
        error is Uri ==> error.says(shown_path) == "failed to create URI for "@ + shown_path
            + ": "@ + ("failed to create URI for thumbnail_file: "@ + shown_path),
        error is NoCacheDirectory ==> error.says(shown_path)
            == "failed to get thumbnail cache directory"@,
        error matches CacherError::Directory(reason) ==> error.says(shown_path)
            == "failed to prepare thumbnail cache directory "@ + shown_path + ": "@ + reason@,
{
}

/// The error for a thumbnail that is too large says how large it is and how large it may be.
pub proof fn oversized_errors_name_the_edges(width: u32, height: u32, maximum: u32)
    ensures
        (UpdateError::Oversized { width, height, maximum }).says() == Some(
            "thumbnail output "@ + decimal_text(width as nat) + "x"@ + decimal_text(height as nat)
                + " exceeds cache size "@ + decimal_text(maximum as nat) + "x"@ + decimal_text(
                maximum as nat,
            ),
        ),
        UpdateError::NoFailDirectory.says() == Some(
            "thumbnail fail marker has no parent directory"@,
        ),
{
}

/// A directory in the cache is left alone exactly if its owner can do everything there and nobody
/// else anything, and is else made so.
pub proof fn directories_become_private(mode: u32)
    ensures
        ThumbnailCacher::private_mode(mode) is None <==> mode & 0o777 == 0o700,
        ThumbnailCacher::private_mode(mode) matches Some(changed) ==> changed == 0o700
            && ThumbnailCacher::private_mode(changed) is None,
{
    assert(0o700u32 & 0o777 == 0o700) by (bit_vector);
}

/// An entry is published as it is: its directory, its path and all of its contents.
pub proof fn entries_are_published_as_they_are(entry: CacheEntry)
    ensures
        entry@.directory == entry.directory@,
        entry@.path == entry.path@,
        entry@.contents == entry.contents@,
        outcome(Ok(entry)) == Ok::<EntryView, UpdateFailure>(entry@),
{
}

/// An answer of the cache names the path and the size that it has found.
pub proof fn answers_name_path_and_size(
    path: FilePath,
    known: Option<ThumbnailSize>,
    size: ThumbnailSize,
)
    ensures
        CachedThumbnail::Valid((path, known))@ == CachedThumbnailView::Valid(path@, known),
        CachedThumbnail::RequiresUpdate(size)@ == CachedThumbnailView::RequiresUpdate(size),
        CachedThumbnail::Failed@ == CachedThumbnailView::Failed,
{
}

} // verus!
