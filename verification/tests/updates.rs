use image::{DynamicImage, GrayImage, Luma, Rgba, RgbaImage};
use thumbnail_cacher::cacher::{
    cacher_for, CacheEntry, CachedThumbnail, CacherError, ThumbnailCacher, UpdateError,
    LONGEST_URI, PRIVATE_DIRECTORY, PRIVATE_FILE, STAGING_PREFIX,
};
use thumbnail_cacher::frame::{can_be_scaled, Frame};
use thumbnail_cacher::metadata::{find_text, texts_describe, ModifiedTime, SourceMetadata};
use thumbnail_cacher::path::FilePath;
use thumbnail_cacher::png_file::TextChunk;
use thumbnail_cacher::size::ThumbnailSize;
use thumbnail_cacher::uri::UriError;

fn path(text: &str) -> FilePath {
    FilePath::parse(text.as_bytes())
}

fn cacher(size: ThumbnailSize) -> ThumbnailCacher {
    cacher_for(&path("/home/a.jpg"), "file:///home/a.jpg", &path("/c"), "name.png", size)
}

fn state(len: u64, seconds: u64) -> Option<SourceMetadata> {
    Some(SourceMetadata { len, modified: ModifiedTime::SinceEpoch(seconds) })
}

fn encoded(
    width: u32,
    height: u32,
    color: png::ColorType,
    depth: png::BitDepth,
    pixels: &[u8],
) -> Vec<u8> {
    let mut file = Vec::new();
    let mut encoder = png::Encoder::new(&mut file, width, height);
    encoder.set_color(color);
    encoder.set_depth(depth);
    if color == png::ColorType::Indexed {
        encoder.set_palette(vec![1, 2, 3, 4, 5, 6]);
    }
    encoder.add_text_chunk("Thumb::URI".to_string(), "file:///elsewhere".to_string()).unwrap();
    encoder.write_header().unwrap().write_image_data(pixels).unwrap();
    file
}

fn decoded(contents: &[u8]) -> (u32, u32, png::ColorType, png::BitDepth, Vec<u8>) {
    let mut reader = png::Decoder::new(std::io::Cursor::new(contents)).read_info().unwrap();
    let mut pixels = vec![0; reader.output_buffer_size().unwrap()];
    let info = reader.next_frame(&mut pixels).unwrap();
    pixels.truncate(info.buffer_size());
    (info.width, info.height, info.color_type, info.bit_depth, pixels)
}

fn texts(contents: &[u8]) -> Vec<(String, String)> {
    let reader = png::Decoder::new(std::io::Cursor::new(contents)).read_info().unwrap();
    let texts = &reader.info().uncompressed_latin1_text;
    texts.iter().map(|text| (text.keyword.clone(), text.text.clone())).collect()
}

fn chunk(keyword: &str, text: &str) -> TextChunk {
    TextChunk { keyword: keyword.to_string(), text: text.to_string() }
}

fn entry(cacher: &ThumbnailCacher, metadata: Option<SourceMetadata>) -> CacheEntry {
    let image = DynamicImage::ImageRgba8(RgbaImage::new(16, 8));
    cacher.update_with_image(image, metadata).unwrap()
}

#[test]
fn a_cacher_knows_where_everything_stands() {
    let made = ThumbnailCacher::new(
        &path("/source.pdf"),
        Ok(&path("/source.pdf")),
        Some(&path("/c")),
        ThumbnailSize::XLarge,
    )
    .unwrap();
    assert_eq!(made.file_path, path("/source.pdf"));
    assert_eq!(made.file_uri, "file:///source.pdf");
    assert_eq!(made.thumbnail_dir(), &path("/c/x-large"));
    assert_eq!(
        made.thumbnail_path,
        path("/c/x-large/3e7c86e9ffa29eccd10a6a3911f5160c.png")
    );
    assert_eq!(made.thumbnail_size, ThumbnailSize::XLarge);
    assert_eq!(
        made.thumbnail_fail_marker_path,
        path("/c/fail/cosmic-files-0.1.0/3e7c86e9ffa29eccd10a6a3911f5160c.png")
    );
}

#[test]
fn a_cacher_keeps_the_path_that_it_was_given() {
    let made = ThumbnailCacher::new(
        &path("link"),
        Ok(&path("/source.pdf")),
        Some(&path("/c")),
        ThumbnailSize::Normal,
    )
    .unwrap();
    assert_eq!(made.file_path, path("link"));
    assert_eq!(made.file_uri, "file:///source.pdf");
}

#[test]
fn a_cacher_takes_paths_that_are_not_text() {
    let bytes = FilePath::parse(b"/\xff");
    let made =
        ThumbnailCacher::new(&bytes, Ok(&bytes), Some(&path("/c")), ThumbnailSize::Normal).unwrap();
    assert_eq!(made.file_uri, "file:///%FF");
    assert_eq!(made.file_path, bytes);
}

#[test]
fn a_cacher_needs_a_uri_and_a_directory() {
    let unresolved = ThumbnailCacher::new(
        &path("x"),
        Err("no such file".to_string()),
        None,
        ThumbnailSize::Normal,
    );
    assert_eq!(unresolved, Err(CacherError::Unresolved("no such file".to_string())));
    assert_eq!(
        unresolved.unwrap_err().message("x"),
        "failed to create URI for x: no such file"
    );
    let relative =
        ThumbnailCacher::new(&path("x"), Ok(&path("x")), None, ThumbnailSize::Normal);
    assert_eq!(relative, Err(CacherError::Uri(UriError::NotAbsolute)));
    assert_eq!(
        relative.unwrap_err().message("x"),
        "failed to create URI for x: failed to create URI for thumbnail_file: x"
    );
    let without_directory =
        ThumbnailCacher::new(&path("/x"), Ok(&path("/x")), None, ThumbnailSize::Normal);
    assert_eq!(without_directory, Err(CacherError::NoCacheDirectory));
    assert_eq!(
        CacherError::NoCacheDirectory.message("x"),
        "failed to get thumbnail cache directory"
    );
    assert_eq!(
        CacherError::Directory("denied".to_string()).message("/c/normal"),
        "failed to prepare thumbnail cache directory /c/normal: denied"
    );
}

#[test]
fn decoders_may_allocate_the_largest_frame() {
    assert_eq!(cacher(ThumbnailSize::Normal).maximum_decoded_bytes(), 131_072);
    assert_eq!(cacher(ThumbnailSize::XXLarge).maximum_decoded_bytes(), 8_388_608);
}

#[test]
fn entries_record_the_state_of_the_file() {
    let made = entry(&cacher(ThumbnailSize::Normal), state(11, 1_700_000_000));
    assert_eq!(made.directory, path("/c/normal"));
    assert_eq!(made.path, path("/c/normal/name.png"));
    let expected = [
        ("Software", "COSMIC Files"),
        ("Thumb::URI", "file:///home/a.jpg"),
        ("Thumb::Size", "11"),
        ("Thumb::MTime", "1700000000"),
    ];
    let expected: Vec<(String, String)> = expected
        .into_iter()
        .map(|(keyword, text)| (keyword.to_string(), text.to_string()))
        .collect();
    assert_eq!(texts(&made.contents), expected);
}

#[test]
fn a_time_before_the_epoch_counts_as_the_epoch() {
    let old = Some(SourceMetadata { len: 1, modified: ModifiedTime::BeforeEpoch });
    let cacher = cacher(ThumbnailSize::Normal);
    let made = entry(&cacher, old);
    assert!(cacher.is_thumbnail_valid(Some(&made.contents), old));
    assert!(cacher.is_thumbnail_valid(Some(&made.contents), state(1, 0)));
    assert!(!cacher.is_thumbnail_valid(Some(&made.contents), state(1, 1)));
}

#[test]
fn an_entry_is_valid_for_one_state_only() {
    let cacher = cacher(ThumbnailSize::Normal);
    let contents = entry(&cacher, state(11, 7)).contents;
    assert!(cacher.is_thumbnail_valid(Some(&contents), state(11, 7)));
    assert!(!cacher.is_thumbnail_valid(Some(&contents), state(12, 7)));
    assert!(!cacher.is_thumbnail_valid(Some(&contents), state(11, 8)));
    assert!(!cacher.is_thumbnail_valid(Some(&contents), None));
    assert!(!cacher.is_thumbnail_valid(None, state(11, 7)));
    assert!(!cacher.is_thumbnail_valid(Some(b"no PNG file"), state(11, 7)));
    let unknown = Some(SourceMetadata { len: 11, modified: ModifiedTime::Unknown });
    assert!(!cacher.is_thumbnail_valid(Some(&contents), unknown));
    let other = cacher_for(
        &path("/home/b.jpg"),
        "file:///home/b.jpg",
        &path("/c"),
        "name.png",
        ThumbnailSize::Normal,
    );
    assert!(!other.is_thumbnail_valid(Some(&contents), state(11, 7)));
}

#[test]
fn the_size_is_optional_and_the_rest_is_not() {
    let uri = "file:///a".to_string();
    let current = SourceMetadata { len: 5, modified: ModifiedTime::SinceEpoch(7) };
    let with = |extra: Vec<TextChunk>| texts_describe(&extra, &uri, current);
    assert!(with(vec![chunk("Thumb::URI", "file:///a"), chunk("Thumb::MTime", "7")]));
    assert!(!with(vec![chunk("Thumb::MTime", "7")]));
    assert!(!with(vec![chunk("Thumb::URI", "file:///a")]));
    assert!(!with(vec![chunk("Thumb::URI", "file:///a"), chunk("Thumb::MTime", "07")]));
    assert!(!with(vec![
        chunk("Thumb::URI", "file:///a"),
        chunk("Thumb::MTime", "7"),
        chunk("Thumb::Size", "6"),
    ]));
    // The first text of a keyword counts.
    assert!(with(vec![
        chunk("Thumb::URI", "file:///a"),
        chunk("Thumb::URI", "file:///b"),
        chunk("Thumb::MTime", "7"),
        chunk("Thumb::Size", "5"),
    ]));
    assert!(!with(vec![
        chunk("Thumb::URI", "file:///b"),
        chunk("Thumb::URI", "file:///a"),
        chunk("Thumb::MTime", "7"),
    ]));
}

#[test]
fn texts_are_found_by_keyword() {
    let chunks = vec![chunk("a", "1"), chunk("b", "2"), chunk("a", "3")];
    assert_eq!(find_text(&chunks, "a").map(String::as_str), Some("1"));
    assert_eq!(find_text(&chunks, "b").map(String::as_str), Some("2"));
    assert_eq!(find_text(&chunks, "c"), None);
}

#[test]
fn lookups_follow_the_entries() {
    let cacher = cacher(ThumbnailSize::Normal);
    let base = path("/c");
    let thumbnail = entry(&cacher, state(11, 7)).contents;
    let marker = cacher.create_fail_marker(state(11, 8)).unwrap().contents;
    let lookup = |metadata: Option<SourceMetadata>| {
        cacher.get_cached_thumbnail(Some(&base), true, Some(&thumbnail), Some(&marker), metadata)
    };
    assert_eq!(
        lookup(state(11, 7)),
        CachedThumbnail::Valid((path("/c/normal/name.png"), Some(ThumbnailSize::Normal)))
    );
    assert_eq!(lookup(state(11, 8)), CachedThumbnail::Failed);
    assert_eq!(
        lookup(state(11, 9)),
        CachedThumbnail::RequiresUpdate(ThumbnailSize::Normal)
    );
    assert_eq!(
        cacher.get_cached_thumbnail(None, false, None, None, None),
        CachedThumbnail::RequiresUpdate(ThumbnailSize::Normal)
    );
}

#[test]
fn a_thumbnail_is_its_own_thumbnail() {
    let inside = cacher_for(
        &path("/c/large/x.png"),
        "file:///c/large/x.png",
        &path("/c"),
        "name.png",
        ThumbnailSize::Normal,
    );
    assert_eq!(
        inside.get_cached_thumbnail(Some(&path("/c")), true, None, None, None),
        CachedThumbnail::Valid((path("/c/large/x.png"), None))
    );
    assert_eq!(
        inside.get_cached_thumbnail(Some(&path("/c")), false, None, None, None),
        CachedThumbnail::RequiresUpdate(ThumbnailSize::Normal)
    );
    assert_eq!(
        inside.get_cached_thumbnail(None, true, None, None, None),
        CachedThumbnail::RequiresUpdate(ThumbnailSize::Normal)
    );
}

#[test]
fn rewriting_keeps_the_pixels_and_drops_the_texts() {
    let cacher = cacher(ThumbnailSize::Normal);
    let pixels: Vec<u8> = (0..4 * 3 * 8).map(|sample| sample as u8).collect();
    let external = encoded(4, 3, png::ColorType::Rgba, png::BitDepth::Sixteen, &pixels);
    let made = cacher.update_from_file(&external, state(1, 2)).unwrap();
    assert_eq!(
        decoded(&made.contents),
        (4, 3, png::ColorType::Rgba, png::BitDepth::Sixteen, pixels)
    );
    assert_eq!(texts(&made.contents).len(), 4);
    assert!(cacher.is_thumbnail_valid(Some(&made.contents), state(1, 2)));
    assert!(!cacher.is_thumbnail_valid(Some(&external), state(1, 2)));
}

#[test]
fn grayscale_thumbnails_stay_grayscale() {
    let cacher = cacher(ThumbnailSize::Large);
    let external = encoded(9, 1, png::ColorType::Grayscale, png::BitDepth::One, &[0xa5, 0x80]);
    let made = cacher.update_from_file(&external, state(1, 2)).unwrap();
    assert_eq!(
        decoded(&made.contents),
        (9, 1, png::ColorType::Grayscale, png::BitDepth::One, vec![0xa5, 0x80])
    );
}

#[test]
fn thumbnails_with_a_palette_cannot_be_rewritten() {
    let external = encoded(1, 1, png::ColorType::Indexed, png::BitDepth::Eight, &[1]);
    let made = cacher(ThumbnailSize::Normal).update_from_file(&external, state(1, 2));
    assert!(matches!(made, Err(UpdateError::Encode(_))));
}

#[test]
fn a_thumbnail_up_to_the_edge_is_accepted() {
    let external = encoded(
        128,
        128,
        png::ColorType::Grayscale,
        png::BitDepth::Eight,
        &vec![7; 128 * 128],
    );
    assert!(cacher(ThumbnailSize::Normal).update_from_file(&external, state(1, 2)).is_ok());
}

#[test]
fn oversized_thumbnails_are_named() {
    let external = encoded(129, 1, png::ColorType::Grayscale, png::BitDepth::Eight, &[7; 129]);
    let error = cacher(ThumbnailSize::Normal)
        .update_from_file(&external, state(1, 2))
        .unwrap_err();
    assert!(matches!(
        error,
        UpdateError::Oversized { width: 129, height: 1, maximum: 128 }
    ));
    assert_eq!(
        error.message().as_deref(),
        Some("thumbnail output 129x1 exceeds cache size 128x128")
    );
    let tall = encoded(1, 257, png::ColorType::Grayscale, png::BitDepth::Eight, &[7; 257]);
    assert!(matches!(
        cacher(ThumbnailSize::Large).update_with_temp_file(&tall, state(1, 2)),
        Err(UpdateError::Oversized { width: 1, height: 257, maximum: 256 })
    ));
}

#[test]
fn damaged_thumbnails_cannot_be_decoded() {
    let cacher = cacher(ThumbnailSize::Normal);
    let garbage = cacher.update_from_file(b"no PNG file", state(1, 2));
    assert!(matches!(garbage, Err(UpdateError::Decode(_))));
    let mut cut = encoded(64, 64, png::ColorType::Rgba, png::BitDepth::Eight, &[9; 64 * 64 * 4]);
    let header_only = 60;
    cut.truncate(header_only);
    assert!(matches!(
        cacher.update_from_file(&cut, state(1, 2)),
        Err(UpdateError::Decode(_))
    ));
    assert_eq!(garbage.unwrap_err().message(), None);
}

#[test]
fn only_recordable_states_are_recorded() {
    let cacher = cacher(ThumbnailSize::Normal);
    assert!(matches!(cacher.create_fail_marker(None), Err(UpdateError::NoMetadata)));
    let unknown = Some(SourceMetadata { len: 1, modified: ModifiedTime::Unknown });
    assert!(matches!(
        cacher.create_fail_marker(unknown),
        Err(UpdateError::NoModifiedTime)
    ));
    let unwritable = cacher_for(
        &path("/a"),
        "file:///\u{1f600}",
        &path("/c"),
        "name.png",
        ThumbnailSize::Normal,
    );
    assert!(matches!(
        unwritable.create_fail_marker(state(1, 2)),
        Err(UpdateError::Encode(_))
    ));
}

#[test]
fn a_fail_marker_needs_a_directory() {
    let mut cacher = cacher(ThumbnailSize::Normal);
    cacher.thumbnail_fail_marker_path = path("/");
    let error = cacher.create_fail_marker(state(1, 2)).unwrap_err();
    assert!(matches!(error, UpdateError::NoFailDirectory));
    assert_eq!(
        error.message().as_deref(),
        Some("thumbnail fail marker has no parent directory")
    );
}

#[test]
fn a_fail_marker_is_one_pixel() {
    let made = cacher(ThumbnailSize::XXLarge).create_fail_marker(state(1, 2)).unwrap();
    assert_eq!(made.directory, path("/c/fail/cosmic-files-0.1.0"));
    assert_eq!(made.path, path("/c/fail/cosmic-files-0.1.0/name.png"));
    assert_eq!(
        decoded(&made.contents),
        (1, 1, png::ColorType::Grayscale, png::BitDepth::One, vec![0])
    );
}

#[test]
fn images_are_scaled_into_the_bucket() {
    let image = RgbaImage::from_pixel(512, 128, Rgba([10, 20, 30, 255]));
    let made = cacher(ThumbnailSize::Normal)
        .update_with_image(DynamicImage::ImageRgba8(image), state(1, 2))
        .unwrap();
    let (width, height, color, depth, pixels) = decoded(&made.contents);
    assert_eq!((width, height), (128, 32));
    assert_eq!((color, depth), (png::ColorType::Rgba, png::BitDepth::Eight));
    assert_eq!(pixels, [10, 20, 30, 255].repeat(128 * 32));
}

#[test]
fn images_of_other_types_become_rgba() {
    let image = GrayImage::from_pixel(3, 2, Luma([77]));
    let made = cacher(ThumbnailSize::Normal)
        .update_with_image(DynamicImage::ImageLuma8(image), state(1, 2))
        .unwrap();
    let (width, height, _, _, pixels) = decoded(&made.contents);
    assert!(width <= 128 && height <= 128);
    assert_eq!(&pixels[..4], &[77, 77, 77, 255]);
}

#[test]
fn images_that_are_far_too_large_are_not_scaled() {
    let gray = |width: u32, height: u32| DynamicImage::ImageLuma8(GrayImage::new(width, height));
    let deep = |width: u32, height: u32| DynamicImage::new_luma16(width, height);
    assert!(can_be_scaled(&gray(384_001, 1), ThumbnailSize::Normal));
    assert!(can_be_scaled(&gray(1, 10_000_000), ThumbnailSize::Normal));
    assert!(can_be_scaled(&gray(0, 0), ThumbnailSize::Normal));
    assert!(can_be_scaled(&deep(25_601, 1), ThumbnailSize::Normal));
    // Blocks of 2002 by 32 pixels, and of 2002 by 33.
    assert!(can_be_scaled(&deep(256_000, 32), ThumbnailSize::Normal));
    assert!(!can_be_scaled(&deep(256_000, 33), ThumbnailSize::Normal));
    assert!(!can_be_scaled(&deep(33, 256_000), ThumbnailSize::Normal));
    assert!(can_be_scaled(&deep(256_000, 33), ThumbnailSize::Large));
    assert!(can_be_scaled(&gray(256_000, 33), ThumbnailSize::Normal));
    let float = DynamicImage::new_rgb32f(256_000, 33);
    assert!(can_be_scaled(&float, ThumbnailSize::Normal));

    let cacher = cacher(ThumbnailSize::Normal);
    assert!(cacher.update_with_image_if_scalable(deep(256_000, 33), state(1, 2)).is_none());
    let made = cacher.update_with_image_if_scalable(deep(256_000, 32), state(1, 2));
    let (width, height, _, _, _) = decoded(&made.unwrap().unwrap().contents);
    assert_eq!((width, height), (128, 1));
}

#[test]
fn the_largest_blocks_keep_their_mean() {
    let white = image::ImageBuffer::from_pixel(256_000, 32, Luma([u16::MAX]));
    let made = cacher(ThumbnailSize::Normal)
        .update_with_image(DynamicImage::ImageLuma16(white), state(1, 2))
        .unwrap();
    let (width, height, _, _, pixels) = decoded(&made.contents);
    assert_eq!((width, height), (128, 1));
    assert_eq!(pixels, vec![255; 128 * 4]);
}

#[test]
fn long_uris_are_recorded() {
    let with_uri = |length: usize| {
        let uri = "x".repeat(length);
        cacher_for(&path("/a"), &uri, &path("/c"), "name.png", ThumbnailSize::Normal)
    };
    let long = with_uri(LONGEST_URI);
    let made = long.create_fail_marker(state(u64::MAX, u64::MAX)).unwrap();
    assert!(long.is_thumbnail_valid(Some(&made.contents), state(u64::MAX, u64::MAX)));
    let far_too_long = with_uri(0x440_0000);
    let made = far_too_long.create_fail_marker(state(1, 2)).unwrap();
    assert!(!far_too_long.is_thumbnail_valid(Some(&made.contents), state(1, 2)));
}

#[test]
fn a_later_thumbnail_outweighs_the_fail_marker() {
    let cacher = cacher(ThumbnailSize::Normal);
    let lookup = |thumbnail: Option<&[u8]>, marker: Option<&[u8]>| {
        cacher.get_cached_thumbnail(Some(&path("/c")), true, thumbnail, marker, state(3, 4))
    };
    assert_eq!(lookup(None, None), CachedThumbnail::RequiresUpdate(ThumbnailSize::Normal));
    let marker = cacher.create_fail_marker(state(3, 4)).unwrap().contents;
    assert_eq!(lookup(None, Some(&marker)), CachedThumbnail::Failed);
    let thumbnail = entry(&cacher, state(3, 4)).contents;
    assert_eq!(
        lookup(Some(&thumbnail), Some(&marker)),
        CachedThumbnail::Valid((path("/c/normal/name.png"), Some(ThumbnailSize::Normal)))
    );
}

#[test]
fn frames_are_written_as_they_are() {
    let cacher = cacher(ThumbnailSize::Normal);
    let frame = Frame { width: 2, height: 1, pixels: vec![1, 2, 3, 4, 5, 6, 7, 8] };
    let made = cacher.update_with_frame(&frame, state(1, 2)).unwrap();
    assert_eq!(
        decoded(&made.contents),
        (2, 1, png::ColorType::Rgba, png::BitDepth::Eight, frame.pixels)
    );
    let short = Frame { width: 2, height: 1, pixels: vec![1, 2, 3, 4] };
    assert!(matches!(
        cacher.update_with_frame(&short, state(1, 2)),
        Err(UpdateError::Encode(_))
    ));
    let empty = Frame { width: 0, height: 1, pixels: Vec::new() };
    assert!(matches!(
        cacher.update_with_frame(&empty, state(1, 2)),
        Err(UpdateError::Encode(_))
    ));
}

#[test]
fn texts_are_added_behind_those_that_are_there() {
    let cacher = cacher(ThumbnailSize::Normal);
    let mut chunks = vec![chunk("Title", "x")];
    assert!(cacher.add_thumbnail_text_metadata(&mut chunks, None).is_err());
    assert_eq!(chunks.len(), 1);
    cacher.add_thumbnail_text_metadata(&mut chunks, state(1, 2)).unwrap();
    assert_eq!(chunks.len(), 5);
    assert_eq!(chunks[0], chunk("Title", "x"));
    assert_eq!(chunks[4], chunk("Thumb::MTime", "2"));
}

#[test]
fn directories_of_the_cache_are_private() {
    assert_eq!(ThumbnailCacher::ensure_private_directory(0o40700), None);
    assert_eq!(ThumbnailCacher::ensure_private_directory(0o41700), None);
    assert_eq!(ThumbnailCacher::ensure_private_directory(0o40755), Some(0o700));
    assert_eq!(ThumbnailCacher::ensure_private_directory(0), Some(PRIVATE_DIRECTORY));
    assert_eq!(PRIVATE_FILE, 0o600);
    assert_eq!(STAGING_PREFIX, ".cosmic-files-");
}
