use thumbnail_cacher::layout::{fail_marker_path, thumbnail_cache_base_dir};
use thumbnail_cacher::path::FilePath;
use thumbnail_cacher::size::ThumbnailSize;

fn path(text: &str) -> FilePath {
    FilePath::parse(text.as_bytes())
}

fn text(path: &FilePath) -> String {
    String::from_utf8(path.to_bytes()).unwrap()
}

#[test]
fn spellings_of_one_path_are_one_value() {
    assert_eq!(path("/a//b/./c/"), path("/a/b/c"));
    assert_eq!(text(&path("/a//b/./c/")), "/a/b/c");
    assert_eq!(text(&path("/")), "/");
    assert_eq!(text(&path("//.//")), "/");
    assert_eq!(text(&path("")), "");
    assert_eq!(text(&path("../x")), "../x");
    assert_ne!(path("/a/b"), path("a/b"));
    assert_ne!(path("/a/../b"), path("/b"));
}

#[test]
fn a_leading_dot_is_kept_in_relative_paths() {
    assert_eq!(text(&path("./a/./b")), "./a/b");
    assert_eq!(text(&path(".")), ".");
    assert_eq!(text(&path("./")), ".");
    assert_ne!(path("./a"), path("a"));
    assert_eq!(path("/./a"), path("/a"));
    assert_eq!(path(".").parent(), Some(path("")));
    assert_eq!(path("x").join(&path("./a")), path("x/a"));
    assert_eq!(path("x").join(&path(".")), path("x"));
    assert_eq!(path("").join(&path("./a")), path("./a"));
    assert!(path("./a").starts_with(&path(".")));
    assert!(!path("a").starts_with(&path(".")));
    assert_eq!(path("./a").strip_prefix(&path(".")), Some(path("a")));
}

#[test]
fn paths_read_back_what_they_spell() {
    for spelled in ["/a/b", "a", "", "/", ".", "./x/y", "..", "/..", "a/..", "/ a/[b]"] {
        let parsed = path(spelled);
        assert_eq!(text(&parsed), spelled);
        assert_eq!(FilePath::parse(&parsed.to_bytes()), parsed);
        assert_eq!(parsed.clone(), parsed);
    }
    let bytes = b"/tmp/\xff\xfe";
    assert_eq!(FilePath::parse(bytes).to_bytes(), bytes.to_vec());
}

#[test]
fn joining_takes_an_absolute_path_as_it_is() {
    assert_eq!(path("/a").join(&path("b/c")), path("/a/b/c"));
    assert_eq!(path("/a").join(&path("/b")), path("/b"));
    assert_eq!(path("a").join_text("b/c"), path("a/b/c"));
    assert!(path("/a").is_absolute());
    assert!(!path("a").is_absolute());
}

#[test]
fn stripping_undoes_joining() {
    for base in ["/", "/a", "a/b", "", "./a"] {
        for relative in ["", "x", "x/y", "../z"] {
            let joined = path(base).join(&path(relative));
            assert!(joined.starts_with(&path(base)));
            assert_eq!(joined.strip_prefix(&path(base)), Some(path(relative)));
        }
    }
}

#[test]
fn prefixes_are_whole_components() {
    assert!(path("/cache/thumbnails/x").starts_with(&path("/cache/thumbnails")));
    assert!(!path("/cache/thumbnails2").starts_with(&path("/cache/thumbnails")));
    assert!(!path("cache/thumbnails").starts_with(&path("/cache")));
    assert!(!path("/cache").starts_with(&path("/cache/thumbnails")));
    assert!(path("/cache").starts_with(&path("")));
    assert_eq!(path("/cache").strip_prefix(&path("")), Some(path("/cache")));
    assert_eq!(path("/cache").strip_prefix(&path("cache")), None);
}

#[test]
fn parents_drop_the_last_component() {
    assert_eq!(path("/a/b").parent(), Some(path("/a")));
    assert_eq!(path("/a").parent(), Some(path("/")));
    assert_eq!(path("a").parent(), Some(path("")));
    assert_eq!(path("/").parent(), None);
    assert_eq!(path("").parent(), None);
}

#[test]
fn the_cache_stands_below_the_cache_directory() {
    let base = thumbnail_cache_base_dir(Some(&path("/home/user/.cache")));
    assert_eq!(base, Some(path("/home/user/.cache/thumbnails")));
    assert_eq!(thumbnail_cache_base_dir(None), None);
    assert_eq!(
        text(&fail_marker_path(&path("/c"), "abc.png")),
        "/c/fail/cosmic-files-0.1.0/abc.png"
    );
}

#[test]
fn sizes_have_edges_and_directories() {
    let expected = [
        (ThumbnailSize::Normal, 128, "normal"),
        (ThumbnailSize::Large, 256, "large"),
        (ThumbnailSize::XLarge, 512, "x-large"),
        (ThumbnailSize::XXLarge, 1024, "xx-large"),
    ];
    for (index, (size, edge, name)) in expected.into_iter().enumerate() {
        assert_eq!(ThumbnailSize::ALL[index], size);
        assert_eq!(size.pixel_size(), edge);
        assert_eq!(size.subdirectory_name(), name);
        assert_eq!(ThumbnailSize::from_pixel_size(edge), size);
    }
}

#[test]
fn an_edge_gets_the_smallest_bucket_that_holds_it() {
    assert_eq!(ThumbnailSize::from_pixel_size(0), ThumbnailSize::Normal);
    assert_eq!(ThumbnailSize::from_pixel_size(129), ThumbnailSize::Large);
    assert_eq!(ThumbnailSize::from_pixel_size(257), ThumbnailSize::XLarge);
    assert_eq!(ThumbnailSize::from_pixel_size(513), ThumbnailSize::XXLarge);
    assert_eq!(ThumbnailSize::from_pixel_size(u32::MAX), ThumbnailSize::XXLarge);
}
