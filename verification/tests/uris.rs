use thumbnail_cacher::path::FilePath;
use thumbnail_cacher::text::{decimal, escape_square_brackets, lower_hex};
use thumbnail_cacher::uri::{
    absolute_path, thumbnail_cache_filename, thumbnail_uri_from_path, thumbnail_uri_lossy,
    thumbnail_uri_or_from_path, UriError,
};

fn path(text: &str) -> FilePath {
    FilePath::parse(text.as_bytes())
}

#[test]
fn uris_are_percent_encoded() {
    let expected = [
        ("/source.pdf", "file:///source.pdf"),
        ("/a b/c", "file:///a%20b/c"),
        ("/a//b/./c", "file:///a/b/c"),
        ("/tmp/\u{e9}", "file:///tmp/%C3%A9"),
        ("/50%", "file:///50%25"),
        ("/", "file:///"),
    ];
    for (spelled, uri) in expected {
        assert_eq!(thumbnail_uri_from_path(&path(spelled)).unwrap(), uri);
    }
}

#[test]
fn square_brackets_are_encoded_too() {
    assert_eq!(
        thumbnail_uri_from_path(&path("/[a]/b[1].png")).unwrap(),
        "file:///%5Ba%5D/b%5B1%5D.png"
    );
    assert_eq!(escape_square_brackets("[x] \u{e9}"), "%5Bx%5D \u{e9}");
    assert_eq!(escape_square_brackets(&escape_square_brackets("[]")), "%5B%5D");
    assert_eq!(escape_square_brackets("plain%5B"), "plain%5B");
}

#[test]
fn only_absolute_paths_have_uris() {
    assert_eq!(thumbnail_uri_from_path(&path("a/b")), Err(UriError::NotAbsolute));
    assert_eq!(thumbnail_uri_from_path(&path("")), Err(UriError::NotAbsolute));
    assert_eq!(
        UriError::NotAbsolute.message("a/b"),
        "failed to create URI for thumbnail_file: a/b"
    );
}

#[test]
fn paths_need_not_be_text() {
    let uri = |bytes: &[u8]| thumbnail_uri_from_path(&FilePath::parse(bytes)).unwrap();
    assert_eq!(uri(b"/\xff"), "file:///%FF");
    assert_eq!(uri(b"/tmp/\x80[\xfe]/a\n"), "file:///tmp/%80%5B%FE%5D/a%0A");
    assert_eq!(
        thumbnail_uri_lossy(&FilePath::parse(b"\xc3"), None, Some(&path("/d"))).as_deref(),
        Some("file:///d/%C3")
    );
}

#[test]
fn uris_are_the_urls_of_the_paths() {
    let mut spelled: Vec<String> = (1u8..0x80).map(|byte| format!("/x{}y", byte as char)).collect();
    spelled.extend(
        ["/", "/..", "/a/../b", "/\u{e9}\u{4e2d}/\u{1f600}", "/ /~/a:b@c;d=e&f+g$h,i!j'k(l)*m^n|o"]
            .map(String::from),
    );
    for text in spelled {
        let url = url::Url::from_file_path(&text).unwrap();
        let expected = url.as_str().replace('[', "%5B").replace(']', "%5D");
        assert_eq!(thumbnail_uri_from_path(&path(&text)).unwrap(), expected);
    }
}

#[test]
fn uris_are_decoded_to_their_paths() {
    let bytes: Vec<u8> = (1u8..=0xff).filter(|byte| *byte != b'/').collect();
    let file = path("/dir").join(&FilePath::parse(&bytes));
    let uri = thumbnail_uri_from_path(&file).unwrap();
    assert!(uri.starts_with("file:///"));
    assert!(uri.is_ascii() && !uri.contains('[') && !uri.contains(']'));
    assert!(uri.len() <= 7 + 3 * file.to_bytes().len());
    let text = uri.as_bytes();
    let mut decoded = Vec::new();
    let mut next = 7;
    while next < text.len() {
        if text[next] == b'%' {
            decoded.push(u8::from_str_radix(&uri[next + 1..next + 3], 16).unwrap());
            next += 3;
        } else {
            decoded.push(text[next]);
            next += 1;
        }
    }
    assert_eq!(decoded, file.to_bytes());
}

#[test]
fn different_paths_have_different_uris() {
    let uri = |bytes: &[u8]| thumbnail_uri_from_path(&FilePath::parse(bytes)).unwrap();
    assert_ne!(uri(b"/[a]"), uri(b"/%5Ba%5D"));
    assert_ne!(uri(b"/a/b"), uri(b"/a%2Fb"));
    assert_ne!(uri(b"/\xff"), uri(b"/%FF"));
    assert_eq!(uri(b"/a//b"), uri(b"/a/./b"));
}

#[test]
fn a_resolved_uri_comes_first() {
    let resolved = Some("file:///resolved".to_string());
    assert_eq!(thumbnail_uri_or_from_path(resolved.clone(), &path("/a")), resolved);
    assert_eq!(
        thumbnail_uri_or_from_path(None, &path("/a")).as_deref(),
        Some("file:///a")
    );
    assert_eq!(thumbnail_uri_or_from_path(None, &path("a")), None);
}

#[test]
fn lossy_uris_start_at_the_current_directory() {
    let current = path("/home/user");
    let resolved = Some("file:///resolved".to_string());
    assert_eq!(thumbnail_uri_lossy(&path("x"), resolved.clone(), None), resolved);
    assert_eq!(
        thumbnail_uri_lossy(&path("./x/y"), None, Some(&current)).as_deref(),
        Some("file:///home/user/x/y")
    );
    assert_eq!(
        thumbnail_uri_lossy(&path("/x"), None, Some(&current)).as_deref(),
        Some("file:///x")
    );
    assert_eq!(thumbnail_uri_lossy(&path("/x"), None, None).as_deref(), Some("file:///x"));
    assert_eq!(thumbnail_uri_lossy(&path("x"), None, None), None);
    assert_eq!(absolute_path(&path("x"), Some(&current)), Some(path("/home/user/x")));
    assert_eq!(absolute_path(&path("x"), None), None);
}

#[test]
fn entries_are_named_by_the_digest_of_the_uri() {
    assert_eq!(
        thumbnail_cache_filename("file:///home/jens/photos/me.png"),
        "c6ee772d9e49320e97ec29a7eb5b1697.png"
    );
    assert_eq!(
        thumbnail_cache_filename("file:///source.pdf"),
        "3e7c86e9ffa29eccd10a6a3911f5160c.png"
    );
    assert_eq!(thumbnail_cache_filename(""), "d41d8cd98f00b204e9800998ecf8427e.png");
}

#[test]
fn names_of_entries_are_one_component() {
    for uri in ["", "file:///a/b", "../x", "\u{1f600}"] {
        let filename = thumbnail_cache_filename(uri);
        assert_eq!(filename.len(), 36);
        assert_eq!(path("/c").join_text(&filename).parent(), Some(path("/c")));
    }
}

#[test]
fn numbers_are_written_in_decimal() {
    assert_eq!(decimal(0), "0");
    assert_eq!(decimal(9), "9");
    assert_eq!(decimal(10), "10");
    assert_eq!(decimal(1_700_000_000), "1700000000");
    assert_eq!(decimal(u64::MAX), "18446744073709551615");
}

#[test]
fn bytes_are_written_in_lower_case_hexadecimal() {
    assert_eq!(lower_hex(&[]), "");
    assert_eq!(lower_hex(&[0x00, 0x0f, 0xa9, 0xff]), "000fa9ff");
}
