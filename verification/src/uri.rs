//! The URI that stands for a file in the cache, and the name of its entries.
use md5::Digest;
use vstd::prelude::*;
use vstd::utf8::{encode_utf8, is_ascii_chars};

use crate::path::{is_component, parsed, separated, FilePath, PathView, SEPARATOR};
use crate::text::{escape_square_brackets, escaped_text, lower_hex, lower_hex_text};

verus! {

/// The upper-case character of a hexadecimal digit.
pub open spec fn upper_hex_digit(value: int) -> char {
    if value < 10 {
        (0x30 + value) as char
    } else {
        (0x37 + value) as char
    }
}

/// Whether a byte of a file name is percent encoded in a `file` URL: control characters, whatever
/// is not ASCII, and those that mean something in a URL or are not safe there.
pub open spec fn is_reserved(byte: u8) -> bool {
    byte <= 0x20 || byte >= 0x7f || byte == 0x22 || byte == 0x23 || byte == 0x25 || byte == 0x2f
        || byte == 0x3c || byte == 0x3e || byte == 0x3f || byte == 0x5c || byte == 0x60 || byte
        == 0x7b || byte == 0x7d
}

/// What stands for a byte of a file name in a `file` URL.
pub open spec fn encoded_byte(byte: u8) -> Seq<char> {
    if is_reserved(byte) {
        seq!['%', upper_hex_digit(byte as int / 16), upper_hex_digit(byte as int % 16)]
    } else {
        seq![byte as char]
    }
}

/// What stands for a file name in a `file` URL.
pub open spec fn encoded_bytes(bytes: Seq<u8>) -> Seq<char>
    decreases bytes.len(),
{
    if bytes.len() == 0 {
        Seq::empty()
    } else {
        encoded_bytes(bytes.drop_last()) + encoded_byte(bytes.last())
    }
}

/// The components of a path in a `file` URL, each behind a separator.
pub open spec fn url_segments(components: Seq<Seq<u8>>) -> Seq<char>
    decreases components.len(),
{
    if components.len() == 0 {
        Seq::empty()
    } else {
        url_segments(components.drop_last()).push('/') + encoded_bytes(components.last())
    }
}

/// The `file` URL of the absolute path with the given components.
pub open spec fn file_url_of(components: Seq<Seq<u8>>) -> Seq<char> {
    if components.len() == 0 {
        "file:///"@
    } else {
        "file://"@ + url_segments(components)
    }
}

fn upper_hex_character(value: u8) -> (character: char)
    requires
        value < 16,
    ensures
        character == upper_hex_digit(value as int),
{
    if value < 10 {
        (0x30 + value) as char
    } else {
        (0x37 + value) as char
    }
}

/// Adds what stands for a file name in a `file` URL.
fn push_encoded(url: &mut String, bytes: &[u8])
    ensures
        final(url)@ == old(url)@ + encoded_bytes(bytes@),
{
    let ghost start = url@;
    let mut next: usize = 0;
    assert(start + encoded_bytes(bytes@.take(0)) =~= start);
    while next < bytes.len()
        invariant
            next <= bytes@.len(),
            url@ == start + encoded_bytes(bytes@.take(next as int)),
        decreases bytes@.len() - next,
    {
        assert(bytes@.take(next + 1).drop_last() =~= bytes@.take(next as int));
        let byte: u8 = bytes[next];
        let ghost before = url@;
        if byte <= 0x20 || byte >= 0x7f || byte == 0x22 || byte == 0x23 || byte == 0x25 || byte
            == 0x2f || byte == 0x3c || byte == 0x3e || byte == 0x3f || byte == 0x5c || byte == 0x60
            || byte == 0x7b || byte == 0x7d {
            url.push('%');
            url.push(upper_hex_character(byte / 16));
            url.push(upper_hex_character(byte % 16));
        } else {
            url.push(byte as char);
        }
        assert(url@ =~= before + encoded_byte(byte));
        assert(url@ =~= start + encoded_bytes(bytes@.take(next + 1)));
        next += 1;
    }
    assert(bytes@.take(next as int) =~= bytes@);
}

/// The `file` URL of an absolute path: its components percent encoded byte by byte, so that a path
/// need not be text.
fn file_url(absolute_path: &FilePath) -> (url: String)
    ensures
        url@ == file_url_of(absolute_path@.components),
{
    let count: usize = absolute_path.component_count();
    if count == 0 {
        return "file:///".to_string();
    }
    let mut url = "file://".to_string();
    let ghost components = absolute_path@.components;
    let mut next: usize = 0;
    assert("file://"@ + url_segments(components.take(0)) =~= "file://"@);
    while next < count
        invariant
            next <= count == components.len(),
            components == absolute_path@.components,
            url@ == "file://"@ + url_segments(components.take(next as int)),
        decreases count - next,
    {
        assert(components.take(next + 1).drop_last() =~= components.take(next as int));
        url.push('/');
        push_encoded(&mut url, absolute_path.component(next));
        assert(url@ =~= "file://"@ + url_segments(components.take(next + 1)));
        next += 1;
    }
    assert(components.take(next as int) =~= components);
    url
}

/// The MD5 digest of `data`.
pub uninterp spec fn md5_digest(data: Seq<u8>) -> Seq<u8>;

/// `Md5::digest` of the `md5` crate: the digest is a function of the data and has 16 bytes.
#[verifier::external_body]
fn md5_of(data: &[u8]) -> (digest: Vec<u8>)
    ensures
        digest@ == md5_digest(data@),
        digest@.len() == 16,
{
    md5::Md5::digest(data).to_vec()
}

/// Why a path has no URI.
#[derive(Copy, Clone, Debug, PartialEq, Eq, Structural)]
pub enum UriError {
    /// The path is not absolute.
    NotAbsolute,
}

impl UriError {
    /// What the error says, with `shown_path` for the path.
    pub open spec fn says(&self, shown_path: Seq<char>) -> Seq<char> {
        "failed to create URI for thumbnail_file: "@ + shown_path
    }

    /// The message of the error, with `shown_path` for the path.
    pub fn message(&self, shown_path: &str) -> (message: String)
        ensures
            message@ == self.says(shown_path@),
    {
        "failed to create URI for thumbnail_file: ".to_string().concat(shown_path)
    }
}

/// The URI of an absolute path.
pub open spec fn uri_of_path(path: PathView) -> Seq<char> {
    escaped_text(file_url_of(path.components))
}

/// The URI of the file at `absolute_path`.
///
/// Square brackets need no percent encoding in a URL, and get none in a `file` URL, but other
/// programs that share the cache encode them, so it is done here too.
pub fn thumbnail_uri_from_path(absolute_path: &FilePath) -> (uri: Result<String, UriError>)
    ensures
        uri is Ok <==> absolute_path@.absolute,
        uri matches Ok(text) ==> text@ == uri_of_path(absolute_path@),
        uri matches Ok(text) ==> is_ascii_chars(text@) && !text@.contains('[') && !text@.contains(
            ']',
        ),
        uri matches Ok(text) ==> text@.take(8) == "file:///"@ && percent_decoded(text@.skip(7))
            == absolute_path@.rendered(),
{
    if !absolute_path.is_absolute() {
        return Err(UriError::NotAbsolute);
    }
    let url = file_url(absolute_path);
    proof {
        crate::text::escaped_text_holds_no_bracket(url@);
        file_url_is_ascii(absolute_path@.components);
        crate::text::escaped_text_stays_ascii(url@);
        uri_spells_path(absolute_path@);
    }
    Ok(escape_square_brackets(url.as_str()))
}

/// A `file` URL is ASCII.
proof fn file_url_is_ascii(components: Seq<Seq<u8>>)
    ensures
        is_ascii_chars(file_url_of(components)),
{
    reveal_strlit("file:///");
    reveal_strlit("file://");
    url_segments_are_ascii(components);
}

proof fn url_segments_are_ascii(components: Seq<Seq<u8>>)
    ensures
        is_ascii_chars(url_segments(components)),
    decreases components.len(),
{
    if components.len() > 0 {
        url_segments_are_ascii(components.drop_last());
        encoded_bytes_are_ascii(components.last());
    }
}

proof fn encoded_bytes_are_ascii(bytes: Seq<u8>)
    ensures
        is_ascii_chars(encoded_bytes(bytes)),
    decreases bytes.len(),
{
    if bytes.len() > 0 {
        encoded_bytes_are_ascii(bytes.drop_last());
    }
}

/// The path from which a URI is made where the file itself cannot be resolved.
pub open spec fn absolute_from(path: PathView, current_dir: Option<PathView>) -> Option<PathView> {
    if path.absolute {
        Some(path)
    } else {
        match current_dir {
            Some(directory) => Some(directory.join(path)),
            None => None,
        }
    }
}

/// `path` if it is absolute, else `path` below the current directory, if there is one.
pub fn absolute_path(path: &FilePath, current_dir: Option<&FilePath>) -> (absolute: Option<FilePath>)
    ensures
        absolute is Some <==> absolute_from(path@, view_of(current_dir)) is Some,
        absolute matches Some(found) ==> Some(found@) == absolute_from(path@, view_of(current_dir)),
{
    if path.is_absolute() {
        Some(path.clone())
    } else {
        match current_dir {
            Some(directory) => Some(directory.join(path)),
            None => None,
        }
    }
}

/// What an optional path means.
pub open spec fn view_of(path: Option<&FilePath>) -> Option<PathView> {
    match path {
        Some(given) => Some(given@),
        None => None,
    }
}

/// The characters of an optional text.
pub open spec fn text_of(text: Option<String>) -> Option<Seq<char>> {
    match text {
        Some(given) => Some(given@),
        None => None,
    }
}

/// The URI of an optional path, where it has one.
pub open spec fn optional_uri(path: Option<PathView>) -> Option<Seq<char>> {
    match path {
        Some(given) => if given.absolute {
            Some(uri_of_path(given))
        } else {
            None
        },
        None => None,
    }
}

/// The URI of the resolved file, where there is one, else that of the path as it is written.
pub fn thumbnail_uri_or_from_path(uri: Option<String>, path: &FilePath) -> (found: Option<String>)
    ensures
        uri is Some ==> text_of(found) == text_of(uri),
        uri is None ==> text_of(found) == optional_uri(Some(path@)),
{
    match uri {
        Some(resolved) => Some(resolved),
        None => match thumbnail_uri_from_path(path) {
            Ok(text) => Some(text),
            Err(_) => None,
        },
    }
}

/// The URI of the resolved file, where there is one, else that of the path as it is written, taken
/// from the current directory on.
pub fn thumbnail_uri_lossy(
    path: &FilePath,
    uri: Option<String>,
    current_dir: Option<&FilePath>,
) -> (found: Option<String>)
    ensures
        uri is Some ==> text_of(found) == text_of(uri),
        uri is None ==> text_of(found) == optional_uri(absolute_from(path@, view_of(current_dir))),
{
    if uri.is_some() {
        return uri;
    }
    match absolute_path(path, current_dir) {
        Some(absolute) => thumbnail_uri_or_from_path(None, &absolute),
        None => None,
    }
}

/// The name under which the entries of a URI stand in the cache.
pub open spec fn cache_filename(uri: Seq<char>) -> Seq<char> {
    lower_hex_text(md5_digest(encode_utf8(uri))) + ".png"@
}

/// The name under which the entries of `file_uri` stand in the cache: the digest of the URI, in
/// hexadecimal, and the extension.
pub fn thumbnail_cache_filename(file_uri: &str) -> (filename: String)
    ensures
        filename@ == cache_filename(file_uri@),
        filename@.len() == 36,
        md5_digest(encode_utf8(file_uri@)).len() == 16,
        forall|i: int|
            0 <= i < 16 ==> 16 * hex_value(filename@[2 * i]) + hex_value(filename@[2 * i + 1])
                == #[trigger] md5_digest(encode_utf8(file_uri@))[i],
{
    let digest = md5_of(file_uri.as_bytes());
    let mut filename = lower_hex(digest.as_slice());
    filename.append(".png");
    proof {
        reveal_strlit(".png");
        crate::text::lower_hex_text_is_hexadecimal(digest@);
        assert forall|i: int| 0 <= i < 16 implies 16 * hex_value(filename@[2 * i]) + hex_value(
            filename@[2 * i + 1],
        ) == #[trigger] md5_digest(encode_utf8(file_uri@))[i] by {
            cache_filename_shows_digest(file_uri@, i);
        }
    }
    filename
}

/// The name of an entry is one component of a path, whatever the URI.
pub proof fn cache_filename_is_one_component(uri: Seq<char>)
    ensures
        is_ascii_chars(cache_filename(uri)),
        is_component(encode_utf8(cache_filename(uri))),
        parsed(encode_utf8(cache_filename(uri))) == (PathView {
            absolute: false,
            components: seq![encode_utf8(cache_filename(uri))],
        }),
{
    let digits = lower_hex_text(md5_digest(encode_utf8(uri)));
    let filename = cache_filename(uri);
    crate::text::lower_hex_text_is_hexadecimal(md5_digest(encode_utf8(uri)));
    reveal_strlit(".png");
    assert forall|i: int| 0 <= i < filename.len() implies '\0' <= #[trigger] filename[i] <= '\u{7f}'
        && filename[i] != '/' by {
        if i < digits.len() {
            assert(filename[i] == digits[i]);
        } else {
            assert(filename[i] == ".png"@[i - digits.len()]);
        }
    }
    crate::path::ascii_name_is_one_component(filename);
}

/// The value of a hexadecimal digit.
pub open spec fn hex_value(digit: char) -> int {
    if digit <= '9' {
        digit as int - 0x30
    } else if digit <= 'F' {
        digit as int - 0x37
    } else {
        digit as int - 0x57
    }
}

/// The bytes that a percent encoded text stands for.
pub open spec fn percent_decoded(text: Seq<char>) -> Seq<u8>
    decreases text.len(),
{
    if text.len() == 0 {
        Seq::empty()
    } else if text[0] == '%' && text.len() >= 3 {
        seq![(16 * hex_value(text[1]) + hex_value(text[2])) as u8] + percent_decoded(text.skip(3))
    } else {
        seq![text[0] as u8] + percent_decoded(text.skip(1))
    }
}

/// What stands for a byte in a URI is decoded to that byte.
proof fn byte_is_decoded(byte: u8, rest: Seq<char>)
    ensures
        percent_decoded(escaped_text(encoded_byte(byte)) + rest) == seq![byte] + percent_decoded(
            rest,
        ),
{
    let encoded = encoded_byte(byte);
    let escaped = escaped_text(encoded);
    if byte == 0x5b || byte == 0x5d {
        assert(encoded == seq![byte as char]);
        assert(encoded.drop_last() =~= Seq::<char>::empty());
        reveal_with_fuel(escaped_text, 2);
        assert(escaped =~= crate::text::escaped_character(byte as char));
        assert(escaped == seq!['%', '5', if byte == 0x5b { 'B' } else { 'D' }]);
        assert((escaped + rest).skip(3) =~= rest);
    } else {
        crate::text::escaped_text_keeps_the_rest(encoded);
        if is_reserved(byte) {
            assert(escaped.len() == 3);
            assert((escaped + rest).skip(3) =~= rest);
            let high = byte as int / 16;
            let low = byte as int % 16;
            assert(hex_value(upper_hex_digit(high)) == high);
            assert(hex_value(upper_hex_digit(low)) == low);
        } else {
            assert((escaped + rest).skip(1) =~= rest);
            assert((escaped + rest)[0] == byte as char);
            assert((byte as char) as u8 == byte);
        }
    }
}

/// What stands for a file name in a URI is decoded to that name.
proof fn bytes_are_decoded(bytes: Seq<u8>, rest: Seq<char>)
    ensures
        percent_decoded(escaped_text(encoded_bytes(bytes)) + rest) == bytes + percent_decoded(rest),
    decreases bytes.len(),
{
    if bytes.len() == 0 {
        assert(escaped_text(encoded_bytes(bytes)) + rest =~= rest);
        assert(bytes + percent_decoded(rest) =~= percent_decoded(rest));
    } else {
        let shorter = bytes.drop_last();
        let last = escaped_text(encoded_byte(bytes.last()));
        crate::text::escaped_text_of_sum(encoded_bytes(shorter), encoded_byte(bytes.last()));
        assert(escaped_text(encoded_bytes(bytes)) + rest =~= escaped_text(encoded_bytes(shorter)) + (
        last + rest));
        bytes_are_decoded(shorter, last + rest);
        byte_is_decoded(bytes.last(), rest);
        assert(bytes + percent_decoded(rest) =~= shorter + (seq![bytes.last()] + percent_decoded(
            rest,
        )));
    }
}

/// The components in a URI are decoded to the text of the absolute path that has them.
proof fn segments_are_decoded(components: Seq<Seq<u8>>, rest: Seq<char>)
    requires
        components.len() > 0,
    ensures
        percent_decoded(escaped_text(url_segments(components)) + rest) == seq![SEPARATOR]
            + separated(components) + percent_decoded(rest),
    decreases components.len(),
{
    let shorter = components.drop_last();
    let last = components.last();
    let name = escaped_text(encoded_bytes(last));
    let slash = seq!['/'];
    assert(url_segments(components) =~= url_segments(shorter) + (slash + encoded_bytes(last)));
    crate::text::escaped_text_of_sum(url_segments(shorter), slash + encoded_bytes(last));
    crate::text::escaped_text_of_sum(slash, encoded_bytes(last));
    crate::text::escaped_text_keeps_the_rest(slash);
    let after = slash + (name + rest);
    assert(escaped_text(url_segments(components)) + rest =~= escaped_text(url_segments(shorter))
        + after);
    bytes_are_decoded(last, rest);
    assert(after.skip(1) =~= name + rest);
    assert(after[0] == '/');
    assert(percent_decoded(after) == seq![SEPARATOR] + (last + percent_decoded(rest)));
    if shorter.len() == 0 {
        assert(escaped_text(url_segments(shorter)) + after =~= after);
        assert(separated(components) == last);
        assert(seq![SEPARATOR] + (last + percent_decoded(rest)) =~= seq![SEPARATOR] + separated(
            components,
        ) + percent_decoded(rest));
    } else {
        segments_are_decoded(shorter, after);
        assert(seq![SEPARATOR] + separated(shorter) + (seq![SEPARATOR] + (last + percent_decoded(
            rest,
        ))) =~= seq![SEPARATOR] + separated(components) + percent_decoded(rest));
    }
}

/// The URI of a path spells the path: behind the scheme it is the text of the path, percent
/// encoded.
pub proof fn uri_spells_path(path: PathView)
    requires
        path.absolute,
    ensures
        uri_of_path(path).len() >= 8,
        uri_of_path(path).take(8) == "file:///"@,
        percent_decoded(uri_of_path(path).skip(7)) == path.rendered(),
{
    let components = path.components;
    let uri = uri_of_path(path);
    reveal_strlit("file://");
    reveal_strlit("file:///");
    crate::text::escaped_text_keeps_the_rest("file://"@);
    if components.len() == 0 {
        crate::text::escaped_text_keeps_the_rest("file:///"@);
        assert(uri.take(8) =~= "file:///"@);
        assert(uri.skip(7) =~= seq!['/']);
        assert(seq!['/'].skip(1) =~= Seq::<char>::empty());
        reveal_with_fuel(percent_decoded, 2);
        assert(percent_decoded(uri.skip(7)) =~= path.rendered());
    } else {
        let segments = escaped_text(url_segments(components));
        crate::text::escaped_text_of_sum("file://"@, url_segments(components));
        assert(uri.skip(7) =~= segments + Seq::<char>::empty());
        segments_are_decoded(components, Seq::<char>::empty());
        assert(percent_decoded(uri.skip(7)) =~= path.rendered());
        segments_start_with_separator(components);
        assert(uri.take(8) =~= "file:///"@);
    }
}

/// The components in a URI begin with a separator.
proof fn segments_start_with_separator(components: Seq<Seq<u8>>)
    requires
        components.len() > 0,
    ensures
        escaped_text(url_segments(components)).len() > 0,
        escaped_text(url_segments(components))[0] == '/',
    decreases components.len(),
{
    let shorter = components.drop_last();
    let rest = encoded_bytes(components.last());
    assert(url_segments(components) =~= url_segments(shorter) + (seq!['/'] + rest));
    crate::text::escaped_text_of_sum(url_segments(shorter), seq!['/'] + rest);
    crate::text::escaped_text_of_sum(seq!['/'], rest);
    crate::text::escaped_text_keeps_the_rest(seq!['/']);
    if shorter.len() > 0 {
        segments_start_with_separator(shorter);
    }
}

proof fn encoded_bytes_are_short(bytes: Seq<u8>)
    ensures
        escaped_text(encoded_bytes(bytes)).len() <= 3 * bytes.len(),
    decreases bytes.len(),
{
    if bytes.len() > 0 {
        let byte = bytes.last();
        encoded_bytes_are_short(bytes.drop_last());
        crate::text::escaped_text_of_sum(encoded_bytes(bytes.drop_last()), encoded_byte(byte));
        if byte == 0x5b || byte == 0x5d {
            assert(encoded_byte(byte).drop_last() =~= Seq::<char>::empty());
            reveal_with_fuel(escaped_text, 2);
        } else {
            crate::text::escaped_text_keeps_the_rest(encoded_byte(byte));
        }
    }
}

proof fn url_segments_are_short(components: Seq<Seq<u8>>)
    ensures
        escaped_text(url_segments(components)).len() <= 3 * (1 + separated(components).len()),
    decreases components.len(),
{
    if components.len() > 0 {
        let shorter = components.drop_last();
        let rest = encoded_bytes(components.last());
        url_segments_are_short(shorter);
        encoded_bytes_are_short(components.last());
        assert(url_segments(components) =~= url_segments(shorter) + (seq!['/'] + rest));
        crate::text::escaped_text_of_sum(url_segments(shorter), seq!['/'] + rest);
        crate::text::escaped_text_of_sum(seq!['/'], rest);
        crate::text::escaped_text_keeps_the_rest(seq!['/']);
        if shorter.len() == 0 {
            assert(escaped_text(url_segments(shorter)).len() == 0);
        }
    }
}

/// A URI has at most three characters for each byte of the path, behind the scheme.
pub proof fn uri_is_short(path: PathView)
    requires
        path.absolute,
    ensures
        uri_of_path(path).len() <= 7 + 3 * path.rendered().len(),
{
    reveal_strlit("file://");
    reveal_strlit("file:///");
    if path.components.len() == 0 {
        crate::text::escaped_text_keeps_the_rest("file:///"@);
    } else {
        crate::text::escaped_text_keeps_the_rest("file://"@);
        crate::text::escaped_text_of_sum("file://"@, url_segments(path.components));
        url_segments_are_short(path.components);
    }
}

/// Two paths with the same URI are the same path.
pub proof fn uris_tell_paths_apart(left: PathView, right: PathView)
    requires
        left.well_formed(),
        left.absolute,
        right.well_formed(),
        right.absolute,
        uri_of_path(left) == uri_of_path(right),
    ensures
        left == right,
{
    uri_spells_path(left);
    uri_spells_path(right);
    crate::path::parse_reads_back_rendered(left);
    crate::path::parse_reads_back_rendered(right);
}

/// Whether a text can stand in a URI: every character of it is printable ASCII and means itself
/// there, or is the `%` before the two upper-case digits of a byte that cannot stand for itself.
pub open spec fn is_uri_text(text: Seq<char>) -> bool {
    forall|i: int|
        0 <= i < text.len() ==> {
            let character = #[trigger] text[i];
            &&& '!' <= character <= '~'
            &&& !"\"<>`#?{}\\[]"@.contains(character)
            &&& character == '%' ==> i + 2 < text.len() && is_upper_hex(text[i + 1]) && is_upper_hex(
                text[i + 2],
            ) && must_be_encoded(16 * hex_value(text[i + 1]) + hex_value(text[i + 2]))
        }
}

/// Whether a character is an upper-case hexadecimal digit.
pub open spec fn is_upper_hex(character: char) -> bool {
    '0' <= character <= '9' || 'A' <= character <= 'F'
}

/// Whether a byte of a file name cannot stand for itself in a URI.
pub open spec fn must_be_encoded(byte: int) -> bool {
    ||| byte <= 0x20
    ||| byte >= 0x7f
    ||| "\"<>`#?{}\\[]%"@.contains(byte as char)
}

proof fn uri_text_of_sum(left: Seq<char>, right: Seq<char>)
    requires
        is_uri_text(left),
        is_uri_text(right),
    ensures
        is_uri_text(left + right),
{
    let text = left + right;
    let n = left.len() as int;
    assert forall|i: int| 0 <= i < text.len() implies {
        let character = #[trigger] text[i];
        &&& '!' <= character <= '~'
        &&& !"\"<>`#?{}\\[]"@.contains(character)
        &&& character == '%' ==> i + 2 < text.len() && is_upper_hex(text[i + 1]) && is_upper_hex(
            text[i + 2],
        ) && must_be_encoded(16 * hex_value(text[i + 1]) + hex_value(text[i + 2]))
    } by {
        if i < n {
            assert(text[i] == left[i]);
            if left[i] == '%' {
                assert(text[i + 1] == left[i + 1] && text[i + 2] == left[i + 2]);
            }
        } else {
            assert(text[i] == right[i - n]);
            if right[i - n] == '%' {
                assert(text[i + 1] == right[i - n + 1] && text[i + 2] == right[i - n + 2]);
            }
        }
    }
}

proof fn plain_characters_are_uri_text(text: Seq<char>)
    requires
        forall|i: int|
            0 <= i < text.len() ==> '!' <= #[trigger] text[i] <= '~' && text[i] != '%'
                && !"\"<>`#?{}\\[]"@.contains(text[i]),
    ensures
        is_uri_text(text),
{
}

proof fn encoded_byte_is_uri_text(byte: u8)
    requires
        byte != SEPARATOR,
    ensures
        is_uri_text(escaped_text(encoded_byte(byte))),
{
    let encoded = encoded_byte(byte);
    let text = escaped_text(encoded);
    let plain = "\"<>`#?{}\\[]"@;
    let all = "\"<>`#?{}\\[]%"@;
    reveal_strlit("\"<>`#?{}\\[]");
    reveal_strlit("\"<>`#?{}\\[]%");
    assert(all[0] == '"' && all[1] == '<' && all[2] == '>' && all[3] == '`' && all[4] == '#' && all[5]
        == '?' && all[6] == '{' && all[7] == '}' && all[8] == '\\' && all[9] == '[' && all[10] == ']'
        && all[11] == '%');
    assert(plain.len() == 11 && all.len() == 12);
    let high = byte as int / 16;
    let low = byte as int % 16;
    if byte == 0x5b || byte == 0x5d {
        crate::text::escaped_text_of_character(byte as char);
        reveal_strlit("%5B");
        reveal_strlit("%5D");
        assert(encoded =~= seq![byte as char]);
        assert(text.len() == 3 && text[0] == '%' && text[1] == '5');
        assert(16 * hex_value(text[1]) + hex_value(text[2]) == byte);
        assert(all.contains(byte as char));
    } else {
        crate::text::escaped_text_keeps_the_rest(encoded);
        if is_reserved(byte) {
            assert(hex_value(upper_hex_digit(high)) == high);
            assert(hex_value(upper_hex_digit(low)) == low);
            assert(16 * hex_value(text[1]) + hex_value(text[2]) == byte);
            assert(must_be_encoded(byte as int)) by {
                if 0x20 < byte && byte < 0x7f {
                    let character = byte as char;
                    assert(all.contains(character)) by {
                        assert(exists|i: int| 0 <= i < all.len() && all[i] == character);
                    }
                }
            }
            assert(text[1] != '%' && text[2] != '%');
        } else {
            assert(text =~= seq![byte as char]);
        }
    }
}

proof fn encoded_bytes_are_uri_text(bytes: Seq<u8>)
    requires
        !bytes.contains(SEPARATOR),
    ensures
        is_uri_text(escaped_text(encoded_bytes(bytes))),
    decreases bytes.len(),
{
    if bytes.len() > 0 {
        let shorter = bytes.drop_last();
        assert(bytes.contains(bytes.last()));
        assert(!shorter.contains(SEPARATOR)) by {
            assert forall|i: int| 0 <= i < shorter.len() implies shorter[i] != SEPARATOR by {
                assert(bytes.contains(bytes[i]));
            }
        }
        encoded_bytes_are_uri_text(shorter);
        encoded_byte_is_uri_text(bytes.last());
        crate::text::escaped_text_of_sum(encoded_bytes(shorter), encoded_byte(bytes.last()));
        uri_text_of_sum(
            escaped_text(encoded_bytes(shorter)),
            escaped_text(encoded_byte(bytes.last())),
        );
    }
}

proof fn url_segments_are_uri_text(components: Seq<Seq<u8>>)
    requires
        forall|i: int|
            0 <= i < components.len() ==> !(#[trigger] components[i]).contains(SEPARATOR),
    ensures
        is_uri_text(escaped_text(url_segments(components))),
    decreases components.len(),
{
    if components.len() > 0 {
        let shorter = components.drop_last();
        let rest = encoded_bytes(components.last());
        url_segments_are_uri_text(shorter);
        encoded_bytes_are_uri_text(components.last());
        assert(url_segments(components) =~= url_segments(shorter) + (seq!['/'] + rest));
        crate::text::escaped_text_of_sum(url_segments(shorter), seq!['/'] + rest);
        crate::text::escaped_text_of_sum(seq!['/'], rest);
        crate::text::escaped_text_keeps_the_rest(seq!['/']);
        reveal_strlit("\"<>`#?{}\\[]");
        plain_characters_are_uri_text(seq!['/']);
        uri_text_of_sum(seq!['/'], escaped_text(rest));
        uri_text_of_sum(escaped_text(url_segments(shorter)), seq!['/'] + escaped_text(rest));
    }
}

/// Exactly those bytes of a path are percent encoded in its URI that cannot stand for themselves
/// there, in upper-case digits; separators are not.
pub proof fn uri_encodes_what_it_must(path: PathView)
    requires
        path.absolute,
        path.well_formed(),
    ensures
        is_uri_text(uri_of_path(path)),
{
    reveal_strlit("file://");
    reveal_strlit("file:///");
    reveal_strlit("\"<>`#?{}\\[]");
    if path.components.len() == 0 {
        crate::text::escaped_text_keeps_the_rest("file:///"@);
        plain_characters_are_uri_text("file:///"@);
    } else {
        crate::text::escaped_text_keeps_the_rest("file://"@);
        crate::text::escaped_text_of_sum("file://"@, url_segments(path.components));
        plain_characters_are_uri_text("file://"@);
        assert forall|i: int| 0 <= i < path.components.len() implies !(
        #[trigger] path.components[i]).contains(SEPARATOR) by {
            assert(crate::path::is_component_at(path.components[i], i, path.absolute));
        }
        url_segments_are_uri_text(path.components);
        uri_text_of_sum("file://"@, escaped_text(url_segments(path.components)));
    }
}

/// The name of an entry is the digest of the whole URI in hexadecimal, and the extension: the two
/// digits of each byte of the digest stand for that byte.
pub proof fn cache_filename_shows_digest(uri: Seq<char>, index: int)
    requires
        0 <= index < md5_digest(encode_utf8(uri)).len(),
    ensures
        ({
            let digest = md5_digest(encode_utf8(uri));
            let filename = cache_filename(uri);
            &&& filename.len() == 2 * digest.len() + 4
            &&& is_lower_hex(filename[2 * index]) && is_lower_hex(filename[2 * index + 1])
            &&& 16 * hex_value(filename[2 * index]) + hex_value(filename[2 * index + 1])
                == digest[index]
            &&& filename.skip(filename.len() - 4) == ".png"@
        }),
{
    let digest = md5_digest(encode_utf8(uri));
    let digits = lower_hex_text(digest);
    let filename = cache_filename(uri);
    reveal_strlit(".png");
    crate::text::lower_hex_text_is_hexadecimal(digest);
    crate::text::lower_hex_text_stands_for_bytes(digest, index);
    assert(filename[2 * index] == digits[2 * index]);
    assert(filename[2 * index + 1] == digits[2 * index + 1]);
    assert(filename.skip(filename.len() - 4) =~= ".png"@);
}

/// Whether a character is a lower-case hexadecimal digit.
pub open spec fn is_lower_hex(character: char) -> bool {
    '0' <= character <= '9' || 'a' <= character <= 'f'
}

/// Two URIs share the name of their entries exactly if their whole texts have the same digest.
pub proof fn cache_filenames_tell_digests_apart(left: Seq<char>, right: Seq<char>)
    ensures
        cache_filename(left) == cache_filename(right) <==> md5_digest(encode_utf8(left))
            == md5_digest(encode_utf8(right)),
{
    let left_digits = lower_hex_text(md5_digest(encode_utf8(left)));
    let right_digits = lower_hex_text(md5_digest(encode_utf8(right)));
    if cache_filename(left) == cache_filename(right) {
        let n = cache_filename(left).len() - ".png"@.len();
        assert(cache_filename(left).take(n) =~= left_digits);
        assert(cache_filename(right).take(n) =~= right_digits);
        crate::text::lower_hex_text_tells_bytes_apart(
            md5_digest(encode_utf8(left)),
            md5_digest(encode_utf8(right)),
        );
    }
}

/// A path has a URI exactly if it is absolute, and a relative path that cannot be resolved is taken
/// from the current directory on, where there is one.
pub proof fn unresolved_paths_start_at_the_current_directory(
    path: PathView,
    current_dir: Option<PathView>,
)
    ensures
        optional_uri(None) is None,
        path.absolute ==> optional_uri(Some(path)) == Some(uri_of_path(path)),
        !path.absolute ==> optional_uri(Some(path)) is None,
        path.absolute ==> absolute_from(path, current_dir) == Some(path),
        !path.absolute && current_dir is None ==> absolute_from(path, current_dir) is None,
        !path.absolute ==> (current_dir matches Some(directory) ==> absolute_from(path, current_dir)
            == Some(directory.join(path))),
{
}

/// A path or a text that is given is taken as it is, and one that is not is none.
pub proof fn given_values_are_taken_as_they_are(path: &FilePath, text: String)
    ensures
        view_of(Some(path)) == Some(path@),
        view_of(None) is None,
        text_of(Some(text)) == Some(text@),
        text_of(None) is None,
{
}

} // verus!
