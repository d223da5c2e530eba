//! What an entry of the cache records of its source file, and when the record still holds.
use vstd::prelude::*;

use crate::png_file::{
    are_readable, chunk_texts, is_latin1, is_writable, png_texts, read_png_texts, total_length,
    TextChunk, LONGEST_TEXTS,
};
use crate::text::{decimal, decimal_text};

verus! {

/// When a file was modified, in whole seconds.
#[derive(Copy, Clone, Debug, PartialEq, Eq, Structural)]
pub enum ModifiedTime {
    /// The file system does not say.
    Unknown,
    /// Before the Unix epoch.
    BeforeEpoch,
    /// That many seconds after the Unix epoch.
    SinceEpoch(u64),
}

/// What the file system says of a source file.
#[derive(Copy, Clone, Debug, PartialEq, Eq, Structural)]
pub struct SourceMetadata {
    /// The size of the file in bytes.
    pub len: u64,
    /// When the file was modified.
    pub modified: ModifiedTime,
}

impl SourceMetadata {
    /// The modification time as an entry records it: a time before the epoch counts as the epoch.
    pub open spec fn mtime(self) -> Option<u64> {
        match self.modified {
            ModifiedTime::Unknown => None,
            ModifiedTime::BeforeEpoch => Some(0),
            ModifiedTime::SinceEpoch(seconds) => Some(seconds),
        }
    }

    /// The modification time as an entry records it.
    pub fn recorded_mtime(&self) -> (mtime: Option<u64>)
        ensures
            mtime == self.mtime(),
    {
        match self.modified {
            ModifiedTime::Unknown => None,
            ModifiedTime::BeforeEpoch => Some(0),
            ModifiedTime::SinceEpoch(seconds) => Some(seconds),
        }
    }
}

/// The text of the first chunk with the keyword.
pub open spec fn first_text(
    texts: Seq<(Seq<char>, Seq<char>)>,
    keyword: Seq<char>,
) -> Option<Seq<char>>
    decreases texts.len(),
{
    if texts.len() == 0 {
        None
    } else if texts[0].0 == keyword {
        Some(texts[0].1)
    } else {
        first_text(texts.drop_first(), keyword)
    }
}

/// Finds the text of the first chunk with the keyword.
pub fn find_text<'a>(chunks: &'a Vec<TextChunk>, keyword: &str) -> (found: Option<&'a String>)
    ensures
        match found {
            Some(text) => first_text(chunk_texts(chunks@), keyword@) == Some(text@),
            None => first_text(chunk_texts(chunks@), keyword@) is None,
        },
{
    let wanted = keyword.to_string();
    let ghost texts = chunk_texts(chunks@);
    let mut next: usize = 0;
    assert(texts.skip(0) =~= texts);
    while next < chunks.len()
        invariant
            next <= chunks@.len(),
            texts == chunk_texts(chunks@),
            wanted@ == keyword@,
            first_text(texts, keyword@) == first_text(texts.skip(next as int), keyword@),
        decreases chunks@.len() - next,
    {
        assert(texts.skip(next as int)[0] == chunks@[next as int]@);
        assert(texts.skip(next as int).drop_first() =~= texts.skip(next + 1));
        if chunks[next].keyword == wanted {
            return Some(&chunks[next].text);
        }
        next += 1;
    }
    None
}

/// The texts that an entry records of its source file.
pub open spec fn recorded_texts(uri: Seq<char>, len: u64, mtime: u64) -> Seq<
    (Seq<char>, Seq<char>),
> {
    seq![
        ("Software"@, "COSMIC Files"@),
        ("Thumb::URI"@, uri),
        ("Thumb::Size"@, decimal_text(len as nat)),
        ("Thumb::MTime"@, decimal_text(mtime as nat)),
    ]
}

/// Whether the texts of an entry describe the file of `uri` as it is now. The URI and the
/// modification time have to be there and right; the size has to be right where it is there.
pub open spec fn describe(
    texts: Seq<(Seq<char>, Seq<char>)>,
    uri: Seq<char>,
    metadata: SourceMetadata,
) -> bool {
    &&& first_text(texts, "Thumb::URI"@) == Some(uri)
    &&& metadata.mtime() matches Some(mtime) && first_text(texts, "Thumb::MTime"@) == Some(
        decimal_text(mtime as nat),
    )
    &&& first_text(texts, "Thumb::Size"@) matches Some(size) ==> size == decimal_text(
        metadata.len as nat,
    )
}

/// Whether the texts of an entry describe the file of `file_uri` as it is now.
pub fn texts_describe(
    chunks: &Vec<TextChunk>,
    file_uri: &String,
    metadata: SourceMetadata,
) -> (valid: bool)
    ensures
        valid == describe(chunk_texts(chunks@), file_uri@, metadata),
{
    match find_text(chunks, "Thumb::URI") {
        Some(uri) => {
            if *uri != *file_uri {
                return false;
            }
        },
        None => {
            return false;
        },
    }
    match find_text(chunks, "Thumb::MTime") {
        Some(recorded) => match metadata.recorded_mtime() {
            Some(mtime) => {
                if *recorded != decimal(mtime) {
                    return false;
                }
            },
            None => {
                return false;
            },
        },
        None => {
            return false;
        },
    }
    match find_text(chunks, "Thumb::Size") {
        Some(recorded) => *recorded == decimal(metadata.len),
        None => true,
    }
}

/// Whether a file of the cache is an entry that describes the source file of `uri` as it is now:
/// the file can be read, it is a PNG file, the source file is there, and the texts are right.
pub open spec fn is_valid_entry(
    contents: Option<Seq<u8>>,
    uri: Seq<char>,
    metadata: Option<SourceMetadata>,
) -> bool {
    &&& contents matches Some(bytes) && png_texts(bytes) matches Some(texts) && metadata matches Some(
        current,
    ) && describe(texts, uri, current)
}

/// What an optional file holds.
pub open spec fn bytes_of(contents: Option<&[u8]>) -> Option<Seq<u8>> {
    match contents {
        Some(bytes) => Some(bytes@),
        None => None,
    }
}

/// Whether the file of the cache with the given contents describes the source file as it is now.
pub fn entry_is_valid(
    contents: Option<&[u8]>,
    file_uri: &String,
    metadata: Option<SourceMetadata>,
) -> (valid: bool)
    ensures
        valid == is_valid_entry(bytes_of(contents), file_uri@, metadata),
{
    match contents {
        Some(bytes) => match read_png_texts(bytes) {
            Ok(chunks) => match metadata {
                Some(current) => texts_describe(&chunks, file_uri, current),
                None => false,
            },
            Err(_) => false,
        },
        None => false,
    }
}

/// What an entry records of a file describes that file, and no file with another URI, size or
/// recorded modification time.
pub proof fn recorded_texts_describe_one_state(
    uri: Seq<char>,
    recorded: SourceMetadata,
    other_uri: Seq<char>,
    current: SourceMetadata,
)
    requires
        recorded.mtime() is Some,
    ensures
        describe(recorded_texts(uri, recorded.len, recorded.mtime()->0), other_uri, current) <==> uri
            == other_uri && recorded.len == current.len && recorded.mtime() == current.mtime(),
{
    let texts = recorded_texts(uri, recorded.len, recorded.mtime()->0);
    reveal_strlit("Software");
    reveal_strlit("Thumb::URI");
    reveal_strlit("Thumb::Size");
    reveal_strlit("Thumb::MTime");
    assert("Thumb::URI"@[7] == 'U' && "Thumb::Size"@[7] == 'S' && "Thumb::MTime"@[7] == 'M');
    reveal_with_fuel(first_text, 5);
    assert(first_text(texts, "Thumb::URI"@) == Some(uri));
    assert(first_text(texts, "Thumb::Size"@) == Some(decimal_text(recorded.len as nat)));
    assert(first_text(texts, "Thumb::MTime"@) == Some(decimal_text(recorded.mtime()->0 as nat)));
    if decimal_text(recorded.len as nat) == decimal_text(current.len as nat) {
        crate::text::decimal_text_tells_numbers_apart(recorded.len as nat, current.len as nat);
    }
    if current.mtime() is Some && decimal_text(recorded.mtime()->0 as nat) == decimal_text(
        current.mtime()->0 as nat,
    ) {
        crate::text::decimal_text_tells_numbers_apart(
            recorded.mtime()->0 as nat,
            current.mtime()->0 as nat,
        );
    }
}

/// What an entry records can be written to a PNG file exactly when the URI can, and is then read
/// back if the URI is not too long.
pub proof fn recorded_texts_fit_png(uri: Seq<char>, len: u64, mtime: u64)
    ensures
        (forall|i: int|
            0 <= i < 4 ==> is_writable(#[trigger] recorded_texts(uri, len, mtime)[i]))
            <==> is_latin1(uri),
        uri.len() + 52 <= LONGEST_TEXTS ==> are_readable(recorded_texts(uri, len, mtime)),
{
    let texts = recorded_texts(uri, len, mtime);
    reveal_strlit("Software");
    reveal_strlit("COSMIC Files");
    reveal_strlit("Thumb::URI");
    reveal_strlit("Thumb::Size");
    reveal_strlit("Thumb::MTime");
    crate::text::decimal_text_is_not_empty(len as nat);
    crate::text::decimal_text_is_not_empty(mtime as nat);
    crate::text::decimal_text_is_short(len);
    crate::text::decimal_text_is_short(mtime);
    assert(is_writable(texts[0]) && is_writable(texts[2]) && is_writable(texts[3]));
    assert(is_writable(texts[1]) <==> is_latin1(uri));
    assert(total_length(texts) <= uri.len() + 52) by {
        reveal_with_fuel(total_length, 5);
        assert(texts.drop_last() =~= seq![texts[0], texts[1], texts[2]]);
        assert(texts.drop_last().drop_last() =~= seq![texts[0], texts[1]]);
        assert(texts.drop_last().drop_last().drop_last() =~= seq![texts[0]]);
    }
}

/// Whether the chunk at `index` is the first with the keyword.
pub open spec fn is_first_with(
    texts: Seq<(Seq<char>, Seq<char>)>,
    keyword: Seq<char>,
    index: int,
) -> bool {
    &&& 0 <= index < texts.len()
    &&& texts[index].0 == keyword
    &&& forall|i: int| 0 <= i < index ==> (#[trigger] texts[i]).0 != keyword
}

/// The text of a keyword is that of the first chunk that has the keyword, and there is none exactly
/// if no chunk has it.
pub proof fn first_text_is_that_of_first_chunk(
    texts: Seq<(Seq<char>, Seq<char>)>,
    keyword: Seq<char>,
    index: int,
)
    ensures
        is_first_with(texts, keyword, index) ==> first_text(texts, keyword) == Some(texts[index].1),
        first_text(texts, keyword) is None <==> forall|i: int|
            0 <= i < texts.len() ==> (#[trigger] texts[i]).0 != keyword,
        first_text(texts, keyword) is Some ==> exists|i: int| is_first_with(texts, keyword, i),
    decreases texts.len(),
{
    if texts.len() > 0 {
        let rest = texts.drop_first();
        first_text_is_that_of_first_chunk(rest, keyword, index - 1);
        if texts[0].0 == keyword {
            assert(is_first_with(texts, keyword, 0));
        } else {
            assert forall|i: int| is_first_with(texts, keyword, i) implies is_first_with(
                rest,
                keyword,
                i - 1,
            ) by {
                assert forall|j: int| 0 <= j < i - 1 implies (#[trigger] rest[j]).0 != keyword by {
                    assert(rest[j] == texts[j + 1]);
                }
            }
            assert forall|i: int| #[trigger] is_first_with(rest, keyword, i) implies is_first_with(
                texts,
                keyword,
                i + 1,
            ) by {
                assert forall|j: int| 0 <= j < i + 1 implies (#[trigger] texts[j]).0 != keyword by {
                    if j > 0 {
                        assert(rest[j - 1] == texts[j]);
                    }
                }
            }
            if forall|i: int| 0 <= i < rest.len() ==> (#[trigger] rest[i]).0 != keyword {
                assert forall|i: int| 0 <= i < texts.len() implies (#[trigger] texts[i]).0
                    != keyword by {
                    if i > 0 {
                        assert(rest[i - 1] == texts[i]);
                    }
                }
            }
            if forall|i: int| 0 <= i < texts.len() ==> (#[trigger] texts[i]).0 != keyword {
                assert forall|i: int| 0 <= i < rest.len() implies (#[trigger] rest[i]).0 != keyword by {
                    assert(rest[i] == texts[i + 1]);
                }
            }
            if first_text(rest, keyword) is Some {
                let place = choose|i: int| is_first_with(rest, keyword, i);
                assert(is_first_with(texts, keyword, place + 1));
            }
        }
    }
}

/// A file of the cache is valid for a source file exactly if its texts, whoever wrote them, say so:
/// the first text for the URI is the file's URI, the first for the modification time is the file's,
/// in decimal, and the first for the size, if there is one, is the file's, in decimal.
pub proof fn entry_is_valid_as_its_texts_say(
    contents: Seq<u8>,
    texts: Seq<(Seq<char>, Seq<char>)>,
    uri: Seq<char>,
    metadata: SourceMetadata,
)
    requires
        png_texts(contents) == Some(texts),
    ensures
        is_valid_entry(Some(contents), uri, Some(metadata)) <==> {
            &&& exists|i: int|
                #[trigger] is_first_with(texts, "Thumb::URI"@, i) && texts[i].1 == uri
            &&& metadata.mtime() is Some
            &&& exists|i: int| #[trigger]
                is_first_with(texts, "Thumb::MTime"@, i) && texts[i].1 == decimal_text(
                    metadata.mtime()->0 as nat,
                )
            &&& forall|i: int| #[trigger]
                is_first_with(texts, "Thumb::Size"@, i) ==> texts[i].1 == decimal_text(
                    metadata.len as nat,
                )
        },
{
    assert forall|keyword: Seq<char>, i: int| #[trigger]
        is_first_with(texts, keyword, i) implies first_text(texts, keyword) == Some(
        texts[i].1,
    ) by {
        first_text_is_that_of_first_chunk(texts, keyword, i);
    }
    first_text_is_that_of_first_chunk(texts, "Thumb::URI"@, 0);
    first_text_is_that_of_first_chunk(texts, "Thumb::MTime"@, 0);
    first_text_is_that_of_first_chunk(texts, "Thumb::Size"@, 0);
}

/// What cannot be read, is no PNG file, or belongs to a file that cannot be inspected is not valid.
pub proof fn unreadable_entries_are_not_valid(
    contents: Option<Seq<u8>>,
    uri: Seq<char>,
    metadata: Option<SourceMetadata>,
)
    requires
        contents is None || metadata is None || png_texts(contents->0) is None,
    ensures
        !is_valid_entry(contents, uri, metadata),
{
}

/// No file of the cache, whoever wrote it, is valid for two source files or for two states of one
/// with different modification times, or with different sizes where it says a size.
pub proof fn valid_entry_describes_one_state(
    contents: Seq<u8>,
    uri: Seq<char>,
    one: SourceMetadata,
    other_uri: Seq<char>,
    other: SourceMetadata,
)
    requires
        is_valid_entry(Some(contents), uri, Some(one)),
        is_valid_entry(Some(contents), other_uri, Some(other)),
    ensures
        uri == other_uri,
        one.mtime() == other.mtime(),
        (exists|i: int|
            0 <= i < png_texts(contents)->0.len() && (#[trigger] png_texts(contents)->0[i]).0
                == "Thumb::Size"@) ==> one.len == other.len,
{
    let texts = png_texts(contents)->0;
    entry_is_valid_as_its_texts_say(contents, texts, uri, one);
    entry_is_valid_as_its_texts_say(contents, texts, other_uri, other);
    crate::text::decimal_text_tells_numbers_apart(
        one.mtime()->0 as nat,
        other.mtime()->0 as nat,
    );
    if exists|i: int| 0 <= i < texts.len() && (#[trigger] texts[i]).0 == "Thumb::Size"@ {
        first_text_is_that_of_first_chunk(texts, "Thumb::Size"@, 0);
        let place = choose|i: int| is_first_with(texts, "Thumb::Size"@, i);
        assert(texts[place].1 == decimal_text(one.len as nat));
        assert(texts[place].1 == decimal_text(other.len as nat));
        crate::text::decimal_text_tells_numbers_apart(one.len as nat, other.len as nat);
    }
}

/// The modification time is recorded in full seconds since the epoch, zero for one before it, and
/// not at all where the file system does not say it.
pub proof fn mtime_is_whole_seconds(metadata: SourceMetadata)
    ensures
        metadata.mtime() is None <==> metadata.modified is Unknown,
        metadata.modified is BeforeEpoch ==> metadata.mtime() == Some(0u64),
        metadata.modified matches ModifiedTime::SinceEpoch(seconds) ==> metadata.mtime() == Some(
            seconds,
        ),
{
}

/// What is recorded of a source file: the program, the file's URI, and numbers that stand for its
/// size and its modification time, in this order and nothing else.
pub proof fn recorded_texts_hold_the_state(uri: Seq<char>, len: u64, mtime: u64)
    ensures
        ({
            let texts = recorded_texts(uri, len, mtime);
            &&& texts.len() == 4
            &&& texts[0] == ("Software"@, "COSMIC Files"@)
            &&& texts[1] == ("Thumb::URI"@, uri)
            &&& texts[2].0 == "Thumb::Size"@ && crate::text::decimal_value(texts[2].1) == len
            &&& texts[2].1 == decimal_text(len as nat)
            &&& texts[3].0 == "Thumb::MTime"@ && crate::text::decimal_value(texts[3].1) == mtime
            &&& texts[3].1 == decimal_text(mtime as nat)
        }),
{
    crate::text::decimal_text_stands_for_number(len as nat);
    crate::text::decimal_text_stands_for_number(mtime as nat);
}

/// A file that can be read is taken whole, and one that cannot is none.
pub proof fn files_are_read_whole(contents: &[u8])
    ensures
        bytes_of(Some(contents)) == Some(contents@),
        bytes_of(None) is None,
{
}

} // verus!
