//! What the cache reads from PNG files and writes to them.
use vstd::prelude::*;

verus! {

/// The error of a PNG file that cannot be decoded.
#[verifier::external_type_specification]
#[verifier::external_body]
pub struct ExDecodingError(png::DecodingError);

/// The error of an image that cannot be encoded.
#[verifier::external_type_specification]
#[verifier::external_body]
pub struct ExEncodingError(png::EncodingError);

/// The code of one grayscale sample per pixel.
pub const GRAYSCALE: u8 = 0;

/// The code of a red, a green and a blue sample per pixel.
pub const RGB: u8 = 2;

/// The code of one index into a palette per pixel.
pub const INDEXED: u8 = 3;

/// The code of a grayscale and an alpha sample per pixel.
pub const GRAYSCALE_ALPHA: u8 = 4;

/// The code of a red, a green, a blue and an alpha sample per pixel.
pub const RGBA: u8 = 6;

/// The edge up to which images are decoded and encoded here.
pub const LONGEST_EDGE: u32 = 0x1000;

/// The dimensions and the pixel format of a PNG file, with the codes of the file format.
#[derive(Copy, Clone, Debug, PartialEq, Eq, Structural)]
pub struct PngHeader {
    pub width: u32,
    pub height: u32,
    pub color_type: u8,
    pub bit_depth: u8,
}

impl PngHeader {
    /// How many samples a pixel has.
    pub open spec fn samples(self) -> int {
        if self.color_type == RGB {
            3
        } else if self.color_type == GRAYSCALE_ALPHA {
            2
        } else if self.color_type == RGBA {
            4
        } else {
            1
        }
    }

    /// The depths that the file format has for the colour type.
    pub open spec fn has_depth(self) -> bool {
        let depth = self.bit_depth;
        if self.color_type == GRAYSCALE {
            depth == 1 || depth == 2 || depth == 4 || depth == 8 || depth == 16
        } else if self.color_type == INDEXED {
            depth == 1 || depth == 2 || depth == 4 || depth == 8
        } else if self.color_type == RGB || self.color_type == GRAYSCALE_ALPHA || self.color_type
            == RGBA {
            depth == 8 || depth == 16
        } else {
            false
        }
    }

    /// Whether a PNG file can have this header.
    pub open spec fn is_valid(self) -> bool {
        self.width > 0 && self.height > 0 && self.has_depth()
    }

    /// Whether neither edge is longer than `edge`.
    pub open spec fn fits(self, edge: u32) -> bool {
        self.width <= edge && self.height <= edge
    }

    /// How many bytes a row of pixels takes.
    pub open spec fn row_bytes(self) -> int {
        (self.width * self.samples() * self.bit_depth + 7) / 8
    }

    /// How many bytes all the pixels take.
    pub open spec fn pixel_bytes(self) -> int {
        self.row_bytes() * self.height
    }
}

/// A keyword of a PNG file and the text that the file has for it.
#[derive(Debug, PartialEq, Eq)]
pub struct TextChunk {
    pub keyword: String,
    pub text: String,
}

impl View for TextChunk {
    type V = (Seq<char>, Seq<char>);

    open spec fn view(&self) -> (Seq<char>, Seq<char>) {
        (self.keyword@, self.text@)
    }
}

/// The keywords and texts of a list of chunks.
pub open spec fn chunk_texts(chunks: Seq<TextChunk>) -> Seq<(Seq<char>, Seq<char>)> {
    chunks.map_values(|chunk: TextChunk| chunk@)
}

/// Whether every character of `text` is one of ISO 8859-1.
pub open spec fn is_latin1(text: Seq<char>) -> bool {
    forall|i: int| 0 <= i < text.len() ==> (#[trigger] text[i]) as int <= 0xff
}

/// Whether a PNG file can hold the text under the keyword.
pub open spec fn is_writable(chunk: (Seq<char>, Seq<char>)) -> bool {
    is_latin1(chunk.0) && 1 <= chunk.0.len() <= 79 && is_latin1(chunk.1)
}

/// How many characters the texts have together.
pub open spec fn total_length(texts: Seq<(Seq<char>, Seq<char>)>) -> nat
    decreases texts.len(),
{
    if texts.len() == 0 {
        0
    } else {
        total_length(texts.drop_last()) + texts.last().1.len()
    }
}

/// How many characters of text the decoder is sure to read: with as many again for its buffer they
/// stay below the 64 MiB that it allocates by default.
pub const LONGEST_TEXTS: usize = 0x1f0_0000;

/// Whether the file that holds the texts gives them back: the keywords end where they seem to,
/// and all of it is within what the decoder reads by default.
pub open spec fn are_readable(texts: Seq<(Seq<char>, Seq<char>)>) -> bool {
    &&& texts.len() <= 8
    &&& total_length(texts) <= LONGEST_TEXTS
    &&& forall|i: int| 0 <= i < texts.len() ==> !(#[trigger] texts[i]).0.contains('\0')
}

/// Whether the encoder writes a file with the header, the texts and the pixels.
pub open spec fn is_encodable(
    header: PngHeader,
    texts: Seq<(Seq<char>, Seq<char>)>,
    pixels: Seq<u8>,
) -> bool {
    &&& header.is_valid()
    &&& header.color_type != INDEXED
    &&& forall|i: int| 0 <= i < texts.len() ==> is_writable(#[trigger] texts[i])
    &&& pixels.len() == header.pixel_bytes()
}

/// The keywords and texts that stand before the pixels in the PNG file `contents`, in the order
/// of the file; nothing where the decoder refuses what stands there.
pub uninterp spec fn png_texts(contents: Seq<u8>) -> Option<Seq<(Seq<char>, Seq<char>)>>;

/// The header of the PNG file `contents`, as a decoder reads it that skips texts and may allocate
/// `limit` bytes; nothing where it refuses what stands before the pixels.
pub uninterp spec fn png_header(contents: Seq<u8>, limit: usize) -> Option<PngHeader>;

/// The pixels of the first image of the PNG file `contents`, as that decoder reads them; nothing
/// where it refuses them.
pub uninterp spec fn png_pixels(contents: Seq<u8>, limit: usize) -> Option<Seq<u8>>;

/// The PNG file that the encoder writes for an image and its texts.
pub uninterp spec fn png_contents(
    header: PngHeader,
    texts: Seq<(Seq<char>, Seq<char>)>,
    pixels: Seq<u8>,
) -> Seq<u8>;

/// `png::Decoder::read_info` on the default limits, and the uncompressed Latin-1 texts of the
/// result. They are a function of the file's bytes.
#[verifier::external_body]
pub(crate) fn read_png_texts(contents: &[u8]) -> (texts: Result<Vec<TextChunk>, png::DecodingError>)
    ensures
        texts is Ok <==> png_texts(contents@) is Some,
        texts matches Ok(chunks) ==> png_texts(contents@) == Some(chunk_texts(chunks@)),
{
    let reader = png::Decoder::new(std::io::Cursor::new(contents)).read_info()?;
    let texts = reader.info().uncompressed_latin1_text.iter();
    let chunks = texts.map(|chunk| TextChunk {
        keyword: chunk.keyword.clone(),
        text: chunk.text.clone(),
    });
    Ok(chunks.collect())
}

/// `png::Decoder::read_info` with `limit` as the limit, without texts, and the dimensions, colour
/// type and bit depth of the result. They are a function of the bytes and the limit, and the
/// decoder takes no header that the file format does not have.
#[verifier::external_body]
pub(crate) fn read_png_header(contents: &[u8], limit: usize) -> (header: Result<
    PngHeader,
    png::DecodingError,
>)
    ensures
        header is Ok <==> png_header(contents@, limit) is Some,
        header matches Ok(read) ==> png_header(contents@, limit) == Some(read) && read.is_valid(),
{
    let limits = png::Limits { bytes: limit };
    let mut decoder = png::Decoder::new_with_limits(std::io::Cursor::new(contents), limits);
    decoder.set_ignore_text_chunk(true);
    let reader = decoder.read_info()?;
    let info = reader.info();
    Ok(PngHeader {
        width: info.width,
        height: info.height,
        color_type: info.color_type as u8,
        bit_depth: info.bit_depth as u8,
    })
}

/// `png::Reader::next_frame`, on the reader that [`read_png_header`] describes. The pixels are a
/// function of the bytes and the limit, and as many as the header says.
#[verifier::external_body]
pub(crate) fn read_png_pixels(contents: &[u8], limit: usize) -> (pixels: Result<
    Vec<u8>,
    png::DecodingError,
>)
    requires
        png_header(contents@, limit) matches Some(header) && header.fits(LONGEST_EDGE),
    ensures
        pixels is Ok <==> png_pixels(contents@, limit) is Some,
        pixels matches Ok(bytes) ==> png_pixels(contents@, limit) == Some(bytes@) && bytes@.len()
            == png_header(contents@, limit)->0.pixel_bytes(),
{
    let limits = png::Limits { bytes: limit };
    let mut decoder = png::Decoder::new_with_limits(std::io::Cursor::new(contents), limits);
    decoder.set_ignore_text_chunk(true);
    let mut reader = decoder.read_info()?;
    let size = reader.output_buffer_size().ok_or(png::DecodingError::LimitsExceeded)?;
    let mut pixels = vec![0; size];
    let output = reader.next_frame(&mut pixels)?;
    pixels.truncate(output.buffer_size());
    Ok(pixels)
}

/// `png::Encoder`, from `add_text_chunk` for each text to `write_image_data`. It succeeds exactly
/// on what the file format can hold, with no palette to write. The file is a function of what goes
/// into it, and as long as the texts are not too long the decoder reads them, the header and the
/// pixels back out of it, where its limit allows a row of pixels.
#[verifier::external_body]
pub(crate) fn write_png(header: PngHeader, texts: &Vec<TextChunk>, pixels: &[u8]) -> (written: Result<
    Vec<u8>,
    png::EncodingError,
>)
    requires
        header.has_depth(),
        header.fits(LONGEST_EDGE),
    ensures
        written is Ok <==> is_encodable(header, chunk_texts(texts@), pixels@),
        written matches Ok(contents) ==> contents@ == png_contents(
            header,
            chunk_texts(texts@),
            pixels@,
        ),
        written matches Ok(contents) ==> are_readable(chunk_texts(texts@)) ==> png_texts(contents@)
            == Some(chunk_texts(texts@)),
        written matches Ok(contents) ==> are_readable(chunk_texts(texts@)) ==> forall|limit: usize|
            header.row_bytes() <= limit ==> #[trigger] png_header(contents@, limit) == Some(header),
        written matches Ok(contents) ==> are_readable(chunk_texts(texts@)) ==> forall|limit: usize|
            header.row_bytes() <= limit ==> #[trigger] png_pixels(contents@, limit) == Some(pixels@),
{
    let mut contents = Vec::new();
    let mut encoder = png::Encoder::new(&mut contents, header.width, header.height);
    encoder.set_color(png::ColorType::from_u8(header.color_type).unwrap());
    encoder.set_depth(png::BitDepth::from_u8(header.bit_depth).unwrap());
    for chunk in texts {
        encoder.add_text_chunk(chunk.keyword.clone(), chunk.text.clone())?;
    }
    encoder.write_header()?.write_image_data(pixels)?;
    Ok(contents)
}

/// A row of pixels takes the bits of all its samples, filled up to a whole byte, and the pixels take
/// as many bytes as their rows.
pub proof fn rows_are_filled_up_to_bytes(header: PngHeader)
    ensures
        header.color_type == 0 || header.color_type == 3 ==> header.samples() == 1,
        header.color_type == 4 ==> header.samples() == 2,
        header.color_type == 2 ==> header.samples() == 3,
        header.color_type == 6 ==> header.samples() == 4,
        header.width * header.samples() * header.bit_depth <= 8 * header.row_bytes() < header.width
            * header.samples() * header.bit_depth + 8,
        header.pixel_bytes() == header.row_bytes() * header.height,
{
}

/// An image fits a square exactly if neither of its edges is longer.
pub proof fn fitting_images_have_short_edges(header: PngHeader, edge: u32)
    ensures
        header.fits(edge) <==> header.width <= edge && header.height <= edge,
{
}

/// Every chunk is a keyword and a text, in order.
pub proof fn chunks_are_keywords_and_texts(chunks: Seq<TextChunk>, index: int)
    requires
        0 <= index < chunks.len(),
    ensures
        chunk_texts(chunks).len() == chunks.len(),
        chunk_texts(chunks)[index] == (chunks[index].keyword@, chunks[index].text@),
{
}

} // verus!
