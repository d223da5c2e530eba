//! The pixels of a thumbnail that is made from an image.
use vstd::prelude::*;

use crate::png_file::{PngHeader, RGBA};
use crate::size::ThumbnailSize;

verus! {

/// An image in memory, of any pixel type.
#[verifier::external_type_specification]
#[verifier::external_body]
pub struct ExDynamicImage(image::DynamicImage);

/// The bytes of all the samples that an image holds, in the order in which it holds them.
pub uninterp spec fn image_samples(image: image::DynamicImage) -> Seq<u8>;

/// The width and the height of an image, the bytes and the samples of each of its pixels, and a
/// number for all else that its pixel type and its colour space say.
pub uninterp spec fn image_layout(image: image::DynamicImage) -> (u32, u32, u8, u8, u32);

/// The width, the height and the pixels, with red, green, blue and alpha in a byte each, of the
/// thumbnail with the longest edge `edge` of an image with the samples and the layout.
pub uninterp spec fn rgba_thumbnail(
    samples: Seq<u8>,
    layout: (u32, u32, u8, u8, u32),
    edge: u32,
) -> (u32, u32, Seq<u8>);

/// How many pixels along an edge of `length` pixels go into one pixel at most where the edge is
/// scaled to `scaled` pixels. Blocks begin and end at rounded positions, the more so the longer the
/// edge.
pub open spec fn longest_run(length: int, scaled: int) -> int {
    let run = length / scaled + 2 + length / 0x40_0000;
    if length < run {
        length
    } else {
        run
    }
}

/// How many pixels the shorter edge has at least, once the longer one has `edge` pixels: as many
/// as keep the shape, rounded, but one at least.
pub open spec fn scaled_edge(longer: int, shorter: int, edge: int) -> int {
    let scaled = (2 * shorter * edge + longer - 1) / (2 * longer);
    if scaled < 1 {
        1
    } else {
        scaled
    }
}

/// How many pixels of an image go into one pixel of its thumbnail at most.
pub open spec fn largest_block(width: int, height: int, edge: int) -> int {
    let longer = if width < height {
        height
    } else {
        width
    };
    let shorter = if width < height {
        width
    } else {
        height
    };
    if longer == 0 {
        0
    } else {
        longest_run(longer, edge) * longest_run(shorter, scaled_edge(longer, shorter, edge))
    }
}

/// The largest sum that the samples of a block and half of its pixels make; where the samples are
/// floating-point numbers, only the pixels are counted.
pub open spec fn largest_sum(block: int, bytes: u8, samples: u8) -> int {
    if bytes == samples {
        255 * block + block / 2
    } else if bytes == 2 * samples {
        65535 * block + block / 2
    } else {
        block
    }
}

/// Whether an image of the given layout can be scaled to a square of `edge` pixels: what is summed
/// up and counted for a pixel of the thumbnail fits in 32 bits.
pub open spec fn is_scalable(layout: (u32, u32, u8, u8, u32), edge: u32) -> bool {
    largest_sum(
        largest_block(layout.0 as int, layout.1 as int, edge as int),
        layout.2,
        layout.3,
    ) <= u32::MAX
}

/// `width` and `height` of `image::DynamicImage`, and `bytes_per_pixel` and `channel_count` of its
/// `color`, which are part of its layout.
#[verifier::external_body]
fn image_size(image: &image::DynamicImage) -> (size: (u32, u32, u8, u8))
    ensures
        size.0 == image_layout(*image).0,
        size.1 == image_layout(*image).1,
        size.2 == image_layout(*image).2,
        size.3 == image_layout(*image).3,
{
    let color = image.color();
    (image.width(), image.height(), color.bytes_per_pixel(), color.channel_count())
}

/// How many pixels along an edge go into one pixel at most.
fn run_of(length: u64, scaled: u64) -> (run: u64)
    requires
        length <= u32::MAX,
        scaled >= 1,
    ensures
        run == longest_run(length as int, scaled as int),
        run <= length,
{
    assert(length as int / scaled as int <= length) by (nonlinear_arith)
        requires
            length >= 0,
            scaled >= 1,
    ;
    let run: u64 = length / scaled + 2 + length / 0x40_0000;
    if length < run {
        length
    } else {
        run
    }
}

/// Whether an image can be scaled to the size of a thumbnail.
pub fn can_be_scaled(image: &image::DynamicImage, size: ThumbnailSize) -> (scalable: bool)
    ensures
        scalable == is_scalable(image_layout(*image), size.edge()),
{
    let (width, height, bytes, samples) = image_size(image);
    let edge: u64 = size.pixel_size() as u64;
    let longer: u64 = if width < height {
        height as u64
    } else {
        width as u64
    };
    let shorter: u64 = if width < height {
        width as u64
    } else {
        height as u64
    };
    if longer == 0 {
        return true;
    }
    assert(2 * shorter * edge <= 0x2_0000_0000 * 1024) by (nonlinear_arith)
        requires
            0 <= shorter <= 0xffff_ffff,
            0 <= edge <= 1024,
    ;
    let scaled: u64 = (2 * shorter * edge + longer - 1) / (2 * longer);
    let scaled: u64 = if scaled < 1 {
        1
    } else {
        scaled
    };
    assert(scaled == scaled_edge(longer as int, shorter as int, edge as int));
    let long_run: u64 = run_of(longer, edge);
    let short_run: u64 = run_of(shorter, scaled);
    assert(0 <= long_run * short_run <= 0xffff_ffff * 0xffff_ffff) by (nonlinear_arith)
        requires
            0 <= long_run <= 0xffff_ffff,
            0 <= short_run <= 0xffff_ffff,
    ;
    let block: u128 = (long_run * short_run) as u128;
    assert(block == largest_block(width as int, height as int, edge as int));
    let sum: u128 = if bytes == samples {
        255 * block + block / 2
    } else if bytes as u64 == 2 * samples as u64 {
        65535 * block + block / 2
    } else {
        block
    };
    sum <= 0xffff_ffff
}

/// Pixels with red, green, blue and alpha in a byte each, row by row.
#[derive(Debug, PartialEq, Eq)]
pub struct Frame {
    pub width: u32,
    pub height: u32,
    pub pixels: Vec<u8>,
}

impl View for Frame {
    type V = (u32, u32, Seq<u8>);

    open spec fn view(&self) -> (u32, u32, Seq<u8>) {
        (self.width, self.height, self.pixels@)
    }
}

/// The header of a PNG file with such pixels.
pub open spec fn rgba_header(width: u32, height: u32) -> PngHeader {
    PngHeader { width, height, color_type: RGBA, bit_depth: 8 }
}

/// `image::DynamicImage::thumbnail` to a square of `edge` pixels, and `into_rgba8` of the result.
/// The thumbnail is a function of what the image holds and of the edge. It has at least one pixel,
/// is not larger than the square, and has all its pixels. Each pixel is the mean of a block of the
/// image's pixels. Where the samples of a block, summed up in 32 bits (in 64 for floating-point
/// numbers), or the count of its pixels, which has 32 bits too, may overflow, nothing is claimed.
#[verifier::external_body]
pub(crate) fn thumbnail_of(image: image::DynamicImage, edge: u32) -> (frame: Frame)
    requires
        128 <= edge <= 1024,
        is_scalable(image_layout(image), edge),
    ensures
        frame@ == rgba_thumbnail(image_samples(image), image_layout(image), edge),
        1 <= frame.width <= edge,
        1 <= frame.height <= edge,
        frame.pixels@.len() == rgba_header(frame.width, frame.height).pixel_bytes(),
{
    let thumbnail = image.thumbnail(edge, edge).into_rgba8();
    Frame { width: thumbnail.width(), height: thumbnail.height(), pixels: thumbnail.into_raw() }
}

/// Where a block of `run` by `other_run` pixels is the largest, an image can be scaled exactly if
/// the samples of such a block, and half of its pixels for rounding, fit in 32 bits. The edges of a
/// block are those of the image divided by those of the thumbnail, and two pixels more; the shorter
/// edge of the thumbnail keeps the shape, to the nearest pixel, and has one pixel at least.
pub proof fn scalable_means_blocks_fit(
    layout: (u32, u32, u8, u8, u32),
    edge: u32,
    longer: int,
    shorter: int,
    scaled: int,
    run: int,
    other_run: int,
)
    requires
        edge >= 1,
        longer >= 1,
        shorter <= longer,
        (longer == layout.0 && shorter == layout.1) || (longer == layout.1 && shorter == layout.0),
        scaled >= 1,
        scaled == 1 || 2 * longer * scaled < 2 * shorter * edge + longer,
        2 * shorter * edge + longer <= 2 * longer * (scaled + 1),
        run == longer || run == longer / edge as int + 2 + longer / 0x40_0000,
        run <= longer && run <= longer / edge as int + 2 + longer / 0x40_0000,
        other_run == shorter || other_run == shorter / scaled + 2 + shorter / 0x40_0000,
        other_run <= shorter && other_run <= shorter / scaled + 2 + shorter / 0x40_0000,
    ensures
        layout.2 == layout.3 ==> (is_scalable(layout, edge) <==> 255 * (run * other_run) + (run
            * other_run) / 2 <= 0xffff_ffff),
        layout.2 == 2 * layout.3 && layout.3 > 0 ==> (is_scalable(layout, edge) <==> 65535 * (run
            * other_run) + (run * other_run) / 2 <= 0xffff_ffff),
        layout.2 > 2 * layout.3 ==> (is_scalable(layout, edge) <==> run * other_run <= 0xffff_ffff),
{
    let top = 2 * shorter * edge + longer - 1;
    let bottom = 2 * longer;
    assert(top / bottom == scaled || (scaled == 1 && top / bottom == 0)) by (nonlinear_arith)
        requires
            bottom > 0,
            top >= 0,
            scaled >= 1,
            scaled == 1 || bottom * scaled <= top,
            top < bottom * (scaled + 1),
    ;
    assert(scaled_edge(longer, shorter, edge as int) == scaled);
    assert(longest_run(longer, edge as int) == run);
    assert(longest_run(shorter, scaled) == other_run);
    if layout.0 == layout.1 {
        assert(longer == shorter);
    }
}

/// How long the runs of a block are where the image's edges are at most twice `half` times the
/// thumbnail's.
proof fn runs_are_short(longer: int, shorter: int, edge: int, half: int)
    requires
        1 <= longer <= 2 * half * edge,
        0 <= shorter <= longer,
        128 <= edge <= 1024,
        1 <= half <= 1500,
    ensures
        0 <= longest_run(longer, edge) <= 2 * half + 2,
        0 <= longest_run(shorter, scaled_edge(longer, shorter, edge)) <= 3 * half + 2,
{
    let scaled = scaled_edge(longer, shorter, edge);
    let top = 2 * shorter * edge + longer - 1;
    let bottom = 2 * longer;
    assert(2 * half * edge <= 3000 * 1024) by (nonlinear_arith)
        requires
            1 <= half <= 1500,
            128 <= edge <= 1024,
    ;
    assert(0 <= longer / edge <= 2 * half) by (nonlinear_arith)
        requires
            0 <= longer <= 2 * half * edge,
            edge > 0,
    ;
    assert(0 <= top) by (nonlinear_arith)
        requires
            top == 2 * shorter * edge + longer - 1,
            shorter >= 0,
            edge > 0,
            longer >= 1,
    ;
    assert(top < bottom * (scaled + 1)) by (nonlinear_arith)
        requires
            bottom > 0,
            top >= 0,
            scaled >= top / bottom,
    ;
    assert(shorter <= scaled * (3 * half)) by (nonlinear_arith)
        requires
            2 * shorter * edge + longer - 1 < 2 * longer * (scaled + 1),
            longer <= 2 * half * edge,
            longer >= 1,
            edge > 0,
            half > 0,
            scaled >= 1,
    {
        // Twice the shorter edge, scaled, is at most three times the longer one.
        assert(2 * shorter * edge <= longer * (2 * scaled + 1));
        assert(longer * (2 * scaled + 1) <= longer * (3 * scaled));
        assert(longer * (3 * scaled) <= (2 * half * edge) * (3 * scaled));
        assert(2 * shorter * edge <= 2 * edge * (scaled * (3 * half)));
    }
    assert(0 <= shorter / scaled <= 3 * half) by (nonlinear_arith)
        requires
            0 <= shorter <= scaled * (3 * half),
            scaled >= 1,
    ;
}

/// An image is refused only where it is far larger than the thumbnail: one with edges of up to 3000
/// times the thumbnail's can be scaled, up to 200 times where its samples have 16 bits.
pub proof fn ordinary_images_are_scalable(layout: (u32, u32, u8, u8, u32), edge: u32)
    requires
        128 <= edge <= 1024,
        layout.0 <= (if layout.2 == 2 * layout.3 {
            200 * edge
        } else {
            3000 * edge
        }),
        layout.1 <= (if layout.2 == 2 * layout.3 {
            200 * edge
        } else {
            3000 * edge
        }),
    ensures
        is_scalable(layout, edge),
{
    let width = layout.0 as int;
    let height = layout.1 as int;
    let longer = if width < height {
        height
    } else {
        width
    };
    let shorter = if width < height {
        width
    } else {
        height
    };
    let half: int = if layout.2 == 2 * layout.3 {
        100
    } else {
        1500
    };
    if longer > 0 {
        runs_are_short(longer, shorter, edge as int, half);
        let run = longest_run(longer, edge as int);
        let other_run = longest_run(shorter, scaled_edge(longer, shorter, edge as int));
        assert(0 <= run * other_run <= (2 * half + 2) * (3 * half + 2)) by (nonlinear_arith)
            requires
                0 <= run <= 2 * half + 2,
                0 <= other_run <= 3 * half + 2,
        ;
        if half == 100 {
            assert((2 * half + 2) * (3 * half + 2) == 202 * 302);
        } else {
            assert((2 * half + 2) * (3 * half + 2) == 3002 * 4502);
        }
    }
}

/// An image whose samples, all of them together, fit in 32 bits can be scaled to any size.
pub proof fn small_images_are_scalable(layout: (u32, u32, u8, u8, u32), edge: u32)
    requires
        edge >= 1,
        layout.0 * layout.1 * (if layout.2 == layout.3 {
            256int
        } else if layout.2 == 2 * layout.3 {
            65536
        } else {
            1
        }) <= 0xffff_ffff,
    ensures
        is_scalable(layout, edge),
{
    let width = layout.0 as int;
    let height = layout.1 as int;
    let longer = if width < height {
        height
    } else {
        width
    };
    let shorter = if width < height {
        width
    } else {
        height
    };
    if longer > 0 {
        let scaled = scaled_edge(longer, shorter, edge as int);
        let run = longest_run(longer, edge as int);
        let other_run = longest_run(shorter, scaled);
        assert(0 <= longer / edge as int) by (nonlinear_arith)
            requires
                longer >= 0,
                edge >= 1,
        ;
        assert(0 <= shorter / scaled) by (nonlinear_arith)
            requires
                shorter >= 0,
                scaled >= 1,
        ;
        assert(0 <= run * other_run <= width * height) by (nonlinear_arith)
            requires
                0 <= run <= longer,
                0 <= other_run <= shorter,
                longer * shorter == width * height,
        ;
    }
}

/// The header of a thumbnail has the frame's edges, and four samples of eight bits per pixel.
pub proof fn rgba_headers_have_four_bytes_per_pixel(width: u32, height: u32)
    ensures
        rgba_header(width, height).width == width,
        rgba_header(width, height).height == height,
        rgba_header(width, height).color_type == 6,
        rgba_header(width, height).bit_depth == 8,
        rgba_header(width, height).row_bytes() == 4 * width,
        rgba_header(width, height).pixel_bytes() == 4 * width * height,
{
    assert(width * 4 * 8 == 32 * width);
}

} // verus!
