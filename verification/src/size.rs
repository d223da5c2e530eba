//! The sizes in which thumbnails are cached.
use vstd::prelude::*;

verus! {

/// A size bucket of the cache.
#[derive(Copy, Clone, Debug, PartialEq, Eq, Structural)]
pub enum ThumbnailSize {
    Normal,
    Large,
    XLarge,
    XXLarge,
}

/// All sizes, from the smallest to the largest.
pub open spec fn all_sizes() -> Seq<ThumbnailSize> {
    seq![
        ThumbnailSize::Normal,
        ThumbnailSize::Large,
        ThumbnailSize::XLarge,
        ThumbnailSize::XXLarge,
    ]
}

impl ThumbnailSize {
    /// All sizes, from the smallest to the largest.
    pub const ALL: [ThumbnailSize; 4] = [
        ThumbnailSize::Normal,
        ThumbnailSize::Large,
        ThumbnailSize::XLarge,
        ThumbnailSize::XXLarge,
    ];

    /// The largest edge of a thumbnail of this size.
    pub open spec fn edge(self) -> u32 {
        match self {
            ThumbnailSize::Normal => 128,
            ThumbnailSize::Large => 256,
            ThumbnailSize::XLarge => 512,
            ThumbnailSize::XXLarge => 1024,
        }
    }

    /// The name of the directory that holds the thumbnails of this size.
    pub open spec fn directory(self) -> Seq<char> {
        match self {
            ThumbnailSize::Normal => "normal"@,
            ThumbnailSize::Large => "large"@,
            ThumbnailSize::XLarge => "x-large"@,
            ThumbnailSize::XXLarge => "xx-large"@,
        }
    }

    /// Whether this is the smallest size that holds an edge of `pixel_size`, or the largest size
    /// where none does.
    pub open spec fn is_bucket_of(self, pixel_size: u32) -> bool {
        &&& pixel_size <= self.edge() || self == ThumbnailSize::XXLarge
        &&& forall|smaller: ThumbnailSize| #[trigger]
            smaller.edge() < self.edge() ==> smaller.edge() < pixel_size
    }

    /// The smallest size that holds an edge of `pixel_size`; the largest size where none does.
    pub fn from_pixel_size(pixel_size: u32) -> (size: Self)
        ensures
            size.is_bucket_of(pixel_size),
    {
        if pixel_size <= Self::Normal.pixel_size() {
            Self::Normal
        } else if pixel_size <= Self::Large.pixel_size() {
            Self::Large
        } else if pixel_size <= Self::XLarge.pixel_size() {
            Self::XLarge
        } else {
            Self::XXLarge
        }
    }

    /// The largest edge of a thumbnail of this size, in pixels.
    pub fn pixel_size(self) -> (edge: u32)
        ensures
            edge == self.edge(),
    {
        match self {
            Self::Normal => 128,
            Self::Large => 256,
            Self::XLarge => 512,
            Self::XXLarge => 1024,
        }
    }

    /// The name of the directory that holds the thumbnails of this size.
    pub fn subdirectory_name(self) -> (name: &'static str)
        ensures
            name@ == self.directory(),
    {
        match self {
            Self::Normal => "normal",
            Self::Large => "large",
            Self::XLarge => "x-large",
            Self::XXLarge => "xx-large",
        }
    }
}

/// Every edge has exactly one bucket, a larger edge none that is smaller, and the edge of a size
/// has that size.
pub proof fn buckets_follow_edges(
    size: ThumbnailSize,
    pixel_size: u32,
    larger: ThumbnailSize,
    larger_pixel_size: u32,
)
    requires
        size.is_bucket_of(pixel_size),
        larger.is_bucket_of(larger_pixel_size),
        pixel_size <= larger_pixel_size,
    ensures
        size.edge() <= larger.edge(),
        pixel_size == larger_pixel_size ==> size == larger,
        size.is_bucket_of(size.edge()),
{
}

/// The bucket of an edge is the one whose range the edge is in.
pub proof fn buckets_have_ranges(size: ThumbnailSize, pixel_size: u32)
    ensures
        size.is_bucket_of(pixel_size) <==> match size {
            ThumbnailSize::Normal => pixel_size <= 128,
            ThumbnailSize::Large => 128 < pixel_size <= 256,
            ThumbnailSize::XLarge => 256 < pixel_size <= 512,
            ThumbnailSize::XXLarge => 512 < pixel_size,
        },
{
    let normal = ThumbnailSize::Normal.edge();
    let large = ThumbnailSize::Large.edge();
    let x_large = ThumbnailSize::XLarge.edge();
}

} // verus!
