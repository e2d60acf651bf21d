//! Format constants, the media type tag and the fixed-size records of a file.

use vstd::prelude::*;
use crate::text::{lowercase_of, str_eq, to_lowercase, trim_start, trim_start_matches};

verus! {

/// Signature at the start of every file.
pub const MAGIC: [u8; 4] = [0x42, 0x42, 0x46, 0x33];

/// Default alignment of asset data, in bytes.
pub const ALIGNMENT: u64 = 4096;

/// Header flag: the file is meant to stay read-only.
pub const BBF_PETRIFICATION_FLAG: u32 = 0x00000001;

/// Header flag: small assets are aligned to 8 bytes only.
pub const BBF_VARIABLE_REAM_SIZE_FLAG: u32 = 0x00000002;

/// Default alignment exponent (4096 bytes).
pub const DEFAULT_GUARD_ALIGNMENT: u8 = 12;

/// Default small-asset threshold exponent (65536 bytes).
pub const DEFAULT_SMALL_REAM_THRESHOLD: u8 = 16;

/// Largest accepted index region, in bytes.
pub const MAX_BALE_SIZE: u64 = 16000000;

/// Largest number of bytes scanned for a string terminator.
pub const MAX_FORME_SIZE: u64 = 2048;

/// Current format version.
pub const VERSION: u16 = 3;

/// Codec of an asset.
#[derive(Debug, Clone, Copy, PartialEq, Eq, Structural)]
pub enum MediaType {
    /// Unknown or unsupported.
    Unknown,
    /// AV1 image file format.
    Avif,
    /// Portable network graphics.
    Png,
    /// WebP.
    Webp,
    /// JPEG XL.
    Jxl,
    /// Bitmap.
    Bmp,
    /// Graphics interchange format.
    Gif,
    /// Tagged image file format.
    Tiff,
    /// JPEG.
    Jpg,
}

impl MediaType {
    /// The tag stored in an asset entry for this media type.
    pub open spec fn tag(self) -> u8 {
        match self {
            MediaType::Unknown => 0x00,
            MediaType::Avif => 0x01,
            MediaType::Png => 0x02,
            MediaType::Webp => 0x03,
            MediaType::Jxl => 0x04,
            MediaType::Bmp => 0x05,
            MediaType::Gif => 0x07,
            MediaType::Tiff => 0x08,
            MediaType::Jpg => 0x09,
        }
    }

    /// The media type that a stored tag stands for; unassigned tags are `Unknown`.
    pub open spec fn of_tag(value: u8) -> MediaType {
        match value {
            0x01 => MediaType::Avif,
            0x02 => MediaType::Png,
            0x03 => MediaType::Webp,
            0x04 => MediaType::Jxl,
            0x05 => MediaType::Bmp,
            0x07 => MediaType::Gif,
            0x08 => MediaType::Tiff,
            0x09 => MediaType::Jpg,
            _ => MediaType::Unknown,
        }
    }

    /// The media type that a lowercase extension without its dot stands for.
    pub open spec fn of_name(name: Seq<char>) -> MediaType {
        if name == "png"@ {
            MediaType::Png
        } else if name == "jpg"@ || name == "jpeg"@ {
            MediaType::Jpg
        } else if name == "avif"@ {
            MediaType::Avif
        } else if name == "webp"@ {
            MediaType::Webp
        } else if name == "jxl"@ {
            MediaType::Jxl
        } else if name == "bmp"@ {
            MediaType::Bmp
        } else if name == "gif"@ {
            MediaType::Gif
        } else if name == "tiff"@ || name == "tif"@ {
            MediaType::Tiff
        } else {
            MediaType::Unknown
        }
    }

    /// The media type that a file extension stands for: leading dots are
    /// dropped and case is ignored.
    pub open spec fn of_extension(ext: Seq<char>) -> MediaType {
        MediaType::of_name(lowercase_of(trim_start(ext, '.')))
    }

    /// The usual file extension of a media type, with its dot; `.png` for `Unknown`.
    pub open spec fn extension(self) -> Seq<char> {
        match self {
            MediaType::Avif => ".avif"@,
            MediaType::Png => ".png"@,
            MediaType::Jpg => ".jpg"@,
            MediaType::Webp => ".webp"@,
            MediaType::Jxl => ".jxl"@,
            MediaType::Bmp => ".bmp"@,
            MediaType::Gif => ".gif"@,
            MediaType::Tiff => ".tiff"@,
            MediaType::Unknown => ".png"@,
        }
    }

    /// The media type that a lowercase extension without its dot stands for.
    pub fn from_lowercase_name(name: &str) -> (r: MediaType)
        ensures
            r == MediaType::of_name(name@),
    {
        if str_eq(name, "png") {
            MediaType::Png
        } else if str_eq(name, "jpg") || str_eq(name, "jpeg") {
            MediaType::Jpg
        } else if str_eq(name, "avif") {
            MediaType::Avif
        } else if str_eq(name, "webp") {
            MediaType::Webp
        } else if str_eq(name, "jxl") {
            MediaType::Jxl
        } else if str_eq(name, "bmp") {
            MediaType::Bmp
        } else if str_eq(name, "gif") {
            MediaType::Gif
        } else if str_eq(name, "tiff") || str_eq(name, "tif") {
            MediaType::Tiff
        } else {
            MediaType::Unknown
        }
    }

    /// The media type that a file extension stands for, with or without
    /// leading dots, in any case; `Unknown` where none does.
    pub fn from_extension(ext: &str) -> (r: MediaType)
        ensures
            r == MediaType::of_extension(ext@),
    {
        let name = to_lowercase(trim_start_matches(ext, '.'));
        MediaType::from_lowercase_name(name.as_str())
    }

    /// The usual file extension of this media type, with its dot.
    pub fn as_extension(self) -> (r: &'static str)
        ensures
            r@ == self.extension(),
    {
        match self {
            MediaType::Avif => ".avif",
            MediaType::Png => ".png",
            MediaType::Jpg => ".jpg",
            MediaType::Webp => ".webp",
            MediaType::Jxl => ".jxl",
            MediaType::Bmp => ".bmp",
            MediaType::Gif => ".gif",
            MediaType::Tiff => ".tiff",
            MediaType::Unknown => ".png",
        }
    }

    /// Returns the tag stored in an asset entry for this media type.
    pub fn as_u8(self) -> (r: u8)
        ensures
            r == self.tag(),
    {
        match self {
            MediaType::Unknown => 0x00,
            MediaType::Avif => 0x01,
            MediaType::Png => 0x02,
            MediaType::Webp => 0x03,
            MediaType::Jxl => 0x04,
            MediaType::Bmp => 0x05,
            MediaType::Gif => 0x07,
            MediaType::Tiff => 0x08,
            MediaType::Jpg => 0x09,
        }
    }
}

/// The tag of a media type stands for that media type.
pub proof fn lemma_tag_round_trip(m: MediaType)
    ensures
        MediaType::of_tag(m.tag()) == m,
{
}

impl vstd::std_specs::convert::FromSpecImpl<u8> for MediaType {
    open spec fn obeys_from_spec() -> bool {
        true
    }

    open spec fn from_spec(value: u8) -> MediaType {
        MediaType::of_tag(value)
    }
}

impl From<u8> for MediaType {
    /// Decodes a stored tag; unassigned tags give `Unknown`.
    fn from(value: u8) -> (r: MediaType) {
        match value {
            0x01 => MediaType::Avif,
            0x02 => MediaType::Png,
            0x03 => MediaType::Webp,
            0x04 => MediaType::Jxl,
            0x05 => MediaType::Bmp,
            0x07 => MediaType::Gif,
            0x08 => MediaType::Tiff,
            0x09 => MediaType::Jpg,
            _ => MediaType::Unknown,
        }
    }
}

/// Encoded size of a [`BbfHeader`], in bytes.
pub const HEADER_SIZE: usize = 64;

/// Encoded size of an [`AssetEntry`], in bytes.
pub const ASSET_ENTRY_SIZE: usize = 48;

/// Encoded size of a [`PageEntry`], in bytes.
pub const PAGE_ENTRY_SIZE: usize = 16;

/// Encoded size of a [`Section`], in bytes.
pub const SECTION_SIZE: usize = 32;

/// Encoded size of a [`Metadata`] record, in bytes.
pub const METADATA_SIZE: usize = 32;

/// Encoded size of an [`Expansion`] record, in bytes.
pub const EXPANSION_SIZE: usize = 128;

/// Encoded size of a [`BbfFooter`], in bytes.
pub const FOOTER_SIZE: usize = 256;

/// Offset that stands for "no parent".
pub const NO_PARENT: u64 = 0xFFFF_FFFF_FFFF_FFFF;

/// Header at offset 0 of every file.
#[derive(Debug, Clone, Copy)]
pub struct BbfHeader {
    /// Format signature.
    pub magic: [u8; 4],
    /// Format version.
    pub version: u16,
    /// Encoded size of the header.
    pub header_len: u16,
    /// Configuration flags.
    pub flags: u32,
    /// Alignment exponent: assets start at multiples of `1 << alignment`.
    pub alignment: u8,
    /// Small-asset threshold exponent.
    pub ream_size: u8,
    /// Reserved; zero when written.
    pub reserved_extra: u16,
    /// Offset of the footer.
    pub footer_offset: u64,
    /// Reserved; zero when written.
    pub reserved: [u8; 40],
}

/// One unique blob of image data.
#[derive(Debug, Clone, Copy)]
pub struct AssetEntry {
    /// Offset of the first byte of the asset.
    pub file_offset: u64,
    /// Content hash: low 64 bits, then high 64 bits.
    pub asset_hash: [u64; 2],
    /// Length of the asset, in bytes.
    pub file_size: u64,
    /// Asset flags.
    pub flags: u32,
    /// Reserved; zero when written.
    pub reserved_value: u16,
    /// Tag of the asset's media type.
    pub media_type: u8,
    /// Reserved; zero when written.
    pub reserved: [u8; 9],
}

/// One page, in reading order.
#[derive(Debug, Clone, Copy)]
pub struct PageEntry {
    /// Index of the page's asset in the asset table.
    pub asset_index: u64,
    /// Page flags.
    pub flags: u32,
    /// Reserved; zero when written.
    pub reserved: [u8; 4],
}

/// One chapter or part.
#[derive(Debug, Clone, Copy)]
pub struct Section {
    /// String-pool offset of the title.
    pub section_title_offset: u64,
    /// Index of the first page of the section.
    pub section_start_index: u64,
    /// String-pool offset of the parent's title, or [`NO_PARENT`].
    pub section_parent_offset: u64,
    /// Reserved; zero when written.
    pub reserved: [u8; 8],
}

/// One key/value pair.
#[derive(Debug, Clone, Copy)]
pub struct Metadata {
    /// String-pool offset of the key.
    pub key_offset: u64,
    /// String-pool offset of the value.
    pub value_offset: u64,
    /// String-pool offset of the owning section's title, or [`NO_PARENT`].
    pub parent_offset: u64,
    /// Reserved; zero when written.
    pub reserved: [u8; 8],
}

/// Record of the table kept for later format revisions.
#[derive(Debug, Clone, Copy)]
pub struct Expansion {
    /// Reserved words.
    pub exp_reserved: [u64; 10],
    /// Flags.
    pub flags: u32,
    /// Reserved; zero when written.
    pub reserved: [u8; 44],
}

/// Footer: where the tables are, how long they are, and their hash.
#[derive(Debug, Clone, Copy)]
pub struct BbfFooter {
    /// Offset of the asset table.
    pub asset_offset: u64,
    /// Offset of the page table.
    pub page_offset: u64,
    /// Offset of the section table.
    pub section_offset: u64,
    /// Offset of the metadata table.
    pub meta_offset: u64,
    /// Offset of the expansion table.
    pub expansion_offset: u64,
    /// Offset of the string pool.
    pub string_pool_offset: u64,
    /// Length of the string pool, in bytes.
    pub string_pool_size: u64,
    /// Number of asset entries.
    pub asset_count: u64,
    /// Number of page entries.
    pub page_count: u64,
    /// Number of section entries.
    pub section_count: u64,
    /// Number of metadata entries.
    pub meta_count: u64,
    /// Number of expansion entries.
    pub expansion_count: u64,
    /// Footer flags.
    pub flags: u32,
    /// Low byte of the footer's encoded size.
    pub footer_len: u8,
    /// Padding; zero when written.
    pub padding: [u8; 3],
    /// Hash of the index region: the four tables, then the string pool.
    pub footer_hash: u64,
    /// Reserved; zero when written.
    pub reserved: [u8; 144],
}

} // verus!
