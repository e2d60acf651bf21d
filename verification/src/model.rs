//! The state of a book under construction, as mathematical data, and what
//! each builder operation does to it.

use vstd::prelude::*;
use vstd::utf8::encode_utf8;
use crate::bytes::zeros;
use crate::error::Failure;
use crate::hash::{hash_of_words, hash_words, xxh3_128_of, xxh3_64_of};
use crate::layout::{table_bytes, Record};
use crate::types::{
    AssetEntry, BbfFooter, BbfHeader, MediaType, Metadata, PageEntry, Section, ASSET_ENTRY_SIZE,
    BBF_VARIABLE_REAM_SIZE_FLAG, FOOTER_SIZE, HEADER_SIZE, MAGIC, METADATA_SIZE, NO_PARENT,
    PAGE_ENTRY_SIZE, SECTION_SIZE, VERSION,
};

verus! {

/// The array of `N` zero bytes.
pub open spec fn zero_array<const N: usize>() -> [u8; N] {
    vstd::array::spec_array_fill_for_copy_type::<u8, N>(0u8)
}

/// The header of a file with the given settings.
pub open spec fn header_of(
    flags: u32,
    alignment: u8,
    ream_size: u8,
    footer_offset: u64,
) -> BbfHeader {
    BbfHeader {
        magic: MAGIC,
        version: VERSION,
        header_len: HEADER_SIZE as u16,
        flags,
        alignment,
        ream_size,
        reserved_extra: 0,
        footer_offset,
        reserved: zero_array::<40>(),
    }
}

/// The header that reserves the first bytes of a file until it is finalized.
pub open spec fn placeholder_header() -> BbfHeader {
    header_of(0, 0, 0, 0)
}

/// The entry of an asset of `size` bytes that starts at `offset` and hashes to `hash`.
pub open spec fn asset_entry(
    offset: u64,
    hash: u128,
    size: u64,
    flags: u32,
    media_type: u8,
) -> AssetEntry {
    AssetEntry {
        file_offset: offset,
        asset_hash: [hash_words(hash).0, hash_words(hash).1],
        file_size: size,
        flags,
        reserved_value: 0,
        media_type,
        reserved: zero_array::<9>(),
    }
}

/// The entry of a page that shows asset `asset_index`.
pub open spec fn page_entry(asset_index: u64, flags: u32) -> PageEntry {
    PageEntry { asset_index, flags, reserved: zero_array::<4>() }
}

/// The entry of a section.
pub open spec fn section_entry(title_offset: u64, start_index: u64, parent_offset: u64) -> Section {
    Section {
        section_title_offset: title_offset,
        section_start_index: start_index,
        section_parent_offset: parent_offset,
        reserved: zero_array::<8>(),
    }
}

/// The entry of a key/value pair.
pub open spec fn metadata_entry(
    key_offset: u64,
    value_offset: u64,
    parent_offset: u64,
) -> Metadata {
    Metadata { key_offset, value_offset, parent_offset, reserved: zero_array::<8>() }
}

/// The content hash that an asset entry stores.
pub open spec fn entry_hash(a: AssetEntry) -> u128 {
    hash_of_words(a.asset_hash[0], a.asset_hash[1])
}

/// The bytes of `data` that an asset entry points at.
pub open spec fn asset_data(data: Seq<u8>, a: AssetEntry) -> Seq<u8> {
    data.subrange(a.file_offset as int, a.file_offset + a.file_size)
}

/// The alignment of an asset of `size` bytes: 8 where small assets are packed
/// and the asset is below the threshold, else the configured alignment.
pub open spec fn effective_alignment(flags: u32, alignment: u8, ream_size: u8, size: nat) -> u64 {
    if flags & BBF_VARIABLE_REAM_SIZE_FLAG != 0 && size < (1u64 << ream_size) {
        8
    } else {
        1u64 << alignment
    }
}

/// The number of zero bytes between `offset` and the next multiple of `align`.
pub open spec fn padding_for(offset: nat, align: u64) -> nat {
    if offset % (align as nat) == 0 {
        0
    } else {
        (align - offset % (align as nat)) as nat
    }
}

/// Whether the string `s` stands in `pool` at `offset`, followed by a zero byte.
pub open spec fn string_stored(pool: Seq<u8>, s: Seq<char>, offset: u64) -> bool {
    let bytes = encode_utf8(s);
    &&& offset + bytes.len() + 1 <= pool.len()
    &&& pool.subrange(offset as int, offset + bytes.len()) == bytes
    &&& pool[offset + bytes.len()] == 0
}

/// A book under construction.
pub struct BuilderState {
    /// What has been written so far: the placeholder header, then the assets,
    /// each after its padding.
    pub data: Seq<u8>,
    /// The asset table.
    pub assets: Seq<AssetEntry>,
    /// The page table.
    pub pages: Seq<PageEntry>,
    /// The section table.
    pub sections: Seq<Section>,
    /// The metadata table.
    pub metadata: Seq<Metadata>,
    /// The string pool.
    pub string_pool: Seq<u8>,
    /// The interned strings, each with its offset in the pool.
    pub strings: Map<Seq<char>, u64>,
    /// Alignment exponent.
    pub alignment: u8,
    /// Small-asset threshold exponent.
    pub ream_size: u8,
    /// Header flags.
    pub flags: u32,
}

impl BuilderState {
    /// The state of a new builder.
    pub open spec fn initial(alignment: u8, ream_size: u8, flags: u32) -> BuilderState {
        BuilderState {
            data: placeholder_header().to_bytes(),
            assets: Seq::empty(),
            pages: Seq::empty(),
            sections: Seq::empty(),
            metadata: Seq::empty(),
            string_pool: Seq::empty(),
            strings: Map::empty(),
            alignment,
            ream_size,
            flags,
        }
    }

    /// What starting a book with the given settings gives: exponents above
    /// 16 are refused.
    pub open spec fn create(alignment: u8, ream_size: u8, flags: u32) -> Result<
        BuilderState,
        Failure,
    > {
        if alignment > 16 {
            Err(Failure::AlignmentTooLarge(alignment))
        } else if ream_size > 16 {
            Err(Failure::Other("Ream size exponent must not exceed 16 (64KB)"@))
        } else {
            Ok(BuilderState::initial(alignment, ream_size, flags))
        }
    }

    /// Whether some asset has content hash `h`.
    pub open spec fn has_asset(self, h: u128) -> bool {
        exists|i: int| 0 <= i < self.assets.len() && entry_hash(#[trigger] self.assets[i]) == h
    }

    /// The index of an asset with content hash `h`.
    pub open spec fn asset_of(self, h: u128) -> int {
        choose|i: int| 0 <= i < self.assets.len() && entry_hash(#[trigger] self.assets[i]) == h
    }

    /// The alignment of an asset of `size` bytes in this book.
    pub open spec fn alignment_of(self, size: nat) -> u64 {
        effective_alignment(self.flags, self.alignment, self.ream_size, size)
    }

    /// The padding written before a new asset of `size` bytes.
    pub open spec fn padding(self, size: nat) -> nat {
        padding_for(self.data.len(), self.alignment_of(size))
    }

    /// Whether `offset` is where an interned string starts.
    pub open spec fn is_string_offset(self, offset: u64) -> bool {
        exists|s: Seq<char>| #[trigger] self.strings.contains_key(s) && self.strings[s] == offset
    }

    /// Whether an asset entry lies in the data written so far and is aligned.
    pub open spec fn asset_valid(self, a: AssetEntry) -> bool {
        &&& HEADER_SIZE <= a.file_offset
        &&& a.file_offset + a.file_size <= self.data.len()
        &&& a.file_offset % self.alignment_of(a.file_size as nat) == 0
    }

    /// Whether every asset entry stores the XXH3 hash of the bytes it points at.
    pub open spec fn hashed(self) -> bool {
        forall|i: int|
            0 <= i < self.assets.len() ==> entry_hash(#[trigger] self.assets[i]) == xxh3_128_of(
                asset_data(self.data, self.assets[i]),
            )
    }

    /// What holds of every state that a builder reaches.
    pub open spec fn valid(self) -> bool {
        &&& self.alignment <= 16
        &&& self.ream_size <= 16
        &&& HEADER_SIZE <= self.data.len() <= u64::MAX
        &&& self.data.subrange(0, HEADER_SIZE as int) == placeholder_header().to_bytes()
        &&& self.string_pool.len() <= u64::MAX
        &&& self.assets.len() <= u64::MAX
        &&& forall|i: int|
            0 <= i < self.assets.len() ==> self.asset_valid(#[trigger] self.assets[i])
        &&& forall|i: int, j: int|
            0 <= i < j < self.assets.len() ==> entry_hash(#[trigger] self.assets[i]) != entry_hash(
                #[trigger] self.assets[j],
            )
        &&& forall|p: int|
            0 <= p < self.pages.len() ==> (#[trigger] self.pages[p]).asset_index < self.assets.len()
        &&& forall|s: Seq<char>| #[trigger]
            self.strings.contains_key(s) ==> string_stored(self.string_pool, s, self.strings[s])
        &&& forall|k: int|
            0 <= k < self.sections.len() ==> self.section_valid(#[trigger] self.sections[k])
        &&& forall|k: int|
            0 <= k < self.metadata.len() ==> self.metadata_valid(#[trigger] self.metadata[k])
    }

    /// Whether the offsets of a section point at interned strings.
    pub open spec fn section_valid(self, s: Section) -> bool {
        &&& self.is_string_offset(s.section_title_offset)
        &&& s.section_parent_offset == NO_PARENT || self.is_string_offset(s.section_parent_offset)
    }

    /// Whether the offsets of a key/value pair point at interned strings.
    pub open spec fn metadata_valid(self, m: Metadata) -> bool {
        &&& self.is_string_offset(m.key_offset)
        &&& self.is_string_offset(m.value_offset)
        &&& m.parent_offset == NO_PARENT || self.is_string_offset(m.parent_offset)
    }

    /// The state after a page with the given content has been added, where
    /// `h` is taken as the content's hash. Content whose hash an asset already
    /// has is not stored again: the page points at that asset.
    pub open spec fn add_page(
        self,
        content: Seq<u8>,
        h: u128,
        media_type: MediaType,
        page_flags: u32,
        asset_flags: u32,
    ) -> BuilderState {
        if self.has_asset(h) {
            BuilderState {
                pages: self.pages.push(page_entry(self.asset_of(h) as u64, page_flags)),
                ..self
            }
        } else {
            let pad = self.padding(content.len());
            BuilderState {
                data: self.data + zeros(pad) + content,
                assets: self.assets.push(
                    asset_entry(
                        (self.data.len() + pad) as u64,
                        h,
                        content.len() as u64,
                        asset_flags,
                        media_type.tag(),
                    ),
                ),
                pages: self.pages.push(page_entry(self.assets.len() as u64, page_flags)),
                ..self
            }
        }
    }

    /// The state after a page has been added, or the refusal of a page
    /// whose content would end beyond what a 64-bit offset reaches.
    pub open spec fn try_add_page(
        self,
        content: Seq<u8>,
        h: u128,
        media_type: MediaType,
        page_flags: u32,
        asset_flags: u32,
    ) -> Result<BuilderState, Failure> {
        if self.add_page(content, h, media_type, page_flags, asset_flags).data.len() <= u64::MAX {
            Ok(self.add_page(content, h, media_type, page_flags, asset_flags))
        } else {
            Err(Failure::IntegerOverflow("File offset"@))
        }
    }

    /// The state after `s` has been interned: a string that the pool holds
    /// already changes nothing; a new one is appended with its terminator.
    pub open spec fn intern(self, s: Seq<char>) -> BuilderState {
        if self.strings.contains_key(s) {
            self
        } else {
            BuilderState {
                string_pool: self.string_pool + encode_utf8(s) + seq![0u8],
                strings: self.strings.insert(s, self.string_pool.len() as u64),
                ..self
            }
        }
    }

    /// The state after `s` has been interned, if there is an `s`.
    pub open spec fn intern_opt(self, s: Option<Seq<char>>) -> BuilderState {
        match s {
            Some(s) => self.intern(s),
            None => self,
        }
    }

    /// The offset of an optional interned string: [`NO_PARENT`] for none.
    pub open spec fn offset_opt(self, s: Option<Seq<char>>) -> u64 {
        match s {
            Some(s) => self.strings[s],
            None => NO_PARENT,
        }
    }

    /// The state after a section has been added.
    pub open spec fn add_section(
        self,
        title: Seq<char>,
        start_index: u64,
        parent: Option<Seq<char>>,
    ) -> BuilderState {
        let s = self.intern(title).intern_opt(parent);
        BuilderState {
            sections: s.sections.push(
                section_entry(s.strings[title], start_index, s.offset_opt(parent)),
            ),
            ..s
        }
    }

    /// The state after a key/value pair has been added.
    pub open spec fn add_metadata(
        self,
        key: Seq<char>,
        value: Seq<char>,
        parent: Option<Seq<char>>,
    ) -> BuilderState {
        let s = self.intern(key).intern(value).intern_opt(parent);
        BuilderState {
            metadata: s.metadata.push(
                metadata_entry(s.strings[key], s.strings[value], s.offset_opt(parent)),
            ),
            ..s
        }
    }

    /// Offset of the asset table in the finished file.
    pub open spec fn asset_table_offset(self) -> nat {
        self.data.len()
    }

    /// Offset of the page table in the finished file.
    pub open spec fn page_table_offset(self) -> nat {
        self.asset_table_offset() + self.assets.len() * ASSET_ENTRY_SIZE as nat
    }

    /// Offset of the section table in the finished file.
    pub open spec fn section_table_offset(self) -> nat {
        self.page_table_offset() + self.pages.len() * PAGE_ENTRY_SIZE as nat
    }

    /// Offset of the metadata table in the finished file.
    pub open spec fn metadata_table_offset(self) -> nat {
        self.section_table_offset() + self.sections.len() * SECTION_SIZE as nat
    }

    /// Offset of the string pool in the finished file.
    pub open spec fn string_pool_offset(self) -> nat {
        self.metadata_table_offset() + self.metadata.len() * METADATA_SIZE as nat
    }

    /// Offset of the footer in the finished file.
    pub open spec fn footer_offset(self) -> nat {
        self.string_pool_offset() + self.string_pool.len()
    }

    /// Length of the finished file.
    pub open spec fn image_len(self) -> nat {
        self.footer_offset() + FOOTER_SIZE as nat
    }

    /// The index region: the four tables, then the string pool.
    pub open spec fn index_region(self) -> Seq<u8> {
        table_bytes(self.assets) + table_bytes(self.pages) + table_bytes(self.sections)
            + table_bytes(self.metadata) + self.string_pool
    }

    /// The footer of the finished file.
    pub open spec fn footer(self) -> BbfFooter {
        BbfFooter {
            asset_offset: self.asset_table_offset() as u64,
            page_offset: self.page_table_offset() as u64,
            section_offset: self.section_table_offset() as u64,
            meta_offset: self.metadata_table_offset() as u64,
            expansion_offset: 0,
            string_pool_offset: self.string_pool_offset() as u64,
            string_pool_size: self.string_pool.len() as u64,
            asset_count: self.assets.len() as u64,
            page_count: self.pages.len() as u64,
            section_count: self.sections.len() as u64,
            meta_count: self.metadata.len() as u64,
            expansion_count: 0,
            flags: 0,
            footer_len: 0,
            padding: zero_array::<3>(),
            footer_hash: xxh3_64_of(self.index_region()),
            reserved: zero_array::<144>(),
        }
    }

    /// The header of the finished file.
    pub open spec fn final_header(self) -> BbfHeader {
        header_of(self.flags, self.alignment, self.ream_size, self.footer_offset() as u64)
    }

    /// What finishing the book at once gives, where `taken` of its bytes
    /// were taken out before: the finished file, if none were and the file
    /// is not longer than a 64-bit offset reaches.
    pub open spec fn finished(self, taken: nat) -> Result<Seq<u8>, Failure> {
        if taken > 0 {
            Err(Failure::Other("Part of the file was taken out before it was finished"@))
        } else if self.image_len() > u64::MAX {
            Err(Failure::IntegerOverflow("File offset"@))
        } else {
            Ok(self.image())
        }
    }

    /// Where the rest of a finished file starts of which `taken` bytes were
    /// taken out before: after them, and after the header in any case.
    pub open spec fn rest_start(self, taken: nat) -> int {
        if taken == 0 {
            HEADER_SIZE as int
        } else {
            taken as int
        }
    }

    /// The finished file: the final header in place of the placeholder, the
    /// assets as they were written, the index region, the footer.
    pub open spec fn image(self) -> Seq<u8> {
        self.final_header().to_bytes() + self.data.subrange(
            HEADER_SIZE as int,
            self.data.len() as int,
        ) + self.index_region() + self.footer().to_bytes()
    }
}

} // verus!
