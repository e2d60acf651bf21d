//! What reading a file gives, as mathematical functions of its bytes.

use vstd::prelude::*;
use vstd::utf8::{decode_utf8, valid_utf8};
use crate::bytes::{first_zero, has_zero};
use crate::error::Failure;
use crate::hash::{xxh3_128_of, xxh3_64_of};
use crate::layout::{decode_table, lemma_decode_table_entry, Record};
use crate::model::{asset_data, entry_hash};
use crate::text::decimal;
use crate::types::{
    AssetEntry, BbfFooter, BbfHeader, Metadata, PageEntry, Section, ASSET_ENTRY_SIZE, FOOTER_SIZE,
    HEADER_SIZE, MAGIC, MAX_BALE_SIZE, MAX_FORME_SIZE,
};

verus! {

/// An opened file: its bytes, and the header and footer decoded from them.
pub struct ReaderView {
    pub data: Seq<u8>,
    pub header: BbfHeader,
    pub footer: BbfFooter,
}

/// The byte range of a table of `count` records of `size` bytes at `offset`
/// in a file of `len` bytes, or why there is none. `what` names the table.
pub open spec fn table_range(
    offset: u64,
    count: u64,
    size: nat,
    len: nat,
    what: Seq<char>,
) -> Result<
    (int, int),
    Failure,
> {
    if count * size > u64::MAX {
        Err(Failure::InvalidOffset(what + " table size calculation overflow"@))
    } else if offset + count * size > u64::MAX {
        Err(Failure::InvalidOffset(what + " table offset + size overflow"@))
    } else if offset + count * size > len {
        Err(Failure::InvalidOffset(what + " table out of bounds"@))
    } else {
        Ok((offset as int, offset + count * size))
    }
}

/// What opening a file of the given bytes gives. The checks, in order: the
/// length, the signature, the footer's place, the size of the index region.
pub open spec fn open_spec(file: Seq<u8>) -> Result<ReaderView, Failure> {
    if file.len() < HEADER_SIZE + FOOTER_SIZE {
        Err(Failure::FileTooSmall)
    } else {
        let header = BbfHeader::from_bytes(file.subrange(0, HEADER_SIZE as int));
        if header.magic@ != MAGIC@ {
            Err(Failure::InvalidMagic)
        } else if header.footer_offset + FOOTER_SIZE > file.len() {
            Err(Failure::InvalidOffset("Footer offset out of bounds"@))
        } else {
            let footer = BbfFooter::from_bytes(
                file.subrange(header.footer_offset as int, header.footer_offset + FOOTER_SIZE),
            );
            if footer.asset_offset > file.len() {
                Err(Failure::InvalidOffset("Asset table offset out of bounds"@))
            } else if file.len() - footer.asset_offset > MAX_BALE_SIZE {
                Err(
                    Failure::Other(
                        "Index region too large: "@ + decimal(
                            (file.len() - footer.asset_offset) as nat,
                        ) + " bytes"@,
                    ),
                )
            } else {
                Ok(ReaderView { data: file, header, footer })
            }
        }
    }
}

impl ReaderView {
    /// The table of `count` records at `offset`.
    pub open spec fn table<R: Record>(self, offset: u64, count: u64, what: Seq<char>) -> Result<
        Seq<R>,
        Failure,
    > {
        match table_range(offset, count, R::spec_size(), self.data.len(), what) {
            Err(e) => Err(e),
            Ok((start, end)) => Ok(decode_table::<R>(self.data.subrange(start, end), count as nat)),
        }
    }

    /// The asset table.
    pub open spec fn assets(self) -> Result<Seq<AssetEntry>, Failure> {
        self.table::<AssetEntry>(self.footer.asset_offset, self.footer.asset_count, "Asset"@)
    }

    /// The page table.
    pub open spec fn pages(self) -> Result<Seq<PageEntry>, Failure> {
        self.table::<PageEntry>(self.footer.page_offset, self.footer.page_count, "Page"@)
    }

    /// The section table.
    pub open spec fn sections(self) -> Result<Seq<Section>, Failure> {
        self.table::<Section>(self.footer.section_offset, self.footer.section_count, "Section"@)
    }

    /// The metadata table.
    pub open spec fn metadata(self) -> Result<Seq<Metadata>, Failure> {
        self.table::<Metadata>(self.footer.meta_offset, self.footer.meta_count, "Metadata"@)
    }

    /// The bytes of an asset.
    pub open spec fn asset_data(self, a: AssetEntry) -> Result<Seq<u8>, Failure> {
        if a.file_offset + a.file_size > u64::MAX {
            Err(Failure::InvalidOffset("Asset offset + size overflow"@))
        } else if a.file_offset + a.file_size > self.data.len() {
            Err(Failure::InvalidOffset("Asset data out of bounds"@))
        } else {
            Ok(asset_data(self.data, a))
        }
    }

    /// The bytes among which the terminator of the string at `offset` is
    /// looked for: up to the end of the pool, and no more than
    /// [`MAX_FORME_SIZE`] of them.
    pub open spec fn string_window(self, offset: u64) -> Seq<u8> {
        let start = self.footer.string_pool_offset + offset;
        let end = self.footer.string_pool_offset + self.footer.string_pool_size;
        let limit = if end - start < MAX_FORME_SIZE {
            end - start
        } else {
            MAX_FORME_SIZE as int
        };
        self.data.subrange(start, start + limit)
    }

    /// The string of the pool at `offset`.
    pub open spec fn string_at(self, offset: u64) -> Result<Seq<char>, Failure> {
        let end = self.footer.string_pool_offset + self.footer.string_pool_size;
        if offset >= self.footer.string_pool_size {
            Err(
                Failure::InvalidOffset(
                    "String offset "@ + decimal(offset as nat) + " out of bounds"@,
                ),
            )
        } else if end > u64::MAX {
            Err(Failure::InvalidOffset("String pool offset + size overflow"@))
        } else if end > self.data.len() {
            Err(Failure::InvalidOffset("String pool out of bounds"@))
        } else {
            let window = self.string_window(offset);
            if !has_zero(window) {
                Err(Failure::InvalidUtf8)
            } else {
                let bytes = window.subrange(0, first_zero(window));
                if valid_utf8(bytes) {
                    Ok(decode_utf8(bytes))
                } else {
                    Err(Failure::InvalidUtf8)
                }
            }
        }
    }

    /// Whether the bytes of an asset are there and hash to what its entry stores.
    pub open spec fn asset_intact(self, a: AssetEntry) -> bool {
        self.asset_data(a) matches Ok(d) && xxh3_128_of(d) == entry_hash(a)
    }

    /// Entry `index` of the asset table.
    pub open spec fn asset_at(self, index: int) -> AssetEntry {
        AssetEntry::from_bytes(
            self.data.subrange(
                self.footer.asset_offset + index * ASSET_ENTRY_SIZE,
                self.footer.asset_offset + (index + 1) * ASSET_ENTRY_SIZE,
            ),
        )
    }

    /// Whether asset `index` is intact. The asset table must lie in the
    /// file and have an entry `index`.
    pub open spec fn verify_asset(self, index: usize) -> Result<bool, Failure> {
        match table_range(
            self.footer.asset_offset,
            self.footer.asset_count,
            ASSET_ENTRY_SIZE as nat,
            self.data.len(),
            "Asset"@,
        ) {
            Err(e) => Err(e),
            Ok(_) => if index >= self.footer.asset_count {
                Err(Failure::InvalidOffset("Asset index "@ + decimal(index as nat)))
            } else {
                match self.asset_data(self.asset_at(index as int)) {
                    Err(e) => Err(e),
                    Ok(d) => Ok(xxh3_128_of(d) == entry_hash(self.asset_at(index as int))),
                }
            },
        }
    }

    /// The index region: from the asset table to the footer.
    pub open spec fn index_region(self) -> Seq<u8> {
        self.data.subrange(self.footer.asset_offset as int, self.header.footer_offset as int)
    }

    /// Whether the index region hashes to what the footer stores.
    pub open spec fn index_intact(self) -> bool {
        xxh3_64_of(self.index_region()) == self.footer.footer_hash
    }

    /// Whether the index region is intact. The region must lie in the file.
    pub open spec fn verify_index(self) -> Result<bool, Failure> {
        if self.footer.asset_offset > self.header.footer_offset || self.header.footer_offset
            > self.data.len() {
            Err(Failure::InvalidOffset("Invalid index region bounds"@))
        } else {
            Ok(self.index_intact())
        }
    }

    /// Whether every asset of the asset table is intact.
    pub open spec fn verify_assets(self) -> Result<bool, Failure> {
        match self.assets() {
            Err(e) => Err(e),
            Ok(assets) => Ok(
                forall|i: int| 0 <= i < assets.len() ==> self.asset_intact(#[trigger] assets[i]),
            ),
        }
    }

    /// Whether the file is intact: the index region first, and only if that
    /// is intact, every asset.
    pub open spec fn verify_integrity(self) -> Result<bool, Failure> {
        match self.verify_index() {
            Err(e) => Err(e),
            Ok(false) => Ok(false),
            Ok(true) => self.verify_assets(),
        }
    }

    /// The texts of the warnings about reserved fields that are not zero.
    pub open spec fn warnings(self) -> Seq<Seq<char>> {
        let w0 = Seq::<Seq<char>>::empty();
        let w1 = if self.header.reserved_extra != 0 {
            w0.push("BBF header has nonzero reserved_extra field"@)
        } else {
            w0
        };
        let w2 = if self.header.reserved@ != crate::bytes::zeros(40) {
            w1.push("BBF header has nonzero reserved fields"@)
        } else {
            w1
        };
        let w3 = if self.footer.flags != 0 {
            w2.push("BBF footer has nonzero flags"@)
        } else {
            w2
        };
        let w4 = if self.footer.padding@ != crate::bytes::zeros(3) {
            w3.push("BBF footer has nonzero padding"@)
        } else {
            w3
        };
        if self.footer.reserved@ != crate::bytes::zeros(144) {
            w4.push("BBF footer has nonzero reserved fields"@)
        } else {
            w4
        }
    }
}

/// Entry `index` of an asset table that lies in the file is what the whole
/// table, decoded, holds at `index`.
pub proof fn lemma_asset_at(file: ReaderView, index: int)
    requires
        file.assets() is Ok,
        0 <= index < file.footer.asset_count,
    ensures
        file.assets()->Ok_0.len() == file.footer.asset_count,
        file.assets()->Ok_0[index] == file.asset_at(index),
{
    let n = ASSET_ENTRY_SIZE as int;
    let off = file.footer.asset_offset as int;
    let count = file.footer.asset_count as nat;
    assert(0 <= index * n && (index + 1) * n <= count * n) by (nonlinear_arith)
        requires
            0 <= index < count,
            n > 0,
    ;
    let table = file.data.subrange(off, off + count * n);
    lemma_decode_table_entry::<AssetEntry>(table, count, index);
    assert(table.subrange(index * n, (index + 1) * n) =~= file.data.subrange(
        off + index * n,
        off + (index + 1) * n,
    ));
}

} // verus!
