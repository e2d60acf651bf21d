//! The reader: checks a file's structure once, then hands out its tables,
//! strings and asset bytes, each after a bounds check.

use vstd::prelude::*;
use vstd::slice::slice_subrange;
use vstd::string::{StringExecFns, StringSliceAdditionalSpecFns};
use crate::bytes::{all_zero, find_zero, lemma_first_zero};
use crate::error::{agrees, BbfError, Failure};
use crate::file::{open_spec, ReaderView};
use crate::hash::{hash128, hash64, lemma_hash_words, lemma_words_hash, split_hash};
use crate::layout::{lemma_decode, lemma_decode_table, read_table, Record, Table};
use crate::model::entry_hash;
use crate::text::{bytes_eq, numbered_text, str_from_utf8};
use crate::types::{
    AssetEntry, BbfFooter, BbfHeader, Metadata, PageEntry, Section, ASSET_ENTRY_SIZE, FOOTER_SIZE,
    HEADER_SIZE, MAGIC, MAX_BALE_SIZE, MAX_FORME_SIZE,
};

verus! {

/// A file that passed the structural checks of [`BbfReader::open`]. It
/// borrows the file's bytes and copies none of them but the header and the
/// footer.
#[derive(Debug)]
pub struct BbfReader<'a> {
    data: &'a [u8],
    header: BbfHeader,
    footer: BbfFooter,
}

impl<'a> View for BbfReader<'a> {
    type V = ReaderView;

    closed spec fn view(&self) -> ReaderView {
        ReaderView { data: self.data@, header: self.header, footer: self.footer }
    }
}

/// An `InvalidOffset` error whose text is `what`, then `rest`.
fn table_error(what: &str, rest: &str) -> (e: BbfError)
    ensures
        e@ == Failure::InvalidOffset(what@ + rest@),
{
    let mut text = what.to_owned();
    text.append(rest);
    BbfError::InvalidOffset { description: text }
}

/// Whether `hash` is the content hash that `asset` stores.
pub fn hash_matches(hash: u128, asset: &AssetEntry) -> (r: bool)
    ensures
        r == (hash == entry_hash(*asset)),
{
    let words = split_hash(hash);
    proof {
        lemma_hash_words(hash);
        lemma_words_hash(asset.asset_hash[0], asset.asset_hash[1]);
    }
    words[0] == asset.asset_hash[0] && words[1] == asset.asset_hash[1]
}

impl<'a> BbfReader<'a> {
    /// Opens a file from its bytes.
    pub fn open(data: &'a [u8]) -> (r: Result<BbfReader<'a>, BbfError>)
        ensures
            agrees(r, open_spec(data@)),
    {
        let len = data.len();
        if len < HEADER_SIZE + FOOTER_SIZE {
            return Err(BbfError::FileTooSmall);
        }
        let header = BbfHeader::read(data, 0);
        proof {
            lemma_decode(header, data@.subrange(0, HEADER_SIZE as int));
        }
        if !bytes_eq(header.magic.as_slice(), MAGIC.as_slice()) {
            return Err(BbfError::InvalidMagic);
        }
        if header.footer_offset > (len - FOOTER_SIZE) as u64 {
            return Err(BbfError::invalid_offset("Footer offset out of bounds"));
        }
        let footer = BbfFooter::read(data, header.footer_offset as usize);
        proof {
            lemma_decode(
                footer,
                data@.subrange(header.footer_offset as int, header.footer_offset + FOOTER_SIZE),
            );
        }
        if footer.asset_offset > len as u64 {
            return Err(BbfError::invalid_offset("Asset table offset out of bounds"));
        }
        let index_size = len as u64 - footer.asset_offset;
        if index_size > MAX_BALE_SIZE {
            return Err(
                BbfError::Other {
                    message: numbered_text("Index region too large: ", index_size, " bytes"),
                },
            );
        }
        Ok(BbfReader { data, header, footer })
    }

    /// The table of `count` records at `offset`, after checking that it
    /// lies in the file. No record is decoded yet.
    fn table_view<R: Record>(&self, offset: u64, count: u64, what: &str) -> (r: Result<
        Table<'a, R>,
        BbfError,
    >)
        ensures
            agrees(r, self@.table::<R>(offset, count, what@)),
    {
        let size = match count.checked_mul(R::size() as u64) {
            Some(size) => size,
            None => {
                return Err(table_error(what, " table size calculation overflow"));
            },
        };
        let end = match offset.checked_add(size) {
            Some(end) => end,
            None => {
                return Err(table_error(what, " table offset + size overflow"));
            },
        };
        if end > self.data.len() as u64 {
            return Err(table_error(what, " table out of bounds"));
        }
        proof {
            assert(count <= count * R::spec_size()) by (nonlinear_arith)
                requires
                    R::spec_size() >= 1,
            ;
        }
        Ok(Table::new(slice_subrange(self.data, offset as usize, end as usize), count as usize))
    }

    /// The asset table, as a view into the file.
    pub fn asset_table(&self) -> (r: Result<Table<'a, AssetEntry>, BbfError>)
        ensures
            agrees(r, self@.assets()),
    {
        self.table_view::<AssetEntry>(self.footer.asset_offset, self.footer.asset_count, "Asset")
    }

    /// The page table, as a view into the file.
    pub fn page_table(&self) -> (r: Result<Table<'a, PageEntry>, BbfError>)
        ensures
            agrees(r, self@.pages()),
    {
        self.table_view::<PageEntry>(self.footer.page_offset, self.footer.page_count, "Page")
    }

    /// The section table, as a view into the file.
    pub fn section_table(&self) -> (r: Result<Table<'a, Section>, BbfError>)
        ensures
            agrees(r, self@.sections()),
    {
        self.table_view::<Section>(
            self.footer.section_offset,
            self.footer.section_count,
            "Section",
        )
    }

    /// The metadata table, as a view into the file.
    pub fn metadata_table(&self) -> (r: Result<Table<'a, Metadata>, BbfError>)
        ensures
            agrees(r, self@.metadata()),
    {
        self.table_view::<Metadata>(self.footer.meta_offset, self.footer.meta_count, "Metadata")
    }

    /// The asset table.
    pub fn assets(&self) -> (r: Result<Vec<AssetEntry>, BbfError>)
        ensures
            agrees(r, self@.assets()),
    {
        match self.asset_table() {
            Ok(table) => Ok(table.to_vec()),
            Err(e) => Err(e),
        }
    }

    /// The page table.
    pub fn pages(&self) -> (r: Result<Vec<PageEntry>, BbfError>)
        ensures
            agrees(r, self@.pages()),
    {
        match self.page_table() {
            Ok(table) => Ok(table.to_vec()),
            Err(e) => Err(e),
        }
    }

    /// The section table.
    pub fn sections(&self) -> (r: Result<Vec<Section>, BbfError>)
        ensures
            agrees(r, self@.sections()),
    {
        match self.section_table() {
            Ok(table) => Ok(table.to_vec()),
            Err(e) => Err(e),
        }
    }

    /// The metadata table.
    pub fn metadata(&self) -> (r: Result<Vec<Metadata>, BbfError>)
        ensures
            agrees(r, self@.metadata()),
    {
        match self.metadata_table() {
            Ok(table) => Ok(table.to_vec()),
            Err(e) => Err(e),
        }
    }

    /// The bytes of an asset, borrowed from the file.
    pub fn get_asset_data(&self, asset: &AssetEntry) -> (r: Result<&'a [u8], BbfError>)
        ensures
            agrees(r, self@.asset_data(*asset)),
    {
        let end = match asset.file_offset.checked_add(asset.file_size) {
            Some(end) => end,
            None => {
                return Err(BbfError::invalid_offset("Asset offset + size overflow"));
            },
        };
        if end > self.data.len() as u64 {
            return Err(BbfError::invalid_offset("Asset data out of bounds"));
        }
        Ok(slice_subrange(self.data, asset.file_offset as usize, end as usize))
    }

    /// The string of the pool at `offset`, borrowed from the file.
    pub fn get_string(&self, offset: u64) -> (r: Result<&'a str, BbfError>)
        ensures
            agrees(r, self@.string_at(offset)),
    {
        let pool_start = self.footer.string_pool_offset;
        let pool_size = self.footer.string_pool_size;
        if offset >= pool_size {
            return Err(
                BbfError::InvalidOffset {
                    description: numbered_text("String offset ", offset, " out of bounds"),
                },
            );
        }
        let pool_end = match pool_start.checked_add(pool_size) {
            Some(end) => end,
            None => {
                return Err(BbfError::invalid_offset("String pool offset + size overflow"));
            },
        };
        if pool_end > self.data.len() as u64 {
            return Err(BbfError::invalid_offset("String pool out of bounds"));
        }
        let start = (pool_start + offset) as usize;
        let room = pool_end - (pool_start + offset);
        let scan_limit = if room < MAX_FORME_SIZE {
            room
        } else {
            MAX_FORME_SIZE
        };
        let stop = start + scan_limit as usize;
        let ghost window = self@.string_window(offset);
        assert(window == self.data@.subrange(start as int, stop as int));
        let str_end = match find_zero(self.data, start, stop) {
            Some(i) => i,
            None => {
                return Err(BbfError::InvalidUtf8);
            },
        };
        proof {
            lemma_first_zero(window, str_end - start);
            assert(window.subrange(0, str_end - start) =~= self.data@.subrange(
                start as int,
                str_end as int,
            ));
        }
        match str_from_utf8(slice_subrange(self.data, start, str_end)) {
            Some(s) => {
                proof {
                    vstd::utf8::encode_utf8_decode_utf8(s@);
                }
                Ok(s)
            },
            None => Err(BbfError::InvalidUtf8),
        }
    }

    /// Whether the bytes of `asset` are in the file and hash to what the
    /// entry stores.
    pub fn check_asset(&self, asset: &AssetEntry) -> (r: bool)
        ensures
            r == self@.asset_intact(*asset),
    {
        match self.get_asset_data(asset) {
            Ok(data) => hash_matches(hash128(data), asset),
            Err(_) => false,
        }
    }

    /// Checks one asset: whether its bytes hash to what its entry stores.
    pub fn verify_asset(&self, index: usize) -> (r: Result<bool, BbfError>)
        ensures
            agrees(r, self@.verify_asset(index)),
    {
        let table = match self.asset_table() {
            Ok(table) => table,
            Err(e) => {
                return Err(e);
            },
        };
        proof {
            crate::layout::lemma_decode_table_len::<AssetEntry>(
                self@.data.subrange(
                    self@.footer.asset_offset as int,
                    self@.footer.asset_offset + self@.footer.asset_count * ASSET_ENTRY_SIZE,
                ),
                self@.footer.asset_count as nat,
            );
        }
        let asset = match table.get(index) {
            Some(asset) => asset,
            None => {
                let text = numbered_text("Asset index ", index as u64, "");
                proof {
                    reveal_strlit("");
                    assert(text@ =~= "Asset index "@ + crate::text::decimal(index as nat));
                }
                return Err(BbfError::InvalidOffset { description: text });
            },
        };
        proof {
            crate::file::lemma_asset_at(self@, index as int);
        }
        match self.get_asset_data(&asset) {
            Ok(data) => Ok(hash_matches(hash128(data), &asset)),
            Err(e) => Err(e),
        }
    }

    /// Checks the index region: whether it hashes to what the footer stores.
    pub fn verify_index(&self) -> (r: Result<bool, BbfError>)
        ensures
            agrees(r, self@.verify_index()),
    {
        let meta_start = self.footer.asset_offset;
        let footer_start = self.header.footer_offset;
        if meta_start > footer_start || footer_start > self.data.len() as u64 {
            return Err(BbfError::invalid_offset("Invalid index region bounds"));
        }
        let calc_hash = hash64(
            slice_subrange(self.data, meta_start as usize, footer_start as usize),
        );
        Ok(calc_hash == self.footer.footer_hash)
    }

    /// Checks every asset of the asset table, one after the other.
    #[verifier::loop_isolation(false)]
    pub fn verify_assets(&self) -> (r: Result<bool, BbfError>)
        ensures
            agrees(r, self@.verify_assets()),
    {
        let assets = match self.assets() {
            Ok(assets) => assets,
            Err(e) => {
                return Err(e);
            },
        };
        let mut i: usize = 0;
        while i < assets.len()
            invariant
                i <= assets.len(),
                forall|j: int| 0 <= j < i ==> self@.asset_intact(#[trigger] assets@[j]),
            decreases assets.len() - i,
        {
            if !self.check_asset(&assets[i]) {
                assert(!self@.asset_intact(assets@[i as int]));
                return Ok(false);
            }
            i = i + 1;
        }
        Ok(true)
    }

    /// Checks the whole file: the hash of the index region first, and if
    /// that matches, the hash of every asset.
    pub fn verify_integrity(&self) -> (r: Result<bool, BbfError>)
        ensures
            agrees(r, self@.verify_integrity()),
    {
        match self.verify_index() {
            Err(e) => Err(e),
            Ok(false) => Ok(false),
            Ok(true) => self.verify_assets(),
        }
    }

    /// The warnings about reserved fields that are not zero. A file with
    /// such fields opens all the same.
    pub fn warnings(&self) -> (r: Vec<BbfError>)
        ensures
            r@.len() == self@.warnings().len(),
            forall|i: int|
                0 <= i < r@.len() ==> (#[trigger] r@[i])@ == Failure::ReservedFieldNonZero(
                    self@.warnings()[i],
                ),
    {
        let mut r: Vec<BbfError> = Vec::new();
        if self.header.reserved_extra != 0 {
            r.push(BbfError::reserved_field("BBF header has nonzero reserved_extra field"));
        }
        if !all_zero(self.header.reserved.as_slice()) {
            r.push(BbfError::reserved_field("BBF header has nonzero reserved fields"));
        }
        if self.footer.flags != 0 {
            r.push(BbfError::reserved_field("BBF footer has nonzero flags"));
        }
        if !all_zero(self.footer.padding.as_slice()) {
            r.push(BbfError::reserved_field("BBF footer has nonzero padding"));
        }
        if !all_zero(self.footer.reserved.as_slice()) {
            r.push(BbfError::reserved_field("BBF footer has nonzero reserved fields"));
        }
        r
    }

    /// The format version that the header states.
    pub fn version(&self) -> (v: u16)
        ensures
            v == self@.header.version,
    {
        self.header.version
    }

    /// The number of pages that the footer states.
    pub fn page_count(&self) -> (n: u64)
        ensures
            n == self@.footer.page_count,
    {
        self.footer.page_count
    }

    /// The number of assets that the footer states.
    pub fn asset_count(&self) -> (n: u64)
        ensures
            n == self@.footer.asset_count,
    {
        self.footer.asset_count
    }

    /// The header.
    pub fn header(&self) -> (h: &BbfHeader)
        ensures
            *h == self@.header,
    {
        &self.header
    }

    /// The footer.
    pub fn footer(&self) -> (f: &BbfFooter)
        ensures
            *f == self@.footer,
    {
        &self.footer
    }
}

} // verus!
