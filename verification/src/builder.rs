//! The writer: collects pages, sections and metadata, and turns them into
//! the bytes of a file.

use vstd::prelude::*;
use vstd::slice::slice_subrange;
use crate::bytes::{put_bytes, put_zeros, zeros};
use crate::error::{agrees, BbfError, Failure};
use crate::hash::{hash128, hash64, split_hash, xxh3_128_of, xxh3_64_of};
use crate::index::{asset_index_entries, string_index_entries, AssetIndex, StringIndex};
use crate::layout::{lemma_table_len, write_table, Record};
use crate::model::{entry_hash, placeholder_header, zero_array, BuilderState};
use crate::model_proofs::{
    lemma_add_metadata_valid, lemma_add_page_valid, lemma_add_section_valid, lemma_alignment_bounds,
    lemma_initial_valid, lemma_intern_valid,
};
use crate::types::{
    AssetEntry, BbfFooter, BbfHeader, MediaType, Metadata, PageEntry, Section, ASSET_ENTRY_SIZE,
    BBF_VARIABLE_REAM_SIZE_FLAG, DEFAULT_GUARD_ALIGNMENT, DEFAULT_SMALL_REAM_THRESHOLD, FOOTER_SIZE,
    HEADER_SIZE, MAGIC, METADATA_SIZE, NO_PARENT, PAGE_ENTRY_SIZE, SECTION_SIZE, VERSION,
};

verus! {

/// The characters of an optional string.
pub open spec fn opt_view(s: Option<&str>) -> Option<Seq<char>> {
    match s {
        Some(s) => Some(s@),
        None => None,
    }
}

/// The error of a file that would grow beyond what a 64-bit offset reaches.
fn file_too_long() -> (e: BbfError)
    ensures
        e@ == Failure::IntegerOverflow("File offset"@),
{
    BbfError::IntegerOverflow { description: "File offset".to_owned() }
}

/// Where a table of `count` records of `size` bytes ends that starts at
/// `offset`, if a 64-bit offset reaches that far.
fn table_end(offset: u64, count: usize, size: usize) -> (r: Option<u64>)
    ensures
        r == (if offset + count * size <= u64::MAX {
            Some((offset + count * size) as u64)
        } else {
            None
        }),
{
    proof {
        assert(0 <= count * size) by (nonlinear_arith);
    }
    match (count as u64).checked_mul(size as u64) {
        Some(bytes) => offset.checked_add(bytes),
        None => None,
    }
}

/// Whether an operation that may refuse did what was expected: on success
/// the builder is in the new state, on refusal it is in the state it was
/// in, and the error is the expected one.
pub open spec fn agrees_unit(
    r: Result<(), BbfError>,
    after: BbfBuilder,
    expected: Result<BuilderState, Failure>,
    before: BuilderState,
) -> bool {
    match (r, expected) {
        (Ok(_), Ok(state)) => after@ == state,
        (Err(e), Err(f)) => e@ == f && after@ == before,
        _ => false,
    }
}

/// Builds a file: the asset bytes as they are added, the tables and the
/// string pool beside them, all of it joined by `finalize`.
///
/// The bytes of the file gather in the builder. A caller who writes the
/// file while the book grows takes them out with `take_written` whenever it
/// likes and ends with `finalize_streamed`; a caller who wants the whole
/// file at once only calls `finalize`.
pub struct BbfBuilder {
    /// The bytes written that the builder still holds.
    out: Vec<u8>,
    /// How many bytes were taken out.
    taken: u64,
    /// All bytes written so far, taken out or not.
    written: Ghost<Seq<u8>>,
    assets: Vec<AssetEntry>,
    pages: Vec<PageEntry>,
    sections: Vec<Section>,
    metadata: Vec<Metadata>,
    string_pool: Vec<u8>,
    dedupe_map: AssetIndex,
    string_map: StringIndex,
    guard_value: u8,
    ream_value: u8,
    header_flags: u32,
}

impl View for BbfBuilder {
    type V = BuilderState;

    closed spec fn view(&self) -> BuilderState {
        BuilderState {
            data: self.written@,
            assets: self.assets@,
            pages: self.pages@,
            sections: self.sections@,
            metadata: self.metadata@,
            string_pool: self.string_pool@,
            strings: string_index_entries(self.string_map),
            alignment: self.guard_value,
            ream_size: self.ream_value,
            flags: self.header_flags,
        }
    }
}

impl BbfBuilder {
    /// Whether the builder is in a state that its operations keep: the book
    /// is valid, and the hash index lists exactly the assets of the book.
    pub closed spec fn wf(&self) -> bool {
        &&& self@.valid()
        &&& self.taken + self.out@.len() == self.written@.len()
        &&& self.taken == 0 || self.taken >= HEADER_SIZE
        &&& self.out@ == self.written@.subrange(self.taken as int, self.written@.len() as int)
        &&& forall|h: u128| #[trigger]
            asset_index_entries(self.dedupe_map).contains_key(h) ==> {
                let i = asset_index_entries(self.dedupe_map)[h];
                i < self.assets@.len() && entry_hash(self.assets@[i as int]) == h
            }
        &&& forall|i: int|
            0 <= i < self.assets@.len() ==> asset_index_entries(self.dedupe_map).contains_key(
                entry_hash(#[trigger] self.assets@[i]),
            )
    }

    /// How many bytes were taken out of the builder.
    pub closed spec fn taken_len(&self) -> nat {
        self.taken as nat
    }

    /// The bytes that the builder still holds: all that was written from
    /// `taken_len` on.
    pub closed spec fn pending(&self) -> Seq<u8> {
        self.out@
    }

    /// The book of a well-formed builder is valid.
    pub proof fn lemma_valid(&self)
        requires
            self.wf(),
        ensures
            self@.valid(),
    {
    }

    /// In a well-formed builder, the pending bytes are the end of what was written.
    pub proof fn lemma_pending(&self)
        requires
            self.wf(),
        ensures
            self.taken_len() + self.pending().len() == self@.data.len(),
            self.taken_len() == 0 || self.taken_len() >= HEADER_SIZE,
            self.pending() == self@.data.subrange(
                self.taken_len() as int,
                self@.data.len() as int,
            ),
    {
    }

    /// Starts a book. `alignment` and `ream_size` are exponents of two, at
    /// most 16 each.
    pub fn new(alignment: u8, ream_size: u8, flags: u32) -> (r: Result<BbfBuilder, BbfError>)
        ensures
            agrees(r, BuilderState::create(alignment, ream_size, flags)),
            r matches Ok(b) ==> b.wf() && b.taken_len() == 0,
    {
        if alignment > 16 {
            return Err(BbfError::AlignmentTooLarge { exponent: alignment });
        }
        if ream_size > 16 {
            return Err(BbfError::other("Ream size exponent must not exceed 16 (64KB)"));
        }
        let header = BbfHeader {
            magic: MAGIC,
            version: VERSION,
            header_len: HEADER_SIZE as u16,
            flags: 0,
            alignment: 0,
            ream_size: 0,
            reserved_extra: 0,
            footer_offset: 0,
            reserved: [0u8; 40],
        };
        let mut out: Vec<u8> = Vec::new();
        header.write(&mut out);
        let ghost written = out@;
        let b = BbfBuilder {
            out,
            taken: 0,
            written: Ghost(written),
            assets: Vec::new(),
            pages: Vec::new(),
            sections: Vec::new(),
            metadata: Vec::new(),
            string_pool: Vec::new(),
            dedupe_map: AssetIndex::new(),
            string_map: StringIndex::new(),
            guard_value: alignment,
            ream_value: ream_size,
            header_flags: flags,
        };
        proof {
            assert(header.reserved =~= zero_array::<40>());
            assert(header == placeholder_header());
            assert(b.out@ =~= header.to_bytes());
            assert(b.out@ =~= b.written@.subrange(0, b.written@.len() as int));
            lemma_initial_valid(alignment, ream_size, flags);
            assert(b@ == BuilderState::initial(alignment, ream_size, flags));
        }
        Ok(b)
    }

    /// Starts a book with 4096-byte alignment, a 65536-byte threshold, and
    /// small assets packed.
    pub fn with_defaults() -> (r: Result<BbfBuilder, BbfError>)
        ensures
            (r matches Ok(b) && b.wf() && b.taken_len() == 0 && b@ == BuilderState::initial(
                DEFAULT_GUARD_ALIGNMENT,
                DEFAULT_SMALL_REAM_THRESHOLD,
                BBF_VARIABLE_REAM_SIZE_FLAG,
            )),
    {
        BbfBuilder::new(
            DEFAULT_GUARD_ALIGNMENT,
            DEFAULT_SMALL_REAM_THRESHOLD,
            BBF_VARIABLE_REAM_SIZE_FLAG,
        )
    }

    /// The 128-bit content hash of `data`.
    pub fn calculate_hash_128(data: &[u8]) -> (h: u128)
        ensures
            h == xxh3_128_of(data@),
    {
        hash128(data)
    }

    /// The 64-bit hash of `data`, as used for the index region.
    pub fn calculate_hash_64(data: &[u8]) -> (h: u64)
        ensures
            h == xxh3_64_of(data@),
    {
        hash64(data)
    }

    /// Hands out the bytes written since the last call, the placeholder
    /// header among them the first time. What is handed out is appended to
    /// the file by the caller, in the order in which it is handed out.
    pub fn take_written(&mut self) -> (r: Vec<u8>)
        requires
            old(self).wf(),
        ensures
            final(self).wf(),
            final(self)@ == old(self)@,
            r@ == old(self).pending(),
            final(self).pending() == Seq::<u8>::empty(),
            final(self).taken_len() == old(self).taken_len() + r@.len(),
    {
        let mut r: Vec<u8> = Vec::new();
        core::mem::swap(&mut r, &mut self.out);
        proof {
            assert(r.len() == r@.len());
        }
        self.taken = self.taken + r.len() as u64;
        proof {
            assert(self.out@ =~= self.written@.subrange(
                self.taken as int,
                self.written@.len() as int,
            ));
        }
        r
    }

    /// Adds a page whose content is `data` and whose file name ends in
    /// `extension`, from which the media type is taken. Fails, and changes
    /// nothing, where the file would grow beyond what a 64-bit offset reaches.
    pub fn add_page(
        &mut self,
        data: &[u8],
        extension: &str,
        page_flags: u32,
        asset_flags: u32,
    ) -> (r:
        Result<(), BbfError>)
        requires
            old(self).wf(),
        ensures
            final(self).wf(),
            final(self).taken_len() == old(self).taken_len(),
            agrees_unit(
                r,
                *final(self),
                old(self)@.try_add_page(
                    data@,
                    xxh3_128_of(data@),
                    MediaType::of_extension(extension@),
                    page_flags,
                    asset_flags,
                ),
                old(self)@,
            ),
            old(self)@.hashed() ==> final(self)@.hashed(),
    {
        let hash = BbfBuilder::calculate_hash_128(data);
        let media_type = MediaType::from_extension(extension);
        self.add_page_with(data, hash, media_type, page_flags, asset_flags)
    }

    /// Adds a page whose content is `data`, with `hash` taken as the
    /// content's hash. If an asset with that hash exists, nothing is written
    /// and the page points at it. Otherwise the content is written after its
    /// padding and gets a new asset entry.
    pub fn add_page_with(
        &mut self,
        data: &[u8],
        hash: u128,
        media_type: MediaType,
        page_flags: u32,
        asset_flags: u32,
    ) -> (r: Result<(), BbfError>)
        requires
            old(self).wf(),
        ensures
            final(self).wf(),
            final(self).taken_len() == old(self).taken_len(),
            agrees_unit(
                r,
                *final(self),
                old(self)@.try_add_page(data@, hash, media_type, page_flags, asset_flags),
                old(self)@,
            ),
            old(self)@.hashed() && hash == xxh3_128_of(data@) ==> final(self)@.hashed(),
    {
        let ghost s0 = self@;
        let ghost t = s0.add_page(data@, hash, media_type, page_flags, asset_flags);
        proof {
            assert(data.len() == data@.len());
            assert(self.out.len() == self.out@.len());
        }
        let found = self.dedupe_map.get(hash);
        let asset_index = match found {
            Some(idx) => {
                proof {
                    assert(s0.has_asset(hash)) by {
                        assert(entry_hash(s0.assets[idx as int]) == hash);
                    }
                    let i = s0.asset_of(hash);
                    if i != idx {
                        assert(entry_hash(s0.assets[i]) == entry_hash(s0.assets[idx as int]));
                    }
                }
                idx
            },
            None => {
                proof {
                    if s0.has_asset(hash) {
                        let i = s0.asset_of(hash);
                        assert(asset_index_entries(self.dedupe_map).contains_key(
                            entry_hash(s0.assets[i]),
                        ));
                    }
                    lemma_alignment_bounds(
                        self.header_flags,
                        self.guard_value,
                        self.ream_value,
                        data@.len(),
                    );
                    lemma_alignment_bounds(self.header_flags, self.ream_value, 0, 0);
                    crate::model_proofs::lemma_padding_aligns(
                        s0.data.len(),
                        s0.alignment_of(data@.len()),
                    );
                }
                let alignment_bytes: u64 = 1u64 << self.guard_value;
                let threshold_bytes: u64 = 1u64 << self.ream_value;
                let variable_align = self.header_flags & BBF_VARIABLE_REAM_SIZE_FLAG != 0;
                let actual_alignment: u64 = if variable_align && (data.len() as u64)
                    < threshold_bytes {
                    8
                } else {
                    alignment_bytes
                };
                let current_offset: u64 = self.taken + self.out.len() as u64;
                let remainder = current_offset % actual_alignment;
                let padding: u64 = if remainder == 0 {
                    0
                } else {
                    actual_alignment - remainder
                };
                let start = match current_offset.checked_add(padding) {
                    Some(start) => start,
                    None => {
                        return Err(file_too_long());
                    },
                };
                if start.checked_add(data.len() as u64).is_none() {
                    return Err(file_too_long());
                }
                put_zeros(&mut self.out, padding as usize);
                let asset = AssetEntry {
                    file_offset: start,
                    asset_hash: split_hash(hash),
                    file_size: data.len() as u64,
                    flags: asset_flags,
                    reserved_value: 0,
                    media_type: media_type.as_u8(),
                    reserved: [0u8; 9],
                };
                put_bytes(&mut self.out, data);
                let idx = self.assets.len() as u64;
                self.assets.push(asset);
                self.dedupe_map.insert(hash, idx);
                proof {
                    let pad = s0.padding(data@.len());
                    self.written@ = s0.data + zeros(pad) + data@;
                    let e = crate::model::asset_entry(
                        (s0.data.len() + pad) as u64,
                        hash,
                        data@.len() as u64,
                        asset_flags,
                        media_type.tag(),
                    );
                    assert(asset.reserved =~= e.reserved);
                    assert(asset.asset_hash =~= e.asset_hash);
                    assert(asset == e);
                    assert(self.out@ =~= self.written@.subrange(
                        self.taken as int,
                        self.written@.len() as int,
                    ));
                }
                idx
            },
        };
        let page = PageEntry { asset_index, flags: page_flags, reserved: [0u8; 4] };
        self.pages.push(page);
        proof {
            assert(page.reserved =~= crate::model::page_entry(asset_index, page_flags).reserved);
            assert(page == crate::model::page_entry(asset_index, page_flags));
            assert(self@.data == t.data);
            assert(self@.assets =~= t.assets);
            assert(self@.pages =~= t.pages);
            assert(self@ == t);
            assert(self.assets.len() == self.assets@.len());
            lemma_add_page_valid(s0, data@, hash, media_type, page_flags, asset_flags);
            assert forall|h: u128| #[trigger]
                asset_index_entries(self.dedupe_map).contains_key(h) implies {
                let i = asset_index_entries(self.dedupe_map)[h];
                i < self.assets@.len() && entry_hash(self.assets@[i as int]) == h
            } by {
                if found is None && h == hash {
                    crate::hash::lemma_hash_words(hash);
                } else {
                    assert(asset_index_entries(old(self).dedupe_map).contains_key(h));
                }
            }
            assert forall|i: int| 0 <= i < self.assets@.len() implies asset_index_entries(
                self.dedupe_map,
            ).contains_key(entry_hash(#[trigger] self.assets@[i])) by {
                if i < s0.assets.len() {
                    assert(self.assets@[i] == s0.assets[i]);
                    assert(asset_index_entries(old(self).dedupe_map).contains_key(
                        entry_hash(s0.assets[i]),
                    ));
                } else {
                    crate::hash::lemma_hash_words(hash);
                }
            }
        }
        Ok(())
    }

    /// Interns `s`: returns the offset of `s` in the string pool, after
    /// appending it with its terminator if the pool did not hold it.
    pub fn get_or_add_string(&mut self, s: &str) -> (offset: u64)
        requires
            old(self).wf(),
        ensures
            final(self).wf(),
            final(self).taken_len() == old(self).taken_len(),
            final(self)@ == old(self)@.intern(s@),
            final(self)@.strings.contains_key(s@),
            offset == final(self)@.strings[s@],
            old(self)@.hashed() ==> final(self)@.hashed(),
    {
        let ghost s0 = self@;
        if let Some(offset) = self.string_map.get(s) {
            proof {
                lemma_intern_valid(s0, s@);
            }
            return offset;
        }
        let offset = self.string_pool.len() as u64;
        put_bytes(&mut self.string_pool, s.as_bytes());
        self.string_pool.push(0u8);
        self.string_map.insert(s.to_owned(), offset);
        proof {
            let t = s0.intern(s@);
            assert(self@.string_pool =~= t.string_pool);
            assert(self@.strings =~= t.strings);
            assert(self@ == t);
            assert(self.string_pool.len() == self.string_pool@.len());
            lemma_intern_valid(s0, s@);
        }
        offset
    }

    /// Interns an optional string; none gives [`NO_PARENT`].
    fn get_or_add_parent(&mut self, parent: Option<&str>) -> (offset: u64)
        requires
            old(self).wf(),
        ensures
            final(self).wf(),
            final(self).taken_len() == old(self).taken_len(),
            final(self)@ == old(self)@.intern_opt(opt_view(parent)),
            offset == final(self)@.offset_opt(opt_view(parent)),
            old(self)@.hashed() ==> final(self)@.hashed(),
    {
        match parent {
            Some(p) => self.get_or_add_string(p),
            None => NO_PARENT,
        }
    }

    /// Adds a section that starts at page `start_index`. Whether such a page
    /// exists is not checked: pages may still be added.
    pub fn add_section(&mut self, title: &str, start_index: u64, parent: Option<&str>)
        requires
            old(self).wf(),
        ensures
            final(self).wf(),
            final(self).taken_len() == old(self).taken_len(),
            final(self)@ == old(self)@.add_section(title@, start_index, opt_view(parent)),
            old(self)@.hashed() ==> final(self)@.hashed(),
    {
        let ghost s0 = self@;
        let title_offset = self.get_or_add_string(title);
        let ghost s1 = self@;
        let parent_offset = self.get_or_add_parent(parent);
        let ghost s2 = self@;
        let section = Section {
            section_title_offset: title_offset,
            section_start_index: start_index,
            section_parent_offset: parent_offset,
            reserved: [0u8; 8],
        };
        self.sections.push(section);
        proof {
            let t = s0.add_section(title@, start_index, opt_view(parent));
            crate::model_proofs::lemma_intern_opt_valid(s1, opt_view(parent));
            let e = crate::model::section_entry(title_offset, start_index, parent_offset);
            assert(section.reserved =~= e.reserved);
            assert(section == e);
            assert(self@.sections =~= t.sections);
            assert(self@ == t);
            lemma_add_section_valid(s0, title@, start_index, opt_view(parent));
        }
    }

    /// Adds a key/value pair, global or owned by the section `parent`.
    pub fn add_metadata(&mut self, key: &str, val: &str, parent: Option<&str>)
        requires
            old(self).wf(),
        ensures
            final(self).wf(),
            final(self).taken_len() == old(self).taken_len(),
            final(self)@ == old(self)@.add_metadata(key@, val@, opt_view(parent)),
            old(self)@.hashed() ==> final(self)@.hashed(),
    {
        let ghost s0 = self@;
        let key_offset = self.get_or_add_string(key);
        let ghost s1 = self@;
        let value_offset = self.get_or_add_string(val);
        let ghost s2 = self@;
        let parent_offset = self.get_or_add_parent(parent);
        let record = Metadata { key_offset, value_offset, parent_offset, reserved: [0u8; 8] };
        self.metadata.push(record);
        proof {
            let t = s0.add_metadata(key@, val@, opt_view(parent));
            lemma_intern_valid(s1, val@);
            crate::model_proofs::lemma_intern_opt_valid(s2, opt_view(parent));
            let e = crate::model::metadata_entry(key_offset, value_offset, parent_offset);
            assert(record.reserved =~= e.reserved);
            assert(record == e);
            assert(self@.metadata =~= t.metadata);
            assert(self@ == t);
            lemma_add_metadata_valid(s0, key@, val@, opt_view(parent));
        }
    }

    /// Appends the tables, the string pool and the footer to the pending
    /// bytes and returns them with the final header, or fails where the
    /// file would grow beyond what a 64-bit offset reaches.
    fn finish(self) -> (r: Result<(BbfHeader, Vec<u8>), BbfError>)
        requires
            self.wf(),
        ensures
            self@.image_len() <= u64::MAX ==> (r matches Ok(p) && p.0 == self@.final_header()
                && p.1@ == self.pending() + self@.index_region() + self@.footer().to_bytes()),
            self@.image_len() > u64::MAX ==> (r matches Err(e) && e@ == Failure::IntegerOverflow(
                "File offset"@,
            )),
    {
        let ghost s = self@;
        let header_flags = self.header_flags;
        let guard_value = self.guard_value;
        let ream_value = self.ream_value;
        let mut out = self.out;
        proof {
            lemma_table_len(s.assets);
            lemma_table_len(s.pages);
            lemma_table_len(s.sections);
            lemma_table_len(s.metadata);
            assert(out.len() == out@.len());
        }
        let offset_assets: u64 = self.taken + out.len() as u64;
        let offset_pages = match table_end(offset_assets, self.assets.len(), ASSET_ENTRY_SIZE) {
            Some(end) => end,
            None => {
                return Err(file_too_long());
            },
        };
        let offset_sections = match table_end(offset_pages, self.pages.len(), PAGE_ENTRY_SIZE) {
            Some(end) => end,
            None => {
                return Err(file_too_long());
            },
        };
        let offset_meta = match table_end(offset_sections, self.sections.len(), SECTION_SIZE) {
            Some(end) => end,
            None => {
                return Err(file_too_long());
            },
        };
        let offset_strings = match table_end(offset_meta, self.metadata.len(), METADATA_SIZE) {
            Some(end) => end,
            None => {
                return Err(file_too_long());
            },
        };
        let footer_offset = match offset_strings.checked_add(self.string_pool.len() as u64) {
            Some(end) => end,
            None => {
                return Err(file_too_long());
            },
        };
        if footer_offset.checked_add(FOOTER_SIZE as u64).is_none() {
            return Err(file_too_long());
        }
        let index_start = out.len();
        write_table(&self.assets, &mut out);
        write_table(&self.pages, &mut out);
        write_table(&self.sections, &mut out);
        write_table(&self.metadata, &mut out);
        put_bytes(&mut out, self.string_pool.as_slice());
        let index_end = out.len();
        assert(out@ =~= self.pending() + s.index_region());
        let index_hash = hash64(slice_subrange(out.as_slice(), index_start, index_end));
        assert(out@.subrange(index_start as int, index_end as int) =~= s.index_region());
        let footer = BbfFooter {
            asset_offset: offset_assets,
            page_offset: offset_pages,
            section_offset: offset_sections,
            meta_offset: offset_meta,
            expansion_offset: 0,
            string_pool_offset: offset_strings,
            string_pool_size: self.string_pool.len() as u64,
            asset_count: self.assets.len() as u64,
            page_count: self.pages.len() as u64,
            section_count: self.sections.len() as u64,
            meta_count: self.metadata.len() as u64,
            expansion_count: 0,
            flags: 0,
            footer_len: 0,
            padding: [0u8; 3],
            footer_hash: index_hash,
            reserved: [0u8; 144],
        };
        footer.write(&mut out);
        let header = BbfHeader {
            magic: MAGIC,
            version: VERSION,
            header_len: HEADER_SIZE as u16,
            flags: header_flags,
            alignment: guard_value,
            ream_size: ream_value,
            reserved_extra: 0,
            footer_offset,
            reserved: [0u8; 40],
        };
        proof {
            assert(footer.padding =~= s.footer().padding);
            assert(footer.reserved =~= s.footer().reserved);
            assert(footer == s.footer());
            assert(header.reserved =~= s.final_header().reserved);
            assert(header == s.final_header());
        }
        Ok((header, out))
    }

    /// Ends the book and returns the bytes of the file: the header with its
    /// final values, the assets as they were written, the four tables and
    /// the string pool, and the footer with the hash of tables and pool.
    /// This is for a book of which nothing was taken out before.
    pub fn finalize(self) -> (r: Result<Vec<u8>, BbfError>)
        requires
            self.wf(),
        ensures
            agrees(r, self@.finished(self.taken_len())),
    {
        if self.taken > 0 {
            return Err(BbfError::other("Part of the file was taken out before it was finished"));
        }
        let ghost s = self@;
        proof {
            self.lemma_pending();
        }
        let (header, mut out) = match self.finish() {
            Ok(p) => p,
            Err(e) => {
                return Err(e);
            },
        };
        proof {
            header.lemma_size();
            s.footer().lemma_size();
            assert(s.data.subrange(0, s.data.len() as int) =~= s.data);
        }
        let mut head: Vec<u8> = Vec::new();
        header.write(&mut head);
        let ghost written = out@;
        let mut i: usize = 0;
        while i < HEADER_SIZE
            invariant
                i <= HEADER_SIZE,
                head@ == s.final_header().to_bytes(),
                head@.len() == HEADER_SIZE,
                out@.len() == written.len(),
                written == s.data + s.index_region() + s.footer().to_bytes(),
                s.data.len() >= HEADER_SIZE,
                forall|j: int| 0 <= j < i ==> out@[j] == head@[j],
                forall|j: int| i <= j < out@.len() ==> out@[j] == written[j],
            decreases HEADER_SIZE - i,
        {
            out[i] = head[i];
            i = i + 1;
        }
        proof {
            let tail = s.data.subrange(HEADER_SIZE as int, s.data.len() as int);
            let rest = tail + s.index_region() + s.footer().to_bytes();
            assert(s.data =~= s.data.subrange(0, HEADER_SIZE as int) + tail);
            assert(written =~= s.data.subrange(0, HEADER_SIZE as int) + rest);
            assert(out@.len() == (head@ + rest).len());
            assert forall|j: int| 0 <= j < out@.len() implies out@[j] == (head@ + rest)[j] by {
                if j >= HEADER_SIZE {
                    assert(out@[j] == written[j]);
                    assert(written[j] == rest[j - HEADER_SIZE]);
                } else {
                    assert(out@[j] == head@[j]);
                }
            }
            assert(out@ =~= head@ + rest);
            assert(s.image() =~= head@ + rest);
        }
        Ok(out)
    }

    /// Ends a book that is written while it grows. Returns the final
    /// header, to be written over the placeholder at the start of the file,
    /// and the rest of the file after all that was taken out; where nothing
    /// was taken out, the rest starts after the header.
    pub fn finalize_streamed(self) -> (r: Result<(Vec<u8>, Vec<u8>), BbfError>)
        requires
            self.wf(),
        ensures
            self@.image_len() <= u64::MAX ==> (r matches Ok(p) && p.0@
                == self@.final_header().to_bytes() && p.1@ == self@.image().subrange(
                self@.rest_start(self.taken_len()),
                self@.image_len() as int,
            )),
            self@.image_len() > u64::MAX ==> (r matches Err(e) && e@ == Failure::IntegerOverflow(
                "File offset"@,
            )),
    {
        let ghost s = self@;
        let taken = self.taken;
        proof {
            self.lemma_pending();
        }
        let (header, mut out) = match self.finish() {
            Ok(p) => p,
            Err(e) => {
                return Err(e);
            },
        };
        proof {
            header.lemma_size();
            s.footer().lemma_size();
            crate::model_proofs::lemma_image_parts(s);
        }
        let mut head: Vec<u8> = Vec::new();
        header.write(&mut head);
        let ghost all = s.data + s.index_region() + s.footer().to_bytes();
        proof {
            assert(all.len() == s.image_len());
            assert forall|j: int| HEADER_SIZE <= j < all.len() implies all[j] == s.image()[j] by {
                let tail = s.data.subrange(HEADER_SIZE as int, s.data.len() as int);
                let rest = tail + s.index_region() + s.footer().to_bytes();
                assert(s.data =~= s.data.subrange(0, HEADER_SIZE as int) + tail);
                assert(all =~= s.data.subrange(0, HEADER_SIZE as int) + rest);
                assert(s.image() =~= head@ + rest);
                assert(all[j] == rest[j - HEADER_SIZE]);
            }
        }
        if taken == 0 {
            proof {
                assert(out@ =~= all);
            }
            let rest = out.split_off(HEADER_SIZE);
            proof {
                assert(rest@ =~= s.image().subrange(HEADER_SIZE as int, s.image_len() as int));
            }
            Ok((head, rest))
        } else {
            proof {
                assert(out@ =~= all.subrange(taken as int, all.len() as int));
                assert(out@ =~= s.image().subrange(taken as int, s.image_len() as int));
            }
            Ok((head, out))
        }
    }

    /// Number of assets, after deduplication.
    pub fn asset_count(&self) -> (n: usize)
        ensures
            n == self@.assets.len(),
    {
        self.assets.len()
    }

    /// Number of pages.
    pub fn page_count(&self) -> (n: usize)
        ensures
            n == self@.pages.len(),
    {
        self.pages.len()
    }

    /// Number of sections.
    pub fn section_count(&self) -> (n: usize)
        ensures
            n == self@.sections.len(),
    {
        self.sections.len()
    }

    /// Number of key/value pairs.
    pub fn metadata_count(&self) -> (n: usize)
        ensures
            n == self@.metadata.len(),
    {
        self.metadata.len()
    }
}

} // verus!
