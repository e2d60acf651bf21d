//! What holds of the format engine as a whole: a finished book reads back
//! as it was built, equal content is stored once, equal strings share one
//! place in the pool, assets are aligned, and a check of one asset looks at
//! that asset only.

use vstd::prelude::*;
use vstd::utf8::encode_utf8;
use crate::bytes::{is_first_zero, lemma_first_zero};
use crate::error::Failure;
use crate::file::{open_spec, table_range, ReaderView};
use crate::hash::xxh3_128_of;
use crate::layout::{
    lemma_decode, lemma_decode_table, lemma_table_entry, lemma_table_len, table_bytes, Record,
};
use crate::model::{asset_data, effective_alignment, entry_hash, string_stored, BuilderState};
use crate::file::lemma_asset_at;
use crate::model_proofs::{lemma_add_page_valid, lemma_image_parts};
use crate::text::{has_nul, lemma_nul_bytes};
use crate::types::{
    AssetEntry, MediaType, Metadata, PageEntry, Section, ASSET_ENTRY_SIZE, FOOTER_SIZE, HEADER_SIZE,
    MAGIC, MAX_BALE_SIZE, MAX_FORME_SIZE,
};

verus! {

impl BuilderState {
    /// The finished file of this book, opened.
    pub open spec fn reader(self) -> ReaderView {
        ReaderView { data: self.image(), header: self.final_header(), footer: self.footer() }
    }

    /// Whether the finished file can be opened: its length fits the offset
    /// type, and the tables, the string pool and the footer together stay
    /// under the size that a reader accepts.
    pub open spec fn readable(self) -> bool {
        &&& self.valid()
        &&& self.image_len() <= u64::MAX
        &&& self.image_len() - self.data.len() <= MAX_BALE_SIZE
    }
}

/// Round trip, structure: the finished file of a valid book opens, with the
/// header and the footer that the book determines, and its four tables are
/// the book's tables.
pub proof fn lemma_round_trip(s: BuilderState)
    requires
        s.readable(),
    ensures
        open_spec(s.image()) == Ok::<ReaderView, Failure>(s.reader()),
        s.reader().footer.asset_count == s.assets.len(),
        s.reader().footer.page_count == s.pages.len(),
        s.reader().assets() == Ok::<Seq<AssetEntry>, Failure>(s.assets),
        s.reader().pages() == Ok::<Seq<PageEntry>, Failure>(s.pages),
        s.reader().sections() == Ok::<Seq<Section>, Failure>(s.sections),
        s.reader().metadata() == Ok::<Seq<Metadata>, Failure>(s.metadata),
{
    lemma_image_parts(s);
    let img = s.image();
    let r = s.reader();
    lemma_table_len(s.assets);
    lemma_table_len(s.pages);
    lemma_table_len(s.sections);
    lemma_table_len(s.metadata);
    lemma_decode(s.final_header(), img.subrange(0, HEADER_SIZE as int));
    lemma_decode(s.footer(), img.subrange(s.footer_offset() as int, s.image_len() as int));
    assert(s.final_header().magic@ == MAGIC@);
    lemma_decode_table(
        s.assets,
        img.subrange(s.asset_table_offset() as int, s.page_table_offset() as int),
    );
    lemma_decode_table(
        s.pages,
        img.subrange(s.page_table_offset() as int, s.section_table_offset() as int),
    );
    lemma_decode_table(
        s.sections,
        img.subrange(s.section_table_offset() as int, s.metadata_table_offset() as int),
    );
    lemma_decode_table(
        s.metadata,
        img.subrange(s.metadata_table_offset() as int, s.string_pool_offset() as int),
    );
}

/// Round trip, assets: the bytes of every asset of a finished book are the
/// bytes that were written for it.
pub proof fn lemma_round_trip_assets(s: BuilderState, i: int)
    requires
        s.readable(),
        0 <= i < s.assets.len(),
    ensures
        s.reader().asset_data(s.assets[i]) == Ok::<Seq<u8>, Failure>(
            asset_data(s.data, s.assets[i]),
        ),
{
    lemma_image_parts(s);
    let a = s.assets[i];
    assert(s.asset_valid(a));
    assert(s.image().subrange(a.file_offset as int, a.file_offset + a.file_size)
        == s.data.subrange(a.file_offset as int, a.file_offset + a.file_size));
}

/// Round trip, pages: a page of a finished book shows an asset of the
/// book. After `add_page`, the bytes of the new page's asset are the content
/// that was added, unless other content with the same hash was there before
/// ("modulo deduplication": the hash stands for the content).
pub proof fn lemma_page_content(
    s: BuilderState,
    content: Seq<u8>,
    h: u128,
    media_type: MediaType,
    page_flags: u32,
    asset_flags: u32,
)
    requires
        s.valid(),
        s.add_page(content, h, media_type, page_flags, asset_flags).data.len() <= u64::MAX,
        s.add_page(content, h, media_type, page_flags, asset_flags).assets.len() <= u64::MAX,
    ensures
        ({
            let t = s.add_page(content, h, media_type, page_flags, asset_flags);
            let page = t.pages.last();
            &&& t.pages.len() == s.pages.len() + 1
            &&& page.flags == page_flags
            &&& page.asset_index < t.assets.len()
            &&& entry_hash(t.assets[page.asset_index as int]) == h
            &&& !s.has_asset(h) ==> asset_data(t.data, t.assets[page.asset_index as int])
                == content
            &&& s.has_asset(h) ==> t.assets == s.assets && t.data == s.data
            &&& forall|p: int| 0 <= p < s.pages.len() ==> t.pages[p] == s.pages[p]
            &&& forall|k: int|
                0 <= k < s.assets.len() ==> t.assets[k] == s.assets[k] && asset_data(
                    t.data,
                    t.assets[k],
                ) == asset_data(s.data, s.assets[k])
        }),
{
    let t = s.add_page(content, h, media_type, page_flags, asset_flags);
    lemma_add_page_valid(s, content, h, media_type, page_flags, asset_flags);
    if s.has_asset(h) {
        let i = s.asset_of(h);
        assert(0 <= i < s.assets.len() && entry_hash(s.assets[i]) == h);
    } else {
        crate::hash::lemma_hash_words(h);
        let pad = s.padding(content.len());
        let a = t.assets[s.assets.len() as int];
        assert(asset_data(t.data, a) =~= content);
        assert forall|k: int| 0 <= k < s.assets.len() implies t.assets[k] == s.assets[k]
            && asset_data(t.data, t.assets[k]) == asset_data(s.data, s.assets[k]) by {
            assert(s.asset_valid(s.assets[k]));
            assert(asset_data(t.data, t.assets[k]) =~= asset_data(s.data, s.assets[k]));
        }
    }
}

/// Round trip, strings: an interned string that holds no NUL and takes
/// fewer than [`MAX_FORME_SIZE`] bytes reads back from its offset. (A
/// string with a NUL reads back cut at the NUL, a longer one not at all:
/// the terminator is looked for among that many bytes only.)
pub proof fn lemma_round_trip_string(s: BuilderState, x: Seq<char>)
    requires
        s.readable(),
        s.strings.contains_key(x),
        !has_nul(x),
        encode_utf8(x).len() < MAX_FORME_SIZE,
    ensures
        s.reader().string_at(s.strings[x]) == Ok::<Seq<char>, Failure>(x),
{
    lemma_nul_bytes(x);
    lemma_image_parts(s);
    let r = s.reader();
    let o = s.strings[x];
    let bytes = encode_utf8(x);
    let n = bytes.len() as int;
    assert(string_stored(s.string_pool, x, o));
    let start = s.string_pool_offset() + o;
    let end = s.footer_offset() as int;
    let window = r.string_window(o);
    let pool = s.image().subrange(s.string_pool_offset() as int, end);
    assert(pool == s.string_pool);
    assert(window.len() > n);
    assert forall|j: int| 0 <= j <= n implies window[j] == s.string_pool[o + j] by {
        assert(window[j] == s.image()[start + j]);
        assert(pool[o + j] == s.image()[s.string_pool_offset() + o + j]);
    }
    assert forall|j: int| 0 <= j < n implies window[j] != 0 by {
        assert(s.string_pool.subrange(o as int, o + n)[j] == bytes[j]);
        assert(bytes[j] != 0);
    }
    assert(is_first_zero(window, n));
    lemma_first_zero(window, n);
    assert(window.subrange(0, n) =~= bytes) by {
        assert forall|j: int| 0 <= j < n implies window.subrange(0, n)[j] == bytes[j] by {
            assert(s.string_pool.subrange(o as int, o + n)[j] == bytes[j]);
        }
    }
    vstd::utf8::encode_utf8_valid_utf8(x);
    vstd::utf8::encode_utf8_decode_utf8(x);
}

/// Round trip, sections: the title of a section of a finished book reads
/// back from the offset that the section table holds, and so does the title
/// of its parent.
pub proof fn lemma_round_trip_section(s: BuilderState, k: int, title: Seq<char>)
    requires
        s.readable(),
        0 <= k < s.sections.len(),
        s.strings.contains_key(title),
        s.strings[title] == s.sections[k].section_title_offset || s.strings[title]
            == s.sections[k].section_parent_offset,
        !has_nul(title),
        encode_utf8(title).len() < MAX_FORME_SIZE,
    ensures
        s.reader().sections() is Ok,
        s.reader().string_at(s.strings[title]) == Ok::<Seq<char>, Failure>(title),
        s.reader().sections()->Ok_0[k] == s.sections[k],
{
    lemma_round_trip(s);
    lemma_round_trip_string(s, title);
}

/// Round trip, metadata: the key, the value and the parent of a key/value
/// pair of a finished book read back from the offsets that the metadata
/// table holds.
pub proof fn lemma_round_trip_metadata(s: BuilderState, k: int, text: Seq<char>)
    requires
        s.readable(),
        0 <= k < s.metadata.len(),
        s.strings.contains_key(text),
        s.strings[text] == s.metadata[k].key_offset || s.strings[text]
            == s.metadata[k].value_offset || s.strings[text] == s.metadata[k].parent_offset,
        !has_nul(text),
        encode_utf8(text).len() < MAX_FORME_SIZE,
    ensures
        s.reader().metadata() is Ok,
        s.reader().string_at(s.strings[text]) == Ok::<Seq<char>, Failure>(text),
        s.reader().metadata()->Ok_0[k] == s.metadata[k],
{
    lemma_round_trip(s);
    lemma_round_trip_string(s, text);
}

/// Round trip, written piece by piece: a file that is written while the
/// book grows, with the final header put over the placeholder at the end,
/// is the file that is built at once. `taken` is how much of the file was
/// written before the book was finished.
pub proof fn lemma_streamed_file(s: BuilderState, taken: nat)
    requires
        s.valid(),
        HEADER_SIZE <= taken <= s.data.len(),
    ensures
        s.final_header().to_bytes() + s.data.subrange(HEADER_SIZE as int, taken as int)
            + s.image().subrange(s.rest_start(taken), s.image_len() as int) == s.image(),
        s.final_header().to_bytes() + s.image().subrange(s.rest_start(0), s.image_len() as int)
            == s.image(),
{
    lemma_image_parts(s);
    s.final_header().lemma_size();
    let img = s.image();
    assert(img.subrange(HEADER_SIZE as int, taken as int) == s.data.subrange(
        HEADER_SIZE as int,
        taken as int,
    ));
    assert(img.subrange(0, HEADER_SIZE as int) + img.subrange(HEADER_SIZE as int, taken as int)
        + img.subrange(taken as int, img.len() as int) =~= img);
    assert(img.subrange(0, HEADER_SIZE as int) + img.subrange(
        HEADER_SIZE as int,
        img.len() as int,
    ) =~= img);
}

/// Entry `k` of the asset table of a finished book is asset `k` of the book.
pub proof fn lemma_asset_entry_at(s: BuilderState, k: int)
    requires
        s.readable(),
        0 <= k < s.assets.len(),
    ensures
        s.reader().asset_at(k) == s.assets[k],
        s.reader().footer.asset_count == s.assets.len(),
        table_range(
            s.reader().footer.asset_offset,
            s.reader().footer.asset_count,
            ASSET_ENTRY_SIZE as nat,
            s.reader().data.len(),
            "Asset"@,
        ) is Ok,
{
    lemma_image_parts(s);
    lemma_table_len(s.assets);
    lemma_table_entry(s.assets, k);
    let table = s.image().subrange(s.asset_table_offset() as int, s.page_table_offset() as int);
    let entry = s.image().subrange(
        s.asset_table_offset() + k * ASSET_ENTRY_SIZE,
        s.asset_table_offset() + (k + 1) * ASSET_ENTRY_SIZE,
    );
    assert(entry =~= table.subrange(k * ASSET_ENTRY_SIZE, (k + 1) * ASSET_ENTRY_SIZE));
    lemma_decode(s.assets[k], entry);
}

/// Every asset of a finished book whose assets store the hashes of their
/// bytes passes its check.
pub proof fn lemma_finished_asset_intact(s: BuilderState, i: usize)
    requires
        s.readable(),
        s.hashed(),
        i < s.assets.len(),
    ensures
        s.reader().verify_asset(i) == Ok::<bool, Failure>(true),
        s.reader().asset_intact(s.assets[i as int]),
{
    lemma_asset_entry_at(s, i as int);
    lemma_round_trip_assets(s, i as int);
}

/// A finished book whose assets store the hashes of their bytes is intact:
/// the check of the whole file says so.
pub proof fn lemma_finished_book_intact(s: BuilderState)
    requires
        s.readable(),
        s.hashed(),
    ensures
        s.reader().verify_integrity() == Ok::<bool, Failure>(true),
{
    let r = s.reader();
    assert(r.index_region() == s.index_region() && r.footer.asset_offset <= r.header.footer_offset
        <= r.data.len()) by {
        lemma_image_parts(s);
    }
    assert(r.assets() == Ok::<Seq<AssetEntry>, Failure>(s.assets)) by {
        lemma_round_trip(s);
    }
    assert forall|i: int| 0 <= i < s.assets.len() implies r.asset_intact(
        #[trigger] s.assets[i],
    ) by {
        lemma_finished_asset_intact(s, i as usize);
    }
}

/// Deduplication: of two pages added to a new book, the second gets an
/// asset of its own exactly if its hash differs from the first's. Equal
/// content has equal hashes, so it is stored once.
pub proof fn lemma_deduplication(
    alignment: u8,
    ream_size: u8,
    flags: u32,
    first: Seq<u8>,
    second: Seq<u8>,
    media_type: MediaType,
)
    requires
        alignment <= 16,
        ream_size <= 16,
    ensures
        ({
            let s0 = BuilderState::initial(alignment, ream_size, flags);
            let s1 = s0.add_page(first, xxh3_128_of(first), media_type, 0, 0);
            let s2 = s1.add_page(second, xxh3_128_of(second), media_type, 0, 0);
            &&& s1.assets.len() == 1
            &&& s1.pages.len() == 1
            &&& s2.pages.len() == 2
            &&& s2.assets.len() == if xxh3_128_of(first) == xxh3_128_of(second) {
                1nat
            } else {
                2nat
            }
            &&& first == second ==> s2.assets.len() == 1 && s2.pages[0].asset_index
                == s2.pages[1].asset_index
        }),
{
    let s0 = BuilderState::initial(alignment, ream_size, flags);
    let h1 = xxh3_128_of(first);
    let h2 = xxh3_128_of(second);
    let s1 = s0.add_page(first, h1, media_type, 0, 0);
    let s2 = s1.add_page(second, h2, media_type, 0, 0);
    assert(!s0.has_asset(h1));
    crate::hash::lemma_hash_words(h1);
    assert(entry_hash(s1.assets[0]) == h1);
    if h1 == h2 {
        assert(s1.has_asset(h2));
        assert(s1.asset_of(h2) == 0);
    } else {
        assert(!s1.has_asset(h2)) by {
            if s1.has_asset(h2) {
                let i = s1.asset_of(h2);
                assert(i == 0);
            }
        }
    }
}

/// Deduplication, in any book: a page whose hash some asset has adds no
/// asset and writes no byte; any other page adds exactly one asset.
pub proof fn lemma_add_page_assets(
    s: BuilderState,
    content: Seq<u8>,
    h: u128,
    media_type: MediaType,
    page_flags: u32,
    asset_flags: u32,
)
    ensures
        ({
            let t = s.add_page(content, h, media_type, page_flags, asset_flags);
            &&& t.pages.len() == s.pages.len() + 1
            &&& s.has_asset(h) ==> t.assets == s.assets && t.data == s.data
            &&& !s.has_asset(h) ==> t.assets.len() == s.assets.len() + 1
            &&& t.has_asset(h)
        }),
{
    let t = s.add_page(content, h, media_type, page_flags, asset_flags);
    if s.has_asset(h) {
    } else {
        crate::hash::lemma_hash_words(h);
        assert(entry_hash(t.assets[s.assets.len() as int]) == h);
    }
}

/// String interning: a string has one place in the pool. Interning it
/// again changes nothing, and whatever is interned later leaves its offset
/// as it is.
pub proof fn lemma_interning(s: BuilderState, x: Seq<char>, y: Seq<char>)
    ensures
        s.intern(x).strings.contains_key(x),
        s.intern(x).intern(x) == s.intern(x),
        s.intern(x).intern(y).strings.contains_key(x),
        s.intern(x).intern(y).strings[x] == s.intern(x).strings[x],
{
}

/// String interning, as the tables show it: a section title and a metadata
/// value that are the same string have the same offset.
pub proof fn lemma_section_and_metadata_share_strings(
    s: BuilderState,
    title: Seq<char>,
    start_index: u64,
    section_parent: Option<Seq<char>>,
    key: Seq<char>,
    metadata_parent: Option<Seq<char>>,
)
    ensures
        ({
            let t = s.add_section(title, start_index, section_parent).add_metadata(
                key,
                title,
                metadata_parent,
            );
            t.sections.last().section_title_offset == t.metadata.last().value_offset
        }),
{
    let a = s.intern(title);
    let b = a.intern_opt(section_parent);
    let s1 = s.add_section(title, start_index, section_parent);
    assert(s1.strings == b.strings);
    assert(b.strings.contains_key(title) && b.strings[title] == a.strings[title]);
    let c = s1.intern(key);
    let d = c.intern(title);
    let e = d.intern_opt(metadata_parent);
    assert(c.strings.contains_key(title) && c.strings[title] == a.strings[title]);
    assert(d.strings.contains_key(title) && d.strings[title] == a.strings[title]);
    assert(e.strings.contains_key(title) && e.strings[title] == a.strings[title]);
    let t = s1.add_metadata(key, title, metadata_parent);
    assert(t.sections == s1.sections);
}

/// Alignment: every asset of a valid book starts at a multiple of its
/// alignment, which is 8 where small assets are packed and the asset is
/// below the threshold, and the configured alignment otherwise. The header
/// and the asset table of the finished file carry the same values.
pub proof fn lemma_alignment(s: BuilderState, i: int)
    requires
        s.valid(),
        0 <= i < s.assets.len(),
    ensures
        s.assets[i].file_offset % effective_alignment(
            s.final_header().flags,
            s.final_header().alignment,
            s.final_header().ream_size,
            s.assets[i].file_size as nat,
        ) == 0,
        1 <= effective_alignment(
            s.final_header().flags,
            s.final_header().alignment,
            s.final_header().ream_size,
            s.assets[i].file_size as nat,
        ),
{
    assert(s.asset_valid(s.assets[i]));
    crate::model_proofs::lemma_alignment_bounds(
        s.flags,
        s.alignment,
        s.ream_size,
        s.assets[i].file_size as nat,
    );
}

/// Integrity, locality: the check of one asset reads the footer's two
/// fields for the asset table, that asset's entry and that asset's bytes.
/// Two files that agree on these agree on the check, whatever else differs.
pub proof fn lemma_verify_asset_local(a: ReaderView, b: ReaderView, index: usize)
    requires
        a.data.len() == b.data.len(),
        a.footer.asset_offset == b.footer.asset_offset,
        a.footer.asset_count == b.footer.asset_count,
        a.verify_asset(index) is Ok,
        a.data.subrange(
            a.footer.asset_offset + index * ASSET_ENTRY_SIZE,
            a.footer.asset_offset + (index + 1) * ASSET_ENTRY_SIZE,
        ) == b.data.subrange(
            a.footer.asset_offset + index * ASSET_ENTRY_SIZE,
            a.footer.asset_offset + (index + 1) * ASSET_ENTRY_SIZE,
        ),
        asset_data(a.data, a.asset_at(index as int)) == asset_data(
            b.data,
            a.asset_at(index as int),
        ),
    ensures
        b.verify_asset(index) == a.verify_asset(index),
{
}

/// Integrity, sensitivity: where the bytes of an asset change and nothing
/// else of what its check reads, the check passes afterwards exactly if the
/// new bytes have the hash of the old ones. So a changed asset is reported
/// unless its hash collides, and then the whole-file check fails too.
pub proof fn lemma_changed_asset(a: ReaderView, b: ReaderView, index: usize)
    requires
        a.data.len() == b.data.len(),
        a.footer == b.footer,
        a.header == b.header,
        a.verify_asset(index) == Ok::<bool, Failure>(true),
        a.assets() is Ok,
        a.assets() == b.assets(),
        a.data.subrange(
            a.footer.asset_offset + index * ASSET_ENTRY_SIZE,
            a.footer.asset_offset + (index + 1) * ASSET_ENTRY_SIZE,
        ) == b.data.subrange(
            a.footer.asset_offset + index * ASSET_ENTRY_SIZE,
            a.footer.asset_offset + (index + 1) * ASSET_ENTRY_SIZE,
        ),
    ensures
        b.verify_asset(index) == Ok::<bool, Failure>(
            xxh3_128_of(asset_data(b.data, a.asset_at(index as int))) == xxh3_128_of(
                asset_data(a.data, a.asset_at(index as int)),
            ),
        ),
        xxh3_128_of(asset_data(b.data, a.asset_at(index as int))) != xxh3_128_of(
            asset_data(a.data, a.asset_at(index as int)),
        ) ==> b.verify_integrity() is Ok ==> b.verify_integrity() == Ok::<bool, Failure>(false),
{
    let k = index as int;
    let n = ASSET_ENTRY_SIZE as int;
    let e = a.asset_at(k);
    assert(b.asset_at(k) == e);
    if xxh3_128_of(asset_data(b.data, e)) != xxh3_128_of(asset_data(a.data, e))
        && b.verify_integrity() is Ok {
        let items = b.assets()->Ok_0;
        let off = a.footer.asset_offset as int;
        let count = a.footer.asset_count as nat;
        assert(0 <= k * n && (k + 1) * n <= count * n) by (nonlinear_arith)
            requires
                0 <= k < count,
                n > 0,
        ;
        let table = b.data.subrange(off, off + count * n);
        crate::layout::lemma_decode_table_bytes::<AssetEntry>(table, count);
        assert(table.subrange(0, (count * n) as int) =~= table);
        lemma_table_entry(items, k);
        assert(table.subrange(k * n, (k + 1) * n) =~= b.data.subrange(
            off + k * n,
            off + (k + 1) * n,
        ));
        lemma_decode(items[k], table.subrange(k * n, (k + 1) * n));
        assert(items[k] == e);
        assert(!b.asset_intact(items[k]));
    }
}

/// Bounds safety: a file shorter than a header and a footer is too small,
/// whatever it holds.
pub proof fn lemma_open_too_small(file: Seq<u8>)
    requires
        file.len() < HEADER_SIZE + FOOTER_SIZE,
    ensures
        open_spec(file) == Err::<ReaderView, Failure>(Failure::FileTooSmall),
{
}

/// Bounds safety: a file of sufficient length that does not start with the
/// signature has an invalid magic number.
pub proof fn lemma_open_wrong_magic(file: Seq<u8>)
    requires
        file.len() >= HEADER_SIZE + FOOTER_SIZE,
        file.subrange(0, 4) != MAGIC@,
    ensures
        open_spec(file) == Err::<ReaderView, Failure>(Failure::InvalidMagic),
{
    let head = file.subrange(0, HEADER_SIZE as int);
    crate::bytes::lemma_array_of::<u8, 4>(head.subrange(0, 4));
    assert(head.subrange(0, 4) =~= file.subrange(0, 4));
}

/// Bounds safety: a file with the signature whose header places the footer
/// so that it would end after the file has an invalid offset.
pub proof fn lemma_open_footer_out_of_bounds(file: Seq<u8>)
    requires
        file.len() >= HEADER_SIZE + FOOTER_SIZE,
        file.subrange(0, 4) == MAGIC@,
        vstd::bytes::spec_u64_from_le_bytes(file.subrange(16, 24)) + FOOTER_SIZE > file.len(),
    ensures
        open_spec(file) == Err::<ReaderView, Failure>(
            Failure::InvalidOffset("Footer offset out of bounds"@),
        ),
{
    let head = file.subrange(0, HEADER_SIZE as int);
    crate::bytes::lemma_array_of::<u8, 4>(head.subrange(0, 4));
    assert(head.subrange(0, 4) =~= file.subrange(0, 4));
    assert(head.subrange(16, 24) =~= file.subrange(16, 24));
}

/// Bounds safety: whatever a file holds, opening it gives a reader or one
/// of four errors, and a reader only for a file in which header and footer
/// lie within bounds.
pub proof fn lemma_open_total(file: Seq<u8>)
    ensures
        match open_spec(file) {
            Ok(r) => r.data == file && r.header.footer_offset + FOOTER_SIZE <= file.len()
                && r.footer.asset_offset <= file.len() && file.len() - r.footer.asset_offset
                <= MAX_BALE_SIZE && r.header.magic@ == MAGIC@,
            Err(Failure::FileTooSmall) => file.len() < HEADER_SIZE + FOOTER_SIZE,
            Err(Failure::InvalidMagic) => file.len() >= HEADER_SIZE + FOOTER_SIZE,
            Err(Failure::InvalidOffset(_)) => file.len() >= HEADER_SIZE + FOOTER_SIZE,
            Err(Failure::Other(_)) => file.len() > MAX_BALE_SIZE,
            Err(_) => false,
        },
{
}

} // verus!
