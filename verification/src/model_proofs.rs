//! Every builder operation keeps a book valid, and the parts of a finished
//! file stand where the footer says.

use vstd::prelude::*;
use vstd::utf8::encode_utf8;
use crate::hash::{lemma_hash_words, xxh3_128_of};
use crate::layout::{lemma_table_len, table_bytes, Record};
use crate::model::{
    asset_data, asset_entry, effective_alignment, entry_hash, metadata_entry, padding_for,
    placeholder_header, section_entry, string_stored, BuilderState,
};
use crate::types::{MediaType, HEADER_SIZE, NO_PARENT};

verus! {

/// An alignment is a positive number of bytes, at most 65536.
pub proof fn lemma_alignment_bounds(flags: u32, alignment: u8, ream_size: u8, size: nat)
    requires
        alignment <= 16,
    ensures
        1 <= effective_alignment(flags, alignment, ream_size, size) <= 65536,
{
    assert(1 <= (1u64 << alignment) <= 65536) by (bit_vector)
        requires
            alignment <= 16,
    ;
}

/// After its padding, an offset is a multiple of the alignment, and the
/// padding is shorter than the alignment.
pub proof fn lemma_padding_aligns(offset: nat, align: u64)
    requires
        align >= 1,
    ensures
        padding_for(offset, align) < align,
        (offset + padding_for(offset, align)) % (align as nat) == 0,
{
    let a = align as int;
    let o = offset as int;
    let r = o % a;
    if r != 0 {
        vstd::arithmetic::div_mod::lemma_fundamental_div_mod(o, a);
        let q = o / a;
        assert(o + (a - r) == (q + 1) * a) by (nonlinear_arith)
            requires
                o == a * q + r,
        ;
        vstd::arithmetic::div_mod::lemma_mod_multiples_basic(q + 1, a);
    }
}

/// A new builder's state is valid.
pub proof fn lemma_initial_valid(alignment: u8, ream_size: u8, flags: u32)
    requires
        alignment <= 16,
        ream_size <= 16,
    ensures
        BuilderState::initial(alignment, ream_size, flags).valid(),
        BuilderState::initial(alignment, ream_size, flags).hashed(),
        BuilderState::initial(alignment, ream_size, flags).data.len() == HEADER_SIZE,
{
    let s = BuilderState::initial(alignment, ream_size, flags);
    placeholder_header().lemma_size();
    assert(s.data.subrange(0, HEADER_SIZE as int) =~= s.data);
}

/// Adding a page keeps a book valid. Where the hash given is the hash of the
/// content, every asset still stores the hash of its bytes.
pub proof fn lemma_add_page_valid(
    s: BuilderState,
    content: Seq<u8>,
    h: u128,
    media_type: MediaType,
    page_flags: u32,
    asset_flags: u32,
)
    requires
        s.valid(),
        s.add_page(content, h, media_type, page_flags, asset_flags).data.len() <= u64::MAX,
        s.add_page(content, h, media_type, page_flags, asset_flags).assets.len() <= u64::MAX,
    ensures
        s.add_page(content, h, media_type, page_flags, asset_flags).valid(),
        s.hashed() && h == xxh3_128_of(content) ==> s.add_page(
            content,
            h,
            media_type,
            page_flags,
            asset_flags,
        ).hashed(),
{
    let t = s.add_page(content, h, media_type, page_flags, asset_flags);
    assert(t.strings == s.strings);
    assert forall|k: int| 0 <= k < t.sections.len() implies t.section_valid(
        #[trigger] t.sections[k],
    ) by {
        assert(s.section_valid(s.sections[k]));
    }
    assert forall|k: int| 0 <= k < t.metadata.len() implies t.metadata_valid(
        #[trigger] t.metadata[k],
    ) by {
        assert(s.metadata_valid(s.metadata[k]));
    }
    if s.has_asset(h) {
        let i = s.asset_of(h);
        assert(0 <= i < s.assets.len());
        assert forall|p: int| 0 <= p < t.pages.len() implies (#[trigger] t.pages[p]).asset_index
            < t.assets.len() by {
            if p < s.pages.len() {
                assert(t.pages[p] == s.pages[p]);
            }
        }
    } else {
        let pad = s.padding(content.len());
        let align = s.alignment_of(content.len());
        let offset = s.data.len() + pad;
        let a = asset_entry(
            offset as u64,
            h,
            content.len() as u64,
            asset_flags,
            media_type.tag(),
        );
        lemma_alignment_bounds(s.flags, s.alignment, s.ream_size, content.len());
        lemma_padding_aligns(s.data.len(), align);
        lemma_hash_words(h);
        assert(t.data.len() == offset + content.len());
        assert(t.data.subrange(0, HEADER_SIZE as int) =~= s.data.subrange(0, HEADER_SIZE as int));
        assert(asset_data(t.data, a) =~= content);
        assert(entry_hash(a) == h);
        assert forall|i: int| 0 <= i < t.assets.len() implies t.asset_valid(
            #[trigger] t.assets[i],
        ) by {
            if i < s.assets.len() {
                assert(t.assets[i] == s.assets[i]);
                assert(s.asset_valid(s.assets[i]));
            } else {
                assert(t.assets[i] == a);
            }
        }
        assert forall|i: int, j: int| 0 <= i < j < t.assets.len() implies entry_hash(
            #[trigger] t.assets[i],
        ) != entry_hash(#[trigger] t.assets[j]) by {
            assert(t.assets[i] == s.assets[i]);
            if j < s.assets.len() {
                assert(t.assets[j] == s.assets[j]);
            } else {
                assert(t.assets[j] == a);
            }
        }
        assert forall|p: int| 0 <= p < t.pages.len() implies (#[trigger] t.pages[p]).asset_index
            < t.assets.len() by {
            if p < s.pages.len() {
                assert(t.pages[p] == s.pages[p]);
            }
        }
        if s.hashed() && h == xxh3_128_of(content) {
            assert forall|i: int| 0 <= i < t.assets.len() implies entry_hash(
                #[trigger] t.assets[i],
            ) == xxh3_128_of(asset_data(t.data, t.assets[i])) by {
                if i < s.assets.len() {
                    assert(t.assets[i] == s.assets[i]);
                    assert(s.asset_valid(s.assets[i]));
                    assert(asset_data(t.data, t.assets[i]) =~= asset_data(s.data, s.assets[i]));
                } else {
                    assert(t.assets[i] == a);
                }
            }
        }
    }
}

/// Interning a string keeps a book valid; the string is then in the pool,
/// and no string that was there has moved.
pub proof fn lemma_intern_valid(s: BuilderState, x: Seq<char>)
    requires
        s.valid(),
        s.intern(x).string_pool.len() <= u64::MAX,
    ensures
        s.intern(x).valid(),
        s.string_pool.len() <= s.intern(x).string_pool.len(),
        s.intern(x).strings.contains_key(x),
        s.intern(x).is_string_offset(s.intern(x).strings[x]),
        forall|y: Seq<char>| #[trigger]
            s.strings.contains_key(y) ==> s.intern(x).strings.contains_key(y) && s.intern(
                x,
            ).strings[y] == s.strings[y],
        forall|o: u64| #[trigger] s.is_string_offset(o) ==> s.intern(x).is_string_offset(o),
        s.hashed() ==> s.intern(x).hashed(),
{
    let t = s.intern(x);
    if !s.strings.contains_key(x) {
        let bytes = encode_utf8(x);
        let at = s.string_pool.len() as u64;
        assert forall|y: Seq<char>| #[trigger] t.strings.contains_key(y) implies string_stored(
            t.string_pool,
            y,
            t.strings[y],
        ) by {
            if y == x {
                assert(t.string_pool.subrange(at as int, at + bytes.len()) =~= bytes);
            } else {
                assert(s.strings.contains_key(y));
                let o = s.strings[y];
                assert(string_stored(s.string_pool, y, o));
                assert(t.string_pool.subrange(o as int, o + encode_utf8(y).len())
                    =~= s.string_pool.subrange(o as int, o + encode_utf8(y).len()));
            }
        }
        assert forall|o: u64| #[trigger] s.is_string_offset(o) implies t.is_string_offset(o) by {
            let y = choose|y: Seq<char>| #[trigger]
                s.strings.contains_key(y) && s.strings[y] == o;
            assert(t.strings.contains_key(y) && t.strings[y] == o);
        }
        assert forall|k: int| 0 <= k < t.sections.len() implies t.section_valid(
            #[trigger] t.sections[k],
        ) by {
            assert(s.section_valid(s.sections[k]));
        }
        assert forall|k: int| 0 <= k < t.metadata.len() implies t.metadata_valid(
            #[trigger] t.metadata[k],
        ) by {
            assert(s.metadata_valid(s.metadata[k]));
        }
        assert forall|i: int| 0 <= i < t.assets.len() implies t.asset_valid(
            #[trigger] t.assets[i],
        ) by {
            assert(s.asset_valid(s.assets[i]));
        }
    }
    assert(t.strings.contains_key(x) && t.strings[x] == t.strings[x]);
}

/// Interning an optional string keeps a book valid.
pub proof fn lemma_intern_opt_valid(s: BuilderState, x: Option<Seq<char>>)
    requires
        s.valid(),
        s.intern_opt(x).string_pool.len() <= u64::MAX,
    ensures
        s.intern_opt(x).valid(),
        s.string_pool.len() <= s.intern_opt(x).string_pool.len(),
        x matches Some(p) ==> s.intern_opt(x).strings.contains_key(p),
        s.intern_opt(x).offset_opt(x) == NO_PARENT || s.intern_opt(x).is_string_offset(
            s.intern_opt(x).offset_opt(x),
        ),
        forall|y: Seq<char>| #[trigger]
            s.strings.contains_key(y) ==> s.intern_opt(x).strings.contains_key(y) && s.intern_opt(
                x,
            ).strings[y] == s.strings[y],
        forall|o: u64| #[trigger] s.is_string_offset(o) ==> s.intern_opt(x).is_string_offset(o),
        s.hashed() ==> s.intern_opt(x).hashed(),
{
    match x {
        Some(p) => {
            lemma_intern_valid(s, p);
        },
        None => {},
    }
}

/// Adding a section keeps a book valid.
pub proof fn lemma_add_section_valid(
    s: BuilderState,
    title: Seq<char>,
    start_index: u64,
    parent: Option<Seq<char>>,
)
    requires
        s.valid(),
        s.intern(title).intern_opt(parent).string_pool.len() <= u64::MAX,
    ensures
        s.add_section(title, start_index, parent).valid(),
        s.hashed() ==> s.add_section(title, start_index, parent).hashed(),
{
    let s1 = s.intern(title);
    lemma_intern_valid(s, title);
    let s2 = s1.intern_opt(parent);
    lemma_intern_opt_valid(s1, parent);
    let t = s.add_section(title, start_index, parent);
    let e = section_entry(s2.strings[title], start_index, s2.offset_opt(parent));
    assert(t.strings == s2.strings);
    assert(s2.is_string_offset(s1.strings[title]));
    assert(t.section_valid(e));
    assert forall|k: int| 0 <= k < t.sections.len() implies t.section_valid(
        #[trigger] t.sections[k],
    ) by {
        if k < s2.sections.len() {
            assert(s2.section_valid(s2.sections[k]));
        }
    }
    assert forall|k: int| 0 <= k < t.metadata.len() implies t.metadata_valid(
        #[trigger] t.metadata[k],
    ) by {
        assert(s2.metadata_valid(s2.metadata[k]));
    }
    assert forall|i: int| 0 <= i < t.assets.len() implies t.asset_valid(#[trigger] t.assets[i]) by {
        assert(s2.asset_valid(s2.assets[i]));
    }
}

/// Adding a key/value pair keeps a book valid.
pub proof fn lemma_add_metadata_valid(
    s: BuilderState,
    key: Seq<char>,
    value: Seq<char>,
    parent: Option<Seq<char>>,
)
    requires
        s.valid(),
        s.intern(key).intern(value).intern_opt(parent).string_pool.len() <= u64::MAX,
    ensures
        s.add_metadata(key, value, parent).valid(),
        s.hashed() ==> s.add_metadata(key, value, parent).hashed(),
{
    let s1 = s.intern(key);
    lemma_intern_valid(s, key);
    let s2 = s1.intern(value);
    lemma_intern_valid(s1, value);
    let s3 = s2.intern_opt(parent);
    lemma_intern_opt_valid(s2, parent);
    let t = s.add_metadata(key, value, parent);
    let e = metadata_entry(s3.strings[key], s3.strings[value], s3.offset_opt(parent));
    assert(t.strings == s3.strings);
    assert(s2.is_string_offset(s1.strings[key]));
    assert(s3.is_string_offset(s1.strings[key]));
    assert(s3.is_string_offset(s2.strings[value]));
    assert(t.metadata_valid(e));
    assert forall|k: int| 0 <= k < t.sections.len() implies t.section_valid(
        #[trigger] t.sections[k],
    ) by {
        assert(s3.section_valid(s3.sections[k]));
    }
    assert forall|k: int| 0 <= k < t.metadata.len() implies t.metadata_valid(
        #[trigger] t.metadata[k],
    ) by {
        if k < s3.metadata.len() {
            assert(s3.metadata_valid(s3.metadata[k]));
        }
    }
    assert forall|i: int| 0 <= i < t.assets.len() implies t.asset_valid(#[trigger] t.assets[i]) by {
        assert(s3.asset_valid(s3.assets[i]));
    }
}

/// Where the parts of a finished file stand in it.
pub proof fn lemma_image_parts(s: BuilderState)
    requires
        s.valid(),
    ensures
        s.image().len() == s.image_len(),
        s.index_region().len() == s.footer_offset() - s.data.len(),
        s.image().subrange(0, HEADER_SIZE as int) == s.final_header().to_bytes(),
        forall|a: int, b: int|
            HEADER_SIZE <= a <= b <= s.data.len() ==> #[trigger] s.image().subrange(a, b)
                == s.data.subrange(a, b),
        s.image().subrange(s.asset_table_offset() as int, s.page_table_offset() as int)
            == table_bytes(s.assets),
        s.image().subrange(s.page_table_offset() as int, s.section_table_offset() as int)
            == table_bytes(s.pages),
        s.image().subrange(s.section_table_offset() as int, s.metadata_table_offset() as int)
            == table_bytes(s.sections),
        s.image().subrange(s.metadata_table_offset() as int, s.string_pool_offset() as int)
            == table_bytes(s.metadata),
        s.image().subrange(s.string_pool_offset() as int, s.footer_offset() as int)
            == s.string_pool,
        s.image().subrange(s.asset_table_offset() as int, s.footer_offset() as int)
            == s.index_region(),
        s.image().subrange(s.footer_offset() as int, s.image_len() as int) == s.footer().to_bytes(),
{
    let head = s.final_header().to_bytes();
    let tail = s.data.subrange(HEADER_SIZE as int, s.data.len() as int);
    let foot = s.footer().to_bytes();
    let ta = table_bytes(s.assets);
    let tp = table_bytes(s.pages);
    let ts = table_bytes(s.sections);
    let tm = table_bytes(s.metadata);
    s.final_header().lemma_size();
    s.footer().lemma_size();
    lemma_table_len(s.assets);
    lemma_table_len(s.pages);
    lemma_table_len(s.sections);
    lemma_table_len(s.metadata);
    let img = s.image();
    assert(img == head + tail + (ta + tp + ts + tm + s.string_pool) + foot);
    assert(img.len() == s.image_len());
    assert(img.subrange(0, HEADER_SIZE as int) =~= head);
    assert forall|a: int, b: int|
        HEADER_SIZE <= a <= b <= s.data.len() implies #[trigger] img.subrange(a, b)
        == s.data.subrange(a, b) by {
        assert(img.subrange(a, b) =~= s.data.subrange(a, b));
    }
    assert(img.subrange(s.asset_table_offset() as int, s.page_table_offset() as int) =~= ta);
    assert(img.subrange(s.page_table_offset() as int, s.section_table_offset() as int) =~= tp);
    assert(img.subrange(s.section_table_offset() as int, s.metadata_table_offset() as int) =~= ts);
    assert(img.subrange(s.metadata_table_offset() as int, s.string_pool_offset() as int) =~= tm);
    assert(img.subrange(s.string_pool_offset() as int, s.footer_offset() as int)
        =~= s.string_pool);
    assert(img.subrange(s.asset_table_offset() as int, s.footer_offset() as int)
        =~= s.index_region());
    assert(img.subrange(s.footer_offset() as int, s.image_len() as int) =~= foot);
}

} // verus!
