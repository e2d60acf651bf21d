//! The byte layout of the footer.

use vstd::prelude::*;
use vstd::bytes::{
    spec_u32_from_le_bytes, spec_u32_to_le_bytes, spec_u64_from_le_bytes, spec_u64_to_le_bytes,
};
use crate::bytes::{
    array_of, get_array, get_u32, get_u64, get_u8, lemma_array_of, lemma_join, lemma_le_injective,
    lemma_le_total, lemma_split, put_bytes, put_u32, put_u64, put_u8,
};
use crate::layout::Record;
use crate::types::{BbfFooter, FOOTER_SIZE};

verus! {

impl Record for BbfFooter {
    open spec fn spec_size() -> nat {
        FOOTER_SIZE as nat
    }

    open spec fn to_bytes(&self) -> Seq<u8> {
        spec_u64_to_le_bytes(self.asset_offset)
            + spec_u64_to_le_bytes(self.page_offset)
            + spec_u64_to_le_bytes(self.section_offset)
            + spec_u64_to_le_bytes(self.meta_offset)
            + spec_u64_to_le_bytes(self.expansion_offset)
            + spec_u64_to_le_bytes(self.string_pool_offset)
            + spec_u64_to_le_bytes(self.string_pool_size)
            + spec_u64_to_le_bytes(self.asset_count)
            + spec_u64_to_le_bytes(self.page_count)
            + spec_u64_to_le_bytes(self.section_count)
            + spec_u64_to_le_bytes(self.meta_count)
            + spec_u64_to_le_bytes(self.expansion_count)
            + spec_u32_to_le_bytes(self.flags)
            + seq![self.footer_len]
            + self.padding@
            + spec_u64_to_le_bytes(self.footer_hash)
            + self.reserved@
    }

    open spec fn from_bytes(bytes: Seq<u8>) -> Self {
        BbfFooter {
            asset_offset: spec_u64_from_le_bytes(bytes.subrange(0, 8)),
            page_offset: spec_u64_from_le_bytes(bytes.subrange(8, 16)),
            section_offset: spec_u64_from_le_bytes(bytes.subrange(16, 24)),
            meta_offset: spec_u64_from_le_bytes(bytes.subrange(24, 32)),
            expansion_offset: spec_u64_from_le_bytes(bytes.subrange(32, 40)),
            string_pool_offset: spec_u64_from_le_bytes(bytes.subrange(40, 48)),
            string_pool_size: spec_u64_from_le_bytes(bytes.subrange(48, 56)),
            asset_count: spec_u64_from_le_bytes(bytes.subrange(56, 64)),
            page_count: spec_u64_from_le_bytes(bytes.subrange(64, 72)),
            section_count: spec_u64_from_le_bytes(bytes.subrange(72, 80)),
            meta_count: spec_u64_from_le_bytes(bytes.subrange(80, 88)),
            expansion_count: spec_u64_from_le_bytes(bytes.subrange(88, 96)),
            flags: spec_u32_from_le_bytes(bytes.subrange(96, 100)),
            footer_len: bytes[100],
            padding: array_of::<u8, 3>(bytes.subrange(101, 104)),
            footer_hash: spec_u64_from_le_bytes(bytes.subrange(104, 112)),
            reserved: array_of::<u8, 144>(bytes.subrange(112, 256)),
        }
    }

    proof fn lemma_from_bytes(bytes: Seq<u8>) {
        lemma_le_total();
        let r = Self::from_bytes(bytes);
        let upto0 = spec_u64_to_le_bytes(r.asset_offset);
        assert(upto0 == bytes.subrange(0, 8));
        let upto1 = upto0 + spec_u64_to_le_bytes(r.page_offset);
        lemma_join(bytes, 0, 8, 16);
        assert(upto1 == bytes.subrange(0, 16));
        let upto2 = upto1 + spec_u64_to_le_bytes(r.section_offset);
        lemma_join(bytes, 0, 16, 24);
        assert(upto2 == bytes.subrange(0, 24));
        let upto3 = upto2 + spec_u64_to_le_bytes(r.meta_offset);
        lemma_join(bytes, 0, 24, 32);
        assert(upto3 == bytes.subrange(0, 32));
        let upto4 = upto3 + spec_u64_to_le_bytes(r.expansion_offset);
        lemma_join(bytes, 0, 32, 40);
        assert(upto4 == bytes.subrange(0, 40));
        let upto5 = upto4 + spec_u64_to_le_bytes(r.string_pool_offset);
        lemma_join(bytes, 0, 40, 48);
        assert(upto5 == bytes.subrange(0, 48));
        let upto6 = upto5 + spec_u64_to_le_bytes(r.string_pool_size);
        lemma_join(bytes, 0, 48, 56);
        assert(upto6 == bytes.subrange(0, 56));
        let upto7 = upto6 + spec_u64_to_le_bytes(r.asset_count);
        lemma_join(bytes, 0, 56, 64);
        assert(upto7 == bytes.subrange(0, 64));
        let upto8 = upto7 + spec_u64_to_le_bytes(r.page_count);
        lemma_join(bytes, 0, 64, 72);
        assert(upto8 == bytes.subrange(0, 72));
        let upto9 = upto8 + spec_u64_to_le_bytes(r.section_count);
        lemma_join(bytes, 0, 72, 80);
        assert(upto9 == bytes.subrange(0, 80));
        let upto10 = upto9 + spec_u64_to_le_bytes(r.meta_count);
        lemma_join(bytes, 0, 80, 88);
        assert(upto10 == bytes.subrange(0, 88));
        let upto11 = upto10 + spec_u64_to_le_bytes(r.expansion_count);
        lemma_join(bytes, 0, 88, 96);
        assert(upto11 == bytes.subrange(0, 96));
        let upto12 = upto11 + spec_u32_to_le_bytes(r.flags);
        lemma_join(bytes, 0, 96, 100);
        assert(upto12 == bytes.subrange(0, 100));
        assert(seq![r.footer_len] =~= bytes.subrange(100, 101));
        let upto13 = upto12 + seq![r.footer_len];
        lemma_join(bytes, 0, 100, 101);
        assert(upto13 == bytes.subrange(0, 101));
        lemma_array_of::<u8, 3>(bytes.subrange(101, 104));
        let upto14 = upto13 + r.padding@;
        lemma_join(bytes, 0, 101, 104);
        assert(upto14 == bytes.subrange(0, 104));
        let upto15 = upto14 + spec_u64_to_le_bytes(r.footer_hash);
        lemma_join(bytes, 0, 104, 112);
        assert(upto15 == bytes.subrange(0, 112));
        lemma_array_of::<u8, 144>(bytes.subrange(112, 256));
        let upto16 = upto15 + r.reserved@;
        lemma_join(bytes, 0, 112, 256);
        assert(upto16 == bytes.subrange(0, 256));
        assert(bytes.subrange(0, 256) =~= bytes);
    }

    proof fn lemma_size(&self) {
        lemma_le_injective();
    }

    proof fn lemma_injective(&self, other: &Self) {
        lemma_le_injective();
        let a0 = spec_u64_to_le_bytes(self.asset_offset);
        let b0 = spec_u64_to_le_bytes(other.asset_offset);
        let a1 = a0 + spec_u64_to_le_bytes(self.page_offset);
        let b1 = b0 + spec_u64_to_le_bytes(other.page_offset);
        let a2 = a1 + spec_u64_to_le_bytes(self.section_offset);
        let b2 = b1 + spec_u64_to_le_bytes(other.section_offset);
        let a3 = a2 + spec_u64_to_le_bytes(self.meta_offset);
        let b3 = b2 + spec_u64_to_le_bytes(other.meta_offset);
        let a4 = a3 + spec_u64_to_le_bytes(self.expansion_offset);
        let b4 = b3 + spec_u64_to_le_bytes(other.expansion_offset);
        let a5 = a4 + spec_u64_to_le_bytes(self.string_pool_offset);
        let b5 = b4 + spec_u64_to_le_bytes(other.string_pool_offset);
        let a6 = a5 + spec_u64_to_le_bytes(self.string_pool_size);
        let b6 = b5 + spec_u64_to_le_bytes(other.string_pool_size);
        let a7 = a6 + spec_u64_to_le_bytes(self.asset_count);
        let b7 = b6 + spec_u64_to_le_bytes(other.asset_count);
        let a8 = a7 + spec_u64_to_le_bytes(self.page_count);
        let b8 = b7 + spec_u64_to_le_bytes(other.page_count);
        let a9 = a8 + spec_u64_to_le_bytes(self.section_count);
        let b9 = b8 + spec_u64_to_le_bytes(other.section_count);
        let a10 = a9 + spec_u64_to_le_bytes(self.meta_count);
        let b10 = b9 + spec_u64_to_le_bytes(other.meta_count);
        let a11 = a10 + spec_u64_to_le_bytes(self.expansion_count);
        let b11 = b10 + spec_u64_to_le_bytes(other.expansion_count);
        let a12 = a11 + spec_u32_to_le_bytes(self.flags);
        let b12 = b11 + spec_u32_to_le_bytes(other.flags);
        let a13 = a12 + seq![self.footer_len];
        let b13 = b12 + seq![other.footer_len];
        let a14 = a13 + self.padding@;
        let b14 = b13 + other.padding@;
        let a15 = a14 + spec_u64_to_le_bytes(self.footer_hash);
        let b15 = b14 + spec_u64_to_le_bytes(other.footer_hash);
        let a16 = a15 + self.reserved@;
        let b16 = b15 + other.reserved@;
        lemma_split(
            a15,
            self.reserved@,
            b15,
            other.reserved@,
        );
        lemma_split(
            a14,
            spec_u64_to_le_bytes(self.footer_hash),
            b14,
            spec_u64_to_le_bytes(other.footer_hash),
        );
        lemma_split(
            a13,
            self.padding@,
            b13,
            other.padding@,
        );
        lemma_split(
            a12,
            seq![self.footer_len],
            b12,
            seq![other.footer_len],
        );
        lemma_split(
            a11,
            spec_u32_to_le_bytes(self.flags),
            b11,
            spec_u32_to_le_bytes(other.flags),
        );
        lemma_split(
            a10,
            spec_u64_to_le_bytes(self.expansion_count),
            b10,
            spec_u64_to_le_bytes(other.expansion_count),
        );
        lemma_split(
            a9,
            spec_u64_to_le_bytes(self.meta_count),
            b9,
            spec_u64_to_le_bytes(other.meta_count),
        );
        lemma_split(
            a8,
            spec_u64_to_le_bytes(self.section_count),
            b8,
            spec_u64_to_le_bytes(other.section_count),
        );
        lemma_split(
            a7,
            spec_u64_to_le_bytes(self.page_count),
            b7,
            spec_u64_to_le_bytes(other.page_count),
        );
        lemma_split(
            a6,
            spec_u64_to_le_bytes(self.asset_count),
            b6,
            spec_u64_to_le_bytes(other.asset_count),
        );
        lemma_split(
            a5,
            spec_u64_to_le_bytes(self.string_pool_size),
            b5,
            spec_u64_to_le_bytes(other.string_pool_size),
        );
        lemma_split(
            a4,
            spec_u64_to_le_bytes(self.string_pool_offset),
            b4,
            spec_u64_to_le_bytes(other.string_pool_offset),
        );
        lemma_split(
            a3,
            spec_u64_to_le_bytes(self.expansion_offset),
            b3,
            spec_u64_to_le_bytes(other.expansion_offset),
        );
        lemma_split(
            a2,
            spec_u64_to_le_bytes(self.meta_offset),
            b2,
            spec_u64_to_le_bytes(other.meta_offset),
        );
        lemma_split(
            a1,
            spec_u64_to_le_bytes(self.section_offset),
            b1,
            spec_u64_to_le_bytes(other.section_offset),
        );
        lemma_split(
            a0,
            spec_u64_to_le_bytes(self.page_offset),
            b0,
            spec_u64_to_le_bytes(other.page_offset),
        );
        assert(seq![self.footer_len][0] == seq![other.footer_len][0]);
        assert(self.padding =~= other.padding);
        assert(self.reserved =~= other.reserved);
    }

    fn size() -> (n: usize) {
        FOOTER_SIZE
    }

    fn write(&self, out: &mut Vec<u8>) {
        put_u64(out, self.asset_offset);
        put_u64(out, self.page_offset);
        put_u64(out, self.section_offset);
        put_u64(out, self.meta_offset);
        put_u64(out, self.expansion_offset);
        put_u64(out, self.string_pool_offset);
        put_u64(out, self.string_pool_size);
        put_u64(out, self.asset_count);
        put_u64(out, self.page_count);
        put_u64(out, self.section_count);
        put_u64(out, self.meta_count);
        put_u64(out, self.expansion_count);
        put_u32(out, self.flags);
        put_u8(out, self.footer_len);
        put_bytes(out, self.padding.as_slice());
        put_u64(out, self.footer_hash);
        put_bytes(out, self.reserved.as_slice());
        assert(out@ =~= old(out)@ + self.to_bytes());
    }

    fn read(data: &[u8], off: usize) -> (r: Self) {
        proof {
            assert(data.len() == data@.len());
        }
        let asset_offset: u64 = get_u64(data, off);
        let page_offset: u64 = get_u64(data, off + 8);
        let section_offset: u64 = get_u64(data, off + 16);
        let meta_offset: u64 = get_u64(data, off + 24);
        let expansion_offset: u64 = get_u64(data, off + 32);
        let string_pool_offset: u64 = get_u64(data, off + 40);
        let string_pool_size: u64 = get_u64(data, off + 48);
        let asset_count: u64 = get_u64(data, off + 56);
        let page_count: u64 = get_u64(data, off + 64);
        let section_count: u64 = get_u64(data, off + 72);
        let meta_count: u64 = get_u64(data, off + 80);
        let expansion_count: u64 = get_u64(data, off + 88);
        let flags: u32 = get_u32(data, off + 96);
        let footer_len: u8 = get_u8(data, off + 100);
        let padding: [u8; 3] = get_array(data, off + 101);
        let footer_hash: u64 = get_u64(data, off + 104);
        let reserved: [u8; 144] = get_array(data, off + 112);
        let r = BbfFooter {
            asset_offset,
            page_offset,
            section_offset,
            meta_offset,
            expansion_offset,
            string_pool_offset,
            string_pool_size,
            asset_count,
            page_count,
            section_count,
            meta_count,
            expansion_count,
            flags,
            footer_len,
            padding,
            footer_hash,
            reserved,
        };
        proof {
            let s = data@;
            let o = off as int;
            let upto0 = spec_u64_to_le_bytes(r.asset_offset);
            assert(upto0 == s.subrange(o, o + 8));
            let upto1 = upto0 + spec_u64_to_le_bytes(r.page_offset);
            lemma_join(s, o, o + 8, o + 16);
            assert(upto1 == s.subrange(o, o + 16));
            let upto2 = upto1 + spec_u64_to_le_bytes(r.section_offset);
            lemma_join(s, o, o + 16, o + 24);
            assert(upto2 == s.subrange(o, o + 24));
            let upto3 = upto2 + spec_u64_to_le_bytes(r.meta_offset);
            lemma_join(s, o, o + 24, o + 32);
            assert(upto3 == s.subrange(o, o + 32));
            let upto4 = upto3 + spec_u64_to_le_bytes(r.expansion_offset);
            lemma_join(s, o, o + 32, o + 40);
            assert(upto4 == s.subrange(o, o + 40));
            let upto5 = upto4 + spec_u64_to_le_bytes(r.string_pool_offset);
            lemma_join(s, o, o + 40, o + 48);
            assert(upto5 == s.subrange(o, o + 48));
            let upto6 = upto5 + spec_u64_to_le_bytes(r.string_pool_size);
            lemma_join(s, o, o + 48, o + 56);
            assert(upto6 == s.subrange(o, o + 56));
            let upto7 = upto6 + spec_u64_to_le_bytes(r.asset_count);
            lemma_join(s, o, o + 56, o + 64);
            assert(upto7 == s.subrange(o, o + 64));
            let upto8 = upto7 + spec_u64_to_le_bytes(r.page_count);
            lemma_join(s, o, o + 64, o + 72);
            assert(upto8 == s.subrange(o, o + 72));
            let upto9 = upto8 + spec_u64_to_le_bytes(r.section_count);
            lemma_join(s, o, o + 72, o + 80);
            assert(upto9 == s.subrange(o, o + 80));
            let upto10 = upto9 + spec_u64_to_le_bytes(r.meta_count);
            lemma_join(s, o, o + 80, o + 88);
            assert(upto10 == s.subrange(o, o + 88));
            let upto11 = upto10 + spec_u64_to_le_bytes(r.expansion_count);
            lemma_join(s, o, o + 88, o + 96);
            assert(upto11 == s.subrange(o, o + 96));
            let upto12 = upto11 + spec_u32_to_le_bytes(r.flags);
            lemma_join(s, o, o + 96, o + 100);
            assert(upto12 == s.subrange(o, o + 100));
            let upto13 = upto12 + seq![r.footer_len];
            lemma_join(s, o, o + 100, o + 101);
            assert(upto13 == s.subrange(o, o + 101));
            let upto14 = upto13 + r.padding@;
            lemma_join(s, o, o + 101, o + 104);
            assert(upto14 == s.subrange(o, o + 104));
            let upto15 = upto14 + spec_u64_to_le_bytes(r.footer_hash);
            lemma_join(s, o, o + 104, o + 112);
            assert(upto15 == s.subrange(o, o + 112));
            let upto16 = upto15 + r.reserved@;
            lemma_join(s, o, o + 112, o + 256);
            assert(upto16 == s.subrange(o, o + 256));
        }
        r
    }
}

} // verus!
