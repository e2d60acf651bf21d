//! The byte layout of a section.

use vstd::prelude::*;
use vstd::bytes::{spec_u64_from_le_bytes, spec_u64_to_le_bytes};
use crate::bytes::{
    array_of, get_array, get_u64, lemma_array_of, lemma_join, lemma_le_injective, lemma_le_total,
    lemma_split, put_bytes, put_u64,
};
use crate::layout::Record;
use crate::types::{Section, SECTION_SIZE};

verus! {

impl Record for Section {
    open spec fn spec_size() -> nat {
        SECTION_SIZE as nat
    }

    open spec fn to_bytes(&self) -> Seq<u8> {
        spec_u64_to_le_bytes(self.section_title_offset)
            + spec_u64_to_le_bytes(self.section_start_index)
            + spec_u64_to_le_bytes(self.section_parent_offset)
            + self.reserved@
    }

    open spec fn from_bytes(bytes: Seq<u8>) -> Self {
        Section {
            section_title_offset: spec_u64_from_le_bytes(bytes.subrange(0, 8)),
            section_start_index: spec_u64_from_le_bytes(bytes.subrange(8, 16)),
            section_parent_offset: spec_u64_from_le_bytes(bytes.subrange(16, 24)),
            reserved: array_of::<u8, 8>(bytes.subrange(24, 32)),
        }
    }

    proof fn lemma_from_bytes(bytes: Seq<u8>) {
        lemma_le_total();
        let r = Self::from_bytes(bytes);
        let upto0 = spec_u64_to_le_bytes(r.section_title_offset);
        assert(upto0 == bytes.subrange(0, 8));
        let upto1 = upto0 + spec_u64_to_le_bytes(r.section_start_index);
        lemma_join(bytes, 0, 8, 16);
        assert(upto1 == bytes.subrange(0, 16));
        let upto2 = upto1 + spec_u64_to_le_bytes(r.section_parent_offset);
        lemma_join(bytes, 0, 16, 24);
        assert(upto2 == bytes.subrange(0, 24));
        lemma_array_of::<u8, 8>(bytes.subrange(24, 32));
        let upto3 = upto2 + r.reserved@;
        lemma_join(bytes, 0, 24, 32);
        assert(upto3 == bytes.subrange(0, 32));
        assert(bytes.subrange(0, 32) =~= bytes);
    }

    proof fn lemma_size(&self) {
        lemma_le_injective();
    }

    proof fn lemma_injective(&self, other: &Self) {
        lemma_le_injective();
        let a0 = spec_u64_to_le_bytes(self.section_title_offset);
        let b0 = spec_u64_to_le_bytes(other.section_title_offset);
        let a1 = a0 + spec_u64_to_le_bytes(self.section_start_index);
        let b1 = b0 + spec_u64_to_le_bytes(other.section_start_index);
        let a2 = a1 + spec_u64_to_le_bytes(self.section_parent_offset);
        let b2 = b1 + spec_u64_to_le_bytes(other.section_parent_offset);
        let a3 = a2 + self.reserved@;
        let b3 = b2 + other.reserved@;
        lemma_split(
            a2,
            self.reserved@,
            b2,
            other.reserved@,
        );
        lemma_split(
            a1,
            spec_u64_to_le_bytes(self.section_parent_offset),
            b1,
            spec_u64_to_le_bytes(other.section_parent_offset),
        );
        lemma_split(
            a0,
            spec_u64_to_le_bytes(self.section_start_index),
            b0,
            spec_u64_to_le_bytes(other.section_start_index),
        );
        assert(self.reserved =~= other.reserved);
    }

    fn size() -> (n: usize) {
        SECTION_SIZE
    }

    fn write(&self, out: &mut Vec<u8>) {
        put_u64(out, self.section_title_offset);
        put_u64(out, self.section_start_index);
        put_u64(out, self.section_parent_offset);
        put_bytes(out, self.reserved.as_slice());
        assert(out@ =~= old(out)@ + self.to_bytes());
    }

    fn read(data: &[u8], off: usize) -> (r: Self) {
        proof {
            assert(data.len() == data@.len());
        }
        let section_title_offset: u64 = get_u64(data, off);
        let section_start_index: u64 = get_u64(data, off + 8);
        let section_parent_offset: u64 = get_u64(data, off + 16);
        let reserved: [u8; 8] = get_array(data, off + 24);
        let r = Section {
            section_title_offset,
            section_start_index,
            section_parent_offset,
            reserved,
        };
        proof {
            let s = data@;
            let o = off as int;
            let upto0 = spec_u64_to_le_bytes(r.section_title_offset);
            assert(upto0 == s.subrange(o, o + 8));
            let upto1 = upto0 + spec_u64_to_le_bytes(r.section_start_index);
            lemma_join(s, o, o + 8, o + 16);
            assert(upto1 == s.subrange(o, o + 16));
            let upto2 = upto1 + spec_u64_to_le_bytes(r.section_parent_offset);
            lemma_join(s, o, o + 16, o + 24);
            assert(upto2 == s.subrange(o, o + 24));
            let upto3 = upto2 + r.reserved@;
            lemma_join(s, o, o + 24, o + 32);
            assert(upto3 == s.subrange(o, o + 32));
        }
        r
    }
}

} // verus!
