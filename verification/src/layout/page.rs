//! The byte layout of a page entry.

use vstd::prelude::*;
use vstd::bytes::{
    spec_u32_from_le_bytes, spec_u32_to_le_bytes, spec_u64_from_le_bytes, spec_u64_to_le_bytes,
};
use crate::bytes::{
    array_of, get_array, get_u32, get_u64, lemma_array_of, lemma_join, lemma_le_injective,
    lemma_le_total, lemma_split, put_bytes, put_u32, put_u64,
};
use crate::layout::Record;
use crate::types::{PageEntry, PAGE_ENTRY_SIZE};

verus! {

impl Record for PageEntry {
    open spec fn spec_size() -> nat {
        PAGE_ENTRY_SIZE as nat
    }

    open spec fn to_bytes(&self) -> Seq<u8> {
        spec_u64_to_le_bytes(self.asset_index)
            + spec_u32_to_le_bytes(self.flags)
            + self.reserved@
    }

    open spec fn from_bytes(bytes: Seq<u8>) -> Self {
        PageEntry {
            asset_index: spec_u64_from_le_bytes(bytes.subrange(0, 8)),
            flags: spec_u32_from_le_bytes(bytes.subrange(8, 12)),
            reserved: array_of::<u8, 4>(bytes.subrange(12, 16)),
        }
    }

    proof fn lemma_from_bytes(bytes: Seq<u8>) {
        lemma_le_total();
        let r = Self::from_bytes(bytes);
        let upto0 = spec_u64_to_le_bytes(r.asset_index);
        assert(upto0 == bytes.subrange(0, 8));
        let upto1 = upto0 + spec_u32_to_le_bytes(r.flags);
        lemma_join(bytes, 0, 8, 12);
        assert(upto1 == bytes.subrange(0, 12));
        lemma_array_of::<u8, 4>(bytes.subrange(12, 16));
        let upto2 = upto1 + r.reserved@;
        lemma_join(bytes, 0, 12, 16);
        assert(upto2 == bytes.subrange(0, 16));
        assert(bytes.subrange(0, 16) =~= bytes);
    }

    proof fn lemma_size(&self) {
        lemma_le_injective();
    }

    proof fn lemma_injective(&self, other: &Self) {
        lemma_le_injective();
        let a0 = spec_u64_to_le_bytes(self.asset_index);
        let b0 = spec_u64_to_le_bytes(other.asset_index);
        let a1 = a0 + spec_u32_to_le_bytes(self.flags);
        let b1 = b0 + spec_u32_to_le_bytes(other.flags);
        let a2 = a1 + self.reserved@;
        let b2 = b1 + other.reserved@;
        lemma_split(
            a1,
            self.reserved@,
            b1,
            other.reserved@,
        );
        lemma_split(
            a0,
            spec_u32_to_le_bytes(self.flags),
            b0,
            spec_u32_to_le_bytes(other.flags),
        );
        assert(self.reserved =~= other.reserved);
    }

    fn size() -> (n: usize) {
        PAGE_ENTRY_SIZE
    }

    fn write(&self, out: &mut Vec<u8>) {
        put_u64(out, self.asset_index);
        put_u32(out, self.flags);
        put_bytes(out, self.reserved.as_slice());
        assert(out@ =~= old(out)@ + self.to_bytes());
    }

    fn read(data: &[u8], off: usize) -> (r: Self) {
        proof {
            assert(data.len() == data@.len());
        }
        let asset_index: u64 = get_u64(data, off);
        let flags: u32 = get_u32(data, off + 8);
        let reserved: [u8; 4] = get_array(data, off + 12);
        let r = PageEntry {
            asset_index,
            flags,
            reserved,
        };
        proof {
            let s = data@;
            let o = off as int;
            let upto0 = spec_u64_to_le_bytes(r.asset_index);
            assert(upto0 == s.subrange(o, o + 8));
            let upto1 = upto0 + spec_u32_to_le_bytes(r.flags);
            lemma_join(s, o, o + 8, o + 12);
            assert(upto1 == s.subrange(o, o + 12));
            let upto2 = upto1 + r.reserved@;
            lemma_join(s, o, o + 12, o + 16);
            assert(upto2 == s.subrange(o, o + 16));
        }
        r
    }
}

} // verus!
