//! The byte layout of a record of the expansion table.

use vstd::prelude::*;
use vstd::bytes::{
    spec_u32_from_le_bytes, spec_u32_to_le_bytes, spec_u64_from_le_bytes, spec_u64_to_le_bytes,
};
use crate::bytes::{
    array_of, get_array, get_u32, get_u64, lemma_array_of, lemma_join, lemma_le_injective,
    lemma_le_total, lemma_split, put_bytes, put_u32, put_u64,
};
use crate::layout::Record;
use crate::types::{Expansion, EXPANSION_SIZE};

verus! {

impl Record for Expansion {
    open spec fn spec_size() -> nat {
        EXPANSION_SIZE as nat
    }

    open spec fn to_bytes(&self) -> Seq<u8> {
        spec_u64_to_le_bytes(self.exp_reserved[0])
            + spec_u64_to_le_bytes(self.exp_reserved[1])
            + spec_u64_to_le_bytes(self.exp_reserved[2])
            + spec_u64_to_le_bytes(self.exp_reserved[3])
            + spec_u64_to_le_bytes(self.exp_reserved[4])
            + spec_u64_to_le_bytes(self.exp_reserved[5])
            + spec_u64_to_le_bytes(self.exp_reserved[6])
            + spec_u64_to_le_bytes(self.exp_reserved[7])
            + spec_u64_to_le_bytes(self.exp_reserved[8])
            + spec_u64_to_le_bytes(self.exp_reserved[9])
            + spec_u32_to_le_bytes(self.flags)
            + self.reserved@
    }

    open spec fn from_bytes(bytes: Seq<u8>) -> Self {
        Expansion {
            exp_reserved: [
                spec_u64_from_le_bytes(bytes.subrange(0, 8)),
                spec_u64_from_le_bytes(bytes.subrange(8, 16)),
                spec_u64_from_le_bytes(bytes.subrange(16, 24)),
                spec_u64_from_le_bytes(bytes.subrange(24, 32)),
                spec_u64_from_le_bytes(bytes.subrange(32, 40)),
                spec_u64_from_le_bytes(bytes.subrange(40, 48)),
                spec_u64_from_le_bytes(bytes.subrange(48, 56)),
                spec_u64_from_le_bytes(bytes.subrange(56, 64)),
                spec_u64_from_le_bytes(bytes.subrange(64, 72)),
                spec_u64_from_le_bytes(bytes.subrange(72, 80)),
            ],
            flags: spec_u32_from_le_bytes(bytes.subrange(80, 84)),
            reserved: array_of::<u8, 44>(bytes.subrange(84, 128)),
        }
    }

    proof fn lemma_from_bytes(bytes: Seq<u8>) {
        lemma_le_total();
        let r = Self::from_bytes(bytes);
        let upto0 = spec_u64_to_le_bytes(r.exp_reserved[0]);
        assert(upto0 == bytes.subrange(0, 8));
        let upto1 = upto0 + spec_u64_to_le_bytes(r.exp_reserved[1]);
        lemma_join(bytes, 0, 8, 16);
        assert(upto1 == bytes.subrange(0, 16));
        let upto2 = upto1 + spec_u64_to_le_bytes(r.exp_reserved[2]);
        lemma_join(bytes, 0, 16, 24);
        assert(upto2 == bytes.subrange(0, 24));
        let upto3 = upto2 + spec_u64_to_le_bytes(r.exp_reserved[3]);
        lemma_join(bytes, 0, 24, 32);
        assert(upto3 == bytes.subrange(0, 32));
        let upto4 = upto3 + spec_u64_to_le_bytes(r.exp_reserved[4]);
        lemma_join(bytes, 0, 32, 40);
        assert(upto4 == bytes.subrange(0, 40));
        let upto5 = upto4 + spec_u64_to_le_bytes(r.exp_reserved[5]);
        lemma_join(bytes, 0, 40, 48);
        assert(upto5 == bytes.subrange(0, 48));
        let upto6 = upto5 + spec_u64_to_le_bytes(r.exp_reserved[6]);
        lemma_join(bytes, 0, 48, 56);
        assert(upto6 == bytes.subrange(0, 56));
        let upto7 = upto6 + spec_u64_to_le_bytes(r.exp_reserved[7]);
        lemma_join(bytes, 0, 56, 64);
        assert(upto7 == bytes.subrange(0, 64));
        let upto8 = upto7 + spec_u64_to_le_bytes(r.exp_reserved[8]);
        lemma_join(bytes, 0, 64, 72);
        assert(upto8 == bytes.subrange(0, 72));
        let upto9 = upto8 + spec_u64_to_le_bytes(r.exp_reserved[9]);
        lemma_join(bytes, 0, 72, 80);
        assert(upto9 == bytes.subrange(0, 80));
        let upto10 = upto9 + spec_u32_to_le_bytes(r.flags);
        lemma_join(bytes, 0, 80, 84);
        assert(upto10 == bytes.subrange(0, 84));
        lemma_array_of::<u8, 44>(bytes.subrange(84, 128));
        let upto11 = upto10 + r.reserved@;
        lemma_join(bytes, 0, 84, 128);
        assert(upto11 == bytes.subrange(0, 128));
        assert(bytes.subrange(0, 128) =~= bytes);
    }

    proof fn lemma_size(&self) {
        lemma_le_injective();
    }

    proof fn lemma_injective(&self, other: &Self) {
        lemma_le_injective();
        let a0 = spec_u64_to_le_bytes(self.exp_reserved[0]);
        let b0 = spec_u64_to_le_bytes(other.exp_reserved[0]);
        let a1 = a0 + spec_u64_to_le_bytes(self.exp_reserved[1]);
        let b1 = b0 + spec_u64_to_le_bytes(other.exp_reserved[1]);
        let a2 = a1 + spec_u64_to_le_bytes(self.exp_reserved[2]);
        let b2 = b1 + spec_u64_to_le_bytes(other.exp_reserved[2]);
        let a3 = a2 + spec_u64_to_le_bytes(self.exp_reserved[3]);
        let b3 = b2 + spec_u64_to_le_bytes(other.exp_reserved[3]);
        let a4 = a3 + spec_u64_to_le_bytes(self.exp_reserved[4]);
        let b4 = b3 + spec_u64_to_le_bytes(other.exp_reserved[4]);
        let a5 = a4 + spec_u64_to_le_bytes(self.exp_reserved[5]);
        let b5 = b4 + spec_u64_to_le_bytes(other.exp_reserved[5]);
        let a6 = a5 + spec_u64_to_le_bytes(self.exp_reserved[6]);
        let b6 = b5 + spec_u64_to_le_bytes(other.exp_reserved[6]);
        let a7 = a6 + spec_u64_to_le_bytes(self.exp_reserved[7]);
        let b7 = b6 + spec_u64_to_le_bytes(other.exp_reserved[7]);
        let a8 = a7 + spec_u64_to_le_bytes(self.exp_reserved[8]);
        let b8 = b7 + spec_u64_to_le_bytes(other.exp_reserved[8]);
        let a9 = a8 + spec_u64_to_le_bytes(self.exp_reserved[9]);
        let b9 = b8 + spec_u64_to_le_bytes(other.exp_reserved[9]);
        let a10 = a9 + spec_u32_to_le_bytes(self.flags);
        let b10 = b9 + spec_u32_to_le_bytes(other.flags);
        let a11 = a10 + self.reserved@;
        let b11 = b10 + other.reserved@;
        lemma_split(
            a10,
            self.reserved@,
            b10,
            other.reserved@,
        );
        lemma_split(
            a9,
            spec_u32_to_le_bytes(self.flags),
            b9,
            spec_u32_to_le_bytes(other.flags),
        );
        lemma_split(
            a8,
            spec_u64_to_le_bytes(self.exp_reserved[9]),
            b8,
            spec_u64_to_le_bytes(other.exp_reserved[9]),
        );
        lemma_split(
            a7,
            spec_u64_to_le_bytes(self.exp_reserved[8]),
            b7,
            spec_u64_to_le_bytes(other.exp_reserved[8]),
        );
        lemma_split(
            a6,
            spec_u64_to_le_bytes(self.exp_reserved[7]),
            b6,
            spec_u64_to_le_bytes(other.exp_reserved[7]),
        );
        lemma_split(
            a5,
            spec_u64_to_le_bytes(self.exp_reserved[6]),
            b5,
            spec_u64_to_le_bytes(other.exp_reserved[6]),
        );
        lemma_split(
            a4,
            spec_u64_to_le_bytes(self.exp_reserved[5]),
            b4,
            spec_u64_to_le_bytes(other.exp_reserved[5]),
        );
        lemma_split(
            a3,
            spec_u64_to_le_bytes(self.exp_reserved[4]),
            b3,
            spec_u64_to_le_bytes(other.exp_reserved[4]),
        );
        lemma_split(
            a2,
            spec_u64_to_le_bytes(self.exp_reserved[3]),
            b2,
            spec_u64_to_le_bytes(other.exp_reserved[3]),
        );
        lemma_split(
            a1,
            spec_u64_to_le_bytes(self.exp_reserved[2]),
            b1,
            spec_u64_to_le_bytes(other.exp_reserved[2]),
        );
        lemma_split(
            a0,
            spec_u64_to_le_bytes(self.exp_reserved[1]),
            b0,
            spec_u64_to_le_bytes(other.exp_reserved[1]),
        );
        assert(self.exp_reserved =~= other.exp_reserved);
        assert(self.reserved =~= other.reserved);
    }

    fn size() -> (n: usize) {
        EXPANSION_SIZE
    }

    fn write(&self, out: &mut Vec<u8>) {
        put_u64(out, self.exp_reserved[0]);
        put_u64(out, self.exp_reserved[1]);
        put_u64(out, self.exp_reserved[2]);
        put_u64(out, self.exp_reserved[3]);
        put_u64(out, self.exp_reserved[4]);
        put_u64(out, self.exp_reserved[5]);
        put_u64(out, self.exp_reserved[6]);
        put_u64(out, self.exp_reserved[7]);
        put_u64(out, self.exp_reserved[8]);
        put_u64(out, self.exp_reserved[9]);
        put_u32(out, self.flags);
        put_bytes(out, self.reserved.as_slice());
        assert(out@ =~= old(out)@ + self.to_bytes());
    }

    fn read(data: &[u8], off: usize) -> (r: Self) {
        proof {
            assert(data.len() == data@.len());
        }
        let mut exp_reserved: [u64; 10] = [0u64; 10];
        exp_reserved[0] = get_u64(data, off);
        exp_reserved[1] = get_u64(data, off + 8);
        exp_reserved[2] = get_u64(data, off + 16);
        exp_reserved[3] = get_u64(data, off + 24);
        exp_reserved[4] = get_u64(data, off + 32);
        exp_reserved[5] = get_u64(data, off + 40);
        exp_reserved[6] = get_u64(data, off + 48);
        exp_reserved[7] = get_u64(data, off + 56);
        exp_reserved[8] = get_u64(data, off + 64);
        exp_reserved[9] = get_u64(data, off + 72);
        let flags: u32 = get_u32(data, off + 80);
        let reserved: [u8; 44] = get_array(data, off + 84);
        let r = Expansion {
            exp_reserved,
            flags,
            reserved,
        };
        proof {
            let s = data@;
            let o = off as int;
            let upto0 = spec_u64_to_le_bytes(r.exp_reserved[0]);
            assert(upto0 == s.subrange(o, o + 8));
            let upto1 = upto0 + spec_u64_to_le_bytes(r.exp_reserved[1]);
            lemma_join(s, o, o + 8, o + 16);
            assert(upto1 == s.subrange(o, o + 16));
            let upto2 = upto1 + spec_u64_to_le_bytes(r.exp_reserved[2]);
            lemma_join(s, o, o + 16, o + 24);
            assert(upto2 == s.subrange(o, o + 24));
            let upto3 = upto2 + spec_u64_to_le_bytes(r.exp_reserved[3]);
            lemma_join(s, o, o + 24, o + 32);
            assert(upto3 == s.subrange(o, o + 32));
            let upto4 = upto3 + spec_u64_to_le_bytes(r.exp_reserved[4]);
            lemma_join(s, o, o + 32, o + 40);
            assert(upto4 == s.subrange(o, o + 40));
            let upto5 = upto4 + spec_u64_to_le_bytes(r.exp_reserved[5]);
            lemma_join(s, o, o + 40, o + 48);
            assert(upto5 == s.subrange(o, o + 48));
            let upto6 = upto5 + spec_u64_to_le_bytes(r.exp_reserved[6]);
            lemma_join(s, o, o + 48, o + 56);
            assert(upto6 == s.subrange(o, o + 56));
            let upto7 = upto6 + spec_u64_to_le_bytes(r.exp_reserved[7]);
            lemma_join(s, o, o + 56, o + 64);
            assert(upto7 == s.subrange(o, o + 64));
            let upto8 = upto7 + spec_u64_to_le_bytes(r.exp_reserved[8]);
            lemma_join(s, o, o + 64, o + 72);
            assert(upto8 == s.subrange(o, o + 72));
            let upto9 = upto8 + spec_u64_to_le_bytes(r.exp_reserved[9]);
            lemma_join(s, o, o + 72, o + 80);
            assert(upto9 == s.subrange(o, o + 80));
            let upto10 = upto9 + spec_u32_to_le_bytes(r.flags);
            lemma_join(s, o, o + 80, o + 84);
            assert(upto10 == s.subrange(o, o + 84));
            let upto11 = upto10 + r.reserved@;
            lemma_join(s, o, o + 84, o + 128);
            assert(upto11 == s.subrange(o, o + 128));
        }
        r
    }
}

} // verus!
