//! The byte layout of the header.

use vstd::prelude::*;
use vstd::bytes::{
    spec_u16_from_le_bytes, spec_u16_to_le_bytes, spec_u32_from_le_bytes, spec_u32_to_le_bytes,
    spec_u64_from_le_bytes, spec_u64_to_le_bytes,
};
use crate::bytes::{
    array_of, get_array, get_u16, get_u32, get_u64, get_u8, lemma_array_of, lemma_join,
    lemma_le_injective, lemma_le_total, lemma_split, put_bytes, put_u16, put_u32, put_u64, put_u8,
};
use crate::layout::Record;
use crate::types::{BbfHeader, HEADER_SIZE};

verus! {

impl Record for BbfHeader {
    open spec fn spec_size() -> nat {
        HEADER_SIZE as nat
    }

    open spec fn to_bytes(&self) -> Seq<u8> {
        self.magic@
            + spec_u16_to_le_bytes(self.version)
            + spec_u16_to_le_bytes(self.header_len)
            + spec_u32_to_le_bytes(self.flags)
            + seq![self.alignment]
            + seq![self.ream_size]
            + spec_u16_to_le_bytes(self.reserved_extra)
            + spec_u64_to_le_bytes(self.footer_offset)
            + self.reserved@
    }

    open spec fn from_bytes(bytes: Seq<u8>) -> Self {
        BbfHeader {
            magic: array_of::<u8, 4>(bytes.subrange(0, 4)),
            version: spec_u16_from_le_bytes(bytes.subrange(4, 6)),
            header_len: spec_u16_from_le_bytes(bytes.subrange(6, 8)),
            flags: spec_u32_from_le_bytes(bytes.subrange(8, 12)),
            alignment: bytes[12],
            ream_size: bytes[13],
            reserved_extra: spec_u16_from_le_bytes(bytes.subrange(14, 16)),
            footer_offset: spec_u64_from_le_bytes(bytes.subrange(16, 24)),
            reserved: array_of::<u8, 40>(bytes.subrange(24, 64)),
        }
    }

    proof fn lemma_from_bytes(bytes: Seq<u8>) {
        lemma_le_total();
        let r = Self::from_bytes(bytes);
        lemma_array_of::<u8, 4>(bytes.subrange(0, 4));
        let upto0 = r.magic@;
        assert(upto0 == bytes.subrange(0, 4));
        let upto1 = upto0 + spec_u16_to_le_bytes(r.version);
        lemma_join(bytes, 0, 4, 6);
        assert(upto1 == bytes.subrange(0, 6));
        let upto2 = upto1 + spec_u16_to_le_bytes(r.header_len);
        lemma_join(bytes, 0, 6, 8);
        assert(upto2 == bytes.subrange(0, 8));
        let upto3 = upto2 + spec_u32_to_le_bytes(r.flags);
        lemma_join(bytes, 0, 8, 12);
        assert(upto3 == bytes.subrange(0, 12));
        assert(seq![r.alignment] =~= bytes.subrange(12, 13));
        let upto4 = upto3 + seq![r.alignment];
        lemma_join(bytes, 0, 12, 13);
        assert(upto4 == bytes.subrange(0, 13));
        assert(seq![r.ream_size] =~= bytes.subrange(13, 14));
        let upto5 = upto4 + seq![r.ream_size];
        lemma_join(bytes, 0, 13, 14);
        assert(upto5 == bytes.subrange(0, 14));
        let upto6 = upto5 + spec_u16_to_le_bytes(r.reserved_extra);
        lemma_join(bytes, 0, 14, 16);
        assert(upto6 == bytes.subrange(0, 16));
        let upto7 = upto6 + spec_u64_to_le_bytes(r.footer_offset);
        lemma_join(bytes, 0, 16, 24);
        assert(upto7 == bytes.subrange(0, 24));
        lemma_array_of::<u8, 40>(bytes.subrange(24, 64));
        let upto8 = upto7 + r.reserved@;
        lemma_join(bytes, 0, 24, 64);
        assert(upto8 == bytes.subrange(0, 64));
        assert(bytes.subrange(0, 64) =~= bytes);
    }

    proof fn lemma_size(&self) {
        lemma_le_injective();
    }

    proof fn lemma_injective(&self, other: &Self) {
        lemma_le_injective();
        let a0 = self.magic@;
        let b0 = other.magic@;
        let a1 = a0 + spec_u16_to_le_bytes(self.version);
        let b1 = b0 + spec_u16_to_le_bytes(other.version);
        let a2 = a1 + spec_u16_to_le_bytes(self.header_len);
        let b2 = b1 + spec_u16_to_le_bytes(other.header_len);
        let a3 = a2 + spec_u32_to_le_bytes(self.flags);
        let b3 = b2 + spec_u32_to_le_bytes(other.flags);
        let a4 = a3 + seq![self.alignment];
        let b4 = b3 + seq![other.alignment];
        let a5 = a4 + seq![self.ream_size];
        let b5 = b4 + seq![other.ream_size];
        let a6 = a5 + spec_u16_to_le_bytes(self.reserved_extra);
        let b6 = b5 + spec_u16_to_le_bytes(other.reserved_extra);
        let a7 = a6 + spec_u64_to_le_bytes(self.footer_offset);
        let b7 = b6 + spec_u64_to_le_bytes(other.footer_offset);
        let a8 = a7 + self.reserved@;
        let b8 = b7 + other.reserved@;
        lemma_split(
            a7,
            self.reserved@,
            b7,
            other.reserved@,
        );
        lemma_split(
            a6,
            spec_u64_to_le_bytes(self.footer_offset),
            b6,
            spec_u64_to_le_bytes(other.footer_offset),
        );
        lemma_split(
            a5,
            spec_u16_to_le_bytes(self.reserved_extra),
            b5,
            spec_u16_to_le_bytes(other.reserved_extra),
        );
        lemma_split(
            a4,
            seq![self.ream_size],
            b4,
            seq![other.ream_size],
        );
        lemma_split(
            a3,
            seq![self.alignment],
            b3,
            seq![other.alignment],
        );
        lemma_split(
            a2,
            spec_u32_to_le_bytes(self.flags),
            b2,
            spec_u32_to_le_bytes(other.flags),
        );
        lemma_split(
            a1,
            spec_u16_to_le_bytes(self.header_len),
            b1,
            spec_u16_to_le_bytes(other.header_len),
        );
        lemma_split(
            a0,
            spec_u16_to_le_bytes(self.version),
            b0,
            spec_u16_to_le_bytes(other.version),
        );
        assert(self.magic =~= other.magic);
        assert(seq![self.alignment][0] == seq![other.alignment][0]);
        assert(seq![self.ream_size][0] == seq![other.ream_size][0]);
        assert(self.reserved =~= other.reserved);
    }

    fn size() -> (n: usize) {
        HEADER_SIZE
    }

    fn write(&self, out: &mut Vec<u8>) {
        put_bytes(out, self.magic.as_slice());
        put_u16(out, self.version);
        put_u16(out, self.header_len);
        put_u32(out, self.flags);
        put_u8(out, self.alignment);
        put_u8(out, self.ream_size);
        put_u16(out, self.reserved_extra);
        put_u64(out, self.footer_offset);
        put_bytes(out, self.reserved.as_slice());
        assert(out@ =~= old(out)@ + self.to_bytes());
    }

    fn read(data: &[u8], off: usize) -> (r: Self) {
        proof {
            assert(data.len() == data@.len());
        }
        let magic: [u8; 4] = get_array(data, off);
        let version: u16 = get_u16(data, off + 4);
        let header_len: u16 = get_u16(data, off + 6);
        let flags: u32 = get_u32(data, off + 8);
        let alignment: u8 = get_u8(data, off + 12);
        let ream_size: u8 = get_u8(data, off + 13);
        let reserved_extra: u16 = get_u16(data, off + 14);
        let footer_offset: u64 = get_u64(data, off + 16);
        let reserved: [u8; 40] = get_array(data, off + 24);
        let r = BbfHeader {
            magic,
            version,
            header_len,
            flags,
            alignment,
            ream_size,
            reserved_extra,
            footer_offset,
            reserved,
        };
        proof {
            let s = data@;
            let o = off as int;
            let upto0 = r.magic@;
            assert(upto0 == s.subrange(o, o + 4));
            let upto1 = upto0 + spec_u16_to_le_bytes(r.version);
            lemma_join(s, o, o + 4, o + 6);
            assert(upto1 == s.subrange(o, o + 6));
            let upto2 = upto1 + spec_u16_to_le_bytes(r.header_len);
            lemma_join(s, o, o + 6, o + 8);
            assert(upto2 == s.subrange(o, o + 8));
            let upto3 = upto2 + spec_u32_to_le_bytes(r.flags);
            lemma_join(s, o, o + 8, o + 12);
            assert(upto3 == s.subrange(o, o + 12));
            let upto4 = upto3 + seq![r.alignment];
            lemma_join(s, o, o + 12, o + 13);
            assert(upto4 == s.subrange(o, o + 13));
            let upto5 = upto4 + seq![r.ream_size];
            lemma_join(s, o, o + 13, o + 14);
            assert(upto5 == s.subrange(o, o + 14));
            let upto6 = upto5 + spec_u16_to_le_bytes(r.reserved_extra);
            lemma_join(s, o, o + 14, o + 16);
            assert(upto6 == s.subrange(o, o + 16));
            let upto7 = upto6 + spec_u64_to_le_bytes(r.footer_offset);
            lemma_join(s, o, o + 16, o + 24);
            assert(upto7 == s.subrange(o, o + 24));
            let upto8 = upto7 + r.reserved@;
            lemma_join(s, o, o + 24, o + 64);
            assert(upto8 == s.subrange(o, o + 64));
        }
        r
    }
}

} // verus!
