//! The byte layout of an asset entry.

use vstd::prelude::*;
use vstd::bytes::{
    spec_u16_from_le_bytes, spec_u16_to_le_bytes, spec_u32_from_le_bytes, spec_u32_to_le_bytes,
    spec_u64_from_le_bytes, spec_u64_to_le_bytes,
};
use crate::bytes::{
    array_of, get_array, get_u16, get_u32, get_u64, get_u8, lemma_array_of, lemma_join,
    lemma_le_injective, lemma_le_total, lemma_split, put_bytes, put_u16, put_u32, put_u64, put_u8,
};
use crate::layout::Record;
use crate::types::{AssetEntry, ASSET_ENTRY_SIZE};

verus! {

impl Record for AssetEntry {
    open spec fn spec_size() -> nat {
        ASSET_ENTRY_SIZE as nat
    }

    open spec fn to_bytes(&self) -> Seq<u8> {
        spec_u64_to_le_bytes(self.file_offset)
            + spec_u64_to_le_bytes(self.asset_hash[0])
            + spec_u64_to_le_bytes(self.asset_hash[1])
            + spec_u64_to_le_bytes(self.file_size)
            + spec_u32_to_le_bytes(self.flags)
            + spec_u16_to_le_bytes(self.reserved_value)
            + seq![self.media_type]
            + self.reserved@
    }

    open spec fn from_bytes(bytes: Seq<u8>) -> Self {
        AssetEntry {
            file_offset: spec_u64_from_le_bytes(bytes.subrange(0, 8)),
            asset_hash: [
                spec_u64_from_le_bytes(bytes.subrange(8, 16)),
                spec_u64_from_le_bytes(bytes.subrange(16, 24)),
            ],
            file_size: spec_u64_from_le_bytes(bytes.subrange(24, 32)),
            flags: spec_u32_from_le_bytes(bytes.subrange(32, 36)),
            reserved_value: spec_u16_from_le_bytes(bytes.subrange(36, 38)),
            media_type: bytes[38],
            reserved: array_of::<u8, 9>(bytes.subrange(39, 48)),
        }
    }

    proof fn lemma_from_bytes(bytes: Seq<u8>) {
        lemma_le_total();
        let r = Self::from_bytes(bytes);
        let upto0 = spec_u64_to_le_bytes(r.file_offset);
        assert(upto0 == bytes.subrange(0, 8));
        let upto1 = upto0 + spec_u64_to_le_bytes(r.asset_hash[0]);
        lemma_join(bytes, 0, 8, 16);
        assert(upto1 == bytes.subrange(0, 16));
        let upto2 = upto1 + spec_u64_to_le_bytes(r.asset_hash[1]);
        lemma_join(bytes, 0, 16, 24);
        assert(upto2 == bytes.subrange(0, 24));
        let upto3 = upto2 + spec_u64_to_le_bytes(r.file_size);
        lemma_join(bytes, 0, 24, 32);
        assert(upto3 == bytes.subrange(0, 32));
        let upto4 = upto3 + spec_u32_to_le_bytes(r.flags);
        lemma_join(bytes, 0, 32, 36);
        assert(upto4 == bytes.subrange(0, 36));
        let upto5 = upto4 + spec_u16_to_le_bytes(r.reserved_value);
        lemma_join(bytes, 0, 36, 38);
        assert(upto5 == bytes.subrange(0, 38));
        assert(seq![r.media_type] =~= bytes.subrange(38, 39));
        let upto6 = upto5 + seq![r.media_type];
        lemma_join(bytes, 0, 38, 39);
        assert(upto6 == bytes.subrange(0, 39));
        lemma_array_of::<u8, 9>(bytes.subrange(39, 48));
        let upto7 = upto6 + r.reserved@;
        lemma_join(bytes, 0, 39, 48);
        assert(upto7 == bytes.subrange(0, 48));
        assert(bytes.subrange(0, 48) =~= bytes);
    }

    proof fn lemma_size(&self) {
        lemma_le_injective();
    }

    proof fn lemma_injective(&self, other: &Self) {
        lemma_le_injective();
        let a0 = spec_u64_to_le_bytes(self.file_offset);
        let b0 = spec_u64_to_le_bytes(other.file_offset);
        let a1 = a0 + spec_u64_to_le_bytes(self.asset_hash[0]);
        let b1 = b0 + spec_u64_to_le_bytes(other.asset_hash[0]);
        let a2 = a1 + spec_u64_to_le_bytes(self.asset_hash[1]);
        let b2 = b1 + spec_u64_to_le_bytes(other.asset_hash[1]);
        let a3 = a2 + spec_u64_to_le_bytes(self.file_size);
        let b3 = b2 + spec_u64_to_le_bytes(other.file_size);
        let a4 = a3 + spec_u32_to_le_bytes(self.flags);
        let b4 = b3 + spec_u32_to_le_bytes(other.flags);
        let a5 = a4 + spec_u16_to_le_bytes(self.reserved_value);
        let b5 = b4 + spec_u16_to_le_bytes(other.reserved_value);
        let a6 = a5 + seq![self.media_type];
        let b6 = b5 + seq![other.media_type];
        let a7 = a6 + self.reserved@;
        let b7 = b6 + other.reserved@;
        lemma_split(
            a6,
            self.reserved@,
            b6,
            other.reserved@,
        );
        lemma_split(
            a5,
            seq![self.media_type],
            b5,
            seq![other.media_type],
        );
        lemma_split(
            a4,
            spec_u16_to_le_bytes(self.reserved_value),
            b4,
            spec_u16_to_le_bytes(other.reserved_value),
        );
        lemma_split(
            a3,
            spec_u32_to_le_bytes(self.flags),
            b3,
            spec_u32_to_le_bytes(other.flags),
        );
        lemma_split(
            a2,
            spec_u64_to_le_bytes(self.file_size),
            b2,
            spec_u64_to_le_bytes(other.file_size),
        );
        lemma_split(
            a1,
            spec_u64_to_le_bytes(self.asset_hash[1]),
            b1,
            spec_u64_to_le_bytes(other.asset_hash[1]),
        );
        lemma_split(
            a0,
            spec_u64_to_le_bytes(self.asset_hash[0]),
            b0,
            spec_u64_to_le_bytes(other.asset_hash[0]),
        );
        assert(self.asset_hash =~= other.asset_hash);
        assert(seq![self.media_type][0] == seq![other.media_type][0]);
        assert(self.reserved =~= other.reserved);
    }

    fn size() -> (n: usize) {
        ASSET_ENTRY_SIZE
    }

    fn write(&self, out: &mut Vec<u8>) {
        put_u64(out, self.file_offset);
        put_u64(out, self.asset_hash[0]);
        put_u64(out, self.asset_hash[1]);
        put_u64(out, self.file_size);
        put_u32(out, self.flags);
        put_u16(out, self.reserved_value);
        put_u8(out, self.media_type);
        put_bytes(out, self.reserved.as_slice());
        assert(out@ =~= old(out)@ + self.to_bytes());
    }

    fn read(data: &[u8], off: usize) -> (r: Self) {
        proof {
            assert(data.len() == data@.len());
        }
        let file_offset: u64 = get_u64(data, off);
        let mut asset_hash: [u64; 2] = [0u64; 2];
        asset_hash[0] = get_u64(data, off + 8);
        asset_hash[1] = get_u64(data, off + 16);
        let file_size: u64 = get_u64(data, off + 24);
        let flags: u32 = get_u32(data, off + 32);
        let reserved_value: u16 = get_u16(data, off + 36);
        let media_type: u8 = get_u8(data, off + 38);
        let reserved: [u8; 9] = get_array(data, off + 39);
        let r = AssetEntry {
            file_offset,
            asset_hash,
            file_size,
            flags,
            reserved_value,
            media_type,
            reserved,
        };
        proof {
            let s = data@;
            let o = off as int;
            let upto0 = spec_u64_to_le_bytes(r.file_offset);
            assert(upto0 == s.subrange(o, o + 8));
            let upto1 = upto0 + spec_u64_to_le_bytes(r.asset_hash[0]);
            lemma_join(s, o, o + 8, o + 16);
            assert(upto1 == s.subrange(o, o + 16));
            let upto2 = upto1 + spec_u64_to_le_bytes(r.asset_hash[1]);
            lemma_join(s, o, o + 16, o + 24);
            assert(upto2 == s.subrange(o, o + 24));
            let upto3 = upto2 + spec_u64_to_le_bytes(r.file_size);
            lemma_join(s, o, o + 24, o + 32);
            assert(upto3 == s.subrange(o, o + 32));
            let upto4 = upto3 + spec_u32_to_le_bytes(r.flags);
            lemma_join(s, o, o + 32, o + 36);
            assert(upto4 == s.subrange(o, o + 36));
            let upto5 = upto4 + spec_u16_to_le_bytes(r.reserved_value);
            lemma_join(s, o, o + 36, o + 38);
            assert(upto5 == s.subrange(o, o + 38));
            let upto6 = upto5 + seq![r.media_type];
            lemma_join(s, o, o + 38, o + 39);
            assert(upto6 == s.subrange(o, o + 39));
            let upto7 = upto6 + r.reserved@;
            lemma_join(s, o, o + 39, o + 48);
            assert(upto7 == s.subrange(o, o + 48));
        }
        r
    }
}

} // verus!
