//! Byte layout of the records: every record has a fixed size, no padding, and
//! little-endian integers.

pub mod asset;
pub mod expansion;
pub mod footer;
pub mod header;
pub mod metadata;
pub mod page;
pub mod section;
pub mod table;

use vstd::prelude::*;

pub use crate::layout::table::{
    decode_table, lemma_decode, lemma_decode_table, lemma_decode_table_bytes,
    lemma_decode_table_entry, lemma_decode_table_len, lemma_table_entry, lemma_table_injective,
    lemma_table_len, lemma_table_push, read_table, table_bytes, write_table, Table,
};

verus! {

/// A record with a fixed-size encoding.
pub trait Record: Sized {
    /// Number of bytes of the encoding.
    spec fn spec_size() -> nat;

    /// The encoding of the record.
    spec fn to_bytes(&self) -> Seq<u8>;

    /// The record that `bytes` encode.
    spec fn from_bytes(bytes: Seq<u8>) -> Self;

    /// Every byte string of the right length encodes a record.
    proof fn lemma_from_bytes(bytes: Seq<u8>)
        requires
            bytes.len() == Self::spec_size(),
        ensures
            Self::from_bytes(bytes).to_bytes() == bytes,
    ;

    /// Every record of a type is encoded in the same, positive number of bytes.
    proof fn lemma_size(&self)
        ensures
            self.to_bytes().len() == Self::spec_size(),
            Self::spec_size() > 0,
    ;

    /// Records with the same encoding are equal.
    proof fn lemma_injective(&self, other: &Self)
        requires
            self.to_bytes() == other.to_bytes(),
        ensures
            *self == *other,
    ;

    /// Number of bytes of the encoding.
    fn size() -> (n: usize)
        ensures
            n == Self::spec_size(),
            n > 0,
    ;

    /// Appends the encoding of the record to `out`.
    fn write(&self, out: &mut Vec<u8>)
        ensures
            final(out)@ == old(out)@ + self.to_bytes(),
    ;

    /// Decodes the record whose encoding starts at `off`.
    fn read(data: &[u8], off: usize) -> (r: Self)
        requires
            off + Self::spec_size() <= data@.len(),
        ensures
            r.to_bytes() == data@.subrange(off as int, off + Self::spec_size()),
    ;
}

} // verus!
