//! What the reader remembers of a book between two sittings, and the name
//! of the file in which it is kept.

use std::collections::BTreeSet;
use vstd::prelude::*;
use vstd::string::{StringExecFns, StringSliceAdditionalSpecFns};
use crate::hash::{hash64, xxh3_64_of};
use crate::text::{hex_fixed, hex_fixed_string};

verus! {

/// The place in a book and its bookmarks.
#[derive(Debug)]
pub struct BookState {
    /// Index of the page that was open.
    pub current_page: usize,
    /// Indices of the bookmarked pages.
    pub bookmarks: BTreeSet<usize>,
    /// Path of the book.
    pub source_path: String,
}

impl Default for BookState {
    /// The state of a book that was never opened: the first page, no
    /// bookmark, no path.
    fn default() -> (r: BookState)
        ensures
            r.current_page == 0,
            r.bookmarks@ == Set::<usize>::empty(),
            r.source_path@ == Seq::<char>::empty(),
    {
        BookState { current_page: 0, bookmarks: BTreeSet::new(), source_path: String::new() }
    }
}

/// The name of the file that keeps the state of the book at `book_path`:
/// the 64-bit hash of the path in sixteen hexadecimal digits, then `.toml`.
pub open spec fn save_filename_spec(book_path: Seq<char>) -> Seq<char> {
    hex_fixed(xxh3_64_of(vstd::utf8::encode_utf8(book_path)) as nat, 16) + ".toml"@
}

/// The name of a state file whose book's path hashes to `hash`.
pub fn save_filename_for_hash(hash: u64) -> (r: String)
    ensures
        r@ == hex_fixed(hash as nat, 16) + ".toml"@,
{
    let mut r = hex_fixed_string(hash, 16);
    r.append(".toml");
    r
}

/// The name of the file that keeps the state of the book at `book_path`.
pub fn save_filename(book_path: &str) -> (r: String)
    ensures
        r@ == save_filename_spec(book_path@),
{
    save_filename_for_hash(hash64(book_path.as_bytes()))
}

} // verus!
