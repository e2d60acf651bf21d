//! The two hash maps that the builder keeps beside its tables: from content
//! hash to asset index, and from string to string-pool offset.
//!
//! Both are `hashbrown::HashMap`s. Nothing in this file is proved: the
//! contracts of `new`, `get` and `insert` restate hashbrown's documentation
//! over the set of entries that a map holds.

use vstd::prelude::*;

verus! {

/// Map from the 128-bit content hash of an asset to its index in the asset table.
#[verifier::external_body]
pub struct AssetIndex {
    map: hashbrown::HashMap<u128, u64>,
}

/// Map from an interned string to its offset in the string pool.
#[verifier::external_body]
pub struct StringIndex {
    map: hashbrown::HashMap<String, u64>,
}

/// The entries that an [`AssetIndex`] holds.
pub uninterp spec fn asset_index_entries(m: AssetIndex) -> Map<u128, u64>;

/// The entries that a [`StringIndex`] holds, keyed by the strings' characters.
pub uninterp spec fn string_index_entries(m: StringIndex) -> Map<Seq<char>, u64>;

impl AssetIndex {
    /// `hashbrown::HashMap::new`: the new map holds no entry.
    #[verifier::external_body]
    pub(crate) fn new() -> (m: AssetIndex)
        ensures
            asset_index_entries(m) == (Map::<u128, u64>::empty()),
    {
        AssetIndex { map: hashbrown::HashMap::new() }
    }

    /// `hashbrown::HashMap::get`: the value stored under `hash`, if there is one.
    #[verifier::external_body]
    pub(crate) fn get(&self, hash: u128) -> (r: Option<u64>)
        ensures
            r == (if asset_index_entries(*self).contains_key(hash) {
                Some(asset_index_entries(*self)[hash])
            } else {
                None
            }),
    {
        self.map.get(&hash).copied()
    }

    /// `hashbrown::HashMap::insert`: afterwards `hash` maps to `index`, and
    /// every other key is as before.
    #[verifier::external_body]
    pub(crate) fn insert(&mut self, hash: u128, index: u64)
        ensures
            asset_index_entries(*final(self)) == asset_index_entries(*old(self)).insert(
                hash,
                index,
            ),
    {
        self.map.insert(hash, index);
    }
}

impl StringIndex {
    /// `hashbrown::HashMap::new`: the new map holds no entry.
    #[verifier::external_body]
    pub(crate) fn new() -> (m: StringIndex)
        ensures
            string_index_entries(m) == (Map::<Seq<char>, u64>::empty()),
    {
        StringIndex { map: hashbrown::HashMap::new() }
    }

    /// `hashbrown::HashMap::get`: the value stored under the string `s`, if
    /// there is one.
    #[verifier::external_body]
    pub(crate) fn get(&self, s: &str) -> (r: Option<u64>)
        ensures
            r == (if string_index_entries(*self).contains_key(s@) {
                Some(string_index_entries(*self)[s@])
            } else {
                None
            }),
    {
        self.map.get(s).copied()
    }

    /// `hashbrown::HashMap::insert`: afterwards the string `s` maps to
    /// `offset`, and every other key is as before.
    #[verifier::external_body]
    pub(crate) fn insert(&mut self, s: String, offset: u64)
        ensures
            string_index_entries(*final(self)) == string_index_entries(*old(self)).insert(
                s@,
                offset,
            ),
    {
        self.map.insert(s, offset);
    }
}

} // verus!
