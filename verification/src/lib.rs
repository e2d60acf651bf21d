//! Bound Book Format: a binary container for ordered image sequences with
//! content deduplication, aligned asset storage, chaptering, metadata and
//! integrity hashes.
//!
//! A file is a header, the assets, four tables and a string pool, and a
//! footer. [`types`] holds the records and [`layout`] their bytes.
//! [`BbfBuilder`] makes a file and [`BbfReader`] reads one; neither touches
//! a disk: the builder hands out bytes, the reader borrows them.
//!
//! What the builder does is said over [`model::BuilderState`], what the
//! reader returns over [`file::ReaderView`], and [`laws`] relates the two:
//! a finished book reads back as it was built.
//!
//! [`cli`] holds what the command line tool decides between reading its
//! arguments and touching a file.

pub mod builder;
pub mod bytes;
pub mod cli;
pub mod error;
pub mod file;
pub mod hash;
pub mod index;
pub mod laws;
pub mod layout;
pub mod model;
pub mod model_proofs;
pub mod reader;
pub mod sort;
pub mod text;
pub mod types;

pub use crate::builder::BbfBuilder;
pub use crate::error::BbfError;
pub use crate::reader::BbfReader;
pub use crate::types::{
    AssetEntry, BbfFooter, BbfHeader, Expansion, MediaType, Metadata, PageEntry, Section,
};
