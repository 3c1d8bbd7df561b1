//! Verified core of the Ignition column format: pages of column values whose decoder travels with
//! the data as a WebAssembly module.
//!
//! The writing side turns encoded page payloads into framed, aligned pages and keeps the
//! statistics, indexes and metadata of a column chunk. The reading side decides which pages to
//! fetch, which to skip without decoding, and which rows of each decoded page are handed out.
//! Both sides are free of I/O: bytes, pages and decoded arrays are handed in and out as values.
pub mod arrays;
pub mod basic;
pub mod bloom_filter;
pub mod buffer;
pub mod byte_order;
pub mod chunk;
pub mod compact;
pub mod compression;
pub mod data_type;
pub mod deep_clone;
pub mod errors;
pub mod format;
pub mod layout;
pub mod level_decoding;
pub mod levels;
pub mod little_endian;
pub mod metadata;
pub mod metrics;
pub mod page;
pub mod page_source;
pub mod properties;
pub mod reader;
pub mod schema;
pub mod selection;
pub mod sink;
pub mod statistics;
pub mod truncate;
pub mod types;
pub mod value_order;
pub mod writer;
