//! A page layer for disk storage: a fixed 4096-byte page format, and a store that
//! allocates pages at the end of one backing file, keeps where each page lies,
//! and reads and writes pages in place by handle.
//!
//! - `page`: the page and its byte encoding.
//! - `page_map`: page handles, the counter that hands them out, and the page table.
//! - `file`: the file interface the store works against, and an in-memory file.
//! - `store`: the store.
//! - `metadata`: signed diagnostic figures of a store.
//! - `keys`, `values`, `kvstore`: keys, values and an in-memory key-value store for
//!   a layer above the page store.

pub mod file;
pub mod keys;
pub mod kvstore;
pub mod metadata;
pub mod page;
pub mod page_map;
pub mod store;
pub mod values;
