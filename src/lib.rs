//! An in-process keyed record store that many threads can share: a table with one record
//! per id, where a later insert replaces the earlier record whole, kept behind a
//! reader-writer lock.

pub mod db;
pub mod item;
pub mod laws;
pub mod store;
