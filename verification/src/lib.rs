//! A personal time tracker: named, tagged entries that are started, stopped
//! and discarded one at a time, with every rule of that lifecycle stated as a
//! contract and proved.
//!
//! - [`entries`]: one entry, its labels and its interval
//! - [`list`]: the list of entries and its one running entry
//! - [`aggregate`]: the entries in the order of their start
//! - [`storage`]: a list as plain parts, on its way to storage and back
//! - [`laws`]: what holds of every list, whatever was done to it
//! - [`compare`]: equality and order of entries
//! - [`time`], [`ident`], [`errors`]: timestamps, ids and failures

pub mod aggregate;
pub mod compare;
pub mod entries;
pub mod errors;
pub mod ident;
pub mod laws;
pub mod list;
pub mod storage;
pub mod time;

pub use entries::{Entry, EntryView};
pub use errors::Error;
pub use list::{EntryList, EntryListView};
pub use storage::{Snapshot, SnapshotView, Stored};
pub use time::Timestamp;
