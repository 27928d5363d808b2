//! The index of the assets of one directory, and the walks over it.
//!
//! A directory is scanned once into a `CachedDir`: the ordered list of the
//! identifiers of the asset files found in it. Identifiers can be added and
//! removed afterwards, as files come and go. A `DirReader` walks the index,
//! either over the assets that a cache already holds, or over every
//! identifier with the outcome of loading it.
//!
//! The index is changed through `&mut` and read through `&`. Whoever shares
//! it between threads puts it behind a lock of their choice; a reader then
//! lives no longer than the lock is held, and sees the index as it stood at
//! one instant.
//!
//! The cache, the listing of the directory on disk and the lock are not part
//! of this crate: the functions here take what those give as plain values.

pub mod dirs;
pub mod formats;
pub mod list;
pub mod loader;
pub mod names;
