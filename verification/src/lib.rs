//! A store of named rooms, each holding one versioned JSON document, with
//! optimistic-concurrency writes and a wake-up signal for long-polling readers.
//!
//! - [`store`] holds the rooms: a reader's version check, the conditional
//!   write, and the creation of rooms under fresh keys.
//! - [`event`] is the wait handle that every room owns, fired once by the
//!   room's next write.
//! - [`names`] makes room keys from two words of a word list.
//! - [`persist`] turns a store into records and back; [`files`] names the
//!   files that the records are written to.
//! - [`model`] is the store as contracts speak of it, and [`laws`] states
//!   what follows for runs of operations.
//!
//! Every operation of the store takes the store by reference, shared for
//! reading and exclusive for writing: a caller that shares a store between
//! tasks keeps it behind one lock, and holds no lock while a reader waits.

pub mod event;
pub mod files;
pub mod laws;
pub mod model;
pub mod names;
pub mod persist;
pub mod store;
