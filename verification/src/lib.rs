//! A bounded, open-addressed table from text keys to values.
//!
//! The table owns a buffer whose length is fixed when the table is made.
//! Collisions are resolved by linear probing; nothing is ever resized or
//! rehashed, and an insertion that finds no room is dropped without a signal.
//!
//! - [`table`] holds the table itself, [`entry`] the cell that a slot holds.
//! - [`hashing`] defines the hash of a key's bytes and computes it.
//! - [`model`] says what the table is and does as mathematics; the contracts
//!   in [`table`] are stated over it.
//! - [`laws`] holds what follows for every table: what a lookup gives after
//!   an insertion or a removal, and how many keys fit.
//! - [`probing`] and [`counting`] hold the facts that the laws are proved
//!   from, [`text`] the comparison of keys.

pub mod counting;
pub mod entry;
pub mod hashing;
pub mod laws;
pub mod model;
pub mod probing;
pub mod table;
pub mod text;

pub use entry::HashMapEntry;
pub use table::HashMap;
