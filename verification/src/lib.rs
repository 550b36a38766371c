//! A minimal persistent list store: a fixed-capacity record holding an item
//! counter and an append-only, ordered sequence of items, mutated only by an
//! authorized caller.
//!
//! The record's serialized layout is an 8-byte little-endian counter followed
//! by the items in insertion order, each a 4-byte little-endian length prefix,
//! the UTF-8 bytes of the content, and a 32-byte owner identifier. A record
//! reserves a fixed byte budget at creation; every append is checked against
//! that budget before any mutation.

pub mod errors;
pub mod item;
pub mod record;
pub mod codec;
