//! The wire format: how a value of the interface is laid out in bytes when
//! it crosses the boundary, and how it is read back.
//!
//! Numbers are written in big-endian order at their fixed width. A string is
//! its UTF-8 bytes behind their count in four bytes; a sequence is its
//! elements behind their count in four bytes; a map is its entries, each key
//! written as a string before its value, behind their count in four bytes;
//! an optional value is one byte that says whether the value is there, and
//! the value behind it if it is. A record is its fields one after the other;
//! a variant of an enum or of an error is its number in four bytes, counted
//! from one, before its fields. An object and a callback interface cross as
//! a handle of eight bytes.

pub mod bytes;
pub mod lower;
pub mod read;
pub mod roundtrip;
pub mod value;
pub mod write;
