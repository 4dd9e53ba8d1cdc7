//! The interface model that binding generation reads: types, literals and
//! the definitions that a component declares.

pub mod component;
pub mod definitions;
pub mod ffi;
pub mod literal;
pub mod types;
