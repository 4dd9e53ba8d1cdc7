//! Generation of foreign-language bindings from the interface model.

pub mod backend;
pub mod kotlin;
