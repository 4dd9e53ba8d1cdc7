//! Bindings for Kotlin.

pub mod gen_kotlin;
