//! Helpers that emit Rust generics (declaration lists, use lists, argument
//! lists, `where` bounds, array lengths) as `proc_macro2` token streams.
pub mod tokens;
pub mod generics;
