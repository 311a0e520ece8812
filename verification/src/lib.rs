//! Brute-force search for integers whose SHA-256 digest, written in
//! hexadecimal, ends with a requested run of `0` characters.
//!
//! The integer domain is cut into windows; each window is scanned for its
//! smallest matching candidate, and the matches are collected in window order
//! until a quota is met or the domain is used up.

pub mod digest;
pub mod scan;
pub mod search;
pub mod window;
pub mod zeros;

pub use scan::find_hash_with_n_zeroes_in_range;
pub use search::find_hash_with_n_zeroes;
