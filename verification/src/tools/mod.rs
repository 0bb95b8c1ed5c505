//! Tools for operators.
pub mod adopt_subspacer;
pub mod sdb_root;
pub mod wif_to_hex;
