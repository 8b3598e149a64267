//! Planning logic behind the `Raiden`, `RaidenIndex` and `RaidenDocument`
//! derives: attribute lookup, renaming rules, key discovery and the names
//! and choices from which the generated DynamoDB client code is emitted.

pub mod case;
pub mod derive;
pub mod fields;
pub mod finder;
pub mod gsi;
pub mod index;
pub mod key;
pub mod laws;
pub mod model;
pub mod naming;
pub mod rename;
pub mod resolve;
pub mod sort_key;
pub mod text;
