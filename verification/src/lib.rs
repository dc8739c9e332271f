//! Derivation of canonical contract identifiers — function selectors and
//! event topics — from interface descriptions, and their aggregation into
//! per-contract report tables.
//!
//! An interface entry (function or event) is canonicalized to the textual
//! signature `name(type1,type2,...)`, the signature is hashed with
//! Keccak-256, and the identifier is read off the digest: the first four
//! bytes for a function selector, the whole digest for an event topic, each
//! rendered as `0x`-prefixed lowercase hex. Per contract, the derived
//! identifiers are appended in declaration order to two report tables (one
//! for events, one for functions), which render to CSV.

pub mod abi;
pub mod csv;
pub mod digest;
pub mod report;
pub mod sig;
