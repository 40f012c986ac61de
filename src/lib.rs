//! Parsing of the textual certificate metadata reported by a TLS layer into a
//! typed certificate record.

pub mod attributes;
pub mod certificate;
pub mod date;
