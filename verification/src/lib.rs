//! Resolution of player identifiers of the form `name#tag`.
//!
//! The crate decodes bulk identifier lists out of transport strings, parses
//! each identifier into its name and tag components, and partitions the
//! outcomes of per-identifier lookups into ordered success and failure
//! sequences. The network lookup itself is left to the caller; everything
//! that decides or computes is specified and verified here.

pub mod decode;
pub mod errors;
pub mod resolver;
pub mod riot_id;
pub mod text;
pub mod urls;
