//! Pattern classification and decay-channel resolution for a particle-data
//! reference corpus.
//!
//! A query is a sequence of whitespace-split tokens over particle names and
//! the three reserved tokens `->` (separator), `?` (unspecified particle) and
//! `?*` (inclusive wildcard).  The library classifies a token sequence into a
//! query shape, derives the multiset of required daughter particles, and
//! resolves it against an edge-list representation of decay channels through
//! a staged filter pipeline: inclusive candidates, cardinality, parent, and
//! finally materialization of the matching channels.

pub mod alias;
pub mod channel;
pub mod decay;
pub mod display;
pub mod parser;
pub mod profile;
pub mod text;
