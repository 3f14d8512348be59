//! The edge-list data model: one `DecayEdge` row per participant of a decay
//! channel, and the `DecayChannel` aggregate materialized for presentation.

use vstd::prelude::*;

verus! {

/// One participant of one decay channel, as stored in the reference corpus.
/// `is_outgoing` is false for the single parent edge of a channel and true
/// for its daughter edges.
#[derive(Clone, Debug)]
pub struct DecayEdge {
    /// The channel identifier shared by all edges of one channel.
    pub pdgid: String,
    /// The participating particle's name.
    pub name: String,
    /// How many identical particles take this role; positive in well-formed
    /// reference data.
    pub multiplier: usize,
    /// True for a daughter edge, false for the parent edge.
    pub is_outgoing: bool,
}

/// A materialized decay channel: its identifier, the parent particle and the
/// full list of daughters with their multiplicities.
#[derive(Clone, Debug)]
pub struct DecayChannel {
    /// The decaying particle's name.
    pub parent: String,
    /// Each daughter particle's name with its multiplicity, in store order.
    pub daughters: Vec<(String, usize)>,
    /// The channel identifier.
    pub pdgid: String,
}

impl DecayChannel {
    /// An empty aggregate for the given channel identifier.
    pub fn new(pdgid: String) -> (c: DecayChannel)
        ensures
            c.pdgid@ == pdgid@,
            c.parent@ == Seq::<char>::empty(),
            c.daughters@ == Seq::<(String, usize)>::empty(),
    {
        DecayChannel { parent: String::new(), daughters: Vec::new(), pdgid }
    }

    /// Appends one daughter entry.
    pub fn add_daughter(&mut self, name: String, multiplicity: usize)
        ensures
            final(self).daughters@ == old(self).daughters@.push((name, multiplicity)),
            final(self).parent == old(self).parent,
            final(self).pdgid == old(self).pdgid,
    {
        self.daughters.push((name, multiplicity));
    }

    /// Records the parent particle.
    pub fn add_parent(&mut self, name: String)
        ensures
            final(self).parent == name,
            final(self).daughters == old(self).daughters,
            final(self).pdgid == old(self).pdgid,
    {
        self.parent = name;
    }
}

/// Everything that can go wrong while answering a query.
#[derive(Debug, Clone, PartialEq, Eq)]
pub enum QueryError {
    /// The token sequence has no recognized decay-query shape; the pipeline
    /// is never invoked on it.
    InvalidPattern,
    /// A named token resolved to no known particle; the whole query fails
    /// before any resolution.
    UnknownParticleToken(String),
    /// The named channel's reference data violates the channel invariant
    /// (one parent edge, at least one daughter edge, positive
    /// multiplicities).
    MalformedChannel(String),
}

} // verus!
