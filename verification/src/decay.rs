//! Decay-channel resolution: the staged filter pipeline over the edge-list
//! reference corpus.
//!
//! Stages, in order: inclusive candidates (channels carrying at least the
//! required named daughters), cardinality (total edge count equal to, or at
//! least, the named-daughter count plus the parent edge), parent (only for
//! shapes with an explicit parent token), and materialization.

use vstd::prelude::*;
use vstd::string::*;
use crate::channel::{DecayChannel, DecayEdge, QueryError};
use crate::parser::{classify, daughter_tokens, has_separator, separator, QueryType,
    query_type_classifier};
use crate::profile::{build_profile, count_named, get_decay_products, is_named,
    named_daughter_count, occurrences, profile_represents};
use crate::text::str_eq;

verus! {

/// The reference corpus: every decay edge, read-only for the lifetime of a
/// query.
pub struct DecayQuery {
    /// One row per participant per channel.
    pub edges: Vec<DecayEdge>,
}

/// How many edges of the store belong to the channel `id`.
pub open spec fn row_count(edges: Seq<DecayEdge>, id: Seq<char>) -> int
    decreases edges.len(),
{
    if edges.len() == 0 {
        0
    } else {
        row_count(edges.drop_last(), id) + if edges.last().pdgid@ == id {
            1int
        } else {
            0int
        }
    }
}

/// How many parent edges (incoming rows) the channel `id` has.
pub open spec fn parent_count(edges: Seq<DecayEdge>, id: Seq<char>) -> int
    decreases edges.len(),
{
    if edges.len() == 0 {
        0
    } else {
        parent_count(edges.drop_last(), id) + if edges.last().pdgid@ == id
            && !edges.last().is_outgoing {
            1int
        } else {
            0int
        }
    }
}

/// The daughter rows of the channel `id`, as (name, multiplicity) pairs in
/// store order.
pub open spec fn daughter_rows(edges: Seq<DecayEdge>, id: Seq<char>) -> Seq<(Seq<char>, int)>
    decreases edges.len(),
{
    if edges.len() == 0 {
        Seq::empty()
    } else {
        let rest = daughter_rows(edges.drop_last(), id);
        if edges.last().pdgid@ == id && edges.last().is_outgoing {
            rest.push((edges.last().name@, edges.last().multiplier as int))
        } else {
            rest
        }
    }
}

/// Does any edge belong to the channel `id`?
pub open spec fn in_store(edges: Seq<DecayEdge>, id: Seq<char>) -> bool {
    exists|j: int| 0 <= j < edges.len() && (#[trigger] edges[j]).pdgid@ == id
}

/// Does the channel `id` have a daughter edge with exactly this name and
/// multiplicity?
pub open spec fn has_daughter_edge(
    edges: Seq<DecayEdge>,
    id: Seq<char>,
    name: Seq<char>,
    mult: int,
) -> bool {
    exists|j: int|
        0 <= j < edges.len() && (#[trigger] edges[j]).pdgid@ == id && edges[j].is_outgoing
            && edges[j].name@ == name && edges[j].multiplier == mult
}

/// Does the channel `id` have a parent edge carrying this name?
pub open spec fn has_parent_edge_named(edges: Seq<DecayEdge>, id: Seq<char>, name: Seq<char>) -> bool {
    exists|j: int|
        0 <= j < edges.len() && (#[trigger] edges[j]).pdgid@ == id && !edges[j].is_outgoing
            && edges[j].name@ == name
}

/// The channel `id` carries every named daughter of the query with exactly
/// the required multiplicity (but possibly further daughters besides).
pub open spec fn inclusive_match(edges: Seq<DecayEdge>, id: Seq<char>, toks: Seq<Seq<char>>) -> bool {
    forall|i: int|
        0 <= i < daughter_tokens(toks).len() && is_named(#[trigger] daughter_tokens(toks)[i])
            ==> has_daughter_edge(
            edges,
            id,
            daughter_tokens(toks)[i],
            occurrences(daughter_tokens(toks), daughter_tokens(toks)[i]),
        )
}

/// Shapes whose cardinality constraint is a lower bound rather than an
/// equality.
pub open spec fn is_wildcard_shape(t: QueryType) -> bool {
    t is DecayWildcard || t is ParentlessDecayWildcard
}

/// Shapes carrying an explicit (non-`?`) parent token, which the parent
/// filter applies to.
pub open spec fn has_explicit_parent_shape(t: QueryType) -> bool {
    t is ExactDecay || t is PartialDecay || t is DecayWildcard
}

/// Shapes the decay pipeline accepts at all.
pub open spec fn is_decay_shape(t: QueryType) -> bool {
    !(t is SingleParticle) && !(t is Unknown)
}

/// The cardinality constraint: the channel's total edge count (parent plus
/// daughters) equals the named-daughter count plus one, or at least that for
/// wildcard shapes.
pub open spec fn cardinality_ok(
    edges: Seq<DecayEdge>,
    id: Seq<char>,
    wildcard: bool,
    named: int,
) -> bool {
    if wildcard {
        row_count(edges, id) >= named + 1
    } else {
        row_count(edges, id) == named + 1
    }
}

/// A channel surviving the inclusive stage.
pub open spec fn inclusive_candidate(edges: Seq<DecayEdge>, id: Seq<char>, toks: Seq<Seq<char>>) -> bool {
    in_store(edges, id) && inclusive_match(edges, id, toks)
}

/// A channel surviving the inclusive and cardinality stages.
pub open spec fn extensive_candidate(edges: Seq<DecayEdge>, id: Seq<char>, toks: Seq<Seq<char>>) -> bool {
    inclusive_candidate(edges, id, toks) && cardinality_ok(
        edges,
        id,
        is_wildcard_shape(classify(toks)),
        named_daughter_count(toks),
    )
}

/// A channel surviving all three filter stages, the parent filter included.
pub open spec fn exact_candidate(edges: Seq<DecayEdge>, id: Seq<char>, toks: Seq<Seq<char>>) -> bool {
    extensive_candidate(edges, id, toks) && has_parent_edge_named(edges, id, toks[0])
}

/// A channel surviving exactly the stages the query's shape calls for: the
/// parent filter applies if and only if the parent token is explicit.
pub open spec fn resolved(edges: Seq<DecayEdge>, toks: Seq<Seq<char>>, id: Seq<char>) -> bool {
    if has_explicit_parent_shape(classify(toks)) {
        exact_candidate(edges, id, toks)
    } else {
        extensive_candidate(edges, id, toks)
    }
}

/// No two entries of `r` denote the same channel.
pub open spec fn ids_distinct(r: Seq<String>) -> bool {
    forall|k1: int, k2: int| 0 <= k1 < k2 < r.len() ==> r[k1]@ != r[k2]@
}

/// Some entry of `r` denotes the channel `id`.
pub open spec fn id_listed(r: Seq<String>, id: Seq<char>) -> bool {
    exists|k: int| 0 <= k < r.len() && (#[trigger] r[k])@ == id
}

/// The channel-id set a result vector denotes.
pub open spec fn id_set(r: Seq<String>) -> Set<Seq<char>> {
    Set::new(|id: Seq<char>| id_listed(r, id))
}

/// The daughter list of a materialized channel, viewed as (name,
/// multiplicity) pairs.
pub open spec fn daughter_pairs_view(d: Seq<(String, usize)>) -> Seq<(Seq<char>, int)> {
    d.map(|i: int, p: (String, usize)| (p.0@, p.1 as int))
}

/// The single-parent channel invariant of the reference data: exactly one
/// parent edge, at least one daughter edge, and positive multiplicities.
pub open spec fn channel_well_formed(edges: Seq<DecayEdge>, id: Seq<char>) -> bool {
    &&& parent_count(edges, id) == 1
    &&& daughter_rows(edges, id).len() >= 1
    &&& forall|k: int|
        0 <= k < daughter_rows(edges, id).len() ==> (#[trigger] daughter_rows(edges, id)[k]).1
            >= 1
}

/// `c` aggregates exactly the channel `id` of the store: same identifier,
/// the full daughter list in store order, and a parent name carried by a
/// parent edge of the channel.
pub open spec fn is_materialization(edges: Seq<DecayEdge>, id: Seq<char>, c: DecayChannel) -> bool {
    &&& c.pdgid@ == id
    &&& daughter_pairs_view(c.daughters@) == daughter_rows(edges, id)
    &&& has_parent_edge_named(edges, id, c.parent@)
}

/// No two channels of `v` denote the same channel identifier.
pub open spec fn channel_ids_distinct(v: Seq<DecayChannel>) -> bool {
    forall|k1: int, k2: int| 0 <= k1 < k2 < v.len() ==> v[k1].pdgid@ != v[k2].pdgid@
}

/// Matching the executable profile is the same as the inclusive-match
/// predicate over the token sequence the profile was built from.
proof fn lemma_profile_match_iff(
    edges: Seq<DecayEdge>,
    id: Seq<char>,
    toks: Seq<Seq<char>>,
    p: Seq<(String, usize)>,
)
    requires
        profile_represents(p, daughter_tokens(toks)),
    ensures
        (forall|k: int|
            0 <= k < p.len() ==> has_daughter_edge(
                edges,
                id,
                (#[trigger] p[k]).0@,
                p[k].1 as int,
            )) <==> inclusive_match(edges, id, toks),
{
    let d = daughter_tokens(toks);
    if forall|k: int|
        0 <= k < p.len() ==> has_daughter_edge(edges, id, (#[trigger] p[k]).0@, p[k].1 as int) {
        assert forall|i: int|
            0 <= i < d.len() && is_named(#[trigger] d[i]) implies has_daughter_edge(
            edges,
            id,
            d[i],
            occurrences(d, d[i]),
        ) by {
            let k = choose|k: int| 0 <= k < p.len() && (#[trigger] p[k]).0@ == d[i];
            assert(has_daughter_edge(edges, id, p[k].0@, p[k].1 as int));
            assert(p[k].1 == occurrences(d, d[i]));
        }
        assert(inclusive_match(edges, id, toks));
    }
    if inclusive_match(edges, id, toks) {
        assert forall|k: int|
            0 <= k < p.len() implies has_daughter_edge(
            edges,
            id,
            (#[trigger] p[k]).0@,
            p[k].1 as int,
        ) by {
            assert(d.contains(p[k].0@));
            let i = choose|i: int| 0 <= i < d.len() && d[i] == p[k].0@;
            assert(is_named(d[i]));
            assert(has_daughter_edge(edges, id, d[i], occurrences(d, d[i])));
        }
    }
}

/// Some entry of `r` is the channel `id`?
fn contains_id(r: &Vec<String>, id: &str) -> (b: bool)
    ensures
        b == id_listed(r@, id@),
{
    let n = r.len();
    let mut j: usize = 0;
    while j < n
        invariant
            n == r@.len(),
            j <= n,
            forall|k: int| 0 <= k < j ==> (#[trigger] r@[k])@ != id@,
        decreases n - j,
    {
        if str_eq(r[j].as_str(), id) {
            return true;
        }
        j += 1;
    }
    false
}

impl DecayQuery {
    /// A query session over the given reference corpus.
    pub fn new(edges: Vec<DecayEdge>) -> (q: DecayQuery)
        ensures
            q.edges == edges,
    {
        DecayQuery { edges }
    }

    /// Does the channel `id` have a daughter edge with exactly this name and
    /// multiplicity?
    fn has_matching_daughter_edge(&self, id: &str, name: &str, mult: usize) -> (b: bool)
        ensures
            b == has_daughter_edge(self.edges@, id@, name@, mult as int),
    {
        let ghost es = self.edges@;
        let n = self.edges.len();
        let mut j: usize = 0;
        while j < n
            invariant
                es == self.edges@,
                n == es.len(),
                j <= n,
                forall|jj: int|
                    0 <= jj < j ==> !((#[trigger] es[jj]).pdgid@ == id@ && es[jj].is_outgoing
                        && es[jj].name@ == name@ && es[jj].multiplier == mult),
            decreases n - j,
        {
            let e = &self.edges[j];
            if e.is_outgoing && e.multiplier == mult && str_eq(e.pdgid.as_str(), id) && str_eq(
                e.name.as_str(),
                name,
            ) {
                proof {
                    assert((es[j as int]).pdgid@ == id@ && es[j as int].is_outgoing && es[
                        j as int].name@ == name@ && es[j as int].multiplier == mult);
                }
                return true;
            }
            j += 1;
        }
        false
    }

    /// Does the channel `id` carry every entry of the profile?
    fn matches_profile(&self, id: &str, p: &Vec<(String, usize)>) -> (b: bool)
        ensures
            b == forall|k: int|
                0 <= k < p@.len() ==> has_daughter_edge(
                    self.edges@,
                    id@,
                    (#[trigger] p@[k]).0@,
                    p@[k].1 as int,
                ),
    {
        let n = p.len();
        let mut k: usize = 0;
        while k < n
            invariant
                n == p@.len(),
                k <= n,
                forall|kk: int|
                    0 <= kk < k ==> has_daughter_edge(
                        self.edges@,
                        id@,
                        (#[trigger] p@[kk]).0@,
                        p@[kk].1 as int,
                    ),
            decreases n - k,
        {
            let entry = &p[k];
            if !self.has_matching_daughter_edge(id, entry.0.as_str(), entry.1) {
                return false;
            }
            k += 1;
        }
        true
    }

    /// How many edges of the store belong to the channel `id`?
    fn count_rows(&self, id: &str) -> (c: usize)
        ensures
            c == row_count(self.edges@, id@),
    {
        let ghost es = self.edges@;
        let n = self.edges.len();
        let mut c: usize = 0;
        let mut j: usize = 0;
        while j < n
            invariant
                es == self.edges@,
                n == es.len(),
                j <= n,
                c <= j,
                c == row_count(es.take(j as int), id@),
            decreases n - j,
        {
            proof {
                assert(es.take(j + 1).drop_last() =~= es.take(j as int));
                assert(es.take(j + 1).last() == es[j as int]);
            }
            if str_eq(self.edges[j].pdgid.as_str(), id) {
                c += 1;
            }
            j += 1;
        }
        proof {
            assert(es.take(n as int) =~= es);
        }
        c
    }

    /// Does the channel `id` have a parent edge carrying this name?
    fn has_parent_edge(&self, id: &str, name: &str) -> (b: bool)
        ensures
            b == has_parent_edge_named(self.edges@, id@, name@),
    {
        let ghost es = self.edges@;
        let n = self.edges.len();
        let mut j: usize = 0;
        while j < n
            invariant
                es == self.edges@,
                n == es.len(),
                j <= n,
                forall|jj: int|
                    0 <= jj < j ==> !((#[trigger] es[jj]).pdgid@ == id@ && !es[jj].is_outgoing
                        && es[jj].name@ == name@),
            decreases n - j,
        {
            let e = &self.edges[j];
            if !e.is_outgoing && str_eq(e.pdgid.as_str(), id) && str_eq(e.name.as_str(), name) {
                proof {
                    assert((es[j as int]).pdgid@ == id@ && !es[j as int].is_outgoing && es[
                        j as int].name@ == name@);
                }
                return true;
            }
            j += 1;
        }
        false
    }

    /// Inclusive candidate resolution: every channel carrying at least the
    /// query's named daughters, each with exactly the required multiplicity.
    /// An empty profile resolves to every channel of the store.
    pub fn get_decays_inclusive(&self, args: &[&str]) -> (r: Vec<String>)
        ensures
            ids_distinct(r@),
            forall|k: int|
                0 <= k < r@.len() ==> inclusive_candidate(
                    self.edges@,
                    (#[trigger] r@[k])@,
                    args.deep_view(),
                ),
            forall|id: Seq<char>|
                #[trigger] inclusive_candidate(self.edges@, id, args.deep_view()) ==> id_listed(
                    r@,
                    id,
                ),
    {
        let ghost toks = args.deep_view();
        let ghost es = self.edges@;
        let products = get_decay_products(args);
        let profile = build_profile(&products);
        let mut r: Vec<String> = Vec::new();
        let n = self.edges.len();
        let mut j: usize = 0;
        while j < n
            invariant
                es == self.edges@,
                toks == args.deep_view(),
                n == es.len(),
                j <= n,
                profile_represents(profile@, daughter_tokens(toks)),
                ids_distinct(r@),
                forall|k: int|
                    0 <= k < r@.len() ==> inclusive_candidate(es, (#[trigger] r@[k])@, toks),
                forall|jj: int|
                    0 <= jj < j && inclusive_match(es, (#[trigger] es[jj]).pdgid@, toks)
                        ==> id_listed(r@, es[jj].pdgid@),
            decreases n - j,
        {
            let id: &str = self.edges[j].pdgid.as_str();
            let matched = self.matches_profile(id, &profile);
            proof {
                lemma_profile_match_iff(es, id@, toks, profile@);
                assert(es[j as int].pdgid@ == id@);
            }
            if matched && !contains_id(&r, id) {
                let ghost prev = r@;
                r.push(id.to_owned());
                proof {
                    assert(r@[prev.len() as int]@ == id@);
                    assert(in_store(es, id@));
                    assert forall|jj: int|
                        0 <= jj < j && inclusive_match(es, (#[trigger] es[jj]).pdgid@, toks)
                            implies id_listed(r@, es[jj].pdgid@) by {
                        let k0 = choose|k0: int|
                            0 <= k0 < prev.len() && (#[trigger] prev[k0])@ == es[jj].pdgid@;
                        assert(r@[k0] == prev[k0]);
                    }
                }
            }
            j += 1;
        }
        proof {
            assert forall|id: Seq<char>|
                #[trigger] inclusive_candidate(es, id, toks) implies id_listed(r@, id) by {
                let jj = choose|jj: int| 0 <= jj < es.len() && (#[trigger] es[jj]).pdgid@ == id;
                assert(inclusive_match(es, es[jj].pdgid@, toks));
            }
        }
        r
    }

    /// Cardinality filtering on top of the inclusive stage: keeps a channel
    /// when its total edge count equals the named-daughter count plus one
    /// (the parent edge), or at least that for wildcard shapes.
    pub fn get_decays_extensive(&self, args: &[&str]) -> (r: Vec<String>)
        requires
            is_decay_shape(classify(args.deep_view())),
        ensures
            ids_distinct(r@),
            forall|k: int|
                0 <= k < r@.len() ==> extensive_candidate(
                    self.edges@,
                    (#[trigger] r@[k])@,
                    args.deep_view(),
                ),
            forall|id: Seq<char>|
                #[trigger] extensive_candidate(self.edges@, id, args.deep_view()) ==> id_listed(
                    r@,
                    id,
                ),
    {
        let ghost toks = args.deep_view();
        let ghost es = self.edges@;
        let cands = self.get_decays_inclusive(args);
        let products = get_decay_products(args);
        let n_named = count_named(&products);
        let qt = query_type_classifier(args);
        let wildcard = match qt {
            QueryType::DecayWildcard | QueryType::ParentlessDecayWildcard => true,
            _ => false,
        };
        let mut r: Vec<String> = Vec::new();
        let n = cands.len();
        let mut k: usize = 0;
        while k < n
            invariant
                es == self.edges@,
                toks == args.deep_view(),
                n == cands@.len(),
                k <= n,
                n_named == named_daughter_count(toks),
                wildcard == is_wildcard_shape(classify(toks)),
                ids_distinct(cands@),
                forall|kk: int|
                    0 <= kk < cands@.len() ==> inclusive_candidate(
                        es,
                        (#[trigger] cands@[kk])@,
                        toks,
                    ),
                forall|kk: int|
                    0 <= kk < r@.len() ==> extensive_candidate(es, (#[trigger] r@[kk])@, toks),
                forall|kk: int|
                    0 <= kk < r@.len() ==> exists|m: int|
                        0 <= m < k && (#[trigger] r@[kk])@ == cands@[m]@,
                forall|m: int|
                    0 <= m < k && extensive_candidate(es, (#[trigger] cands@[m])@, toks)
                        ==> id_listed(r@, cands@[m]@),
                ids_distinct(r@),
            decreases n - k,
        {
            let id: &str = cands[k].as_str();
            let rc = self.count_rows(id);
            let keep = if wildcard {
                rc >= 1 && rc - 1 >= n_named
            } else {
                rc >= 1 && rc - 1 == n_named
            };
            proof {
                assert(keep == cardinality_ok(es, id@, wildcard, n_named as int));
            }
            if keep {
                let ghost prev = r@;
                r.push(id.to_owned());
                proof {
                    assert(r@[prev.len() as int]@ == cands@[k as int]@);
                    assert forall|kk: int| 0 <= kk < r@.len() implies exists|m: int|
                        0 <= m < k + 1 && (#[trigger] r@[kk])@ == cands@[m]@ by {
                        if kk < prev.len() {
                            let m0 = choose|m0: int|
                                0 <= m0 < k && (#[trigger] prev[kk])@ == cands@[m0]@;
                            assert(r@[kk] == prev[kk]);
                            assert(0 <= m0 < k + 1 && r@[kk]@ == cands@[m0]@);
                        } else {
                            assert(0 <= k < k + 1 && r@[kk]@ == cands@[k as int]@);
                        }
                    }
                    assert forall|kk1: int, kk2: int|
                        0 <= kk1 < kk2 < r@.len() implies r@[kk1]@ != r@[kk2]@ by {
                        if kk2 == prev.len() {
                            let m0 = choose|m0: int|
                                0 <= m0 < k && (#[trigger] prev[kk1])@ == cands@[m0]@;
                            assert(r@[kk1] == prev[kk1]);
                        } else {
                            assert(r@[kk1] == prev[kk1] && r@[kk2] == prev[kk2]);
                        }
                    }
                    assert forall|m: int|
                        0 <= m < k + 1 && extensive_candidate(es, (#[trigger] cands@[m])@, toks)
                            implies id_listed(r@, cands@[m]@) by {
                        if m < k {
                            let k0 = choose|k0: int|
                                0 <= k0 < prev.len() && (#[trigger] prev[k0])@ == cands@[m]@;
                            assert(r@[k0] == prev[k0]);
                        } else {
                            assert(r@[prev.len() as int]@ == cands@[m]@);
                        }
                    }
                }
            } else {
                proof {
                    assert(!extensive_candidate(es, cands@[k as int]@, toks));
                }
            }
            k += 1;
        }
        proof {
            assert forall|id: Seq<char>|
                #[trigger] extensive_candidate(es, id, toks) implies id_listed(r@, id) by {
                assert(inclusive_candidate(es, id, toks));
                let m = choose|m: int| 0 <= m < cands@.len() && (#[trigger] cands@[m])@ == id;
                assert(extensive_candidate(es, cands@[m]@, toks));
            }
        }
        r
    }

    /// The full three-stage filter for shapes with an explicit parent:
    /// inclusive candidates, cardinality, then the parent filter.
    pub fn get_decays_exact(&self, args: &[&str]) -> (r: Vec<String>)
        requires
            has_explicit_parent_shape(classify(args.deep_view())),
        ensures
            ids_distinct(r@),
            forall|k: int|
                0 <= k < r@.len() ==> exact_candidate(
                    self.edges@,
                    (#[trigger] r@[k])@,
                    args.deep_view(),
                ),
            forall|id: Seq<char>|
                #[trigger] exact_candidate(self.edges@, id, args.deep_view()) ==> id_listed(
                    r@,
                    id,
                ),
    {
        let ghost toks = args.deep_view();
        let ghost es = self.edges@;
        let cands = self.get_decays_extensive(args);
        let ghost cands_view = cands@;
        proof {
            lemma_decay_shape_has_tokens(toks);
        }
        let parent: &str = args[0];
        proof {
            assert(parent@ == toks[0]);
        }
        let r = self.filter_by_parent(cands, parent);
        proof {
            assert forall|k: int| 0 <= k < r@.len() implies exact_candidate(
                es,
                (#[trigger] r@[k])@,
                toks,
            ) by {
                let m = choose|m: int|
                    0 <= m < cands_view.len() && (#[trigger] cands_view[m])@ == r@[k]@;
                assert(extensive_candidate(es, cands_view[m]@, toks));
            }
            assert forall|id: Seq<char>|
                #[trigger] exact_candidate(es, id, toks) implies id_listed(r@, id) by {
                assert(extensive_candidate(es, id, toks));
                assert(id_listed(cands_view, id));
            }
        }
        r
    }

    /// The inclusive stage followed directly by the parent filter, without
    /// the cardinality constraint.
    pub fn get_decays_inclusive_with_parent(&self, args: &[&str]) -> (r: Vec<String>)
        requires
            has_explicit_parent_shape(classify(args.deep_view())),
        ensures
            ids_distinct(r@),
            forall|k: int|
                0 <= k < r@.len() ==> inclusive_candidate(
                    self.edges@,
                    (#[trigger] r@[k])@,
                    args.deep_view(),
                ) && has_parent_edge_named(self.edges@, (r@[k])@, args.deep_view()[0]),
            forall|id: Seq<char>|
                #[trigger] inclusive_candidate(self.edges@, id, args.deep_view())
                    && has_parent_edge_named(self.edges@, id, args.deep_view()[0]) ==> id_listed(
                    r@,
                    id,
                ),
    {
        let ghost toks = args.deep_view();
        let ghost es = self.edges@;
        let cands = self.get_decays_inclusive(args);
        let ghost cands_view = cands@;
        proof {
            lemma_decay_shape_has_tokens(toks);
        }
        let parent: &str = args[0];
        proof {
            assert(parent@ == toks[0]);
        }
        let r = self.filter_by_parent(cands, parent);
        proof {
            assert forall|k: int| 0 <= k < r@.len() implies inclusive_candidate(
                es,
                (#[trigger] r@[k])@,
                toks,
            ) by {
                let m = choose|m: int|
                    0 <= m < cands_view.len() && (#[trigger] cands_view[m])@ == r@[k]@;
                assert(inclusive_candidate(es, cands_view[m]@, toks));
            }
            assert forall|id: Seq<char>|
                #[trigger] inclusive_candidate(es, id, toks) && has_parent_edge_named(
                    es,
                    id,
                    toks[0],
                ) implies id_listed(r@, id) by {
                assert(id_listed(cands_view, id));
            }
        }
        r
    }

    /// Retains the candidates whose channel has a parent edge carrying
    /// `parent`.
    fn filter_by_parent(&self, cands: Vec<String>, parent: &str) -> (r: Vec<String>)
        requires
            ids_distinct(cands@),
        ensures
            ids_distinct(r@),
            forall|k: int|
                0 <= k < r@.len() ==> id_listed(cands@, (#[trigger] r@[k])@)
                    && has_parent_edge_named(self.edges@, (r@[k])@, parent@),
            forall|id: Seq<char>|
                #[trigger] id_listed(cands@, id) && has_parent_edge_named(
                    self.edges@,
                    id,
                    parent@,
                ) ==> id_listed(r@, id),
    {
        let ghost es = self.edges@;
        let mut r: Vec<String> = Vec::new();
        let n = cands.len();
        let mut k: usize = 0;
        while k < n
            invariant
                es == self.edges@,
                n == cands@.len(),
                k <= n,
                ids_distinct(cands@),
                forall|kk: int|
                    0 <= kk < r@.len() ==> id_listed(cands@, (#[trigger] r@[kk])@)
                        && has_parent_edge_named(es, (r@[kk])@, parent@),
                forall|kk: int|
                    0 <= kk < r@.len() ==> exists|m: int|
                        0 <= m < k && (#[trigger] r@[kk])@ == cands@[m]@,
                forall|m: int|
                    0 <= m < k && has_parent_edge_named(es, (#[trigger] cands@[m])@, parent@)
                        ==> id_listed(r@, cands@[m]@),
                ids_distinct(r@),
            decreases n - k,
        {
            let id: &str = cands[k].as_str();
            let keep = self.has_parent_edge(id, parent);
            if keep {
                let ghost prev = r@;
                r.push(id.to_owned());
                proof {
                    assert(r@[prev.len() as int]@ == cands@[k as int]@);
                    assert(id_listed(cands@, cands@[k as int]@));
                    assert forall|kk: int| 0 <= kk < r@.len() implies exists|m: int|
                        0 <= m < k + 1 && (#[trigger] r@[kk])@ == cands@[m]@ by {
                        if kk < prev.len() {
                            let m0 = choose|m0: int|
                                0 <= m0 < k && (#[trigger] prev[kk])@ == cands@[m0]@;
                            assert(r@[kk] == prev[kk]);
                            assert(0 <= m0 < k + 1 && r@[kk]@ == cands@[m0]@);
                        } else {
                            assert(0 <= k < k + 1 && r@[kk]@ == cands@[k as int]@);
                        }
                    }
                    assert forall|kk1: int, kk2: int|
                        0 <= kk1 < kk2 < r@.len() implies r@[kk1]@ != r@[kk2]@ by {
                        if kk2 == prev.len() {
                            let m0 = choose|m0: int|
                                0 <= m0 < k && (#[trigger] prev[kk1])@ == cands@[m0]@;
                            assert(r@[kk1] == prev[kk1]);
                        } else {
                            assert(r@[kk1] == prev[kk1] && r@[kk2] == prev[kk2]);
                        }
                    }
                    assert forall|m: int|
                        0 <= m < k + 1 && has_parent_edge_named(
                            es,
                            (#[trigger] cands@[m])@,
                            parent@,
                        ) implies id_listed(r@, cands@[m]@) by {
                        if m < k {
                            let k0 = choose|k0: int|
                                0 <= k0 < prev.len() && (#[trigger] prev[k0])@ == cands@[m]@;
                            assert(r@[k0] == prev[k0]);
                        } else {
                            assert(r@[prev.len() as int]@ == cands@[m]@);
                        }
                    }
                }
            }
            k += 1;
        }
        proof {
            assert forall|id: Seq<char>|
                #[trigger] id_listed(cands@, id) && has_parent_edge_named(es, id, parent@)
                    implies id_listed(r@, id) by {
                let m = choose|m: int| 0 <= m < cands@.len() && (#[trigger] cands@[m])@ == id;
                assert(has_parent_edge_named(es, cands@[m]@, parent@));
            }
        }
        r
    }

    /// Materializes the channel `id`: the parent name and the full daughter
    /// list, independent of what the query asked for.  Fails with
    /// `MalformedChannel` when the reference data violates the channel
    /// invariant.
    pub fn map_decay(&self, pdgid: &str) -> (r: Result<DecayChannel, QueryError>)
        ensures
            r is Ok <==> channel_well_formed(self.edges@, pdgid@),
            r matches Ok(c) ==> is_materialization(self.edges@, pdgid@, c) && c.daughters@.len()
                >= 1 && forall|k: int|
                0 <= k < c.daughters@.len() ==> (#[trigger] c.daughters@[k]).1 >= 1,
            r matches Err(e) ==> e matches QueryError::MalformedChannel(p) && p@ == pdgid@,
    {
        let ghost es = self.edges@;
        let ghost id = pdgid@;
        let mut channel = DecayChannel::new(pdgid.to_owned());
        let mut parent_edges: usize = 0;
        let mut bad_mult = false;
        let n = self.edges.len();
        let mut j: usize = 0;
        while j < n
            invariant
                es == self.edges@,
                id == pdgid@,
                n == es.len(),
                j <= n,
                parent_edges <= j,
                channel.pdgid@ == id,
                parent_edges == parent_count(es.take(j as int), id),
                daughter_pairs_view(channel.daughters@) == daughter_rows(es.take(j as int), id),
                parent_edges >= 1 ==> has_parent_edge_named(es, id, channel.parent@),
                bad_mult ==> exists|k: int|
                    0 <= k < daughter_rows(es.take(j as int), id).len() && (
                    #[trigger] daughter_rows(es.take(j as int), id)[k]).1 < 1,
                !bad_mult ==> forall|k: int|
                    0 <= k < daughter_rows(es.take(j as int), id).len() ==> (
                    #[trigger] daughter_rows(es.take(j as int), id)[k]).1 >= 1,
            decreases n - j,
        {
            proof {
                assert(es.take(j + 1).drop_last() =~= es.take(j as int));
                assert(es.take(j + 1).last() == es[j as int]);
            }
            let e = &self.edges[j];
            if str_eq(e.pdgid.as_str(), pdgid) {
                if e.is_outgoing {
                    let ghost prev = channel.daughters@;
                    let ghost rows_prev = daughter_rows(es.take(j as int), id);
                    let ghost was_bad = bad_mult;
                    if e.multiplier == 0 {
                        bad_mult = true;
                    }
                    channel.add_daughter(e.name.clone(), e.multiplier);
                    proof {
                        assert(daughter_pairs_view(channel.daughters@) =~= daughter_pairs_view(
                            prev,
                        ).push((es[j as int].name@, es[j as int].multiplier as int)));
                        let rows_new = daughter_rows(es.take(j + 1), id);
                        assert(rows_new == rows_prev.push(
                            (es[j as int].name@, es[j as int].multiplier as int),
                        ));
                        assert(rows_new.len() == rows_prev.len() + 1);
                        assert(forall|k: int|
                            0 <= k < rows_prev.len() ==> #[trigger] rows_new[k] == rows_prev[k]);
                        assert(rows_new[rows_prev.len() as int].1 == es[j as int].multiplier as int);
                        if was_bad {
                            let k0 = choose|k0: int|
                                0 <= k0 < rows_prev.len() && (#[trigger] rows_prev[k0]).1 < 1;
                            assert(rows_new[k0] == rows_prev[k0]);
                            assert(0 <= k0 < rows_new.len() && rows_new[k0].1 < 1);
                        } else if es[j as int].multiplier == 0 {
                            assert(0 <= rows_prev.len() < rows_new.len() && rows_new[
                                rows_prev.len() as int].1 < 1);
                        } else {
                            assert forall|k: int|
                                0 <= k < rows_new.len() implies (#[trigger] rows_new[k]).1
                                >= 1 by {
                                if k < rows_prev.len() {
                                    assert(rows_new[k] == rows_prev[k]);
                                }
                            }
                        }
                    }
                } else {
                    channel.add_parent(e.name.clone());
                    parent_edges += 1;
                    proof {
                        assert((es[j as int]).pdgid@ == id && !es[j as int].is_outgoing && es[
                            j as int].name@ == channel.parent@);
                    }
                }
            }
            proof {
                if !(es[j as int].pdgid@ == id && es[j as int].is_outgoing) {
                    assert(daughter_rows(es.take(j + 1), id) == daughter_rows(
                        es.take(j as int),
                        id,
                    ));
                    if bad_mult {
                        let k0 = choose|k0: int|
                            0 <= k0 < daughter_rows(es.take(j as int), id).len() && (
                            #[trigger] daughter_rows(es.take(j as int), id)[k0]).1 < 1;
                        assert(0 <= k0 < daughter_rows(es.take(j + 1), id).len()
                            && daughter_rows(es.take(j + 1), id)[k0].1 < 1);
                    }
                }
            }
            j += 1;
        }
        proof {
            assert(es.take(n as int) =~= es);
            assert(daughter_pairs_view(channel.daughters@).len() == channel.daughters@.len());
        }
        let ok = parent_edges == 1 && channel.daughters.len() >= 1 && !bad_mult;
        if ok {
            proof {
                assert forall|k: int| 0 <= k < channel.daughters@.len() implies (
                #[trigger] channel.daughters@[k]).1 >= 1 by {
                    assert(daughter_pairs_view(channel.daughters@)[k].1 >= 1);
                }
            }
            Ok(channel)
        } else {
            proof {
                if parent_edges == 1 && channel.daughters@.len() >= 1 {
                    let k0 = choose|k0: int|
                        0 <= k0 < daughter_rows(es, id).len() && (#[trigger] daughter_rows(
                            es,
                            id,
                        )[k0]).1 < 1;
                    assert(!channel_well_formed(es, id));
                }
            }
            Err(QueryError::MalformedChannel(pdgid.to_owned()))
        }
    }
}

/// A decay shape implies the sequence has a separator, so the sequence is
/// non-empty and the parent position (token zero) exists.
proof fn lemma_decay_shape_has_tokens(toks: Seq<Seq<char>>)
    requires
        is_decay_shape(classify(toks)),
    ensures
        toks.len() > 0,
        has_separator(toks),
{
    if toks.len() != 1 {
        if !has_separator(toks) {
            assert(classify(toks) is Unknown);
        }
        let w = choose|i: int| 0 <= i < toks.len() && toks[i] == separator();
        assert(toks.len() > 0);
    }
}

/// Resolves a decay query end to end: classification, the stage set the
/// shape calls for, and materialization.  Channels whose reference data is
/// malformed are skipped rather than failing the whole result.
#[verifier::rlimit(100)]
pub fn decay_query(store: &DecayQuery, args: &[&str]) -> (r: Result<
    Vec<DecayChannel>,
    QueryError,
>)
    ensures
        r is Err <==> !is_decay_shape(classify(args.deep_view())),
        r matches Err(e) ==> e is InvalidPattern,
        r matches Ok(v) ==> {
            &&& channel_ids_distinct(v@)
            &&& forall|k: int|
                0 <= k < v@.len() ==> resolved(store.edges@, args.deep_view(), (#[trigger] v@[
                    k]).pdgid@) && channel_well_formed(store.edges@, v@[k].pdgid@)
                    && is_materialization(store.edges@, v@[k].pdgid@, v@[k])
            &&& forall|id: Seq<char>|
                #[trigger] resolved(store.edges@, args.deep_view(), id) && channel_well_formed(
                    store.edges@,
                    id,
                ) ==> exists|k: int| 0 <= k < v@.len() && (#[trigger] v@[k]).pdgid@ == id
        },
{
    let ghost toks = args.deep_view();
    let ghost es = store.edges@;
    let qt = query_type_classifier(args);
    let explicit = match qt {
        QueryType::SingleParticle | QueryType::Unknown => {
            return Err(QueryError::InvalidPattern);
        },
        QueryType::ExactDecay | QueryType::PartialDecay | QueryType::DecayWildcard => true,
        QueryType::ParentlessDecayExact | QueryType::ParentlessDecayPartial
            | QueryType::ParentlessDecayWildcard => false,
    };
    let ids = if explicit {
        store.get_decays_exact(args)
    } else {
        store.get_decays_extensive(args)
    };
    proof {
        assert forall|kk: int| 0 <= kk < ids@.len() implies resolved(
            es,
            toks,
            (#[trigger] ids@[kk])@,
        ) by {}
        assert forall|id: Seq<char>| #[trigger] resolved(es, toks, id) implies id_listed(
            ids@,
            id,
        ) by {
            if explicit {
                assert(exact_candidate(es, id, toks));
            } else {
                assert(extensive_candidate(es, id, toks));
            }
        }
    }
    let out = materialize_channels(store, ids, Ghost(toks));
    Ok(out)
}

/// Materializes every listed channel, skipping the malformed ones.
fn materialize_channels(
    store: &DecayQuery,
    ids: Vec<String>,
    Ghost(toks): Ghost<Seq<Seq<char>>>,
) -> (out: Vec<DecayChannel>)
    requires
        ids_distinct(ids@),
        forall|kk: int|
            0 <= kk < ids@.len() ==> resolved(store.edges@, toks, (#[trigger] ids@[kk])@),
        forall|id: Seq<char>|
            #[trigger] resolved(store.edges@, toks, id) ==> id_listed(ids@, id),
    ensures
        channel_ids_distinct(out@),
        forall|k: int|
            0 <= k < out@.len() ==> resolved(store.edges@, toks, (#[trigger] out@[k]).pdgid@)
                && channel_well_formed(store.edges@, out@[k].pdgid@) && is_materialization(
                store.edges@,
                out@[k].pdgid@,
                out@[k],
            ),
        forall|id: Seq<char>|
            #[trigger] resolved(store.edges@, toks, id) && channel_well_formed(store.edges@, id)
                ==> exists|k: int| 0 <= k < out@.len() && (#[trigger] out@[k]).pdgid@ == id,
{
    let ghost es = store.edges@;
    let mut out: Vec<DecayChannel> = Vec::new();
    let n = ids.len();
    let mut k: usize = 0;
    while k < n
        invariant
            es == store.edges@,
            n == ids@.len(),
            k <= n,
            ids_distinct(ids@),
            forall|kk: int| 0 <= kk < ids@.len() ==> resolved(es, toks, (#[trigger] ids@[kk])@),
            forall|id: Seq<char>| #[trigger] resolved(es, toks, id) ==> id_listed(ids@, id),
            channel_ids_distinct(out@),
            forall|kk: int|
                0 <= kk < out@.len() ==> resolved(es, toks, (#[trigger] out@[kk]).pdgid@)
                    && channel_well_formed(es, out@[kk].pdgid@) && is_materialization(
                    es,
                    out@[kk].pdgid@,
                    out@[kk],
                ),
            forall|kk: int|
                0 <= kk < out@.len() ==> exists|m: int|
                    0 <= m < k && (#[trigger] out@[kk]).pdgid@ == ids@[m]@,
            forall|m: int|
                0 <= m < k && channel_well_formed(es, (#[trigger] ids@[m])@) ==> exists|kk: int|
                    0 <= kk < out@.len() && (#[trigger] out@[kk]).pdgid@ == ids@[m]@,
        decreases n - k,
    {
        let id: &str = ids[k].as_str();
        match store.map_decay(id) {
            Ok(c) => {
                let ghost prev = out@;
                out.push(c);
                proof {
                    assert((out@[prev.len() as int]).pdgid@ == ids@[k as int]@);
                    assert forall|kk: int| 0 <= kk < out@.len() implies exists|m: int|
                        0 <= m < k + 1 && (#[trigger] out@[kk]).pdgid@ == ids@[m]@ by {
                        if kk < prev.len() {
                            let m0 = choose|m0: int|
                                0 <= m0 < k && (#[trigger] prev[kk]).pdgid@ == ids@[m0]@;
                            assert(out@[kk] == prev[kk]);
                            assert(0 <= m0 < k + 1 && out@[kk].pdgid@ == ids@[m0]@);
                        } else {
                            assert(0 <= k < k + 1 && out@[kk].pdgid@ == ids@[k as int]@);
                        }
                    }
                    assert forall|kk1: int, kk2: int|
                        0 <= kk1 < kk2 < out@.len() implies out@[kk1].pdgid@ != out@[
                        kk2].pdgid@ by {
                        if kk2 == prev.len() {
                            let m0 = choose|m0: int|
                                0 <= m0 < k && (#[trigger] prev[kk1]).pdgid@ == ids@[m0]@;
                            assert(out@[kk1] == prev[kk1]);
                        } else {
                            assert(out@[kk1] == prev[kk1] && out@[kk2] == prev[kk2]);
                        }
                    }
                    assert forall|m: int|
                        0 <= m < k + 1 && channel_well_formed(es, (#[trigger] ids@[m])@)
                            implies exists|kk: int|
                        0 <= kk < out@.len() && (#[trigger] out@[kk]).pdgid@ == ids@[m]@ by {
                        if m < k {
                            let k0 = choose|k0: int|
                                0 <= k0 < prev.len() && (#[trigger] prev[k0]).pdgid@ == ids@[m]@;
                            assert(out@[k0] == prev[k0]);
                            assert(0 <= k0 < out@.len() && out@[k0].pdgid@ == ids@[m]@);
                        } else {
                            assert(0 <= prev.len() < out@.len() && out@[
                                prev.len() as int].pdgid@ == ids@[m]@);
                        }
                    }
                }
            },
            Err(_) => {
                proof {
                    assert(!channel_well_formed(es, ids@[k as int]@));
                }
            },
        }
        k += 1;
    }
    proof {
        assert forall|id: Seq<char>|
            #[trigger] resolved(es, toks, id) && channel_well_formed(es, id) implies exists|
        k: int| 0 <= k < out@.len() && (#[trigger] out@[k]).pdgid@ == id by {
            let m = choose|m: int| 0 <= m < ids@.len() && (#[trigger] ids@[m])@ == id;
            assert(channel_well_formed(es, ids@[m]@));
        }
    }
    out
}

/// The exact-count cardinality filter over a candidate set, and its
/// lower-bound counterpart for wildcard shapes.
pub open spec fn cardinality_filter(
    edges: Seq<DecayEdge>,
    candidates: Set<Seq<char>>,
    wildcard: bool,
    named: int,
) -> Set<Seq<char>> {
    Set::new(|id: Seq<char>| candidates.contains(id) && cardinality_ok(edges, id, wildcard, named))
}

/// Cardinality monotonicity: for a fixed named-daughter count, the channels
/// passing the exact-count filter always form a subset of those passing the
/// at-least filter.
pub proof fn lemma_cardinality_monotonic(
    edges: Seq<DecayEdge>,
    candidates: Set<Seq<char>>,
    named: int,
)
    ensures
        cardinality_filter(edges, candidates, false, named).subset_of(
            cardinality_filter(edges, candidates, true, named),
        ),
{
    assert forall|id: Seq<char>|
        cardinality_filter(edges, candidates, false, named).contains(id) implies cardinality_filter(
        edges,
        candidates,
        true,
        named,
    ).contains(id) by {}
}

/// Idempotence: two resolutions of the same token sequence against the same
/// reference data denote the same channel-id set, whatever order either
/// returned its identifiers in.
pub proof fn lemma_resolution_idempotent(
    edges: Seq<DecayEdge>,
    toks: Seq<Seq<char>>,
    r1: Seq<String>,
    r2: Seq<String>,
)
    requires
        forall|k: int| 0 <= k < r1.len() ==> resolved(edges, toks, (#[trigger] r1[k])@),
        forall|id: Seq<char>| #[trigger] resolved(edges, toks, id) ==> id_listed(r1, id),
        forall|k: int| 0 <= k < r2.len() ==> resolved(edges, toks, (#[trigger] r2[k])@),
        forall|id: Seq<char>| #[trigger] resolved(edges, toks, id) ==> id_listed(r2, id),
    ensures
        id_set(r1) == id_set(r2),
{
    assert forall|id: Seq<char>| id_set(r1).contains(id) implies id_set(r2).contains(id) by {
        let k = choose|k: int| 0 <= k < r1.len() && (#[trigger] r1[k])@ == id;
        assert(resolved(edges, toks, r1[k]@));
    }
    assert forall|id: Seq<char>| id_set(r2).contains(id) implies id_set(r1).contains(id) by {
        let k = choose|k: int| 0 <= k < r2.len() && (#[trigger] r2[k])@ == id;
        assert(resolved(edges, toks, r2[k]@));
    }
    assert(id_set(r1) =~= id_set(r2));
}

} // verus!
