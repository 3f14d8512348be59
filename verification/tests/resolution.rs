use pdgquery::channel::{DecayEdge, QueryError};
use pdgquery::decay::{decay_query, DecayQuery};

fn edge(pdgid: &str, name: &str, multiplier: usize, is_outgoing: bool) -> DecayEdge {
    DecayEdge {
        pdgid: pdgid.to_string(),
        name: name.to_string(),
        multiplier,
        is_outgoing,
    }
}

/// A channel `C1`: mu- -> e- nubar_e nu_mu (four edges in all), and a
/// channel `C2`: pi+ -> mu+ nu_mu (three edges in all).
fn reference_store() -> DecayQuery {
    DecayQuery::new(vec![
        edge("C1", "mu-", 1, false),
        edge("C1", "e-", 1, true),
        edge("C1", "nubar_e", 1, true),
        edge("C1", "nu_mu", 1, true),
        edge("C2", "pi+", 1, false),
        edge("C2", "mu+", 1, true),
        edge("C2", "nu_mu", 1, true),
    ])
}

fn sorted(mut v: Vec<String>) -> Vec<String> {
    v.sort();
    v
}

#[test]
fn exact_decay_returns_exactly_the_matching_channel() {
    let store = reference_store();
    let args = vec!["mu-", "->", "e-", "nubar_e", "nu_mu"];
    let ids = store.get_decays_exact(&args);
    assert_eq!(ids, vec!["C1".to_string()]);
}

#[test]
fn partial_decay_is_governed_by_cardinality_not_name_presence() {
    let store = reference_store();
    // Named count 1, so only a channel with exactly two edges (parent plus
    // one named daughter) could match; C1 has four edges and is excluded.
    let args = vec!["mu-", "->", "e-", "?"];
    let ids = store.get_decays_exact(&args);
    assert!(ids.is_empty());
}

#[test]
fn inclusive_stage_keeps_channels_with_extra_daughters() {
    let store = reference_store();
    let args = vec!["?", "->", "e-"];
    let ids = store.get_decays_inclusive(&args);
    assert_eq!(ids, vec!["C1".to_string()]);
}

#[test]
fn inclusive_stage_with_empty_profile_returns_all_channels() {
    let store = reference_store();
    let args = vec!["?", "->", "?*"];
    let ids = sorted(store.get_decays_inclusive(&args));
    assert_eq!(ids, vec!["C1".to_string(), "C2".to_string()]);
}

#[test]
fn inclusive_stage_requires_exact_multiplicity() {
    let store = DecayQuery::new(vec![
        edge("R1", "rho0", 1, false),
        edge("R1", "pi", 2, true),
    ]);
    // Two `pi` tokens require a daughter edge with multiplicity two.
    let args = vec!["?", "->", "pi", "pi"];
    assert_eq!(store.get_decays_inclusive(&args), vec!["R1".to_string()]);
    // A single `pi` token requires multiplicity one, which R1 lacks.
    let args = vec!["?", "->", "pi"];
    assert!(store.get_decays_inclusive(&args).is_empty());
}

#[test]
fn wildcard_keeps_channels_with_at_least_the_named_count() {
    let store = reference_store();
    let args = vec!["mu-", "->", "e-", "?*"];
    let ids = store.get_decays_exact(&args);
    assert_eq!(ids, vec!["C1".to_string()]);
}

#[test]
fn exact_count_set_is_subset_of_at_least_set() {
    let store = reference_store();
    // Same profile, exact shape vs. wildcard shape: every channel passing
    // the exact-count filter also passes the lower-bound filter.
    let exact_args = vec!["?", "->", "mu+", "nu_mu"];
    let wildcard_args = vec!["?", "->", "mu+", "nu_mu", "?*"];
    let exact_ids = store.get_decays_extensive(&exact_args);
    let wildcard_ids = store.get_decays_extensive(&wildcard_args);
    assert_eq!(exact_ids, vec!["C2".to_string()]);
    for id in &exact_ids {
        assert!(wildcard_ids.contains(id));
    }
}

#[test]
fn resolving_twice_yields_the_same_id_set() {
    let store = reference_store();
    let args = vec!["?", "->", "nu_mu", "?*"];
    let first = sorted(store.get_decays_extensive(&args));
    let second = sorted(store.get_decays_extensive(&args));
    assert_eq!(first, second);
    assert_eq!(first, vec!["C1".to_string(), "C2".to_string()]);
}

#[test]
fn parent_filter_retains_only_the_named_parent() {
    let store = reference_store();
    let args = vec!["pi+", "->", "nu_mu", "?*"];
    let ids = store.get_decays_inclusive_with_parent(&args);
    assert_eq!(ids, vec!["C2".to_string()]);
}

#[test]
fn materialized_channel_has_one_parent_and_positive_multiplicities() {
    let store = reference_store();
    let channel = store.map_decay("C1").expect("C1 is well formed");
    assert_eq!(channel.pdgid, "C1");
    assert_eq!(channel.parent, "mu-");
    assert!(channel.daughters.len() >= 1);
    for (_, multiplicity) in &channel.daughters {
        assert!(*multiplicity >= 1);
    }
    assert_eq!(
        channel.daughters,
        vec![
            ("e-".to_string(), 1),
            ("nubar_e".to_string(), 1),
            ("nu_mu".to_string(), 1),
        ]
    );
}

#[test]
fn map_decay_rejects_zero_parent_edges() {
    let store = DecayQuery::new(vec![edge("B1", "e-", 1, true)]);
    match store.map_decay("B1") {
        Err(QueryError::MalformedChannel(p)) => assert_eq!(p, "B1"),
        other => panic!("expected a malformed-channel error, got {:?}", other),
    }
}

#[test]
fn map_decay_rejects_multiple_parent_edges() {
    let store = DecayQuery::new(vec![
        edge("B2", "mu-", 1, false),
        edge("B2", "tau-", 1, false),
        edge("B2", "e-", 1, true),
    ]);
    assert!(store.map_decay("B2").is_err());
}

#[test]
fn map_decay_rejects_channels_without_daughters() {
    let store = DecayQuery::new(vec![edge("B3", "mu-", 1, false)]);
    assert!(store.map_decay("B3").is_err());
}

#[test]
fn map_decay_rejects_zero_multiplicity() {
    let store = DecayQuery::new(vec![
        edge("B4", "mu-", 1, false),
        edge("B4", "e-", 0, true),
    ]);
    assert!(store.map_decay("B4").is_err());
}

#[test]
fn decay_query_rejects_unrecognized_patterns() {
    let store = reference_store();
    match decay_query(&store, &["tau+", "tau-"]) {
        Err(QueryError::InvalidPattern) => {},
        other => panic!("expected an invalid-pattern error, got {:?}", other),
    }
    match decay_query(&store, &["tau+"]) {
        Err(QueryError::InvalidPattern) => {},
        other => panic!("expected an invalid-pattern error, got {:?}", other),
    }
}

#[test]
fn decay_query_resolves_end_to_end() {
    let store = reference_store();
    let channels = decay_query(&store, &["mu-", "->", "e-", "nubar_e", "nu_mu"]).unwrap();
    assert_eq!(channels.len(), 1);
    assert_eq!(channels[0].pdgid, "C1");
    assert_eq!(channels[0].parent, "mu-");
    assert_eq!(channels[0].daughters.len(), 3);
}

#[test]
fn decay_query_skips_malformed_channels() {
    let store = DecayQuery::new(vec![
        edge("C1", "mu-", 1, false),
        edge("C1", "e-", 1, true),
        // Same daughter in a channel missing its parent edge.
        edge("B1", "e-", 1, true),
    ]);
    let channels = decay_query(&store, &["?", "->", "e-", "?*"]).unwrap();
    assert_eq!(channels.len(), 1);
    assert_eq!(channels[0].pdgid, "C1");
}

#[test]
fn empty_candidate_set_flows_through_as_no_matches() {
    let store = reference_store();
    let channels = decay_query(&store, &["Z", "->", "q", "qbar"]).unwrap();
    assert!(channels.is_empty());
}
