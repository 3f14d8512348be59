#![allow(non_snake_case)]

use pdgquery::channel::DecayEdge;
use pdgquery::decay::{decay_query, DecayQuery};

fn edge_row(pdgid: &str, name: &str, multiplier: usize, is_outgoing: bool) -> DecayEdge {
    DecayEdge {
        pdgid: pdgid.to_string(),
        name: name.to_string(),
        multiplier,
        is_outgoing,
    }
}

/// Three pion channels of differing sizes: four, three, and two edges.
fn pion_store() -> DecayQuery {
    DecayQuery::new(vec![
        edge_row("S008.1", "pi+", 1, false),
        edge_row("S008.1", "mu+", 1, true),
        edge_row("S008.1", "e-", 1, true),
        edge_row("S008.1", "nu_mu", 1, true),
        edge_row("S008.2", "pi+", 1, false),
        edge_row("S008.2", "mu+", 1, true),
        edge_row("S008.2", "e-", 1, true),
        edge_row("S009.1", "pi+", 1, false),
        edge_row("S009.1", "mu+", 1, true),
    ])
}

#[test]
fn test_decay_query() {
    let store = pion_store();
    let args = vec!["pi+", "->", "mu+", "e-", "?"];
    let decay = decay_query(&store, &args).unwrap();
    assert_eq!(decay.len(), 1);
}

#[test]
fn queries_test_get_inclusive_decays() {
    let store = pion_store();
    let args = vec!["pi+", "->", "mu+", "e-"];
    let candidates = store.get_decays_inclusive(&args);
    assert!(candidates.len() > 0);
}

#[test]
fn decayQueries_test_get_inclusive_decays() {
    let store = pion_store();
    let args = vec!["pi+", "->", "mu+", "e-"];
    let candidates = store.get_decays_inclusive(&args);
    assert!(candidates.len() > 0);
}

#[test]
fn decayQueries_test_get_extensive_decay() {
    let store = pion_store();
    let args = vec!["pi+", "->", "mu+", "e-", "?", "?"];
    let candidates = store.get_decays_extensive(&args);
    assert!(candidates.len() > 0);
}

#[test]
fn test_get_exact_decay() {
    let store = pion_store();
    let args = vec!["pi+", "->", "mu+", "?"];
    let candidates = store.get_decays_exact(&args);
    assert!(candidates.len() > 0);
}
