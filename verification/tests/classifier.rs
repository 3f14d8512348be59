use pdgquery::channel::QueryError;
use pdgquery::parser::{query_type_classifier, query_verify, QueryType};

#[allow(non_snake_case)]
#[test]
fn test_QueryType_classifier() {
    assert_eq!(query_type_classifier(&["tau+"]), QueryType::SingleParticle);

    let user_input = vec!["Z", "->", "e", "e"];
    assert_eq!(query_type_classifier(&user_input), QueryType::ExactDecay);

    let user_input = vec!["Z", "->", "e", "?"];
    assert_eq!(query_type_classifier(&user_input), QueryType::PartialDecay);

    let user_input = vec!["?", "->", "e", "e"];
    assert_eq!(query_type_classifier(&user_input), QueryType::ParentlessDecayExact);

    let user_input = vec!["?", "->", "e", "?", "?"];
    assert_eq!(query_type_classifier(&user_input), QueryType::ParentlessDecayPartial);

    let user_input = vec!["?", "->", "e", "nu_e", "?*"];
    assert_eq!(query_type_classifier(&user_input), QueryType::ParentlessDecayWildcard);

    let user_input = vec!["mu", "->", "e", "nu_e", "?*"];
    assert_eq!(query_type_classifier(&user_input), QueryType::DecayWildcard);

    let user_input = vec!["tau+", "tau-"];
    assert_eq!(query_type_classifier(&user_input), QueryType::Unknown);
}

#[test]
fn test_query_verify() {
    let known: Vec<String> = vec!["e+".to_string(), "nu_e".to_string()];
    let user_input = vec!["pdgQuery", "?", "->", "e+", "nu_e", "?*"];
    assert!(query_verify(&user_input, &known).is_ok());
}

#[test]
fn single_token_sequences_classify_as_single_particle() {
    assert_eq!(query_type_classifier(&["mu-"]), QueryType::SingleParticle);
    assert_eq!(query_type_classifier(&["?"]), QueryType::SingleParticle);
    assert_eq!(query_type_classifier(&["->"]), QueryType::SingleParticle);
    assert_eq!(query_type_classifier(&["?*"]), QueryType::SingleParticle);
}

#[test]
fn wildcard_takes_precedence_over_partial() {
    // Both a `?` daughter and a `?*` token: always a wildcard variant.
    let user_input = vec!["Z", "->", "e", "?", "?*"];
    assert_eq!(query_type_classifier(&user_input), QueryType::DecayWildcard);

    let user_input = vec!["?", "->", "e", "?", "?*"];
    assert_eq!(query_type_classifier(&user_input), QueryType::ParentlessDecayWildcard);
}

#[test]
fn sequences_without_separator_are_unknown() {
    assert_eq!(query_type_classifier(&[]), QueryType::Unknown);
    assert_eq!(query_type_classifier(&["a", "b", "c"]), QueryType::Unknown);
    assert_eq!(query_type_classifier(&["a", "?*"]), QueryType::Unknown);
}

#[test]
fn query_verify_rejects_the_first_unknown_token() {
    let known: Vec<String> = vec!["e+".to_string()];
    let user_input = vec!["pdgQuery", "e+", "->", "zz9", "e+"];
    match query_verify(&user_input, &known) {
        Err(QueryError::UnknownParticleToken(t)) => assert_eq!(t, "zz9"),
        other => panic!("expected an unknown-token error, got {:?}", other),
    }
}

#[test]
fn query_verify_skips_reserved_tokens_only() {
    let known: Vec<String> = Vec::new();
    let user_input = vec!["pdgQuery", "?", "->", "?*"];
    assert!(query_verify(&user_input, &known).is_ok());

    let user_input = vec!["pdgQuery", "?", "->", "x"];
    assert!(query_verify(&user_input, &known).is_err());
}
