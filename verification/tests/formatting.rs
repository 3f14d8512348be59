use pdgquery::alias::QueryAlias;
use pdgquery::channel::DecayChannel;
use pdgquery::display::{decay_channel_text, format_description, format_unit, usize_to_string};
use pdgquery::text::{replace_all, str_eq};

#[test]
fn str_eq_compares_by_characters() {
    assert!(str_eq("mu-", "mu-"));
    assert!(!str_eq("mu-", "mu+"));
    assert!(!str_eq("mu", "mu-"));
    assert!(str_eq("", ""));
}

#[test]
fn replace_all_replaces_every_occurrence_left_to_right() {
    assert_eq!(replace_all("abcabc", "bc", "X"), "aXaX");
    assert_eq!(replace_all("aaa", "aa", "b"), "ba");
    assert_eq!(replace_all("abc", "zz", "X"), "abc");
    assert_eq!(replace_all("abc", "", "X"), "abc");
}

#[test]
fn alias_tables_hold_the_full_fixed_contents() {
    let aliases = QueryAlias::new();
    assert_eq!(aliases.unit_aliases.len(), 39);
    assert_eq!(aliases.particle_display_aliases.len(), 20);
    assert_eq!(aliases.unit_aliases[0], ("eV".to_string(), "eV".to_string()));
    assert_eq!(aliases.unit_aliases[12], ("degrees".to_string(), "deg".to_string()));
    assert_eq!(aliases.particle_display_aliases[0], ("nubar".to_string(), "ν̅".to_string()));
    assert_eq!(aliases.particle_display_aliases[2], ("mu".to_string(), "μ".to_string()));
}

#[test]
fn format_unit_rewrites_unit_expressions() {
    let aliases = QueryAlias::new();
    assert_eq!(format_unit(&Some("GeV/c**2".to_string()), &aliases), "GeV/c²");
    assert_eq!(format_unit(&Some("degrees".to_string()), &aliases), "deg");
    assert_eq!(format_unit(&None, &aliases), "");
}

#[test]
fn format_description_substitutes_particle_symbols() {
    let aliases = QueryAlias::new();
    let text = format_description(&Some("mu- --> e- nubar_e nu_mu".to_string()), 100, &aliases);
    assert_eq!(text, "μ- --> e- ν̅_e ν_μ");
    assert_eq!(format_description(&None, 100, &aliases), "Unknown");
}

#[test]
fn format_description_wraps_to_the_given_width() {
    let aliases = QueryAlias::new();
    // A width shorter than the text forces a line break; this fails if the
    // wrapping step were to hand its input back unchanged.
    let text = format_description(&Some("aaa bbb".to_string()), 3, &aliases);
    assert_eq!(text, "aaa\nbbb");
}

#[test]
fn usize_to_string_writes_decimal() {
    assert_eq!(usize_to_string(0), "0");
    assert_eq!(usize_to_string(7), "7");
    assert_eq!(usize_to_string(10), "10");
    assert_eq!(usize_to_string(907), "907");
}

#[test]
fn decay_channel_text_joins_daughters_with_multiplicities() {
    let aliases = QueryAlias::new();
    let channel = DecayChannel {
        parent: "Q".to_string(),
        daughters: vec![("d".to_string(), 1), ("k".to_string(), 2)],
        pdgid: "C9".to_string(),
    };
    assert_eq!(decay_channel_text(&channel, 100, &aliases), "Q -> 1d + 2k");
}
