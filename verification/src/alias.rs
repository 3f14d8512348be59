//! Display aliasing: the fixed lookup tables that translate stored unit
//! expressions and particle-name fragments into their display forms.  The
//! tables are built once and never mutated afterwards.

use vstd::prelude::*;
use vstd::string::*;
use crate::text::alias_views;

verus! {

/// The fixed alias tables for display formatting.
pub struct QueryAlias {
    /// Unit expressions as stored, each with its display form.
    pub unit_aliases: Vec<(String, String)>,
    /// Particle-name fragments as stored, each with its display symbol.
    pub particle_display_aliases: Vec<(String, String)>,
}

/// The unit table: each stored unit expression with its display form.
pub open spec fn unit_alias_table() -> Seq<(Seq<char>, Seq<char>)> {
    seq![
        ("eV"@, "eV"@),
        ("GeV"@, "GeV"@),
        ("MeV"@, "MeV"@),
        ("TeV"@, "TeV"@),
        ("keV"@, "keV"@),
        ("s"@, "s"@),
        ("yr"@, "years"@),
        ("years"@, "years"@),
        ("u"@, "u"@),
        ("cm"@, "cm"@),
        ("fm"@, "fm"@),
        ("rad"@, "rad"@),
        ("degrees"@, "deg"@),
        ("nb"@, "nb"@),
        ("pb"@, "pb"@),
        ("ps"@, "ps"@),
        ("micrometers"@, "μm"@),
        ("eV**2"@, "eV²"@),
        ("GeV**2"@, "GeV²"@),
        ("GeV**3"@, "GeV³"@),
        ("GeV**4"@, "GeV⁴"@),
        ("GeV/c**2"@, "GeV/c²"@),
        ("GeV**-1"@, "1/GeV¹"@),
        ("GeV**-2"@, "1/GeV²"@),
        ("GeV**-1/2"@, "1/√GeV"@),
        ("sqrt(s)"@, "√s"@),
        ("TeV**-1"@, "1/TeV"@),
        ("s**-1"@, "1/s"@),
        ("ps**-1"@, "ps⁻¹"@),
        ("hbar s**-1"@, "ħ/s"@),
        ("s/eV"@, "s/eV"@),
        ("cm**2"@, "cm²"@),
        ("fm**2"@, "fm²"@),
        ("fm**3"@, "fm³"@),
        ("pi rad"@, "π rad"@),
        ("ecm"@, "E_CM"@),
        ("mu(B)"@, "μ_B"@),
        ("mu(N)"@, "μ_N"@),
        ("e/2mass(W)"@, "e/(2m_W)"@),
    ]
}

/// The particle table: each stored name fragment with its display symbol.
pub open spec fn particle_alias_table() -> Seq<(Seq<char>, Seq<char>)> {
    seq![
        ("nubar"@, "ν̅"@),
        ("Kbar"@, "K̅"@),
        ("mu"@, "μ"@),
        ("nu"@, "ν"@),
        ("tau"@, "τ"@),
        ("pi"@, "π"@),
        ("rho"@, "ρ"@),
        ("omega"@, "ω"@),
        ("phi"@, "φ"@),
        ("eta"@, "η"@),
        ("xi"@, "χ"@),
        ("psi"@, "ψ"@),
        ("gamma"@, "γ"@),
        ("Delta"@, "Δ"@),
        ("Sigma"@, "Σ"@),
        ("Lambda"@, "Λ"@),
        ("Omega"@, "Ω"@),
        ("Xi"@, "Ξ"@),
        ("electron"@, "e"@),
        ("sigma"@, "σ"@),
    ]
}

impl QueryAlias {
    /// Builds the two alias tables, exactly as specified by
    /// `unit_alias_table` and `particle_alias_table`.
    #[verifier::rlimit(60)]
    pub fn new() -> (a: QueryAlias)
        ensures
            alias_views(a.unit_aliases@) == unit_alias_table(),
            alias_views(a.particle_display_aliases@) == particle_alias_table(),
    {
        let mut unit_aliases: Vec<(String, String)> = Vec::new();
        unit_aliases.push(("eV".to_owned(), "eV".to_owned()));
        unit_aliases.push(("GeV".to_owned(), "GeV".to_owned()));
        unit_aliases.push(("MeV".to_owned(), "MeV".to_owned()));
        unit_aliases.push(("TeV".to_owned(), "TeV".to_owned()));
        unit_aliases.push(("keV".to_owned(), "keV".to_owned()));
        unit_aliases.push(("s".to_owned(), "s".to_owned()));
        unit_aliases.push(("yr".to_owned(), "years".to_owned()));
        unit_aliases.push(("years".to_owned(), "years".to_owned()));
        unit_aliases.push(("u".to_owned(), "u".to_owned()));
        unit_aliases.push(("cm".to_owned(), "cm".to_owned()));
        unit_aliases.push(("fm".to_owned(), "fm".to_owned()));
        unit_aliases.push(("rad".to_owned(), "rad".to_owned()));
        unit_aliases.push(("degrees".to_owned(), "deg".to_owned()));
        unit_aliases.push(("nb".to_owned(), "nb".to_owned()));
        unit_aliases.push(("pb".to_owned(), "pb".to_owned()));
        unit_aliases.push(("ps".to_owned(), "ps".to_owned()));
        unit_aliases.push(("micrometers".to_owned(), "μm".to_owned()));
        unit_aliases.push(("eV**2".to_owned(), "eV²".to_owned()));
        unit_aliases.push(("GeV**2".to_owned(), "GeV²".to_owned()));
        unit_aliases.push(("GeV**3".to_owned(), "GeV³".to_owned()));
        unit_aliases.push(("GeV**4".to_owned(), "GeV⁴".to_owned()));
        unit_aliases.push(("GeV/c**2".to_owned(), "GeV/c²".to_owned()));
        unit_aliases.push(("GeV**-1".to_owned(), "1/GeV¹".to_owned()));
        unit_aliases.push(("GeV**-2".to_owned(), "1/GeV²".to_owned()));
        unit_aliases.push(("GeV**-1/2".to_owned(), "1/√GeV".to_owned()));
        unit_aliases.push(("sqrt(s)".to_owned(), "√s".to_owned()));
        unit_aliases.push(("TeV**-1".to_owned(), "1/TeV".to_owned()));
        unit_aliases.push(("s**-1".to_owned(), "1/s".to_owned()));
        unit_aliases.push(("ps**-1".to_owned(), "ps⁻¹".to_owned()));
        unit_aliases.push(("hbar s**-1".to_owned(), "ħ/s".to_owned()));
        unit_aliases.push(("s/eV".to_owned(), "s/eV".to_owned()));
        unit_aliases.push(("cm**2".to_owned(), "cm²".to_owned()));
        unit_aliases.push(("fm**2".to_owned(), "fm²".to_owned()));
        unit_aliases.push(("fm**3".to_owned(), "fm³".to_owned()));
        unit_aliases.push(("pi rad".to_owned(), "π rad".to_owned()));
        unit_aliases.push(("ecm".to_owned(), "E_CM".to_owned()));
        unit_aliases.push(("mu(B)".to_owned(), "μ_B".to_owned()));
        unit_aliases.push(("mu(N)".to_owned(), "μ_N".to_owned()));
        unit_aliases.push(("e/2mass(W)".to_owned(), "e/(2m_W)".to_owned()));
        proof {
            assert(alias_views(unit_aliases@) =~= unit_alias_table());
        }

        let mut particle_display_aliases: Vec<(String, String)> = Vec::new();
        particle_display_aliases.push(("nubar".to_owned(), "ν̅".to_owned()));
        particle_display_aliases.push(("Kbar".to_owned(), "K̅".to_owned()));
        particle_display_aliases.push(("mu".to_owned(), "μ".to_owned()));
        particle_display_aliases.push(("nu".to_owned(), "ν".to_owned()));
        particle_display_aliases.push(("tau".to_owned(), "τ".to_owned()));
        particle_display_aliases.push(("pi".to_owned(), "π".to_owned()));
        particle_display_aliases.push(("rho".to_owned(), "ρ".to_owned()));
        particle_display_aliases.push(("omega".to_owned(), "ω".to_owned()));
        particle_display_aliases.push(("phi".to_owned(), "φ".to_owned()));
        particle_display_aliases.push(("eta".to_owned(), "η".to_owned()));
        particle_display_aliases.push(("xi".to_owned(), "χ".to_owned()));
        particle_display_aliases.push(("psi".to_owned(), "ψ".to_owned()));
        particle_display_aliases.push(("gamma".to_owned(), "γ".to_owned()));
        particle_display_aliases.push(("Delta".to_owned(), "Δ".to_owned()));
        particle_display_aliases.push(("Sigma".to_owned(), "Σ".to_owned()));
        particle_display_aliases.push(("Lambda".to_owned(), "Λ".to_owned()));
        particle_display_aliases.push(("Omega".to_owned(), "Ω".to_owned()));
        particle_display_aliases.push(("Xi".to_owned(), "Ξ".to_owned()));
        particle_display_aliases.push(("electron".to_owned(), "e".to_owned()));
        particle_display_aliases.push(("sigma".to_owned(), "σ".to_owned()));
        proof {
            assert(alias_views(particle_display_aliases@) =~= particle_alias_table());
        }

        QueryAlias { unit_aliases, particle_display_aliases }
    }
}

} // verus!
