//! Token classification: maps a raw query token sequence to its query shape.

use vstd::prelude::*;
use crate::channel::QueryError;
use crate::text::str_eq;

verus! {

/// The shape of a query, as recognized from its token sequence.
/// Classification is total: every token sequence maps to exactly one variant,
/// with `Unknown` the explicit catch-all for malformed input.
#[derive(PartialEq, Eq, Structural, Debug, Clone, Copy)]
pub enum QueryType {
    /// A single token, looked up as one particle.
    SingleParticle,
    /// Explicit parent, fully named daughters, no wildcard.
    ExactDecay,
    /// Explicit parent, at least one `?` daughter, no `?*`.
    PartialDecay,
    /// `?` parent, fully named daughters, no `?*`.
    ParentlessDecayExact,
    /// `?` parent, at least one `?` daughter, no `?*`.
    ParentlessDecayPartial,
    /// `?*` present, explicit parent.
    DecayWildcard,
    /// `?*` present, `?` parent.
    ParentlessDecayWildcard,
    /// No recognized shape.
    Unknown,
}

/// The token separating the parent from its decay products.
pub open spec fn separator() -> Seq<char> {
    "->"@
}

/// The token standing for one unspecified particle.
pub open spec fn unspecified_marker() -> Seq<char> {
    "?"@
}

/// The token permitting any number of additional unspecified daughters.
pub open spec fn wildcard_marker() -> Seq<char> {
    "?*"@
}

pub open spec fn has_separator(toks: Seq<Seq<char>>) -> bool {
    exists|i: int| 0 <= i < toks.len() && toks[i] == separator()
}

/// Index of the first separator token, or `toks.len()` if there is none.
pub open spec fn first_separator(toks: Seq<Seq<char>>) -> int
    decreases toks.len(),
{
    if toks.len() == 0 {
        0
    } else if toks[0] == separator() {
        0
    } else {
        1 + first_separator(toks.drop_first())
    }
}

/// The daughter tokens: everything after the first separator.
pub open spec fn daughter_tokens(toks: Seq<Seq<char>>) -> Seq<Seq<char>> {
    if has_separator(toks) {
        toks.skip(first_separator(toks) + 1)
    } else {
        Seq::empty()
    }
}

pub open spec fn has_wildcard(toks: Seq<Seq<char>>) -> bool {
    exists|i: int| 0 <= i < toks.len() && toks[i] == wildcard_marker()
}

pub open spec fn has_unspecified_daughter(toks: Seq<Seq<char>>) -> bool {
    exists|i: int|
        0 <= i < daughter_tokens(toks).len() && daughter_tokens(toks)[i] == unspecified_marker()
}

/// The parent position is the first token; it is explicit when it is not `?`.
pub open spec fn parent_is_explicit(toks: Seq<Seq<char>>) -> bool {
    toks.len() > 0 && toks[0] != unspecified_marker()
}

/// Total classification of a token sequence.  A `?*` anywhere forces one of
/// the two wildcard variants, regardless of any `?` daughters.
pub open spec fn classify(toks: Seq<Seq<char>>) -> QueryType {
    if toks.len() == 1 {
        QueryType::SingleParticle
    } else if !has_separator(toks) {
        QueryType::Unknown
    } else if has_wildcard(toks) {
        if parent_is_explicit(toks) {
            QueryType::DecayWildcard
        } else {
            QueryType::ParentlessDecayWildcard
        }
    } else {
        if parent_is_explicit(toks) {
            if !has_unspecified_daughter(toks) {
                QueryType::ExactDecay
            } else {
                QueryType::PartialDecay
            }
        } else {
            if !has_unspecified_daughter(toks) {
                QueryType::ParentlessDecayExact
            } else {
                QueryType::ParentlessDecayPartial
            }
        }
    }
}

/// `first_separator` is exactly the position of the first separator token.
pub proof fn lemma_first_separator(toks: Seq<Seq<char>>, i: int)
    requires
        0 <= i < toks.len(),
        toks[i] == separator(),
        forall|j: int| 0 <= j < i ==> toks[j] != separator(),
    ensures
        first_separator(toks) == i,
    decreases i,
{
    if i > 0 {
        lemma_first_separator(toks.drop_first(), i - 1);
    }
}

/// Every single-token sequence is classified as a single-particle lookup.
pub proof fn lemma_single_token_is_single_particle(toks: Seq<Seq<char>>)
    requires
        toks.len() == 1,
    ensures
        classify(toks) is SingleParticle,
{
}

/// Wildcard precedence: a sequence with both a `?` daughter and a `?*` token
/// is always classified as one of the two wildcard variants, never as a
/// partial variant.
pub proof fn lemma_wildcard_precedence(toks: Seq<Seq<char>>)
    requires
        has_wildcard(toks),
        has_unspecified_daughter(toks),
    ensures
        classify(toks) is DecayWildcard || classify(toks) is ParentlessDecayWildcard,
{
    assert(has_separator(toks));
    if toks.len() == 1 {
        let i = choose|i: int|
            0 <= i < daughter_tokens(toks).len() && daughter_tokens(toks)[i]
                == unspecified_marker();
        assert(first_separator(toks) == 0) by {
            if toks[0] != separator() {
                let k = choose|k: int| 0 <= k < toks.len() && toks[k] == separator();
                assert(k == 0);
            }
        }
        assert(daughter_tokens(toks).len() == 0);
    }
}

/// Tokens that pre-flight validation passes over without looking them up:
/// the program's own invocation name and the three reserved markers.
pub open spec fn is_skipped_token(t: Seq<char>) -> bool {
    t == "pdgQuery"@ || t == separator() || t == unspecified_marker() || t == wildcard_marker()
}

/// Every token naming a particle resolves against the known-name directory.
pub open spec fn all_tokens_known(toks: Seq<Seq<char>>, known: Seq<Seq<char>>) -> bool {
    forall|i: int|
        0 <= i < toks.len() && !is_skipped_token(#[trigger] toks[i]) ==> known.contains(toks[i])
}

/// Is `t` listed in the known-name directory?
fn name_is_known(known_names: &Vec<String>, t: &str) -> (b: bool)
    ensures
        b == known_names.deep_view().contains(t@),
{
    let ghost kn = known_names.deep_view();
    let n = known_names.len();
    let mut j: usize = 0;
    while j < n
        invariant
            kn == known_names.deep_view(),
            n == kn.len(),
            j <= n,
            forall|k: int| 0 <= k < j ==> kn[k] != t@,
        decreases n - j,
    {
        if str_eq(known_names[j].as_str(), t) {
            proof {
                assert(kn[j as int] == t@);
            }
            return true;
        }
        j += 1;
    }
    false
}

/// Pre-flight validation: every token that names a particle must resolve
/// against the known-name directory.  Fails fast on the first unresolved
/// token; reserved markers and the program's invocation name are passed
/// over.
pub fn query_verify(args: &[&str], known_names: &Vec<String>) -> (r: Result<(), QueryError>)
    ensures
        r is Ok <==> all_tokens_known(args.deep_view(), known_names.deep_view()),
        r matches Err(e) ==> e matches QueryError::UnknownParticleToken(t) && exists|i: int|
            {
                &&& 0 <= i < args.deep_view().len()
                &&& t@ == args.deep_view()[i]
                &&& !is_skipped_token(#[trigger] args.deep_view()[i])
                &&& !known_names.deep_view().contains(args.deep_view()[i])
                &&& forall|j: int|
                    0 <= j < i ==> is_skipped_token(#[trigger] args.deep_view()[j])
                        || known_names.deep_view().contains(args.deep_view()[j])
            },
{
    let ghost toks = args.deep_view();
    let ghost kn = known_names.deep_view();
    let n = args.len();
    let mut i: usize = 0;
    while i < n
        invariant
            toks == args.deep_view(),
            kn == known_names.deep_view(),
            n == toks.len(),
            i <= n,
            forall|j: int|
                0 <= j < i ==> is_skipped_token(#[trigger] toks[j]) || kn.contains(toks[j]),
        decreases n - i,
    {
        let t: &str = args[i];
        let skipped = str_eq(t, "pdgQuery") || str_eq(t, "?") || str_eq(t, "?*") || str_eq(
            t,
            "->",
        );
        if !skipped {
            if !name_is_known(known_names, t) {
                proof {
                    assert(0 <= i < toks.len() && t@ == toks[i as int] && !is_skipped_token(
                        toks[i as int],
                    ) && !kn.contains(toks[i as int]));
                    assert(!all_tokens_known(toks, kn));
                }
                return Err(QueryError::UnknownParticleToken(t.to_owned()));
            }
        }
        i += 1;
    }
    Ok(())
}

/// Classifies a token sequence into its query shape.
pub fn query_type_classifier(user_input: &[&str]) -> (t: QueryType)
    ensures
        t == classify(user_input.deep_view()),
{
    let ghost toks = user_input.deep_view();
    let n = user_input.len();
    proof {
        assert(toks.len() == n);
    }
    if n == 1 {
        return QueryType::SingleParticle;
    }

    let mut sep_idx: usize = n;
    let mut i: usize = 0;
    while i < n
        invariant
            toks == user_input.deep_view(),
            n == user_input.len(),
            n == toks.len(),
            i <= n,
            sep_idx == n || (sep_idx < i && toks[sep_idx as int] == separator()),
            sep_idx == n ==> forall|j: int| 0 <= j < i ==> toks[j] != separator(),
            sep_idx < n ==> forall|j: int| 0 <= j < sep_idx ==> toks[j] != separator(),
        decreases n - i,
    {
        if sep_idx == n && str_eq(user_input[i], "->") {
            sep_idx = i;
        }
        i += 1;
    }

    if sep_idx == n {
        assert(!has_separator(toks));
        return QueryType::Unknown;
    }

    proof {
        lemma_first_separator(toks, sep_idx as int);
    }
    let ghost d = daughter_tokens(toks);
    proof {
        assert(d =~= toks.skip(sep_idx + 1));
    }

    // Is `?*` present anywhere?
    let mut wc = false;
    let mut k: usize = 0;
    while k < n
        invariant
            toks == user_input.deep_view(),
            n == user_input.len(),
            n == toks.len(),
            k <= n,
            wc ==> has_wildcard(toks),
            !wc ==> forall|j: int| 0 <= j < k ==> toks[j] != wildcard_marker(),
        decreases n - k,
    {
        if !wc && str_eq(user_input[k], "?*") {
            proof {
                assert(toks[k as int] == wildcard_marker());
            }
            wc = true;
        }
        k += 1;
    }
    proof {
        if !wc {
            assert(!has_wildcard(toks));
        }
    }

    // Is the parent position explicit?
    let exact_parent = !str_eq(user_input[0], "?");

    if wc {
        if exact_parent {
            return QueryType::DecayWildcard;
        } else {
            return QueryType::ParentlessDecayWildcard;
        }
    }

    // Does any daughter token equal `?`?
    let mut unspec = false;
    let mut m: usize = sep_idx + 1;
    while m < n
        invariant
            toks == user_input.deep_view(),
            n == user_input.len(),
            n == toks.len(),
            sep_idx < n,
            d == daughter_tokens(toks),
            d.len() == n - (sep_idx + 1),
            forall|j: int| 0 <= j < d.len() ==> d[j] == toks[sep_idx + 1 + j],
            sep_idx + 1 <= m <= n,
            unspec ==> has_unspecified_daughter(toks),
            !unspec ==> forall|j: int| 0 <= j < m - (sep_idx + 1) ==> d[j] != unspecified_marker(),
        decreases n - m,
    {
        if !unspec && str_eq(user_input[m], "?") {
            proof {
                assert(d[m - (sep_idx + 1)] == toks[m as int]);
            }
            unspec = true;
        }
        m += 1;
    }
    proof {
        if !unspec {
            assert(!has_unspecified_daughter(toks));
        }
    }

    if exact_parent {
        if !unspec {
            QueryType::ExactDecay
        } else {
            QueryType::PartialDecay
        }
    } else {
        if !unspec {
            QueryType::ParentlessDecayExact
        } else {
            QueryType::ParentlessDecayPartial
        }
    }
}

} // verus!
