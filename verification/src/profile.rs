//! Daughter-profile construction: the sub-sequence of tokens after the
//! separator, reduced to a mapping from particle name to required
//! multiplicity.  Wildcard markers are not part of the profile.

use vstd::prelude::*;
use vstd::string::*;
use crate::parser::{daughter_tokens, has_separator, separator, unspecified_marker,
    wildcard_marker};
use crate::text::str_eq;

verus! {

/// A token naming one particle, as opposed to a reserved marker.
pub open spec fn is_named(t: Seq<char>) -> bool {
    t != unspecified_marker() && t != wildcard_marker()
}

/// How many members of `s` equal `x`.
pub open spec fn occurrences(s: Seq<Seq<char>>, x: Seq<char>) -> int
    decreases s.len(),
{
    if s.len() == 0 {
        0
    } else {
        occurrences(s.drop_last(), x) + if s.last() == x {
            1int
        } else {
            0int
        }
    }
}

/// The subsequence of named tokens, in order.
pub open spec fn named_only(s: Seq<Seq<char>>) -> Seq<Seq<char>>
    decreases s.len(),
{
    if s.len() == 0 {
        Seq::empty()
    } else if is_named(s.last()) {
        named_only(s.drop_last()).push(s.last())
    } else {
        named_only(s.drop_last())
    }
}

/// The number of named daughter tokens: the sum of the profile's required
/// multiplicities.
pub open spec fn named_daughter_count(toks: Seq<Seq<char>>) -> int {
    named_only(daughter_tokens(toks)).len() as int
}

/// `p` is the daughter profile of the token sequence `d`: one entry per
/// distinct named token, carrying its number of occurrences, and an entry
/// for every named token.
pub open spec fn profile_represents(p: Seq<(String, usize)>, d: Seq<Seq<char>>) -> bool {
    &&& forall|k: int|
        0 <= k < p.len() ==> is_named((#[trigger] p[k]).0@) && p[k].1 == occurrences(d, p[k].0@)
            && d.contains(p[k].0@)
    &&& forall|k1: int, k2: int| 0 <= k1 < k2 < p.len() ==> p[k1].0@ != p[k2].0@
    &&& forall|i: int|
        0 <= i < d.len() && is_named(#[trigger] d[i]) ==> exists|k: int|
            0 <= k < p.len() && p[k].0@ == d[i]
}

/// The decay products of a query: every token after the first separator.
pub fn get_decay_products<'a>(args: &'a [&'a str]) -> (r: Vec<&'a str>)
    ensures
        r.deep_view() == daughter_tokens(args.deep_view()),
{
    let ghost toks = args.deep_view();
    let n = args.len();
    let mut sep_idx: usize = n;
    let mut i: usize = 0;
    while i < n
        invariant
            toks == args.deep_view(),
            n == args.len(),
            n == toks.len(),
            i <= n,
            sep_idx == n || (sep_idx < i && toks[sep_idx as int] == separator()),
            sep_idx == n ==> forall|j: int| 0 <= j < i ==> toks[j] != separator(),
            sep_idx < n ==> forall|j: int| 0 <= j < sep_idx ==> toks[j] != separator(),
        decreases n - i,
    {
        if sep_idx == n && str_eq(args[i], "->") {
            sep_idx = i;
        }
        i += 1;
    }

    let mut r: Vec<&'a str> = Vec::new();
    if sep_idx == n {
        assert(!has_separator(toks));
        assert(r.deep_view() =~= daughter_tokens(toks));
        return r;
    }

    proof {
        crate::parser::lemma_first_separator(toks, sep_idx as int);
    }
    let mut m: usize = sep_idx + 1;
    while m < n
        invariant
            toks == args.deep_view(),
            n == args.len(),
            n == toks.len(),
            sep_idx < n,
            sep_idx + 1 <= m <= n,
            r.deep_view().len() == m - (sep_idx + 1),
            forall|j: int| 0 <= j < r.deep_view().len() ==> r.deep_view()[j] == toks[sep_idx + 1
                + j],
        decreases n - m,
    {
        let ghost prev = r.deep_view();
        r.push(args[m]);
        proof {
            assert(r.deep_view() =~= prev.push(toks[m as int]));
        }
        m += 1;
    }
    proof {
        assert(r.deep_view() =~= toks.skip(sep_idx + 1));
    }
    r
}

/// Does `t` name a particle (rather than being a reserved marker)?
pub fn is_named_token(t: &str) -> (b: bool)
    ensures
        b == is_named(t@),
{
    !str_eq(t, "?") && !str_eq(t, "?*")
}

/// Counts the members of `items` equal to `x`.
pub fn count_occurrences(items: &Vec<&str>, x: &str) -> (c: usize)
    ensures
        c == occurrences(items.deep_view(), x@),
{
    let ghost d = items.deep_view();
    let n = items.len();
    let mut c: usize = 0;
    let mut j: usize = 0;
    while j < n
        invariant
            d == items.deep_view(),
            n == items.len(),
            n == d.len(),
            j <= n,
            c <= j,
            c == occurrences(d.take(j as int), x@),
        decreases n - j,
    {
        proof {
            assert(d.take(j + 1).drop_last() =~= d.take(j as int));
            assert(d.take(j + 1).last() == d[j as int]);
        }
        if str_eq(items[j], x) {
            c += 1;
        }
        j += 1;
    }
    proof {
        assert(d.take(n as int) =~= d);
    }
    c
}

/// Counts the named tokens of `items`.
pub fn count_named(items: &Vec<&str>) -> (c: usize)
    ensures
        c == named_only(items.deep_view()).len(),
{
    let ghost d = items.deep_view();
    let n = items.len();
    let mut c: usize = 0;
    let mut j: usize = 0;
    while j < n
        invariant
            d == items.deep_view(),
            n == items.len(),
            n == d.len(),
            j <= n,
            c <= j,
            c == named_only(d.take(j as int)).len(),
        decreases n - j,
    {
        proof {
            assert(d.take(j + 1).drop_last() =~= d.take(j as int));
            assert(d.take(j + 1).last() == d[j as int]);
        }
        if is_named_token(items[j]) {
            c += 1;
        }
        j += 1;
    }
    proof {
        assert(d.take(n as int) =~= d);
    }
    c
}

/// Is some profile entry named `t`?
fn profile_contains(p: &Vec<(String, usize)>, t: &str) -> (b: bool)
    ensures
        b == exists|k: int| 0 <= k < p@.len() && (#[trigger] p@[k]).0@ == t@,
{
    let n = p.len();
    let mut j: usize = 0;
    while j < n
        invariant
            n == p@.len(),
            j <= n,
            forall|k: int| 0 <= k < j ==> (#[trigger] p@[k]).0@ != t@,
        decreases n - j,
    {
        if str_eq(p[j].0.as_str(), t) {
            return true;
        }
        j += 1;
    }
    false
}

/// Builds the daughter profile of `products`: one entry per distinct named
/// token, with its required multiplicity; `?` and `?*` are discarded.
pub fn build_profile(products: &Vec<&str>) -> (p: Vec<(String, usize)>)
    ensures
        profile_represents(p@, products.deep_view()),
{
    let ghost d = products.deep_view();
    let n = products.len();
    let mut p: Vec<(String, usize)> = Vec::new();
    let mut i: usize = 0;
    while i < n
        invariant
            d == products.deep_view(),
            n == products.len(),
            n == d.len(),
            i <= n,
            forall|k: int|
                0 <= k < p@.len() ==> is_named((#[trigger] p@[k]).0@) && p@[k].1 == occurrences(
                    d,
                    p@[k].0@,
                ) && d.contains(p@[k].0@),
            forall|k1: int, k2: int| 0 <= k1 < k2 < p@.len() ==> p@[k1].0@ != p@[k2].0@,
            forall|j: int|
                0 <= j < i && is_named(#[trigger] d[j]) ==> exists|k: int|
                    0 <= k < p@.len() && p@[k].0@ == d[j],
        decreases n - i,
    {
        let t = products[i];
        proof {
            assert(d[i as int] == t@);
        }
        if is_named_token(t) && !profile_contains(&p, t) {
            let c = count_occurrences(products, t);
            proof {
                assert(d.contains(d[i as int]));
            }
            let ghost prev = p@;
            p.push((t.to_owned(), c));
            proof {
                assert((p@[p@.len() - 1]).0@ == d[i as int]);
                assert forall|j: int|
                    0 <= j < i && is_named(#[trigger] d[j]) implies exists|k: int|
                    0 <= k < p@.len() && (#[trigger] p@[k]).0@ == d[j] by {
                    let k0 = choose|k0: int| 0 <= k0 < prev.len() && (#[trigger] prev[k0]).0@
                        == d[j];
                    assert(p@[k0] == prev[k0]);
                }
            }
        }
        i += 1;
    }
    p
}

} // verus!
