//! Verified text utilities: character-exact string comparison and
//! search-and-replace, used by the token classifier and the display helpers.

use vstd::prelude::*;
use vstd::string::*;

verus! {

/// Character-by-character equality of two string slices.
pub fn str_eq(a: &str, b: &str) -> (r: bool)
    ensures
        r == (a@ == b@),
{
    let a_len = a.unicode_len();
    let b_len = b.unicode_len();
    if a_len != b_len {
        return false;
    }
    let mut i: usize = 0;
    while i < a_len
        invariant
            a_len == a@.len(),
            b_len == b@.len(),
            a_len == b_len,
            i <= a_len,
            forall|j: int| 0 <= j < i ==> a@[j] == b@[j],
        decreases a_len - i,
    {
        if a.get_char(i) != b.get_char(i) {
            return false;
        }
        i += 1;
    }
    proof {
        assert(a@ =~= b@);
    }
    true
}

/// `s` with every occurrence of `from` replaced by `to`, scanning left to
/// right without re-examining replaced text.  An empty `from` leaves `s`
/// unchanged.
pub open spec fn replaced(s: Seq<char>, from: Seq<char>, to: Seq<char>) -> Seq<char>
    decreases s.len(),
{
    if from.len() == 0 || s.len() == 0 {
        s
    } else if from.len() <= s.len() && s.take(from.len() as int) == from {
        to + replaced(s.skip(from.len() as int), from, to)
    } else {
        seq![s[0]] + replaced(s.skip(1), from, to)
    }
}

/// Replaces every occurrence of `from` in `s` by `to`.
pub fn replace_all(s: &str, from: &str, to: &str) -> (r: String)
    ensures
        r@ == replaced(s@, from@, to@),
{
    let n = s.unicode_len();
    let m = from.unicode_len();
    if m == 0 {
        return s.to_owned();
    }
    let mut out = String::new();
    let mut i: usize = 0;
    proof {
        assert(s@.skip(0) =~= s@);
        assert((out@ + replaced(s@, from@, to@)) =~= replaced(s@, from@, to@));
    }
    while i < n
        invariant
            n == s@.len(),
            m == from@.len(),
            m >= 1,
            i <= n,
            replaced(s@, from@, to@) == out@ + replaced(s@.skip(i as int), from@, to@),
        decreases n - i,
    {
        let mut matched = false;
        if m <= n - i {
            let window = s.substring_char(i, i + m);
            matched = str_eq(window, from);
        }
        let ghost prev = out@;
        let ghost rest = s@.skip(i as int);
        if matched {
            proof {
                assert(rest.take(m as int) =~= s@.subrange(i as int, i + m));
                assert(rest.skip(m as int) =~= s@.skip(i + m));
                assert(replaced(rest, from@, to@) == to@ + replaced(s@.skip(i + m), from@, to@));
                assert((prev + (to@ + replaced(s@.skip(i + m), from@, to@))) =~= ((prev + to@)
                    + replaced(s@.skip(i + m), from@, to@)));
            }
            out.append(to);
            i += m;
        } else {
            proof {
                if m <= rest.len() {
                    assert(rest.take(m as int) =~= s@.subrange(i as int, i + m));
                }
                assert(rest[0] == s@[i as int]);
                assert(rest.skip(1) =~= s@.skip(i + 1));
                assert(replaced(rest, from@, to@) == seq![s@[i as int]] + replaced(
                    s@.skip(i + 1),
                    from@,
                    to@,
                ));
            }
            let ch = s.substring_char(i, i + 1);
            proof {
                assert(ch@ =~= seq![s@[i as int]]);
                assert((prev + (ch@ + replaced(s@.skip(i + 1), from@, to@))) =~= ((prev + ch@)
                    + replaced(s@.skip(i + 1), from@, to@)));
            }
            out.append(ch);
            i += 1;
        }
    }
    proof {
        assert(s@.skip(n as int) =~= Seq::<char>::empty());
        assert((out@ + replaced(s@.skip(n as int), from@, to@)) =~= out@);
    }
    out
}

/// The views of an alias list: each entry's searched-for text and its
/// replacement.
pub open spec fn alias_views(v: Seq<(String, String)>) -> Seq<(Seq<char>, Seq<char>)> {
    v.map(|i: int, p: (String, String)| (p.0@, p.1@))
}

/// `s` after running every alias replacement, first entry first.
pub open spec fn apply_aliases(s: Seq<char>, aliases: Seq<(Seq<char>, Seq<char>)>) -> Seq<char>
    decreases aliases.len(),
{
    if aliases.len() == 0 {
        s
    } else {
        apply_aliases(replaced(s, aliases[0].0, aliases[0].1), aliases.drop_first())
    }
}

/// Runs every alias replacement over `s`, first entry first.
pub fn apply_alias_list(s: String, aliases: &Vec<(String, String)>) -> (r: String)
    ensures
        r@ == apply_aliases(s@, alias_views(aliases@)),
{
    let ghost orig = s@;
    let ghost views = alias_views(aliases@);
    let mut cur = s;
    let n = aliases.len();
    let mut k: usize = 0;
    proof {
        assert(views.skip(0) =~= views);
    }
    while k < n
        invariant
            views == alias_views(aliases@),
            n == aliases@.len(),
            n == views.len(),
            k <= n,
            apply_aliases(orig, views) == apply_aliases(cur@, views.skip(k as int)),
        decreases n - k,
    {
        proof {
            assert(views.skip(k as int)[0] == views[k as int]);
            assert(views.skip(k as int).drop_first() =~= views.skip(k + 1));
            assert(views[k as int].0 == aliases@[k as int].0@);
            assert(views[k as int].1 == aliases@[k as int].1@);
        }
        let pair = &aliases[k];
        cur = replace_all(cur.as_str(), pair.0.as_str(), pair.1.as_str());
        k += 1;
    }
    proof {
        assert(views.skip(n as int) =~= Seq::<(Seq<char>, Seq<char>)>::empty());
    }
    cur
}

/// The result of line-wrapping a text to a width; it depends on the text
/// and the width alone.
pub uninterp spec fn wrapped_text(s: Seq<char>, width: int) -> Seq<char>;

/// Relies on textwrap::fill: wraps a line of text at the given width,
/// joining the wrapped lines with newlines.
#[verifier::external_body]
pub(crate) fn fill_text(s: &str, width: usize) -> (r: String)
    ensures
        r@ == wrapped_text(s@, width as int),
{
    textwrap::fill(s, width)
}

} // verus!
