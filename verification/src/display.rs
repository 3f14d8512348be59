//! Display helpers on the compute side of the presentation layer: alias
//! substitution in unit expressions and descriptions, and the one-line text
//! form of a decay channel.

use vstd::prelude::*;
use vstd::string::*;
use crate::alias::QueryAlias;
use crate::channel::DecayChannel;
use crate::text::{alias_views, apply_aliases, apply_alias_list, fill_text, wrapped_text};

verus! {

/// The text of an optional field, or the given fallback.
pub open spec fn opt_text(o: Option<String>, fallback: Seq<char>) -> Seq<char> {
    match o {
        Some(s) => s@,
        None => fallback,
    }
}

/// Rewrites a stored unit expression into its display form by running the
/// unit alias replacements over it; a missing unit displays as empty text.
pub fn format_unit(unit_text: &Option<String>, aliases: &QueryAlias) -> (r: String)
    ensures
        r@ == apply_aliases(opt_text(*unit_text, ""@), alias_views(aliases.unit_aliases@)),
{
    let base: String = match unit_text {
        Some(u) => u.clone(),
        None => String::new(),
    };
    proof {
        reveal_strlit("");
        assert(base@ =~= opt_text(*unit_text, ""@));
    }
    apply_alias_list(base, &aliases.unit_aliases)
}

/// Rewrites a description into its display form — particle-name fragments
/// replaced by their symbols — and wraps it to the given width.  A missing
/// description displays as `Unknown`.
pub fn format_description(description: &Option<String>, width: usize, aliases: &QueryAlias) -> (r:
    String)
    ensures
        r@ == wrapped_text(
            apply_aliases(
                opt_text(*description, "Unknown"@),
                alias_views(aliases.particle_display_aliases@),
            ),
            width as int,
        ),
{
    let base: String = match description {
        Some(d) => d.clone(),
        None => "Unknown".to_owned(),
    };
    let substituted = apply_alias_list(base, &aliases.particle_display_aliases);
    fill_text(substituted.as_str(), width)
}

/// The decimal digit character for a value below ten.
pub open spec fn dec_digit(d: int) -> char {
    if d == 0 {
        '0'
    } else if d == 1 {
        '1'
    } else if d == 2 {
        '2'
    } else if d == 3 {
        '3'
    } else if d == 4 {
        '4'
    } else if d == 5 {
        '5'
    } else if d == 6 {
        '6'
    } else if d == 7 {
        '7'
    } else if d == 8 {
        '8'
    } else {
        '9'
    }
}

/// The decimal text of a non-negative number.
pub open spec fn dec_str(n: int) -> Seq<char>
    decreases n,
{
    if n < 10 {
        seq![dec_digit(n)]
    } else {
        dec_str(n / 10).push(dec_digit(n % 10))
    }
}

/// The decimal digit string for a value below ten.
fn digit_str(d: usize) -> (r: &'static str)
    requires
        d < 10,
    ensures
        r@ == seq![dec_digit(d as int)],
{
    let s: &'static str = match d {
        0 => "0",
        1 => "1",
        2 => "2",
        3 => "3",
        4 => "4",
        5 => "5",
        6 => "6",
        7 => "7",
        8 => "8",
        _ => "9",
    };
    proof {
        reveal_strlit("0");
        reveal_strlit("1");
        reveal_strlit("2");
        reveal_strlit("3");
        reveal_strlit("4");
        reveal_strlit("5");
        reveal_strlit("6");
        reveal_strlit("7");
        reveal_strlit("8");
        reveal_strlit("9");
        assert(s@ =~= seq![dec_digit(d as int)]);
    }
    s
}

/// Writes `n` in decimal.
pub fn usize_to_string(n: usize) -> (r: String)
    ensures
        r@ == dec_str(n as int),
    decreases n,
{
    if n < 10 {
        digit_str(n).to_owned()
    } else {
        let q = n / 10;
        let d = n % 10;
        let mut s = usize_to_string(q);
        s.append(digit_str(d));
        proof {
            assert(s@ =~= dec_str(q as int).push(dec_digit(d as int)));
        }
        s
    }
}

/// The joined daughter list of a channel: each multiplicity directly before
/// its particle name, entries joined by `+`.
pub open spec fn daughters_text(d: Seq<(String, usize)>) -> Seq<char>
    decreases d.len(),
{
    if d.len() == 0 {
        Seq::empty()
    } else if d.len() == 1 {
        dec_str(d[0].1 as int) + d[0].0@
    } else {
        daughters_text(d.drop_last()) + " + "@ + dec_str(d.last().1 as int) + d.last().0@
    }
}

/// The one-line text of a channel before aliasing and wrapping.
pub open spec fn channel_text(c: DecayChannel) -> Seq<char> {
    c.parent@ + " -> "@ + daughters_text(c.daughters@)
}

/// Renders a decay channel for display: parent, arrow, the daughters each
/// with their multiplicity, then particle-symbol aliasing and wrapping to
/// the given width.
pub fn decay_channel_text(decay: &DecayChannel, width: usize, aliases: &QueryAlias) -> (r: String)
    ensures
        r@ == wrapped_text(
            apply_aliases(channel_text(*decay), alias_views(aliases.particle_display_aliases@)),
            width as int,
        ),
{
    let ghost d = decay.daughters@;
    let mut text = decay.parent.clone();
    text.append(" -> ");
    let n = decay.daughters.len();
    let mut i: usize = 0;
    proof {
        assert(daughters_text(d.take(0)) =~= Seq::<char>::empty());
        assert(text@ =~= decay.parent@ + " -> "@ + daughters_text(d.take(0)));
    }
    while i < n
        invariant
            d == decay.daughters@,
            n == d.len(),
            i <= n,
            text@ == decay.parent@ + " -> "@ + daughters_text(d.take(i as int)),
        decreases n - i,
    {
        proof {
            assert(d.take(i + 1).drop_last() =~= d.take(i as int));
            assert(d.take(i + 1).last() == d[i as int]);
        }
        if i > 0 {
            text.append(" + ");
        }
        let entry = &decay.daughters[i];
        let mult_text = usize_to_string(entry.1);
        text.append(mult_text.as_str());
        text.append(entry.0.as_str());
        proof {
            if i == 0 {
                assert(d.take(1).len() == 1);
                assert(daughters_text(d.take(1)) == dec_str(d[0].1 as int) + d[0].0@);
                assert(text@ =~= decay.parent@ + " -> "@ + daughters_text(d.take(1)));
            } else {
                assert(daughters_text(d.take(i + 1)) == daughters_text(d.take(i as int)) + " + "@
                    + dec_str(d[i as int].1 as int) + d[i as int].0@);
                assert(text@ =~= decay.parent@ + " -> "@ + daughters_text(d.take(i + 1)));
            }
        }
        i += 1;
    }
    proof {
        assert(d.take(n as int) =~= d);
        assert(channel_text(*decay) == text@);
    }
    let substituted = apply_alias_list(text, &aliases.particle_display_aliases);
    fill_text(substituted.as_str(), width)
}

} // verus!
