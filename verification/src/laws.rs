//! Laws of the engine: what compiled patterns of particular shapes accept.

use crate::matcher::accepts;
use crate::pattern::{atom_of, is_atom, is_quantifier, table_of, well_formed};
use crate::regex::REGEX;
use crate::semantics::{items_match, items_of, takes, theorem_accepts_iff_matches, Item};
use crate::table::{symbol, FSM_ENDLINE};
use vstd::prelude::*;

verus! {

/// A plain pattern is made of atoms only: literals and wildcards, without
/// quantifier or anchor.
pub open spec fn is_plain(p: Seq<char>) -> bool {
    forall|i: int| 0 <= i < p.len() ==> is_atom(#[trigger] p[i])
}

/// The input is at least as long as the pattern, and each atom takes the
/// character at its own position.
pub open spec fn prefix_taken(p: Seq<char>, s: Seq<char>) -> bool {
    &&& s.len() >= p.len()
    &&& forall|i: int| 0 <= i < p.len() ==> takes(atom_of(#[trigger] p[i]), s[i])
}

/// Every character of the input is one that the atom `x` takes.
pub open spec fn all_taken(x: char, s: Seq<char>) -> bool {
    forall|i: int| 0 <= i < s.len() ==> takes(atom_of(x), #[trigger] s[i])
}

/// A plain pattern, with or without an anchor behind it, is well formed.
proof fn lemma_plain_well_formed(p: Seq<char>)
    requires
        is_plain(p),
    ensures
        well_formed(p),
        well_formed(p.push('$')),
{
    let q = p.push('$');
    assert forall|i: int| 0 <= i < q.len() implies {
        &&& symbol(#[trigger] q[i]) < FSM_ENDLINE
        &&& is_quantifier(q[i]) ==> i > 0 && is_atom(q[i - 1])
    } by {
        if i < p.len() {
            assert(q[i] == p[i]);
        }
    }
}

/// The items of a plain pattern are its atoms, one for one.
proof fn lemma_plain_items(p: Seq<char>)
    requires
        is_plain(p),
    ensures
        items_of(p).len() == p.len(),
        forall|i: int| 0 <= i < p.len() ==> #[trigger] items_of(p)[i] == Item::One(atom_of(p[i])),
        items_of(p.push('$')) == items_of(p).push(Item::End),
    decreases p.len(),
{
    assert(p.push('$').drop_last() =~= p);
    if p.len() > 0 {
        let q = p.drop_last();
        assert(is_plain(q)) by {
            assert forall|i: int| 0 <= i < q.len() implies is_atom(#[trigger] q[i]) by {
                assert(q[i] == p[i]);
            }
        }
        lemma_plain_items(q);
        assert(is_atom(p[p.len() - 1]));
    }
}

/// Matching the atoms of a plain pattern from item `k`, with `k` characters
/// read, with or without the anchor behind them.
proof fn lemma_atoms_from(p: Seq<char>, anchored: bool, s: Seq<char>, k: int)
    requires
        is_plain(p),
        0 <= k <= p.len(),
        k <= s.len(),
    ensures
        items_match(
            if anchored {
                items_of(p).push(Item::End)
            } else {
                items_of(p)
            },
            k,
            s,
            k,
        ) <==> ((if anchored {
            s.len() == p.len()
        } else {
            s.len() >= p.len()
        }) && forall|i: int| k <= i < p.len() ==> takes(atom_of(#[trigger] p[i]), s[i])),
    decreases p.len() - k,
{
    lemma_plain_items(p);
    let items = if anchored {
        items_of(p).push(Item::End)
    } else {
        items_of(p)
    };
    if k < p.len() {
        assert(items[k] == items_of(p)[k]);
        assert(items[k] == Item::One(atom_of(p[k])));
        if k < s.len() {
            lemma_atoms_from(p, anchored, s, k + 1);
        }
    }
}

/// A pattern of literals and wildcards alone accepts an input exactly when
/// the input is at least as long as the pattern and each of its leading
/// characters is taken by the atom at the same position. What follows in
/// the input plays no part.
pub proof fn law_plain_pattern(p: Seq<char>, s: Seq<char>)
    requires
        is_plain(p),
    ensures
        accepts(table_of(p), s) <==> prefix_taken(p, s),
{
    lemma_plain_well_formed(p);
    theorem_accepts_iff_matches(p, s);
    lemma_atoms_from(p, false, s, 0);
}

/// With `$` behind a plain pattern, an input is accepted exactly when the
/// plain pattern accepts it and it is as long as the pattern has atoms.
pub proof fn law_end_anchor(p: Seq<char>, s: Seq<char>)
    requires
        is_plain(p),
    ensures
        accepts(table_of(p.push('$')), s) <==> (accepts(table_of(p), s) && s.len() == p.len()),
{
    lemma_plain_well_formed(p);
    lemma_plain_items(p);
    theorem_accepts_iff_matches(p.push('$'), s);
    lemma_atoms_from(p, true, s, 0);
    law_plain_pattern(p, s);
}

/// The items of an atom with a quantifier behind it.
proof fn lemma_quantified_items(x: char)
    requires
        is_atom(x),
    ensures
        well_formed(seq![x, '*']),
        well_formed(seq![x, '+']),
        items_of(seq![x, '*']) == seq![Item::Many(atom_of(x))],
        items_of(seq![x, '+']) == seq![Item::One(atom_of(x)), Item::Many(atom_of(x))],
{
    let a = seq![x];
    let star = seq![x, '*'];
    let plus = seq![x, '+'];
    assert(star[0] == x && star[1] == '*');
    assert(plus[0] == x && plus[1] == '+');
    assert(a.drop_last() =~= Seq::<char>::empty());
    assert(star.drop_last() =~= a);
    assert(plus.drop_last() =~= a);
    assert(items_of(Seq::<char>::empty()) =~= Seq::<Item>::empty());
    assert(a.last() == x);
    assert(items_of(a) =~= seq![Item::One(atom_of(x))]);
    assert(items_of(star) =~= seq![Item::Many(atom_of(x))]);
    assert(items_of(plus) =~= seq![Item::One(atom_of(x)), Item::Many(atom_of(x))]);
}

/// A repetition of `x` that is the last item matches whatever is left of an
/// input whose characters `x` takes.
proof fn lemma_repeat_to_the_end(items: Seq<Item>, x: char, s: Seq<char>, h: int)
    requires
        items.len() > 0,
        items.last() == Item::Many(atom_of(x)),
        all_taken(x, s),
        0 <= h <= s.len(),
    ensures
        items_match(items, items.len() - 1, s, h),
    decreases s.len() - h,
{
    if h < s.len() {
        assert(takes(atom_of(x), s[h]));
        lemma_repeat_to_the_end(items, x, s, h + 1);
    }
}

/// `x*` accepts every input made of characters that the atom `x` takes,
/// the empty input among them.
pub proof fn law_star(x: char, s: Seq<char>)
    requires
        is_atom(x),
        all_taken(x, s),
    ensures
        accepts(table_of(seq![x, '*']), s),
{
    lemma_quantified_items(x);
    theorem_accepts_iff_matches(seq![x, '*'], s);
    lemma_repeat_to_the_end(seq![Item::Many(atom_of(x))], x, s, 0);
}

/// Of the inputs made of characters that the atom `x` takes, `x+` accepts
/// those with at least one character and rejects the empty one.
pub proof fn law_plus(x: char, s: Seq<char>)
    requires
        is_atom(x),
        all_taken(x, s),
    ensures
        accepts(table_of(seq![x, '+']), s) <==> s.len() >= 1,
{
    lemma_quantified_items(x);
    theorem_accepts_iff_matches(seq![x, '+'], s);
    if s.len() >= 1 {
        assert(takes(atom_of(x), s[0]));
        lemma_repeat_to_the_end(seq![Item::One(atom_of(x)), Item::Many(atom_of(x))], x, s, 1);
    }
}

/// The number of `*` in a pattern.
pub open spec fn star_count(p: Seq<char>) -> nat
    decreases p.len(),
{
    if p.len() == 0 {
        0
    } else if p.last() == '*' {
        star_count(p.drop_last()) + 1
    } else {
        star_count(p.drop_last())
    }
}

/// Behind the placeholder, a table has one column for every pattern
/// character but `*`, which rewrites a column in place.
pub proof fn law_column_count(p: Seq<char>)
    ensures
        table_of(p).len() >= 1,
        table_of(p).len() + star_count(p) == p.len() + 1,
    decreases p.len(),
{
    if p.len() > 0 {
        law_column_count(p.drop_last());
    }
}

/// Compiling is a function of the pattern: two automata compiled from the
/// same pattern have the same table and give the same answer on every
/// input.
pub proof fn law_compile_deterministic(a: REGEX, b: REGEX, p: Seq<char>, s: Seq<char>)
    requires
        a@ == table_of(p),
        b@ == table_of(p),
    ensures
        a@ == b@,
        accepts(a@, s) == accepts(b@, s),
{
}

} // verus!
