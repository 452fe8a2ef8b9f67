//! What a pattern means, stated without the table, and the proof that the
//! compiled table means the same.

use crate::matcher::{accepting, accepts, is_automaton, progresses, run, transition};
use crate::pattern::{
    anchor_column, atom_column, atom_of, extend, is_atom, is_quantifier,
    lemma_last_column_fresh, plus_column, star_column, table_of, well_formed, Atom,
};
use crate::table::{
    blank_column, bypass, consume, reject, symbol, Column, Table, FSM_COLUMN_SIZE, FSM_ENDLINE,
};
use vstd::prelude::*;

verus! {

/// One step of a pattern as the automaton takes it. Each item owns one
/// state.
pub enum Item {
    /// An atom that takes exactly one character.
    One(Atom),
    /// An atom that takes as many characters as it can, possibly none.
    Many(Atom),
    /// The end of the input.
    End,
}

/// The repetition of the atom that `item` holds.
pub open spec fn repeated(item: Item) -> Item {
    match item {
        Item::One(a) => Item::Many(a),
        Item::Many(a) => Item::Many(a),
        Item::End => Item::End,
    }
}

/// The items after one more pattern character. An atom and the anchor add
/// an item; `*` turns the atom before it into a repetition; `+` leaves the
/// atom in place and adds its repetition, so that `x+` reads as `x`
/// followed by `x*`.
pub open spec fn extend_items(items: Seq<Item>, c: char) -> Seq<Item> {
    if c == '$' {
        items.push(Item::End)
    } else if c == '*' {
        items.drop_last().push(repeated(items.last()))
    } else if c == '+' {
        items.push(repeated(items.last()))
    } else {
        items.push(Item::One(atom_of(c)))
    }
}

/// The items of a pattern.
pub open spec fn items_of(p: Seq<char>) -> Seq<Item>
    decreases p.len(),
{
    if p.len() == 0 {
        Seq::empty()
    } else {
        extend_items(items_of(p.drop_last()), p.last())
    }
}

/// Whether `c` belongs to the alphabet of the automaton.
pub open spec fn in_alphabet(c: char) -> bool {
    symbol(c) < FSM_ENDLINE
}

/// Whether the atom `a` takes the character `c`.
pub open spec fn takes(a: Atom, c: char) -> bool {
    a.takes(symbol(c) as int)
}

/// Whether the input from `h` on matches the items from `i` on.
///
/// An atom must take the next character. A repetition takes characters
/// while it can and then gives way to the next item: matching is greedy
/// and never goes back. Only a character of the alphabet ends a
/// repetition; any other rejects. The anchor holds at the end of the input
/// alone. Once the input is used up, at most one item may still be open,
/// and it must be a repetition or the anchor. Input that is left when the
/// items are used up is ignored.
pub open spec fn items_match(items: Seq<Item>, i: int, s: Seq<char>, h: int) -> bool
    decreases s.len() - h, items.len() - i,
{
    if i < 0 || i >= items.len() {
        true
    } else {
        match items[i] {
            Item::One(a) => {
                &&& 0 <= h < s.len()
                &&& takes(a, s[h])
                &&& items_match(items, i + 1, s, h + 1)
            },
            Item::Many(a) => {
                if 0 <= h < s.len() {
                    if takes(a, s[h]) {
                        items_match(items, i, s, h + 1)
                    } else {
                        in_alphabet(s[h]) && items_match(items, i + 1, s, h)
                    }
                } else {
                    i + 1 == items.len()
                }
            },
            Item::End => h >= s.len() && i + 1 == items.len(),
        }
    }
}

/// Whether the input matches the pattern.
pub open spec fn is_match(p: Seq<char>, s: Seq<char>) -> bool {
    items_match(items_of(p), 0, s, 0)
}

/// The column of a repeated atom in state `j`: what the atom takes loops,
/// every other symbol moves on without being consumed.
pub open spec fn repeat_column(a: Atom, j: nat) -> Column {
    Seq::new(
        FSM_COLUMN_SIZE as nat,
        |s: int|
            if a.takes(s) {
                consume(j)
            } else {
                bypass(j + 1)
            },
    )
}

/// The column of an item that owns state `j`.
pub open spec fn item_column(item: Item, j: nat) -> Column {
    match item {
        Item::One(a) => atom_column(a, j + 1),
        Item::Many(a) => repeat_column(a, j),
        Item::End => anchor_column(j + 1),
    }
}

/// The table of a sequence of items: the placeholder, then the column of
/// each item; item `i` owns state `i + 1`.
pub open spec fn automaton_of(items: Seq<Item>) -> Table {
    Seq::new(
        items.len() + 1,
        |j: int|
            if j == 0 {
                blank_column()
            } else {
                item_column(items[j - 1], j as nat)
            },
    )
}

/// The atoms of the items take symbols of the alphabet only.
pub open spec fn items_in_alphabet(items: Seq<Item>) -> bool {
    forall|i: int|
        0 <= i < items.len() ==> match #[trigger] items[i] {
            Item::One(a) => a.in_alphabet(),
            Item::Many(a) => a.in_alphabet(),
            Item::End => true,
        }
}

/// The table of any items is an automaton.
pub proof fn lemma_automaton_of_items(items: Seq<Item>)
    ensures
        is_automaton(automaton_of(items)),
{
    let t = automaton_of(items);
    assert forall|j: int| 0 <= j < t.len() implies (#[trigger] t[j]).len() == FSM_COLUMN_SIZE by {}
    assert forall|j: int, s: int|
        0 <= j < t.len() && 0 <= s < FSM_COLUMN_SIZE implies progresses(#[trigger] t[j][s], j) by {}
}

/// From the state of item `i` the walk over the table of the items accepts
/// exactly when the input matches the items from `i` on.
pub proof fn lemma_walk_matches(items: Seq<Item>, i: int, s: Seq<char>, h: int)
    requires
        items_in_alphabet(items),
        0 <= i <= items.len(),
        0 <= h <= s.len(),
    ensures
        accepting(automaton_of(items), run(automaton_of(items), s, (i + 1) as nat, h as nat))
            == items_match(items, i, s, h),
    decreases s.len() - h, items.len() - i,
{
    let t = automaton_of(items);
    let j = (i + 1) as nat;
    lemma_automaton_of_items(items);
    if i < items.len() {
        let item = items[i];
        assert(t[j as int] == item_column(item, j));
        if h < s.len() {
            let c = s[h];
            let a = transition(t, j, c);
            assert(run(t, s, j, h as nat) == run(t, s, a.next, (h + a.offset) as nat));
            match item {
                Item::One(x) => {
                    if takes(x, c) {
                        assert(a == consume(j + 1));
                        lemma_walk_matches(items, i + 1, s, h + 1);
                    } else {
                        assert(a == reject());
                    }
                },
                Item::Many(x) => {
                    if takes(x, c) {
                        assert(a == consume(j));
                        lemma_walk_matches(items, i, s, h + 1);
                    } else if in_alphabet(c) {
                        assert(a == bypass(j + 1));
                        lemma_walk_matches(items, i + 1, s, h);
                    } else {
                        assert(a == reject());
                    }
                },
                Item::End => {
                    assert(a == reject());
                },
            }
        } else {
            assert(run(t, s, j, h as nat) == j);
            let e = t[j as int][FSM_ENDLINE as int];
            match item {
                Item::One(x) => {
                    assert(e == reject());
                },
                Item::Many(x) => {
                    assert(e == bypass(j + 1));
                },
                Item::End => {
                    assert(e == consume(j + 1));
                },
            }
        }
    }
}

/// A prefix of a well-formed pattern is well formed.
pub proof fn lemma_prefix_well_formed(p: Seq<char>, m: int)
    requires
        well_formed(p),
        0 <= m <= p.len(),
    ensures
        well_formed(p.take(m)),
{
    let q = p.take(m);
    assert forall|i: int| 0 <= i < q.len() implies {
        &&& symbol(#[trigger] q[i]) < FSM_ENDLINE
        &&& is_quantifier(q[i]) ==> i > 0 && is_atom(q[i - 1])
    } by {
        assert(q[i] == p[i]);
    }
}

/// The table that the rules build for a well-formed pattern is the table of
/// its items: one column per item, each in its final shape.
pub proof fn lemma_table_of_items(p: Seq<char>)
    requires
        well_formed(p),
    ensures
        table_of(p) == automaton_of(items_of(p)),
        items_in_alphabet(items_of(p)),
        p.len() > 0 && is_atom(p.last()) ==> items_of(p).len() > 0 && items_of(p).last()
            == Item::One(atom_of(p.last())),
    decreases p.len(),
{
    if p.len() == 0 {
        assert(table_of(p) =~= automaton_of(items_of(p)));
    } else {
        let q = p.drop_last();
        let c = p.last();
        assert(q =~= p.take(p.len() - 1));
        lemma_prefix_well_formed(p, p.len() - 1);
        lemma_table_of_items(q);
        let t = table_of(q);
        let n = t.len();
        assert(symbol(p[p.len() - 1]) < FSM_ENDLINE);
        if is_quantifier(c) {
            let x = atom_of(p[p.len() - 2]);
            assert(q.last() == p[p.len() - 2]);
            lemma_last_column_fresh(q);
            assert(items_of(q).last() == Item::One(x));
            assert(star_column(atom_column(x, n), n) =~= repeat_column(x, (n - 1) as nat));
            assert(plus_column(atom_column(x, n), n) =~= repeat_column(x, n));
        }
        assert(table_of(p) == extend(t, c));
        assert(items_of(p) == extend_items(items_of(q), c));
        assert(extend(t, c) =~= automaton_of(items_of(p)));
    }
}

/// The table compiled from a well-formed pattern accepts exactly the inputs
/// that match the pattern.
pub proof fn theorem_accepts_iff_matches(p: Seq<char>, s: Seq<char>)
    requires
        well_formed(p),
    ensures
        accepts(table_of(p), s) == is_match(p, s),
{
    lemma_table_of_items(p);
    lemma_walk_matches(items_of(p), 0, s, 0);
}

/// The table of a well-formed pattern is an automaton.
pub proof fn lemma_table_is_automaton(p: Seq<char>)
    requires
        well_formed(p),
    ensures
        is_automaton(table_of(p)),
{
    lemma_table_of_items(p);
    lemma_automaton_of_items(items_of(p));
}

} // verus!
