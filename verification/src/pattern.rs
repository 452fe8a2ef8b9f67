//! The pattern language and the table that a pattern denotes.

use crate::table::{
    blank_column, bypass, code_of, consume, reject, symbol, Action, Column, Table,
    FSM_COLUMN_SIZE, FSM_ENDLINE,
};
use vstd::prelude::*;

verus! {

/// `*` and `+` repeat the atom to their left.
pub open spec fn is_quantifier(c: char) -> bool {
    c == '*' || c == '+'
}

/// An atom is an ASCII character other than a quantifier or the anchor;
/// it stands for itself, except for `.`, the wildcard.
pub open spec fn is_atom(c: char) -> bool {
    symbol(c) < FSM_ENDLINE && !is_quantifier(c) && c != '$'
}

/// A pattern is well formed when all its characters are ASCII and every
/// quantifier stands directly behind an atom.
pub open spec fn well_formed(p: Seq<char>) -> bool {
    forall|i: int|
        0 <= i < p.len() ==> {
            &&& symbol(#[trigger] p[i]) < FSM_ENDLINE
            &&& is_quantifier(p[i]) ==> i > 0 && is_atom(p[i - 1])
        }
}

/// Decides whether a pattern is well formed.
pub fn is_well_formed(src: &str) -> (b: bool)
    ensures
        b == well_formed(src@),
{
    let mut after_atom = false;
    for c in it: src.chars()
        invariant
            it.seq() == src@,
            well_formed(src@.take(it.index())),
            after_atom == (it.index() > 0 && is_atom(src@[it.index() - 1])),
    {
        let ghost i = it.index();
        assert(c == src@[i]);
        let quantifier = c == '*' || c == '+';
        if code_of(c) >= 128 || (quantifier && !after_atom) {
            return false;
        }
        after_atom = !quantifier && c != '$';
        assert(well_formed(src@.take(i + 1))) by {
            let p = src@.take(i);
            let q = src@.take(i + 1);
            assert forall|k: int| 0 <= k < q.len() implies {
                &&& symbol(#[trigger] q[k]) < FSM_ENDLINE
                &&& is_quantifier(q[k]) ==> k > 0 && is_atom(q[k - 1])
            } by {
                if k < i {
                    assert(p[k] == q[k]);
                }
            }
        }
    }
    assert(src@.take(src@.len() as int) =~= src@);
    true
}

/// What an atom stands for: one symbol, or any printable one.
pub enum Atom {
    /// The symbol with this code.
    Literal(nat),
    /// Every printable ASCII code, from 32 to 126.
    Wildcard,
}

impl Atom {
    /// Whether the atom takes the symbol `s`.
    pub open spec fn takes(self, s: int) -> bool {
        match self {
            Atom::Literal(code) => s == code,
            Atom::Wildcard => 32 <= s < 127,
        }
    }

    /// Whether the atom takes symbols of the alphabet only.
    pub open spec fn in_alphabet(self) -> bool {
        match self {
            Atom::Literal(code) => code < FSM_ENDLINE,
            Atom::Wildcard => true,
        }
    }
}

/// The atom that a pattern character denotes: `.` is the wildcard, any
/// other character stands for itself.
pub open spec fn atom_of(c: char) -> Atom {
    if c == '.' {
        Atom::Wildcard
    } else {
        Atom::Literal(symbol(c))
    }
}

/// The column of a fresh atom: the symbols it takes lead to `next` and are
/// consumed, all others reject.
pub open spec fn atom_column(a: Atom, next: nat) -> Column {
    Seq::new(
        FSM_COLUMN_SIZE as nat,
        |s: int|
            if a.takes(s) {
                consume(next)
            } else {
                reject()
            },
    )
}

/// The column of the anchor: only the end marker leads to `next`.
pub open spec fn anchor_column(next: nat) -> Column {
    Seq::new(
        FSM_COLUMN_SIZE as nat,
        |s: int|
            if s == FSM_ENDLINE {
                consume(next)
            } else {
                reject()
            },
    )
}

/// What `*` makes of the last column `col` of a table with `n` columns:
/// transitions that left the column forwards now loop back onto it, and
/// rejecting entries become a bypass to what follows.
pub open spec fn star_column(col: Column, n: nat) -> Column {
    Seq::new(
        FSM_COLUMN_SIZE as nat,
        |s: int|
            if col[s].next == n {
                Action { next: (n - 1) as nat, offset: col[s].offset }
            } else if col[s].next == 0 {
                bypass(n)
            } else {
                col[s]
            },
    )
}

/// The column that `+` appends behind the last column `col` of a table with
/// `n` columns: transitions into the new column stay, so that they loop,
/// and rejecting entries become a bypass to what follows.
pub open spec fn plus_column(col: Column, n: nat) -> Column {
    Seq::new(
        FSM_COLUMN_SIZE as nat,
        |s: int|
            if col[s].next == n {
                col[s]
            } else if col[s].next == 0 {
                bypass(n + 1)
            } else {
                col[s]
            },
    )
}

/// The table after one more pattern character.
pub open spec fn extend(t: Table, c: char) -> Table {
    let n = t.len();
    if c == '$' {
        t.push(anchor_column(n + 1))
    } else if c == '*' {
        t.update(n - 1, star_column(t[n - 1], n))
    } else if c == '+' {
        t.push(plus_column(t[n - 1], n))
    } else {
        t.push(atom_column(atom_of(c), n + 1))
    }
}

/// The table that a pattern denotes: the placeholder column, extended by
/// each character in turn.
pub open spec fn table_of(p: Seq<char>) -> Table
    decreases p.len(),
{
    if p.len() == 0 {
        seq![blank_column()]
    } else {
        extend(table_of(p.drop_last()), p.last())
    }
}

/// Every entry of `col` either rejects or leads to state `n`.
pub open spec fn is_fresh(col: Column, n: nat) -> bool {
    &&& col.len() == FSM_COLUMN_SIZE
    &&& forall|s: int| 0 <= s < FSM_COLUMN_SIZE ==> (#[trigger] col[s]).next == n || col[s].next == 0
}

/// The last column of a table whose pattern ends in an atom is fresh.
pub proof fn lemma_last_column_fresh(p: Seq<char>)
    requires
        p.len() > 0,
        is_atom(p.last()),
    ensures
        table_of(p).len() == table_of(p.drop_last()).len() + 1,
        table_of(p).last() == atom_column(atom_of(p.last()), table_of(p).len()),
        is_fresh(table_of(p).last(), table_of(p).len()),
{
}

} // verus!
