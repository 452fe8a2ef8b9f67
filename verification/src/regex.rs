//! The compiled automaton: building it from a pattern and matching with it.

use crate::matcher::{accepts, distance, is_automaton, progresses, run, transition};
use crate::pattern::{
    anchor_column, atom_column, atom_of, extend, is_atom, is_fresh, lemma_last_column_fresh,
    plus_column, star_column, table_of, well_formed,
};
use crate::semantics::{is_match, lemma_table_is_automaton, theorem_accepts_iff_matches};
use crate::table::{
    code_of, consume, reject, FSMColumn, FsmAction, Table, FSM_COLUMN_SIZE, FSM_ENDLINE,
};
use vstd::prelude::*;

verus! {

/// The model of a vector of columns.
spec fn columns_view(cs: Seq<FSMColumn>) -> Table {
    Seq::new(cs.len(), |j: int| cs[j]@)
}

/// The column of the atom `c`, leading to `next`.
fn build_atom(c: char, next: usize) -> (col: FSMColumn)
    requires
        is_atom(c),
    ensures
        col@ == atom_column(atom_of(c), next as nat),
{
    let mut col = FSMColumn::new();
    let step = FsmAction { next, offset: 1 };
    if c == '.' {
        let mut s: usize = 32;
        while s < 127
            invariant
                32 <= s <= 127,
                step@ == consume(next as nat),
                col@ == Seq::new(
                    FSM_COLUMN_SIZE as nat,
                    |k: int|
                        if 32 <= k < s {
                            consume(next as nat)
                        } else {
                            reject()
                        },
                ),
            decreases 127 - s,
        {
            col.set_action(s, step);
            s = s + 1;
        }
    } else {
        col.set_action(c as usize, step);
    }
    assert(col@ =~= atom_column(atom_of(c), next as nat));
    col
}

/// The column of the anchor, leading to `next`.
fn build_anchor(next: usize) -> (col: FSMColumn)
    ensures
        col@ == anchor_column(next as nat),
{
    let mut col = FSMColumn::new();
    col.set_action(FSM_ENDLINE, FsmAction { next, offset: 1 });
    assert(col@ =~= anchor_column(next as nat));
    col
}

/// Rewrites a fresh last column for `*`.
fn rewrite_star(old_col: &FSMColumn, n: usize) -> (col: FSMColumn)
    requires
        n > 0,
        is_fresh(old_col@, n as nat),
    ensures
        col@ == star_column(old_col@, n as nat),
{
    let mut col = *old_col;
    let mut s: usize = 0;
    while s < FSM_COLUMN_SIZE
        invariant
            s <= FSM_COLUMN_SIZE,
            n > 0,
            is_fresh(old_col@, n as nat),
            col@.len() == FSM_COLUMN_SIZE,
            forall|k: int| 0 <= k < s ==> col@[k] == star_column(old_col@, n as nat)[k],
            forall|k: int| s <= k < FSM_COLUMN_SIZE ==> col@[k] == old_col@[k],
        decreases FSM_COLUMN_SIZE - s,
    {
        let t = col.action(s);
        if t.next == n {
            col.set_action(s, FsmAction { next: n - 1, offset: t.offset });
        } else {
            assert(t@.next == 0);
            col.set_action(s, FsmAction { next: n, offset: 0 });
        }
        s = s + 1;
    }
    assert(col@ =~= star_column(old_col@, n as nat));
    col
}

/// Derives from a fresh last column the column that `+` appends; `n1` is
/// the number of columns once it is appended.
fn rewrite_plus(old_col: &FSMColumn, n1: usize) -> (col: FSMColumn)
    requires
        n1 > 0,
        is_fresh(old_col@, (n1 - 1) as nat),
    ensures
        col@ == plus_column(old_col@, (n1 - 1) as nat),
{
    let mut col = *old_col;
    let mut s: usize = 0;
    while s < FSM_COLUMN_SIZE
        invariant
            s <= FSM_COLUMN_SIZE,
            n1 > 0,
            is_fresh(old_col@, (n1 - 1) as nat),
            col@.len() == FSM_COLUMN_SIZE,
            forall|k: int| 0 <= k < s ==> col@[k] == plus_column(old_col@, (n1 - 1) as nat)[k],
            forall|k: int| s <= k < FSM_COLUMN_SIZE ==> col@[k] == old_col@[k],
        decreases FSM_COLUMN_SIZE - s,
    {
        let t = col.action(s);
        if t.next != n1 - 1 {
            assert(t@.next == 0);
            col.set_action(s, FsmAction { next: n1, offset: 0 });
        }
        s = s + 1;
    }
    assert(col@ =~= plus_column(old_col@, (n1 - 1) as nat));
    col
}

/// The characters of a string, in order.
fn to_chars(s: &str) -> (v: Vec<char>)
    ensures
        v@ == s@,
{
    let mut v: Vec<char> = Vec::new();
    for c in it: s.chars()
        invariant
            it.seq() == s@,
            v@ == s@.take(it.index()),
    {
        v.push(c);
        assert(s@.take(it.index() + 1) =~= s@.take(it.index()).push(c));
    }
    assert(s@.take(s@.len() as int) =~= s@);
    v
}

/// A compiled pattern: the columns of its automaton. The pattern itself is
/// kept as ghost state, so that matching can be stated in its terms.
pub struct REGEX {
    cs: Vec<FSMColumn>,
    pattern: Ghost<Seq<char>>,
}

impl View for REGEX {
    type V = Table;

    closed spec fn view(&self) -> Table {
        columns_view(self.cs@)
    }
}

impl REGEX {
    /// The pattern that the automaton was compiled from.
    pub closed spec fn pattern(&self) -> Seq<char> {
        self.pattern@
    }

    #[verifier::type_invariant]
    spec fn inv(self) -> bool {
        &&& well_formed(self.pattern@)
        &&& columns_view(self.cs@) == table_of(self.pattern@)
    }

    /// Compiles a pattern into its transition table.
    ///
    /// A new column is pushed blank and filled in afterwards: its
    /// transitions lead to the state behind it, whose index is the length
    /// of the vector after the push and therefore fits a `usize`.
    pub fn compile(src: &str) -> (r: REGEX)
        requires
            well_formed(src@),
        ensures
            r.pattern() == src@,
            r@ == table_of(src@),
    {
        let mut cs: Vec<FSMColumn> = Vec::new();
        cs.push(FSMColumn::new());
        assert(columns_view(cs@) =~= table_of(src@.take(0)));
        for c in it: src.chars()
            invariant
                it.seq() == src@,
                well_formed(src@),
                cs@.len() >= 1,
                columns_view(cs@) == table_of(src@.take(it.index())),
        {
            let ghost i = it.index();
            let ghost before = table_of(src@.take(i));
            assert(c == src@[i]);
            assert(src@.take(i + 1).drop_last() =~= src@.take(i));
            assert(src@.take(i + 1).last() == c);
            assert(table_of(src@.take(i + 1)) == extend(before, c));
            if c == '$' {
                cs.push(FSMColumn::new());
                let n1: usize = cs.len();
                cs.set(n1 - 1, build_anchor(n1));
            } else if c == '*' {
                proof {
                    assert(src@.take(i).last() == src@[i - 1]);
                    lemma_last_column_fresh(src@.take(i));
                }
                let n: usize = cs.len();
                let col = rewrite_star(&cs[n - 1], n);
                cs.set(n - 1, col);
            } else if c == '+' {
                proof {
                    assert(src@.take(i).last() == src@[i - 1]);
                    lemma_last_column_fresh(src@.take(i));
                }
                let last: usize = cs.len() - 1;
                cs.push(FSMColumn::new());
                let n1: usize = cs.len();
                let col = rewrite_plus(&cs[last], n1);
                cs.set(n1 - 1, col);
            } else {
                cs.push(FSMColumn::new());
                let n1: usize = cs.len();
                cs.set(n1 - 1, build_atom(c, n1));
            }
            assert(columns_view(cs@) =~= extend(before, c));
        }
        assert(src@.take(src@.len() as int) =~= src@);
        REGEX { cs, pattern: Ghost(src@) }
    }

    /// Decides whether the automaton accepts `input`: the walk over the
    /// table says so, and so does the pattern.
    pub fn match_str(&self, input: &str) -> (b: bool)
        ensures
            b == accepts(self@, input@),
            b == is_match(self.pattern(), input@),
    {
        proof {
            use_type_invariant(self);
            lemma_table_is_automaton(self.pattern@);
            theorem_accepts_iff_matches(self.pattern@, input@);
        }
        let chars = to_chars(input);
        let n: usize = chars.len();
        let mut state: usize = 1;
        let mut head: usize = 0;
        while 0 < state && state < self.cs.len() && head < n
            invariant
                head <= n,
                n == chars@.len(),
                chars@ == input@,
                is_automaton(self@),
                self@ == columns_view(self.cs@),
                run(self@, input@, state as nat, head as nat) == run(self@, input@, 1, 0),
            decreases n - head, distance(self@, state as nat),
        {
            let code: u32 = code_of(chars[head]);
            if code >= 128 {
                state = 0;
            } else {
                let action = self.cs[state].action(code as usize);
                assert(action@ == transition(self@, state as nat, input@[head as int]));
                assert(progresses(self@[state as int][code as int], state as int));
                state = action.next;
                head = head + action.offset as usize;
            }
        }
        if state == 0 {
            return false;
        }
        if state < self.cs.len() {
            let action = self.cs[state].action(FSM_ENDLINE);
            state = action.next;
        }
        state >= self.cs.len()
    }

    /// The number of columns, the placeholder included. The table is that
    /// of the pattern, which is well formed.
    pub fn column_count(&self) -> (n: usize)
        ensures
            n == self@.len(),
            well_formed(self.pattern()),
            self@ == table_of(self.pattern()),
    {
        proof {
            use_type_invariant(self);
        }
        self.cs.len()
    }

    /// The column of `state`.
    pub fn column(&self, state: usize) -> (col: &FSMColumn)
        requires
            state < self@.len(),
        ensures
            col@ == self@[state as int],
    {
        &self.cs[state]
    }
}

} // verus!
