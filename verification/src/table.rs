//! Actions, columns and transition tables, together with their models.

use vstd::prelude::*;

verus! {

/// The index of a state, that is of a column of the table.
pub type FSMIndex = usize;

/// Number of entries in a column: one per ASCII code, plus the end marker.
pub const FSM_COLUMN_SIZE: usize = 129;

/// The symbol that stands for "end of input".
pub const FSM_ENDLINE: usize = 128;

/// The symbol code of a character.
pub open spec fn symbol(c: char) -> nat {
    c as nat
}

/// The symbol code of a character.
pub(crate) fn code_of(c: char) -> (code: u32)
    ensures
        code as nat == symbol(c),
{
    c as u32
}

/// Model of one transition: the state to go to and how far the input
/// cursor moves.
pub struct Action {
    pub next: nat,
    pub offset: int,
}

/// Model of a column: one action per symbol.
pub type Column = Seq<Action>;

/// Model of an automaton: its columns in order; column 0 is never entered.
pub type Table = Seq<Column>;

/// The action that rejects: state 0, nothing consumed.
pub open spec fn reject() -> Action {
    Action { next: 0, offset: 0 }
}

/// The action that moves to `next` and consumes one symbol.
pub open spec fn consume(next: nat) -> Action {
    Action { next, offset: 1 }
}

/// The action that moves to `next` and leaves the cursor in place.
pub open spec fn bypass(next: nat) -> Action {
    Action { next, offset: 0 }
}

/// The column in which every symbol rejects.
pub open spec fn blank_column() -> Column {
    Seq::new(FSM_COLUMN_SIZE as nat, |s: int| reject())
}

/// One transition of the automaton.
#[derive(Debug, Clone, Copy)]
pub struct FsmAction {
    /// The state to go to: 0 rejects, a state past the table accepts.
    pub next: FSMIndex,
    /// How far the input cursor moves: 0 or 1.
    pub offset: i32,
}

impl View for FsmAction {
    type V = Action;

    open spec fn view(&self) -> Action {
        Action { next: self.next as nat, offset: self.offset as int }
    }
}

impl Default for FsmAction {
    fn default() -> (a: FsmAction)
        ensures
            a@ == reject(),
    {
        FsmAction { next: 0, offset: 0 }
    }
}

/// One state of the automaton: an action for every symbol.
#[derive(Clone, Copy)]
pub struct FSMColumn {
    ts: [FsmAction; FSM_COLUMN_SIZE],
}

impl View for FSMColumn {
    type V = Column;

    closed spec fn view(&self) -> Column {
        Seq::new(FSM_COLUMN_SIZE as nat, |s: int| self.ts@[s]@)
    }
}

impl FSMColumn {
    /// A column without transitions: every symbol rejects.
    pub fn new() -> (col: FSMColumn)
        ensures
            col@ == blank_column(),
    {
        let col = FSMColumn { ts: [FsmAction { next: 0, offset: 0 }; FSM_COLUMN_SIZE] };
        assert(col@ =~= blank_column());
        col
    }

    /// The action stored for `symbol`.
    pub fn action(&self, symbol: usize) -> (a: FsmAction)
        requires
            symbol < FSM_COLUMN_SIZE,
        ensures
            a@ == self@[symbol as int],
    {
        self.ts[symbol]
    }

    /// Replaces the action stored for `symbol`.
    pub(crate) fn set_action(&mut self, symbol: usize, a: FsmAction)
        requires
            symbol < FSM_COLUMN_SIZE,
        ensures
            final(self)@ == old(self)@.update(symbol as int, a@),
    {
        self.ts[symbol] = a;
        assert(self@ =~= old(self)@.update(symbol as int, a@));
    }
}

} // verus!
