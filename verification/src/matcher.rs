//! What it means for a table to accept an input: the walk over its states.

use crate::table::{reject, symbol, Action, Table, FSM_COLUMN_SIZE, FSM_ENDLINE};
use vstd::prelude::*;

verus! {

/// A transition of state `j` is sound when it consumes one symbol, or
/// consumes none and either rejects or moves to a later state.
pub open spec fn progresses(a: Action, j: int) -> bool {
    a.offset == 1 || (a.offset == 0 && (a.next == 0 || a.next > j))
}

/// A table is an automaton when it has the placeholder column, every column
/// is complete and every transition is sound. A walk over an automaton
/// always ends.
pub open spec fn is_automaton(t: Table) -> bool {
    &&& t.len() >= 1
    &&& forall|j: int| 0 <= j < t.len() ==> (#[trigger] t[j]).len() == FSM_COLUMN_SIZE
    &&& forall|j: int, s: int|
        0 <= j < t.len() && 0 <= s < FSM_COLUMN_SIZE ==> progresses(#[trigger] t[j][s], j)
}

/// The transition taken in `state` on reading `c`. A character outside the
/// alphabet has no transition: it rejects.
pub open spec fn transition(t: Table, state: nat, c: char) -> Action {
    if symbol(c) < FSM_ENDLINE {
        t[state as int][symbol(c) as int]
    } else {
        reject()
    }
}

/// How far a state is from the end of the table; 0 for the two states in
/// which a walk stops.
pub open spec fn distance(t: Table, state: nat) -> nat {
    if 0 < state < t.len() {
        (t.len() - state) as nat
    } else {
        0
    }
}

/// The state in which the walk from `state`, with the cursor at `head`,
/// stops: it follows transitions while the state is a column of the table
/// and input is left.
pub open spec fn run(t: Table, input: Seq<char>, state: nat, head: nat) -> nat
    decreases input.len() - head, distance(t, state),
    when is_automaton(t)
{
    if 0 < state < t.len() && head < input.len() {
        let a = transition(t, state, input[head as int]);
        proof {
            let s = symbol(input[head as int]);
            if s < FSM_ENDLINE {
                assert(progresses(t[state as int][s as int], state as int));
            }
        }
        run(t, input, a.next, (head + a.offset) as nat)
    } else {
        state
    }
}

/// Whether a walk that stopped in `state` accepts. State 0 rejects, a state
/// past the table accepts, and a state inside the table is given one look
/// at the end marker.
pub open spec fn accepting(t: Table, state: nat) -> bool {
    if state == 0 {
        false
    } else if state < t.len() {
        t[state as int][FSM_ENDLINE as int].next >= t.len()
    } else {
        true
    }
}

/// Whether the table accepts the input: the walk starts in state 1 at the
/// first character.
pub open spec fn accepts(t: Table, input: Seq<char>) -> bool {
    accepting(t, run(t, input, 1, 0))
}

} // verus!
