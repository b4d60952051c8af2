//! Properties that hold across the operations of a grid world.

use crate::model::{lemma_cell_at, lemma_decode_keeps, GridModel, AGENT, GOAL, TRAP};
use vstd::prelude::*;

verus! {

/// Whether the value `c` stands at no more than one index of `board`.
pub open spec fn at_most_once(board: Seq<i64>, c: i64) -> bool {
    forall|i: int, j: int|
        0 <= i < board.len() && 0 <= j < board.len() && #[trigger] board[i] == c && #[trigger] board[j] == c ==> i == j
}

/// The cell of the entity whose board code is `c`.
pub open spec fn entity(m: GridModel, c: i64) -> (usize, usize) {
    if c == AGENT as i64 {
        m.agent
    } else if c == GOAL as i64 {
        m.goal
    } else {
        m.trap
    }
}

/// After reading a board on which the code `c` of an entity stands at index
/// `k` and nowhere later, that entity is at the cell of index `k`.
pub proof fn lemma_decode_entity(m: GridModel, board: Seq<i64>, c: i64, k: int)
    requires
        m.wf(),
        c == AGENT as i64 || c == GOAL as i64 || c == TRAP as i64,
        board.len() <= m.size(),
        0 <= k < board.len(),
        board[k] == c,
        forall|j: int| k < j < board.len() ==> board[j] != c,
    ensures
        entity(m.decode(board), c) == m.cell_at(k as nat),
    decreases board.len(),
{
    if k < board.len() - 1 {
        assert(board.drop_last()[k] == c);
        assert forall|j: int| k < j < board.drop_last().len() implies board.drop_last()[j] != c by {
            assert(board.drop_last()[j] == board[j]);
        }
        lemma_decode_entity(m, board.drop_last(), c, k);
    }
}

/// Writing a board with `set_state` and reading it back with `get_state` gives
/// back every cell coded `1`, `2` or `3`, when each code stands at most once and
/// the agent and the trap both appear; other cells may read as empty.
pub proof fn lemma_set_state_round_trip(m: GridModel, board: Seq<i64>)
    requires
        m.wf(),
        board.len() <= m.size(),
        at_most_once(board, AGENT as i64),
        at_most_once(board, GOAL as i64),
        at_most_once(board, TRAP as i64),
        board.contains(AGENT as i64),
        board.contains(TRAP as i64),
    ensures
        m.loaded(board).wf(),
        forall|i: int|
            0 <= i < board.len() && 1 <= #[trigger] board[i] <= 3 ==> m.loaded(board).code_at(i as nat) == board[i],
{
    let after = m.loaded(board);
    lemma_decode_keeps(m, board);
    let ka = choose|k: int| 0 <= k < board.len() && board[k] == AGENT as i64;
    let kt = choose|k: int| 0 <= k < board.len() && board[k] == TRAP as i64;
    lemma_decode_entity(m, board, AGENT as i64, ka);
    lemma_decode_entity(m, board, TRAP as i64, kt);
    lemma_cell_at(m, ka as nat);
    lemma_cell_at(m, kt as nat);
    assert(after.index_of(after.agent) == ka);
    assert(after.index_of(after.trap) == kt);
    assert forall|i: int| 0 <= i < board.len() && 1 <= #[trigger] board[i] <= 3 implies after.code_at(i as nat)
        == board[i] by {
        if board[i] == AGENT as i64 {
            assert(i == ka);
        } else if board[i] == TRAP as i64 {
            assert(i == kt);
        } else {
            lemma_decode_entity(m, board, GOAL as i64, i);
            lemma_cell_at(m, i as nat);
            assert(after.index_of(after.goal) == i);
        }
    }
}

/// From a well-formed state, every action leaves the agent on the grid.
pub proof fn lemma_step_stays_on_grid(m: GridModel, action: int)
    requires
        m.wf(),
    ensures
        m.after_step(action).wf(),
        m.after_step(action).in_bounds(m.after_step(action).agent),
{
}

/// A step with an action whose mask is false keeps the agent where it is and
/// still spends one step of the budget, down to zero.
pub proof fn lemma_masked_step_spends_budget(m: GridModel, action: int)
    requires
        !m.legal(action),
    ensures
        m.after_step(action).agent == m.agent,
        m.steps_left > 0 ==> m.after_step(action).steps_left == m.steps_left - 1,
        m.steps_left == 0 ==> m.after_step(action).steps_left == 0,
{
}

/// Steps never raise the remaining budget.
pub proof fn lemma_budget_never_grows(m: GridModel, action: int)
    ensures
        m.after_step(action).steps_left <= m.steps_left,
{
}

} // verus!
