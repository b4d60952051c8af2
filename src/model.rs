//! The mathematical model of a grid world and the rules stated over it.

use vstd::prelude::*;

verus! {

/// Distance between two integers.
pub open spec fn gap(a: int, b: int) -> nat {
    if a >= b {
        (a - b) as nat
    } else {
        (b - a) as nat
    }
}

/// Manhattan distance between two cells.
pub open spec fn manhattan(a: (usize, usize), b: (usize, usize)) -> nat {
    gap(a.0 as int, b.0 as int) + gap(a.1 as int, b.1 as int)
}

/// What a grid world holds, apart from its random source. Cells are `(x, y)`.
pub struct GridModel {
    pub width: nat,
    pub height: nat,
    pub max_steps: nat,
    pub difficulty: nat,
    pub steps_left: nat,
    pub agent: (usize, usize),
    pub goal: (usize, usize),
    pub trap: (usize, usize),
}

/// The board code of an empty cell.
pub const EMPTY: usize = 0;

/// The board code of the agent's cell.
pub const AGENT: usize = 1;

/// The board code of the goal's cell.
pub const GOAL: usize = 2;

/// The board code of the trap's cell.
pub const TRAP: usize = 3;

impl GridModel {
    /// Number of cells.
    pub open spec fn size(self) -> nat {
        (self.width * self.height) as nat
    }

    pub open spec fn in_bounds(self, p: (usize, usize)) -> bool {
        p.0 < self.width && p.1 < self.height
    }

    /// The grid is non-empty, its encodings fit in `usize`, and every field
    /// lies in its range.
    pub open spec fn wf(self) -> bool {
        &&& self.width > 0
        &&& self.height > 0
        &&& self.max_steps > 0
        &&& self.max_steps <= usize::MAX
        &&& self.width + self.height <= usize::MAX
        &&& self.size() <= usize::MAX
        &&& self.size() * self.size() <= usize::MAX
        &&& self.difficulty <= self.width + self.height
        &&& self.steps_left <= self.max_steps
        &&& self.in_bounds(self.agent)
        &&& self.in_bounds(self.goal)
        &&& self.in_bounds(self.trap)
    }

    /// Dimensions and step budget, which never change.
    pub open spec fn same_config(self, o: GridModel) -> bool {
        &&& self.width == o.width
        &&& self.height == o.height
        &&& self.max_steps == o.max_steps
    }

    /// `d` clamped into `[0, width + height]`.
    pub open spec fn clamp_difficulty(self, d: nat) -> nat {
        if d <= self.width + self.height {
            d
        } else {
            self.width + self.height
        }
    }

    /// The three entities stand on distinct cells, and the goal lies within
    /// `difficulty` of the agent.
    pub open spec fn placement_valid(self) -> bool {
        &&& self.agent != self.goal
        &&& self.agent != self.trap
        &&& self.goal != self.trap
        &&& manhattan(self.agent, self.goal) <= self.difficulty
    }

    /// Whether `p` is a cell of the grid within `max_dist` of `center` and
    /// neither `a` nor `b`.
    pub open spec fn eligible(self, p: (usize, usize), center: (usize, usize), max_dist: nat, a: (usize, usize), b: (usize, usize)) -> bool {
        &&& self.in_bounds(p)
        &&& manhattan(p, center) <= max_dist
        &&& p != a
        &&& p != b
    }

    /// Row-major index of a cell.
    pub open spec fn index_of(self, p: (usize, usize)) -> nat {
        (p.1 * self.width + p.0) as nat
    }

    /// The cell at a row-major index.
    pub open spec fn cell_at(self, i: nat) -> (usize, usize) {
        ((i % self.width) as usize, (i / self.width) as usize)
    }

    /// The code of the cell at index `i`: the agent hides the trap, which
    /// hides the goal.
    pub open spec fn code_at(self, i: nat) -> nat {
        if i == self.index_of(self.agent) {
            AGENT as nat
        } else if i == self.index_of(self.trap) {
            TRAP as nat
        } else if i == self.index_of(self.goal) {
            GOAL as nat
        } else {
            EMPTY as nat
        }
    }

    /// The entry of the observation at index `i`.
    pub open spec fn observed_at(self, i: nat) -> nat {
        (i * self.size() + self.code_at(i)) as nat
    }

    /// Whether the move `action` keeps the agent on the grid.
    pub open spec fn legal(self, action: int) -> bool {
        if action == 0 {
            self.agent.1 > 0
        } else if action == 1 {
            self.agent.1 + 1 < self.height
        } else if action == 2 {
            self.agent.0 > 0
        } else if action == 3 {
            self.agent.0 + 1 < self.width
        } else {
            false
        }
    }

    /// The agent's cell after `action`: up, down, left, right, or unchanged
    /// where the move is not legal.
    pub open spec fn moved(self, action: int) -> (usize, usize) {
        if !self.legal(action) {
            self.agent
        } else if action == 0 {
            (self.agent.0, (self.agent.1 - 1) as usize)
        } else if action == 1 {
            (self.agent.0, (self.agent.1 + 1) as usize)
        } else if action == 2 {
            ((self.agent.0 - 1) as usize, self.agent.1)
        } else {
            ((self.agent.0 + 1) as usize, self.agent.1)
        }
    }

    /// The state after one step with `action`.
    pub open spec fn after_step(self, action: int) -> GridModel {
        GridModel {
            agent: self.moved(action),
            steps_left: if self.steps_left == 0 {
                0
            } else {
                (self.steps_left - 1) as nat
            },
            ..self
        }
    }

    pub open spec fn at_goal(self) -> bool {
        self.agent == self.goal
    }

    pub open spec fn at_trap(self) -> bool {
        self.agent == self.trap
    }

    pub open spec fn is_final(self) -> bool {
        self.steps_left == 0 || self.at_goal() || self.at_trap()
    }

    /// Numerator of the reward: `1` at the goal, `-1` otherwise.
    pub open spec fn reward_numer(self) -> int {
        if self.at_goal() {
            1
        } else {
            -1
        }
    }

    /// Denominator of the reward: `1` at the goal, `2` at the trap or with no
    /// steps left, else `2 * steps_left`, so that the reward is `-0.5 / steps_left`.
    pub open spec fn reward_denom(self) -> nat {
        if self.at_goal() {
            1
        } else if self.at_trap() || self.steps_left == 0 {
            2
        } else {
            (2 * self.steps_left) as nat
        }
    }

    /// The positions after reading `board` cell by cell: each index on the
    /// grid whose value is a code of an entity moves that entity there.
    pub open spec fn decode(self, board: Seq<i64>) -> GridModel
        decreases board.len(),
    {
        if board.len() == 0 {
            self
        } else {
            let prev = self.decode(board.drop_last());
            let i = (board.len() - 1) as nat;
            let v = board.last();
            if i >= self.size() {
                prev
            } else if v == AGENT as i64 {
                GridModel { agent: self.cell_at(i), ..prev }
            } else if v == GOAL as i64 {
                GridModel { goal: self.cell_at(i), ..prev }
            } else if v == TRAP as i64 {
                GridModel { trap: self.cell_at(i), ..prev }
            } else {
                prev
            }
        }
    }

    /// The state after `set_state(board)`.
    pub open spec fn loaded(self, board: Seq<i64>) -> GridModel {
        GridModel { steps_left: self.max_steps, ..self.decode(board) }
    }
}

/// Manhattan distance does not depend on the order of its arguments.
pub proof fn lemma_manhattan_symmetric(a: (usize, usize), b: (usize, usize))
    ensures
        manhattan(a, b) == manhattan(b, a),
{
}

/// Reading a board moves entities only: dimensions, budget, difficulty and
/// remaining steps stay, and every entity stays on the grid.
pub proof fn lemma_decode_keeps(m: GridModel, board: Seq<i64>)
    requires
        m.wf(),
    ensures
        m.decode(board).wf(),
        m.decode(board).same_config(m),
        m.decode(board).difficulty == m.difficulty,
        m.decode(board).steps_left == m.steps_left,
    decreases board.len(),
{
    if board.len() > 0 {
        lemma_decode_keeps(m, board.drop_last());
        let i = (board.len() - 1) as nat;
        if i < m.size() {
            lemma_cell_at(m, i);
        }
    }
}

/// The index of a cell on the grid lies below `width * height`.
pub proof fn lemma_index_of(m: GridModel, p: (usize, usize))
    requires
        m.width > 0,
        m.height > 0,
        m.in_bounds(p),
    ensures
        m.index_of(p) < m.size(),
{
    let w = m.width as int;
    let h = m.height as int;
    let x = p.0 as int;
    let y = p.1 as int;
    assert(y * w + x < w * h) by (nonlinear_arith)
        requires
            0 <= x < w,
            0 <= y < h,
    ;
}

/// On a grid of fewer than three cells, two distinct cells leave no third.
pub proof fn lemma_small_grid(m: GridModel, a: (usize, usize), b: (usize, usize), c: (usize, usize))
    requires
        m.width > 0,
        m.height > 0,
        m.size() < 3,
        m.in_bounds(a),
        m.in_bounds(b),
        m.in_bounds(c),
        a != b,
    ensures
        c == a || c == b,
{
    let w = m.width as int;
    let h = m.height as int;
    assert(w <= 2 && h <= 2 && (w == 1 || h == 1)) by (nonlinear_arith)
        requires
            w >= 1,
            h >= 1,
            w * h < 3,
    ;
}

/// Some cell other than `a` lies within `difficulty` of `a` exactly when the
/// difficulty is positive and the grid has two cells or more.
pub proof fn lemma_goal_exists(m: GridModel, a: (usize, usize))
    requires
        m.wf(),
        m.in_bounds(a),
    ensures
        (exists|p: (usize, usize)| #[trigger] m.eligible(p, a, m.difficulty, a, a)) <==> (m.difficulty > 0 && m.size() >= 2),
{
    let w = m.width as int;
    let h = m.height as int;
    if m.difficulty > 0 && m.size() >= 2 {
        assert(w >= 2 || h >= 2) by (nonlinear_arith)
            requires
                w >= 1,
                h >= 1,
                w * h >= 2,
        ;
        let p: (usize, usize) = if w >= 2 {
            if a.0 + 1 < w {
                ((a.0 + 1) as usize, a.1)
            } else {
                ((a.0 - 1) as usize, a.1)
            }
        } else {
            if a.1 + 1 < h {
                (a.0, (a.1 + 1) as usize)
            } else {
                (a.0, (a.1 - 1) as usize)
            }
        };
        assert(m.eligible(p, a, m.difficulty, a, a));
    } else {
        assert forall|p: (usize, usize)| !#[trigger] m.eligible(p, a, m.difficulty, a, a) by {
            if m.difficulty > 0 {
                assert(w == 1 && h == 1) by (nonlinear_arith)
                    requires
                        w >= 1,
                        h >= 1,
                        w * h < 2,
                ;
            }
        }
    }
}

/// Given two distinct cells `a` and `g`, a third cell exists exactly when the
/// grid has three cells or more; every cell lies within `width + height` of `a`.
pub proof fn lemma_trap_exists(m: GridModel, a: (usize, usize), g: (usize, usize))
    requires
        m.wf(),
        m.in_bounds(a),
        m.in_bounds(g),
        a != g,
    ensures
        (exists|p: (usize, usize)| #[trigger] m.eligible(p, a, m.width + m.height, a, g)) <==> m.size() >= 3,
{
    if m.size() >= 3 {
        lemma_cell_at(m, 0);
        lemma_cell_at(m, 1);
        lemma_cell_at(m, 2);
        let c0 = m.cell_at(0);
        let c1 = m.cell_at(1);
        let c2 = m.cell_at(2);
        if c0 != a && c0 != g {
            assert(m.eligible(c0, a, m.width + m.height, a, g));
        } else if c1 != a && c1 != g {
            assert(m.eligible(c1, a, m.width + m.height, a, g));
        } else {
            assert(m.eligible(c2, a, m.width + m.height, a, g));
        }
    } else {
        assert forall|p: (usize, usize)| !#[trigger] m.eligible(p, a, m.width + m.height, a, g) by {
            if m.in_bounds(p) {
                lemma_small_grid(m, a, g, p);
            }
        }
    }
}

/// A cell index below `width * height` names a cell on the grid, and the
/// index of that cell is the index itself.
pub proof fn lemma_cell_at(m: GridModel, i: nat)
    requires
        m.width > 0,
        m.height > 0,
        i < m.size(),
        m.size() <= usize::MAX,
    ensures
        m.in_bounds(m.cell_at(i)),
        m.index_of(m.cell_at(i)) == i,
{
    let w = m.width as int;
    let h = m.height as int;
    let ii = i as int;
    vstd::arithmetic::div_mod::lemma_fundamental_div_mod(ii, w);
    assert(0 <= ii % w < w) by {
        vstd::arithmetic::div_mod::lemma_mod_bound(ii, w);
    }
    assert(0 <= ii / w) by {
        vstd::arithmetic::div_mod::lemma_div_pos_is_pos(ii, w);
    }
    assert(ii / w < h) by (nonlinear_arith)
        requires
            ii == w * (ii / w) + ii % w,
            0 <= ii % w,
            ii < w * h,
            w > 0,
    ;
    assert(ii / w <= ii) by {
        vstd::arithmetic::div_mod::lemma_div_is_ordered_by_denominator(ii, 1, w);
    }
    assert(ii / w * w == w * (ii / w)) by (nonlinear_arith);
}

} // verus!
