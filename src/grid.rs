//! The grid world: an agent that moves on a rectangular board towards a goal
//! while avoiding a trap.

use crate::env::{Env, EnvError, Reward};
use crate::model::{
    lemma_cell_at, lemma_goal_exists, lemma_manhattan_symmetric, lemma_trap_exists, GridModel, AGENT, EMPTY, GOAL, TRAP,
};
use crate::sampling::{choose_cell, copy_generator, draw_below, fresh_generator, seeded_generator};
use rand::rngs::StdRng;
use vstd::prelude::*;

verus! {

/// A grid world with its own random source.
pub struct GridWorld {
    width: usize,
    height: usize,
    max_steps: usize,
    difficulty: usize,
    steps_left: usize,
    agent: (usize, usize),
    goal: (usize, usize),
    trap: (usize, usize),
    rng: StdRng,
}

impl View for GridWorld {
    type V = GridModel;

    closed spec fn view(&self) -> GridModel {
        GridModel {
            width: self.width as nat,
            height: self.height as nat,
            max_steps: self.max_steps as nat,
            difficulty: self.difficulty as nat,
            steps_left: self.steps_left as nat,
            agent: self.agent,
            goal: self.goal,
            trap: self.trap,
        }
    }
}

impl Clone for GridWorld {
    /// A copy with the same state and a generator that continues from the same point.
    fn clone(&self) -> (r: GridWorld)
        ensures
            r@ == self@,
    {
        GridWorld {
            width: self.width,
            height: self.height,
            max_steps: self.max_steps,
            difficulty: self.difficulty,
            steps_left: self.steps_left,
            agent: self.agent,
            goal: self.goal,
            trap: self.trap,
            rng: copy_generator(&self.rng),
        }
    }
}

/// `|a - b|` on `usize`.
fn distance(a: usize, b: usize) -> (r: usize)
    ensures
        r == crate::model::gap(a as int, b as int),
{
    if a >= b {
        a - b
    } else {
        b - a
    }
}

/// Whether two cells are the same.
fn same_cell(a: (usize, usize), b: (usize, usize)) -> (r: bool)
    ensures
        r == (a == b),
{
    a.0 == b.0 && a.1 == b.1
}

impl GridWorld {
    /// The model of a freshly built grid world: every entity at `(0, 0)`,
    /// a full step budget and the clamped difficulty.
    pub open spec fn initial(width: nat, height: nat, max_steps: nat, difficulty: nat) -> GridModel {
        GridModel {
            width,
            height,
            max_steps,
            difficulty: if difficulty <= width + height {
                difficulty
            } else {
                width + height
            },
            steps_left: max_steps,
            agent: (0, 0),
            goal: (0, 0),
            trap: (0, 0),
        }
    }

    /// Whether a grid of these dimensions can be encoded in `usize`.
    pub open spec fn fits(width: nat, height: nat) -> bool {
        width + height <= usize::MAX && (width * height) * (width * height) <= usize::MAX
    }

    /// Builds a grid world drawing from a generator seeded with `seed`, so that
    /// its episodes can be replayed.
    pub fn with_seed(width: usize, height: usize, max_steps: usize, difficulty: usize, seed: u64) -> (r: Result<GridWorld, EnvError>)
        ensures
            width == 0 || height == 0 || max_steps == 0 <==> r == Err::<GridWorld, EnvError>(EnvError::InvalidConfig),
            r == Err::<GridWorld, EnvError>(EnvError::GridTooLarge) <==> (width > 0 && height > 0 && max_steps > 0 && !Self::fits(width as nat, height as nat)),
            r is Ok <==> (width > 0 && height > 0 && max_steps > 0 && Self::fits(width as nat, height as nat)),
            r matches Ok(g) ==> g@.wf() && g@ == Self::initial(width as nat, height as nat, max_steps as nat, difficulty as nat),
    {
        Self::build(width, height, max_steps, difficulty, Some(seeded_generator(seed)))
    }

    /// Builds a grid world drawing from a generator seeded by the system.
    pub fn new(width: usize, height: usize, max_steps: usize, difficulty: usize) -> (r: Result<GridWorld, EnvError>)
        ensures
            width == 0 || height == 0 || max_steps == 0 <==> r == Err::<GridWorld, EnvError>(EnvError::InvalidConfig),
            r == Err::<GridWorld, EnvError>(EnvError::GridTooLarge) <==> (width > 0 && height > 0 && max_steps > 0 && !Self::fits(width as nat, height as nat)),
            (width > 0 && height > 0 && max_steps > 0 && Self::fits(width as nat, height as nat)) ==> r is Ok || r == Err::<GridWorld, EnvError>(EnvError::EntropyUnavailable),
            r matches Ok(g) ==> g@.wf() && g@ == Self::initial(width as nat, height as nat, max_steps as nat, difficulty as nat),
    {
        Self::build(width, height, max_steps, difficulty, fresh_generator())
    }

    fn build(width: usize, height: usize, max_steps: usize, difficulty: usize, rng: Option<StdRng>) -> (r: Result<GridWorld, EnvError>)
        ensures
            width == 0 || height == 0 || max_steps == 0 <==> r == Err::<GridWorld, EnvError>(EnvError::InvalidConfig),
            r == Err::<GridWorld, EnvError>(EnvError::GridTooLarge) <==> (width > 0 && height > 0 && max_steps > 0 && !Self::fits(width as nat, height as nat)),
            r is Ok <==> (width > 0 && height > 0 && max_steps > 0 && Self::fits(width as nat, height as nat)) && rng is Some,
            r == Err::<GridWorld, EnvError>(EnvError::EntropyUnavailable) <==> (width > 0 && height > 0 && max_steps > 0 && Self::fits(width as nat, height as nat)) && rng is None,
            r matches Ok(g) ==> g@.wf() && g@ == Self::initial(width as nat, height as nat, max_steps as nat, difficulty as nat),
    {
        if width == 0 || height == 0 || max_steps == 0 {
            return Err(EnvError::InvalidConfig);
        }
        let bound = match width.checked_add(height) {
            Some(b) => b,
            None => return Err(EnvError::GridTooLarge),
        };
        let size = match width.checked_mul(height) {
            Some(s) => s,
            None => {
                assert((width * height) * (width * height) > usize::MAX) by (nonlinear_arith)
                    requires
                        width * height > usize::MAX,
                ;
                return Err(EnvError::GridTooLarge);
            },
        };
        if size.checked_mul(size).is_none() {
            return Err(EnvError::GridTooLarge);
        }
        let rng = match rng {
            Some(g) => g,
            None => return Err(EnvError::EntropyUnavailable),
        };
        let difficulty = if difficulty <= bound {
            difficulty
        } else {
            bound
        };
        Ok(GridWorld {
            width,
            height,
            max_steps,
            difficulty,
            steps_left: max_steps,
            agent: (0, 0),
            goal: (0, 0),
            trap: (0, 0),
            rng,
        })
    }

    /// A cell drawn uniformly from the whole grid.
    fn random_pos(&mut self) -> (r: (usize, usize))
        requires
            old(self)@.wf(),
        ensures
            final(self)@ == old(self)@,
            final(self)@.in_bounds(r),
    {
        let size = self.width * self.height;
        proof {
            crate::model::lemma_index_of(self@, (0, 0));
        }
        let idx = draw_below(&mut self.rng, size);
        proof {
            lemma_cell_at(self@, idx as nat);
        }
        (idx % self.width, idx / self.width)
    }

    /// A cell drawn uniformly among those within `max_dist` of `center` that
    /// are neither `a` nor `b`; an error when there is none.
    fn random_pos_near(&mut self, center: (usize, usize), max_dist: usize, a: (usize, usize), b: (usize, usize)) -> (r: Result<(usize, usize), EnvError>)
        requires
            old(self)@.wf(),
        ensures
            final(self)@ == old(self)@,
            r is Err <==> !exists|p: (usize, usize)| #[trigger] old(self)@.eligible(p, center, max_dist as nat, a, b),
            r matches Err(e) ==> e == EnvError::NoCandidate,
            r matches Ok(p) ==> old(self)@.eligible(p, center, max_dist as nat, a, b),
    {
        let ghost m = self@;
        let mut candidates: Vec<(usize, usize)> = Vec::new();
        let mut x: usize = 0;
        while x < self.width
            invariant
                self@ == m,
                m.wf(),
                x <= m.width,
                forall|p: (usize, usize)| #[trigger] candidates@.contains(p) ==> m.eligible(p, center, max_dist as nat, a, b),
                forall|p: (usize, usize)| #[trigger] m.eligible(p, center, max_dist as nat, a, b) && p.0 < x ==> candidates@.contains(p),
            decreases m.width - x,
        {
            let mut y: usize = 0;
            while y < self.height
                invariant
                    self@ == m,
                    m.wf(),
                    x < m.width,
                    y <= m.height,
                    forall|p: (usize, usize)| #[trigger] candidates@.contains(p) ==> m.eligible(p, center, max_dist as nat, a, b),
                    forall|p: (usize, usize)| #[trigger] m.eligible(p, center, max_dist as nat, a, b) && (p.0 < x || (p.0 == x && p.1 < y)) ==> candidates@.contains(p),
                decreases m.height - y,
            {
                let dx = distance(x, center.0);
                let dy = distance(y, center.1);
                let ghost before = candidates@;
                let near = dx <= max_dist && dy <= max_dist - dx && !same_cell((x, y), a) && !same_cell((x, y), b);
                if near {
                    candidates.push((x, y));
                }
                proof {
                    assert forall|p: (usize, usize)| #[trigger] candidates@.contains(p) implies m.eligible(p, center, max_dist as nat, a, b) by {
                        let k = choose|k: int| 0 <= k < candidates@.len() && candidates@[k] == p;
                        if k < before.len() {
                            assert(before[k] == p);
                            assert(before.contains(p));
                        }
                    }
                    assert forall|p: (usize, usize)| #[trigger] m.eligible(p, center, max_dist as nat, a, b)
                        && (p.0 < x || (p.0 == x && p.1 < y + 1)) implies candidates@.contains(p) by {
                        if p == (x, y) {
                            assert(candidates@[candidates@.len() - 1] == p);
                        } else {
                            assert(before.contains(p));
                            let k = choose|k: int| 0 <= k < before.len() && before[k] == p;
                            assert(candidates@[k] == p);
                        }
                    }
                }
                y = y + 1;
            }
            x = x + 1;
        }
        match choose_cell(&mut self.rng, &candidates) {
            Some(p) => Ok(p),
            None => {
                assert(candidates@.len() == 0);
                assert forall|p: (usize, usize)| !#[trigger] m.eligible(p, center, max_dist as nat, a, b) by {
                    if m.eligible(p, center, max_dist as nat, a, b) {
                        assert(candidates@.contains(p));
                    }
                }
                Err(EnvError::NoCandidate)
            },
        }
    }
    /// Whether the agent stands on the goal.
    pub fn at_goal(&self) -> (r: bool)
        ensures
            r == self@.at_goal(),
    {
        same_cell(self.agent, self.goal)
    }

    /// Whether the agent stands on the trap.
    pub fn at_trap(&self) -> (r: bool)
        ensures
            r == self@.at_trap(),
    {
        same_cell(self.agent, self.trap)
    }

    /// The cells of the agent, the goal and the trap.
    pub fn get_positions(&self) -> (r: ((usize, usize), (usize, usize), (usize, usize)))
        ensures
            r == (self@.agent, self@.goal, self@.trap),
    {
        (self.agent, self.goal, self.trap)
    }
}

impl Env for GridWorld {
    open spec fn inv(&self) -> bool {
        self@.wf()
    }

    open spec fn action_count(&self) -> nat {
        4
    }

    open spec fn difficulty_level(&self) -> nat {
        self@.difficulty
    }

    /// Up, down, left and right.
    fn num_actions(&self) -> (r: usize)
        ensures
            r == 4,
    {
        4
    }

    /// `[width * height, width * height]`: the range of the cell index and of
    /// the encoded value.
    fn obs_shape(&self) -> (r: Vec<usize>)
        ensures
            r@.len() == 2,
            r@[0] == self@.size(),
            r@[1] == self@.size(),
    {
        let size = self.width * self.height;
        let mut shape: Vec<usize> = Vec::new();
        shape.push(size);
        shape.push(size);
        shape
    }

    fn set_difficulty(&mut self, difficulty: usize)
        ensures
            final(self)@ == (GridModel { difficulty: old(self)@.clamp_difficulty(difficulty as nat), ..old(self)@ }),
    {
        let bound = self.width + self.height;
        self.difficulty = if difficulty <= bound {
            difficulty
        } else {
            bound
        };
    }

    fn get_difficulty(&self) -> (r: usize)
        ensures
            r == self@.difficulty,
    {
        self.difficulty
    }

    /// Reads `board` in row-major order; a value `1`, `2` or `3` at an index
    /// on the grid moves the agent, the goal or the trap there, and any other
    /// value or index is ignored. The step budget is restored.
    fn set_state(&mut self, board: Vec<i64>)
        ensures
            final(self)@ == old(self)@.loaded(board@),
    {
        let ghost m = self@;
        let size = self.width * self.height;
        let mut i: usize = 0;
        while i < board.len()
            invariant
                m.wf(),
                size == m.size(),
                i <= board@.len(),
                self@ == m.decode(board@.take(i as int)),
                self.width == m.width,
            decreases board@.len() - i,
        {
            proof {
                assert(board@.take(i as int + 1).drop_last() == board@.take(i as int));
                assert(board@.take(i as int + 1).last() == board@[i as int]);
                crate::model::lemma_decode_keeps(m, board@.take(i as int));
            }
            if i < size {
                proof {
                    lemma_cell_at(m, i as nat);
                }
                let value = board[i];
                let cell = (i % self.width, i / self.width);
                if value == AGENT as i64 {
                    self.agent = cell;
                } else if value == GOAL as i64 {
                    self.goal = cell;
                } else if value == TRAP as i64 {
                    self.trap = cell;
                }
            }
            i = i + 1;
        }
        proof {
            assert(board@.take(board@.len() as int) == board@);
            crate::model::lemma_decode_keeps(m, board@);
        }
        self.steps_left = self.max_steps;
    }

    /// The board in row-major order: `1` for the agent, `3` for the trap,
    /// `2` for the goal, `0` for an empty cell.
    fn get_state(&self) -> (r: Vec<usize>)
        ensures
            r@.len() == self@.size(),
            forall|i: int| 0 <= i < r@.len() ==> r@[i] == self@.code_at(i as nat),
    {
        let size = self.width * self.height;
        proof {
            crate::model::lemma_index_of(self@, self@.agent);
            crate::model::lemma_index_of(self@, self@.trap);
            crate::model::lemma_index_of(self@, self@.goal);
        }
        let agent = self.agent.1 * self.width + self.agent.0;
        let trap = self.trap.1 * self.width + self.trap.0;
        let goal = self.goal.1 * self.width + self.goal.0;
        let mut board: Vec<usize> = Vec::new();
        let mut i: usize = 0;
        while i < size
            invariant
                size == self@.size(),
                agent == self@.index_of(self@.agent),
                trap == self@.index_of(self@.trap),
                goal == self@.index_of(self@.goal),
                i <= size,
                board@.len() == i,
                forall|j: int| 0 <= j < i ==> board@[j] == self@.code_at(j as nat),
            decreases size - i,
        {
            let code = if i == agent {
                AGENT
            } else if i == trap {
                TRAP
            } else if i == goal {
                GOAL
            } else {
                EMPTY
            };
            board.push(code);
            i = i + 1;
        }
        board
    }

    /// Places the agent uniformly on the grid, then the goal uniformly among
    /// the other cells within `difficulty` of it, then the trap uniformly among
    /// the cells left, and restores the step budget. This succeeds exactly when
    /// the difficulty is positive and the grid has at least three cells.
    fn reset(&mut self) -> (r: Result<(), EnvError>)
        ensures
            final(self)@.same_config(old(self)@),
            final(self)@.difficulty == old(self)@.difficulty,
            r is Ok <==> old(self)@.difficulty > 0 && old(self)@.size() >= 3,
            r is Ok ==> final(self)@.placement_valid() && final(self)@.steps_left == final(self)@.max_steps,
            r matches Err(e) ==> e == EnvError::NoCandidate,
    {
        let agent = self.random_pos();
        self.agent = agent;
        proof {
            lemma_goal_exists(self@, agent);
        }
        let goal = match self.random_pos_near(agent, self.difficulty, agent, agent) {
            Ok(g) => g,
            Err(e) => return Err(e),
        };
        self.goal = goal;
        proof {
            lemma_manhattan_symmetric(goal, agent);
            lemma_trap_exists(self@, agent, goal);
        }
        let bound = self.width + self.height;
        let trap = match self.random_pos_near(agent, bound, agent, goal) {
            Ok(t) => t,
            Err(e) => return Err(e),
        };
        self.trap = trap;
        self.steps_left = self.max_steps;
        Ok(())
    }

    fn step(&mut self, action: usize)
        ensures
            final(self)@ == old(self)@.after_step(action as int),
    {
        if action == 0 && self.agent.1 > 0 {
            self.agent.1 = self.agent.1 - 1;
        } else if action == 1 && self.agent.1 + 1 < self.height {
            self.agent.1 = self.agent.1 + 1;
        } else if action == 2 && self.agent.0 > 0 {
            self.agent.0 = self.agent.0 - 1;
        } else if action == 3 && self.agent.0 + 1 < self.width {
            self.agent.0 = self.agent.0 + 1;
        }
        if self.steps_left > 0 {
            self.steps_left = self.steps_left - 1;
        }
    }

    fn masks(&self) -> (r: Vec<bool>)
        ensures
            r@.len() == 4,
            forall|a: int| 0 <= a < 4 ==> r@[a] == self@.legal(a),
    {
        let mut flags: Vec<bool> = Vec::new();
        flags.push(self.agent.1 > 0);
        flags.push(self.agent.1 + 1 < self.height);
        flags.push(self.agent.0 > 0);
        flags.push(self.agent.0 + 1 < self.width);
        flags
    }

    fn is_final(&self) -> (r: bool)
        ensures
            r == self@.is_final(),
    {
        self.steps_left == 0 || self.at_goal() || self.at_trap()
    }

    /// `1` at the goal, `-1/2` at the trap or with no steps left, otherwise
    /// `-1/(2 * steps_left)`.
    fn reward(&self) -> (r: Reward)
        ensures
            r.numer == self@.reward_numer(),
            r.denom == self@.reward_denom(),
    {
        if self.at_goal() {
            Reward { numer: 1, denom: 1 }
        } else if self.at_trap() || self.steps_left == 0 {
            Reward { numer: -1, denom: 2 }
        } else {
            Reward { numer: -1, denom: 2 * (self.steps_left as u128) }
        }
    }

    /// One entry per cell: `index * (width * height) + code`.
    fn observe(&self) -> (r: Vec<usize>)
        ensures
            r@.len() == self@.size(),
            forall|i: int| 0 <= i < r@.len() ==> r@[i] == self@.observed_at(i as nat),
    {
        let board = self.get_state();
        let size = self.width * self.height;
        let mut obs: Vec<usize> = Vec::new();
        let mut i: usize = 0;
        while i < size
            invariant
                self@.wf(),
                size == self@.size(),
                board@.len() == size,
                forall|j: int| 0 <= j < size ==> board@[j] == self@.code_at(j as nat),
                i <= size,
                obs@.len() == i,
                forall|j: int| 0 <= j < i ==> obs@[j] == self@.observed_at(j as nat),
            decreases size - i,
        {
            let code = board[i];
            assert(i * size + code <= usize::MAX) by (nonlinear_arith)
                requires
                    i < size,
                    code <= 3,
                    size * size <= usize::MAX,
                    usize::MAX > 10,
            ;
            obs.push(i * size + code);
            i = i + 1;
        }
        obs
    }
}

} // verus!
