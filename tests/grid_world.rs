use grid_world::{Env, EnvError, GridWorld, Reward};

fn grid(width: usize, height: usize, max_steps: usize, difficulty: usize) -> GridWorld {
    GridWorld::with_seed(width, height, max_steps, difficulty, 17).unwrap()
}

fn manhattan(a: (usize, usize), b: (usize, usize)) -> usize {
    a.0.abs_diff(b.0) + a.1.abs_diff(b.1)
}

fn as_f32(r: Reward) -> f32 {
    r.numer as f32 / r.denom as f32
}

#[test]
fn set_state_two_by_two() {
    let mut g = grid(2, 2, 5, 1);
    g.set_state(vec![1, 2, 3, 0]);
    assert_eq!(g.get_positions(), ((0, 0), (1, 0), (0, 1)));
    assert_eq!(g.get_state(), vec![1, 2, 3, 0]);
    assert_eq!(g.observe(), vec![1, 6, 11, 12]);
}

#[test]
fn difficulty_is_clamped() {
    let mut g = grid(3, 3, 5, 2);
    assert_eq!(g.get_difficulty(), 2);
    g.set_difficulty(10);
    assert_eq!(g.get_difficulty(), 6);
    let h = grid(3, 3, 5, 100);
    assert_eq!(h.get_difficulty(), 6);
}

#[test]
fn masks_in_top_left_corner() {
    let mut g = grid(3, 3, 5, 2);
    g.set_state(vec![1, 0, 0, 0, 2, 0, 0, 0, 3]);
    assert_eq!(g.masks(), vec![false, true, false, true]);
}

#[test]
fn masks_in_bottom_right_corner() {
    let mut g = grid(3, 3, 5, 2);
    g.set_state(vec![3, 0, 0, 0, 2, 0, 0, 0, 1]);
    assert_eq!(g.masks(), vec![true, false, true, false]);
}

#[test]
fn masked_step_keeps_agent_and_spends_a_step() {
    let mut g = grid(3, 3, 5, 2);
    g.set_state(vec![1, 0, 0, 0, 2, 0, 0, 0, 3]);
    g.step(0);
    assert_eq!(g.get_positions().0, (0, 0));
    assert_eq!(g.reward(), Reward { numer: -1, denom: 8 });
    g.step(2);
    assert_eq!(g.get_positions().0, (0, 0));
    assert_eq!(g.reward(), Reward { numer: -1, denom: 6 });
    g.step(9);
    assert_eq!(g.get_positions().0, (0, 0));
    assert_eq!(g.reward(), Reward { numer: -1, denom: 4 });
}

#[test]
fn legal_steps_move_the_agent() {
    let mut g = grid(3, 3, 10, 2);
    g.set_state(vec![0, 0, 0, 0, 1, 0, 2, 0, 3]);
    g.step(0);
    assert_eq!(g.get_positions().0, (1, 0));
    g.step(1);
    assert_eq!(g.get_positions().0, (1, 1));
    g.step(2);
    assert_eq!(g.get_positions().0, (0, 1));
    g.step(3);
    assert_eq!(g.get_positions().0, (1, 1));
}

#[test]
fn budget_floors_at_zero() {
    let mut g = grid(3, 3, 2, 2);
    g.set_state(vec![0, 0, 0, 0, 1, 0, 2, 0, 3]);
    g.step(0);
    g.step(1);
    assert!(g.is_final());
    assert_eq!(g.reward(), Reward { numer: -1, denom: 2 });
    g.step(1);
    assert!(g.is_final());
    assert_eq!(g.reward(), Reward { numer: -1, denom: 2 });
    g.set_state(vec![]);
    assert!(!g.is_final());
}

#[test]
fn is_final_cases() {
    let mut g = grid(3, 3, 4, 2);
    g.set_state(vec![1, 2, 0, 0, 0, 0, 0, 0, 3]);
    assert!(!g.is_final());
    g.step(3);
    assert!(g.at_goal());
    assert!(g.is_final());
    g.set_state(vec![1, 0, 2, 3, 0, 0, 0, 0, 0]);
    g.step(1);
    assert!(g.at_trap());
    assert!(!g.at_goal());
    assert!(g.is_final());
}

#[test]
fn reward_table() {
    let mut g = grid(3, 3, 4, 2);
    g.set_state(vec![1, 2, 0, 0, 0, 0, 0, 0, 3]);
    assert_eq!(g.reward(), Reward { numer: -1, denom: 8 });
    assert_eq!(as_f32(g.reward()), -0.5 / 4.0);
    g.step(3);
    assert_eq!(g.reward(), Reward { numer: 1, denom: 1 });
    assert_eq!(as_f32(g.reward()), 1.0);
    g.set_state(vec![1, 0, 2, 3, 0, 0, 0, 0, 0]);
    g.step(1);
    assert_eq!(as_f32(g.reward()), -0.5);
    g.set_state(vec![1, 0, 2, 0, 0, 0, 0, 0, 3]);
    g.step(1);
    assert_eq!(as_f32(g.reward()), -0.5 / 3.0);
}

#[test]
fn round_trip_keeps_coded_cells() {
    let mut g = grid(3, 3, 5, 2);
    g.set_state(vec![0, 7, 3, 0, -4, 1, 2, 0, 9]);
    assert_eq!(g.get_state(), vec![0, 0, 3, 0, 0, 1, 2, 0, 0]);
    assert_eq!(g.get_positions(), ((2, 1), (0, 2), (2, 0)));
}

#[test]
fn set_state_ignores_cells_past_the_grid() {
    let mut g = grid(2, 2, 5, 2);
    g.set_state(vec![1, 2, 3, 0, 1, 1]);
    assert_eq!(g.get_positions(), ((0, 0), (1, 0), (0, 1)));
}

#[test]
fn later_codes_win_and_agent_hides_others() {
    let mut g = grid(2, 2, 5, 2);
    g.set_state(vec![1, 1, 2, 3]);
    assert_eq!(g.get_positions(), ((1, 0), (0, 1), (1, 1)));
    g.set_state(vec![2, 3, 0, 0]);
    assert_eq!(g.get_state(), vec![2, 1, 0, 0]);
}

#[test]
fn observe_encodes_index_and_code() {
    let mut g = grid(3, 2, 5, 2);
    g.set_state(vec![0, 0, 1, 3, 0, 2]);
    assert_eq!(g.observe(), vec![0, 6, 13, 21, 24, 32]);
    assert_eq!(g.obs_shape(), vec![6, 6]);
    assert_eq!(g.num_actions(), 4);
}

#[test]
fn reset_places_entities_apart_and_near() {
    for d in 1..=9 {
        for seed in 0..20 {
            let mut g = GridWorld::with_seed(5, 4, 7, d, seed).unwrap();
            g.set_difficulty(d);
            assert_eq!(g.reset(), Ok(()));
            let (a, goal, t) = g.get_positions();
            assert!(a.0 < 5 && a.1 < 4 && goal.0 < 5 && goal.1 < 4 && t.0 < 5 && t.1 < 4);
            assert!(a != goal && a != t && goal != t);
            assert!(manhattan(a, goal) <= g.get_difficulty());
            assert!(!g.is_final());
            assert_eq!(g.reward(), Reward { numer: -1, denom: 14 });
        }
    }
}

#[test]
fn reset_draws_vary() {
    let mut seen = std::collections::HashSet::new();
    for seed in 0..30 {
        let mut g = GridWorld::with_seed(6, 6, 7, 12, seed).unwrap();
        assert_eq!(g.reset(), Ok(()));
        seen.insert(g.get_positions());
    }
    assert!(seen.len() > 1);
}

#[test]
fn same_seed_same_episode() {
    let mut a = GridWorld::with_seed(6, 6, 7, 4, 99).unwrap();
    let mut b = GridWorld::with_seed(6, 6, 7, 4, 99).unwrap();
    assert_eq!(a.reset(), Ok(()));
    assert_eq!(b.reset(), Ok(()));
    assert_eq!(a.get_positions(), b.get_positions());
}

#[test]
fn reset_with_zero_difficulty_fails() {
    let mut g = grid(3, 3, 5, 0);
    assert_eq!(g.reset(), Err(EnvError::NoCandidate));
}

#[test]
fn reset_on_single_cell_fails() {
    let mut g = grid(1, 1, 5, 2);
    assert_eq!(g.reset(), Err(EnvError::NoCandidate));
}

#[test]
fn reset_on_two_cells_cannot_place_trap() {
    let mut g = grid(2, 1, 5, 3);
    assert_eq!(g.reset(), Err(EnvError::NoCandidate));
}

#[test]
fn random_walk_stays_on_grid() {
    let mut g = GridWorld::with_seed(4, 3, 50, 7, 5).unwrap();
    assert_eq!(g.reset(), Ok(()));
    for i in 0..60usize {
        let action = (i * 7 + i / 3) % 5;
        g.step(action);
        let a = g.get_positions().0;
        assert!(a.0 < 4 && a.1 < 3);
    }
    assert!(g.is_final());
}

#[test]
fn construction_errors() {
    assert!(matches!(GridWorld::new(0, 3, 5, 1), Err(EnvError::InvalidConfig)));
    assert!(matches!(GridWorld::new(3, 0, 5, 1), Err(EnvError::InvalidConfig)));
    assert!(matches!(GridWorld::new(3, 3, 0, 1), Err(EnvError::InvalidConfig)));
    assert!(matches!(GridWorld::new(usize::MAX, 2, 5, 1), Err(EnvError::GridTooLarge)));
    assert!(matches!(GridWorld::new(1 << 20, 1 << 20, 5, 1), Err(EnvError::GridTooLarge)));
    assert!(GridWorld::new(3, 3, 5, 1).is_ok());
}

#[test]
fn fresh_grid_starts_at_origin() {
    let g = GridWorld::new(3, 3, 5, 2).unwrap();
    assert_eq!(g.get_positions(), ((0, 0), (0, 0), (0, 0)));
    assert!(g.at_goal());
    assert!(g.at_trap());
}

#[test]
fn error_messages() {
    assert_eq!(EnvError::InvalidConfig.message(), "width, height and max_steps must be positive");
    assert_eq!(EnvError::GridTooLarge.message(), "grid too large to encode");
    assert_eq!(EnvError::NoCandidate.message(), "no valid positions found");
    assert_eq!(EnvError::EntropyUnavailable.message(), "no entropy to seed the random source");
}

#[test]
fn clone_copies_state_and_generator() {
    let mut a = GridWorld::with_seed(6, 6, 7, 5, 3).unwrap();
    a.set_state(vec![0, 1, 0, 0, 2, 3]);
    a.step(3);
    let mut b = a.clone();
    assert_eq!(a.get_positions(), b.get_positions());
    assert_eq!(a.reward(), b.reward());
    assert_eq!(a.reset(), Ok(()));
    assert_eq!(b.reset(), Ok(()));
    assert_eq!(a.get_positions(), b.get_positions());
}

#[test]
fn reset_on_three_cells_always_succeeds() {
    for seed in 0..40 {
        let mut g = GridWorld::with_seed(3, 1, 4, 1, seed).unwrap();
        assert_eq!(g.reset(), Ok(()));
        let (a, goal, t) = g.get_positions();
        assert!(a != goal && a != t && goal != t);
        assert_eq!(manhattan(a, goal), 1);
    }
}

#[test]
fn reset_with_difficulty_one_puts_goal_next_to_agent() {
    for seed in 0..40 {
        let mut g = GridWorld::with_seed(4, 4, 9, 1, seed).unwrap();
        assert_eq!(g.reset(), Ok(()));
        let (a, goal, _) = g.get_positions();
        assert_eq!(manhattan(a, goal), 1);
    }
}
