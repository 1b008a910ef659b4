use conway_war::cell::{Cell, Team};
use conway_war::conway::GameOfLife;
use rand::SeedableRng;

/// The full state of the board as plain values, in traversal order.
fn state(game: &GameOfLife) -> Vec<(usize, usize, bool, Team)> {
    let mut out = Vec::new();
    let mut it = game.cells.iter();
    while let Some((x, y, c)) = it.next() {
        out.push((x, y, c.alive, c.team));
    }
    out
}

/// The positions of the living cells, in traversal order.
fn live_positions(game: &GameOfLife) -> Vec<(usize, usize)> {
    state(game)
        .iter()
        .filter(|&&(_, _, alive, _)| alive)
        .map(|&(x, y, _, _)| (x, y))
        .collect()
}

fn put(game: &mut GameOfLife, x: usize, y: usize, team: Team) {
    game.cells.set(x, y, Cell { alive: true, team });
}

#[test]
fn lone_cell_dies() {
    let mut game = GameOfLife::new(5, 5);
    put(&mut game, 2, 2, Team::Red);
    game.tick();
    assert!(live_positions(&game).is_empty());
    // Death clears life, not the team mark left behind.
    let c = game.cells.get(2usize, 2usize).unwrap();
    assert_eq!(c.team, Team::Red);
}

#[test]
fn block_is_stable_over_many_ticks() {
    let mut game = GameOfLife::new(5, 5);
    for &(x, y) in &[(1, 1), (2, 1), (1, 2), (2, 2)] {
        put(&mut game, x, y, Team::Blue);
    }
    let before = state(&game);
    for _ in 0..6 {
        game.tick();
    }
    assert_eq!(before, state(&game));
    assert_eq!(live_positions(&game), vec![(1, 1), (2, 1), (1, 2), (2, 2)]);
    for (x, y) in live_positions(&game) {
        assert_eq!(game.cells.get(x, y).unwrap().team, Team::Blue);
    }
}

#[test]
fn full_smallest_board_is_stable() {
    let mut game = GameOfLife::new(2, 2);
    for x in 0..2usize {
        for y in 0..2usize {
            put(&mut game, x, y, Team::Red);
        }
    }
    game.tick();
    assert_eq!(live_positions(&game).len(), 4);
}

#[test]
fn contested_birth_is_neutral() {
    let mut game = GameOfLife::new(5, 5);
    put(&mut game, 0, 0, Team::Red);
    put(&mut game, 1, 0, Team::Red);
    put(&mut game, 2, 0, Team::Blue);
    game.tick();
    let born = game.cells.get(1usize, 1usize).unwrap();
    assert!(born.alive);
    assert_eq!(born.team, Team::Neutral);
}

#[test]
fn uncontested_birth_inherits_red() {
    let mut game = GameOfLife::new(5, 5);
    put(&mut game, 0, 0, Team::Red);
    put(&mut game, 1, 0, Team::Red);
    put(&mut game, 2, 0, Team::Red);
    game.tick();
    let born = game.cells.get(1usize, 1usize).unwrap();
    assert!(born.alive);
    assert_eq!(born.team, Team::Red);
}

#[test]
fn uncontested_birth_inherits_blue() {
    let mut game = GameOfLife::new(5, 5);
    put(&mut game, 0, 2, Team::Blue);
    put(&mut game, 1, 2, Team::Blue);
    put(&mut game, 2, 2, Team::Blue);
    game.tick();
    let born = game.cells.get(1usize, 3usize).unwrap();
    assert!(born.alive);
    assert_eq!(born.team, Team::Blue);
}

#[test]
fn clear_resets_teams_to_neutral() {
    let mut game = GameOfLife::new(4, 4);
    put(&mut game, 1, 1, Team::Red);
    put(&mut game, 2, 3, Team::Blue);
    game.clear();
    for (_, _, alive, team) in state(&game) {
        assert!(!alive);
        assert_eq!(team, Team::Neutral);
    }
}

#[test]
fn tick_is_deterministic() {
    let mut a = GameOfLife::new(6, 6);
    let mut b = GameOfLife::new(6, 6);
    let seed = [
        (0, 0, Team::Red),
        (1, 0, Team::Blue),
        (2, 1, Team::Red),
        (2, 2, Team::Neutral),
        (3, 2, Team::Blue),
        (1, 3, Team::Red),
        (4, 4, Team::Blue),
    ];
    for &(x, y, team) in &seed {
        put(&mut a, x, y, team);
        put(&mut b, x, y, team);
    }
    a.tick();
    b.tick();
    assert_eq!(state(&a), state(&b));
}

#[test]
fn glider_translates_by_one_one_after_four_ticks() {
    let mut game = GameOfLife::new(10, 10);
    // Leave a stray live Red cell around: glider() clears the board,
    // team marks included, before seeding.
    put(&mut game, 7, 7, Team::Red);
    game.glider();
    assert_eq!(live_positions(&game), vec![(2, 1), (3, 2), (1, 3), (2, 3), (3, 3)]);
    for (_, _, _, team) in state(&game) {
        assert_eq!(team, Team::Neutral);
    }
    for _ in 0..4 {
        game.tick();
    }
    assert_eq!(live_positions(&game), vec![(3, 2), (4, 3), (2, 4), (3, 4), (4, 4)]);
    // A teamless glider stays teamless.
    for (x, y) in live_positions(&game) {
        assert_eq!(game.cells.get(x, y).unwrap().team, Team::Neutral);
    }
}

#[test]
fn rolls_map_to_cells_at_the_exact_thresholds() {
    let c = Cell::from_rolls(3, 0);
    assert!(c.alive);
    assert_eq!(c.team, Team::Red);
    let c = Cell::from_rolls(4, 1);
    assert!(!c.alive);
    assert_eq!(c.team, Team::Blue);
    let c = Cell::from_rolls(0, 1);
    assert!(c.alive);
    assert_eq!(c.team, Team::Blue);
    let c = Cell::from_rolls(9, 0);
    assert!(!c.alive);
    assert_eq!(c.team, Team::Red);
}

#[test]
fn randomize_deals_every_cell_to_a_side() {
    let mut game = GameOfLife::new(30, 30);
    let mut rng = rand::rngs::StdRng::seed_from_u64(7);
    game.randomize(&mut rng);
    for (_, _, alive, team) in state(&game) {
        assert_ne!(team, Team::Neutral);
        let _ = alive;
    }
}

#[test]
fn randomize_fills_about_two_fifths() {
    let mut game = GameOfLife::new(100, 100);
    let mut rng = rand::rngs::StdRng::seed_from_u64(42);
    game.randomize(&mut rng);
    let live = live_positions(&game).len();
    // 10,000 draws at probability 0.4: far outside [0.3, 0.5] would be
    // a broken generator or a broken threshold.
    assert!(live > 3000, "only {} live cells", live);
    assert!(live < 5000, "{} live cells", live);
    // Both sides appear among the living.
    let reds = state(&game)
        .iter()
        .filter(|&&(_, _, alive, team)| alive && team == Team::Red)
        .count();
    assert!(reds > 0 && reds < live);
}

#[test]
fn randomize_with_same_seed_repeats() {
    let mut a = GameOfLife::new(8, 8);
    let mut b = GameOfLife::new(8, 8);
    let mut rng_a = rand::rngs::StdRng::seed_from_u64(123);
    let mut rng_b = rand::rngs::StdRng::seed_from_u64(123);
    a.randomize(&mut rng_a);
    b.randomize(&mut rng_b);
    assert_eq!(state(&a), state(&b));
}
