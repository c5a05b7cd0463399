use life_grid::board::Board;
use life_grid::config::{check_dims, Config, ConfigError};
use life_grid::grid::{get_index_by_xy, get_neighbors};
use life_grid::life::{count_live_neighbors, next_state, update_board, Cell};
use life_grid::pacing::StepTimer;

fn board_with(width: usize, height: usize, live: &[(usize, usize)]) -> Board {
    let mut b = Board::new_dead(width, height).unwrap();
    for &(x, y) in live {
        b.set_alive(x, y, true);
    }
    b
}

fn live_cells(b: &Board) -> Vec<(usize, usize)> {
    let mut out = Vec::new();
    for y in 0..b.height() {
        for x in 0..b.width() {
            if b.is_alive(x, y) {
                out.push((x, y));
            }
        }
    }
    out
}

#[test]
fn index_round_trip() {
    for &(w, h) in &[(1usize, 1usize), (1, 5), (7, 1), (3, 4), (200, 200)] {
        for i in 0..w * h {
            assert_eq!(get_index_by_xy(i % w, i / w, w, h), i);
        }
    }
    assert_eq!(get_index_by_xy(3, 2, 10, 5), 23);
}

#[test]
fn neighbor_counts_by_position() {
    let (w, h) = (5usize, 4usize);
    assert_eq!(get_neighbors(get_index_by_xy(0, 0, w, h), w, h).len(), 3);
    assert_eq!(get_neighbors(get_index_by_xy(4, 3, w, h), w, h).len(), 3);
    assert_eq!(get_neighbors(get_index_by_xy(2, 0, w, h), w, h).len(), 5);
    assert_eq!(get_neighbors(get_index_by_xy(0, 2, w, h), w, h).len(), 5);
    assert_eq!(get_neighbors(get_index_by_xy(2, 2, w, h), w, h).len(), 8);
    assert_eq!(get_neighbors(0, 1, 1).len(), 0);
}

#[test]
fn neighbor_order_is_fixed() {
    // Centre of a 3 by 3 grid: NW, N, NE, W, E, SW, S, SE.
    assert_eq!(get_neighbors(4, 3, 3), vec![0, 1, 2, 3, 5, 6, 7, 8]);
    // Top-left corner of a 3 by 3 grid: E, S, SE.
    assert_eq!(get_neighbors(0, 3, 3), vec![1, 3, 4]);
    // Bottom-right corner of a 4 by 2 grid: NW, N, W.
    assert_eq!(get_neighbors(7, 4, 2), vec![2, 3, 6]);
}

#[test]
fn dead_grid_stays_dead() {
    let mut b = Board::new_dead(6, 5).unwrap();
    for _ in 0..5 {
        b.step();
        assert!(live_cells(&b).is_empty());
    }
}

#[test]
fn lone_cell_dies() {
    let mut b = board_with(5, 5, &[(2, 2)]);
    b.step();
    assert!(live_cells(&b).is_empty());
    let mut corner = board_with(3, 3, &[(0, 0)]);
    corner.step();
    assert!(live_cells(&corner).is_empty());
}

#[test]
fn block_is_still() {
    let block = [(1, 1), (2, 1), (1, 2), (2, 2)];
    let mut b = board_with(4, 4, &block);
    let before = live_cells(&b);
    for _ in 0..4 {
        b.step();
        assert_eq!(live_cells(&b), before);
    }
    let mut in_corner = board_with(4, 4, &[(0, 0), (1, 0), (0, 1), (1, 1)]);
    in_corner.step();
    assert_eq!(live_cells(&in_corner), vec![(0, 0), (1, 0), (0, 1), (1, 1)]);
}

#[test]
fn blinker_oscillates() {
    let mut b = board_with(5, 5, &[(1, 2), (2, 2), (3, 2)]);
    b.step();
    assert_eq!(live_cells(&b), vec![(2, 1), (2, 2), (2, 3)]);
    b.step();
    assert_eq!(live_cells(&b), vec![(1, 2), (2, 2), (3, 2)]);
}

#[test]
fn blinker_with_tight_margin() {
    let mut b = board_with(3, 3, &[(1, 0), (1, 1), (1, 2)]);
    b.step();
    assert_eq!(live_cells(&b), vec![(0, 1), (1, 1), (2, 1)]);
    b.step();
    assert_eq!(live_cells(&b), vec![(1, 0), (1, 1), (1, 2)]);
}

#[test]
fn step_is_deterministic() {
    let alive: Vec<bool> = (0..64).map(|i| (i * 7 + i / 3) % 5 < 2).collect();
    let mut a = Board::from_alive(8, 8, &alive).unwrap();
    let mut b = Board::from_alive(8, 8, &alive).unwrap();
    a.step();
    b.step();
    assert_eq!(live_cells(&a), live_cells(&b));
}

#[test]
fn birth_on_three() {
    let mut b = board_with(4, 4, &[(0, 0), (2, 0), (0, 2)]);
    b.step();
    assert!(b.is_alive(1, 1));
    assert!(!b.is_alive(0, 0));
}

#[test]
fn rule_table() {
    for live in 0u8..=8 {
        assert_eq!(next_state(true, live), live == 2 || live == 3);
        assert_eq!(next_state(false, live), live == 3);
    }
}

#[test]
fn counts_live_neighbors() {
    let cells: Vec<Cell> = [true, true, true, false, true, false, true, false, true]
        .iter()
        .map(|&a| Cell::new(a))
        .collect();
    assert_eq!(count_live_neighbors(&cells, 4, 3, 3), 5);
    assert_eq!(count_live_neighbors(&cells, 0, 3, 3), 2);
    assert_eq!(count_live_neighbors(&cells, 8, 3, 3), 1);
}

#[test]
fn update_uses_snapshot() {
    // A row of three on a 3 by 3 grid: the end cells die and the cells above and
    // below the centre are born, all from the same snapshot.
    let mut cells: Vec<Cell> = [false, false, false, true, true, true, false, false, false]
        .iter()
        .map(|&a| Cell::new(a))
        .collect();
    update_board(&mut cells, 3, 3);
    let alive: Vec<bool> = cells.iter().map(|c| c.is_alive).collect();
    assert_eq!(alive, vec![false, true, false, false, true, false, false, true, false]);
}

#[test]
fn cell_make_alive_and_dead() {
    let mut c = Cell::new(false);
    c.make_alive();
    assert!(c.is_alive);
    c.make_dead();
    assert!(!c.is_alive);
}

#[test]
fn from_alive_errors() {
    assert_eq!(Board::from_alive(0, 3, &vec![]).err(), Some(ConfigError::ZeroWidth));
    assert_eq!(Board::from_alive(3, 0, &vec![]).err(), Some(ConfigError::ZeroHeight));
    assert_eq!(Board::from_alive(usize::MAX, 2, &vec![]).err(), Some(ConfigError::TooLarge));
    assert_eq!(Board::from_alive(2, 2, &vec![true; 3]).err(), Some(ConfigError::SizeMismatch));
    let b = Board::from_alive(2, 1, &vec![false, true]).unwrap();
    assert!(!b.is_alive(0, 0));
    assert!(b.is_alive(1, 0));
}

#[test]
fn dims_are_checked() {
    assert_eq!(check_dims(1, 1), Ok(()));
    assert_eq!(check_dims(0, 0), Err(ConfigError::ZeroWidth));
    assert_eq!(check_dims(4, 0), Err(ConfigError::ZeroHeight));
    assert_eq!(check_dims(usize::MAX / 2 + 1, 2), Err(ConfigError::TooLarge));
    assert!(Board::new_dead(0, 1).is_err());
}

#[test]
fn random_extremes() {
    let none = Board::random(10, 7, 0, 5).unwrap();
    assert!(live_cells(&none).is_empty());
    let all = Board::random(10, 7, 5, 5).unwrap();
    assert_eq!(live_cells(&all).len(), 70);
    assert_eq!((all.width(), all.height()), (10, 7));
}

#[test]
fn random_errors() {
    assert_eq!(Board::random(3, 3, 1, 0).err(), Some(ConfigError::InvalidProbability));
    assert_eq!(Board::random(3, 3, 4, 3).err(), Some(ConfigError::InvalidProbability));
    assert_eq!(Board::random(0, 3, 4, 3).err(), Some(ConfigError::ZeroWidth));
    let b = Board::random(20, 20, 3, 10).unwrap();
    assert_eq!(b.cells_xy().len(), 400);
}

#[test]
fn config_default_and_validation() {
    let c = Config::default();
    assert_eq!((c.width, c.height), (200, 200));
    assert_eq!((c.seed_numerator, c.seed_denominator, c.step_every), (3, 10, 10));
    assert_eq!(c.validate(), Ok(()));
    assert_eq!(Config { width: 0, ..c }.validate(), Err(ConfigError::ZeroWidth));
    assert_eq!(Config { height: 0, ..c }.validate(), Err(ConfigError::ZeroHeight));
    assert_eq!(
        Config { width: usize::MAX, ..c }.validate(),
        Err(ConfigError::TooLarge)
    );
    assert_eq!(
        Config { seed_numerator: 11, ..c }.validate(),
        Err(ConfigError::InvalidProbability)
    );
    assert_eq!(
        Config { seed_denominator: 0, ..c }.validate(),
        Err(ConfigError::InvalidProbability)
    );
    assert_eq!(Config { step_every: 0, ..c }.validate(), Err(ConfigError::ZeroStepInterval));
}

#[test]
fn timer_steps_every_nth_frame() {
    let mut t = StepTimer::new(10).unwrap();
    let fired: Vec<usize> = (1..=35).filter(|_| t.tick()).collect();
    assert_eq!(fired, vec![10, 20, 30]);
    let mut every = StepTimer::new(1).unwrap();
    assert!(every.tick());
    assert!(every.tick());
    assert_eq!(StepTimer::new(0).err(), Some(ConfigError::ZeroStepInterval));
}

#[test]
fn cells_listed_column_by_column() {
    let b = board_with(2, 3, &[(1, 0), (0, 2)]);
    assert_eq!(
        b.cells_xy(),
        vec![
            (0, 0, false),
            (0, 1, false),
            (0, 2, true),
            (1, 0, true),
            (1, 1, false),
            (1, 2, false),
        ]
    );
}

#[test]
fn set_alive_toggles() {
    let mut b = Board::new_dead(3, 2).unwrap();
    b.set_alive(2, 1, true);
    assert!(b.is_alive(2, 1));
    b.set_alive(2, 1, false);
    assert!(!b.is_alive(2, 1));
}
