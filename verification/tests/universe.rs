use game_of_life::Cell;
use game_of_life::Universe;

fn dead_universe(width: u32, height: u32, cell_size: u32) -> Universe {
    let n = (width * height) as usize;
    Universe::new(width, height, cell_size, vec![false; n])
}

fn is_alive(u: &Universe, row: u32, col: u32) -> bool {
    u.get_cells().contains((row * u.width() + col) as usize)
}

#[test]
fn glider_step() {
    let mut u = dead_universe(6, 6, 1);
    u.set_cells(&[(1, 2), (2, 3), (3, 1), (3, 2), (3, 3)]);
    u.tick();
    let expected = [(2, 1), (2, 3), (3, 2), (3, 3), (4, 2)];
    for row in 0..6 {
        for col in 0..6 {
            let want = expected.iter().any(|&(r, c)| (r, c) == (row, col));
            assert_eq!(is_alive(&u, row, col), want, "cell ({}, {})", row, col);
        }
    }
}

#[test]
fn render_diagonal() {
    let mut u = dead_universe(3, 3, 1);
    u.set_cells(&[(0, 0), (1, 1), (2, 2)]);
    assert_eq!(u.render(), "\u{25fc}\u{25fb}\u{25fb}\n\u{25fb}\u{25fc}\u{25fb}\n\u{25fb}\u{25fb}\u{25fc}\n");
}

#[test]
fn toggle_then_render() {
    let mut u = dead_universe(3, 3, 1);
    u.set_cells(&[(0, 0), (1, 1), (2, 2)]);
    u.toggle_cell(0, 0);
    assert_eq!(u.render(), "\u{25fb}\u{25fb}\u{25fb}\n\u{25fb}\u{25fc}\u{25fb}\n\u{25fb}\u{25fb}\u{25fc}\n");
}

#[test]
fn render_is_idempotent() {
    let mut u = dead_universe(4, 3, 2);
    u.set_cells(&[(0, 1), (1, 2), (2, 3)]);
    let first = u.render();
    let second = u.render();
    assert_eq!(first, second);
}

#[test]
fn toggle_twice_restores_cell() {
    let mut u = dead_universe(4, 4, 1);
    u.set_cells(&[(2, 1)]);
    let before_alive = is_alive(&u, 2, 1);
    let before_dead = is_alive(&u, 0, 3);
    u.toggle_cell(2, 1);
    u.toggle_cell(2, 1);
    u.toggle_cell(0, 3);
    u.toggle_cell(0, 3);
    assert_eq!(is_alive(&u, 2, 1), before_alive);
    assert_eq!(is_alive(&u, 0, 3), before_dead);
}

#[test]
fn set_width_clears_every_cell() {
    let mut u = dead_universe(4, 4, 1);
    u.set_cells(&[(0, 0), (1, 1), (3, 3)]);
    u.set_width(6);
    assert_eq!(u.width(), 6);
    assert_eq!(u.height(), 4);
    for row in 0..4 {
        for col in 0..6 {
            assert!(!is_alive(&u, row, col));
        }
    }
}

#[test]
fn set_height_clears_every_cell() {
    let mut u = dead_universe(4, 4, 1);
    u.set_cells(&[(0, 0), (2, 2), (3, 1)]);
    u.set_height(2);
    assert_eq!(u.width(), 4);
    assert_eq!(u.height(), 2);
    for row in 0..2 {
        for col in 0..4 {
            assert!(!is_alive(&u, row, col));
        }
    }
}

#[test]
fn resize_leaves_position_cache_stale() {
    let seed = vec![true, false, false, true];
    let mut u = Universe::new(2, 2, 4, seed);
    let before = u.cells_position().clone();
    u.set_width(3);
    assert_eq!(u.cells_position(), &before);
}

#[test]
fn rule_table_exhaustive() {
    // The 8 neighbors of the center of a 5x5 grid, in a fixed order.
    let neighbors = [
        (1u32, 1u32),
        (1, 2),
        (1, 3),
        (2, 1),
        (2, 3),
        (3, 1),
        (3, 2),
        (3, 3),
    ];
    for &center_alive in &[false, true] {
        for count in 0..=8usize {
            let mut u = dead_universe(5, 5, 1);
            u.set_cells(&neighbors[..count]);
            if center_alive {
                u.set_cells(&[(2, 2)]);
            }
            u.tick();
            let expected = if center_alive {
                count == 2 || count == 3
            } else {
                count == 3
            };
            assert_eq!(
                is_alive(&u, 2, 2),
                expected,
                "alive {} with {} neighbors",
                center_alive,
                count
            );
        }
    }
}

#[test]
fn toroidal_corner_block_is_still_life() {
    // On a 3x3 torus the four corner cells are mutually adjacent: each has
    // exactly 3 live neighbors only because rows and columns wrap.
    let mut u = dead_universe(3, 3, 1);
    u.set_cells(&[(0, 0), (0, 2), (2, 0), (2, 2)]);
    let before = u.render();
    u.tick();
    assert_eq!(u.render(), before);
}

#[test]
fn glider_stamp_overwrites_block() {
    let mut u = dead_universe(5, 5, 1);
    // Cells inside the 3x3 block that the stamp must clear, and one
    // outside it that must survive.
    u.set_cells(&[(1, 1), (2, 2), (0, 0)]);
    u.set_glider(2, 2);
    let expected = [(0, 0), (1, 2), (2, 3), (3, 1), (3, 2), (3, 3)];
    for row in 0..5 {
        for col in 0..5 {
            let want = expected.iter().any(|&(r, c)| (r, c) == (row, col));
            assert_eq!(is_alive(&u, row, col), want, "cell ({}, {})", row, col);
        }
    }
}

#[test]
fn seed_fills_grid_and_positions() {
    let seed = vec![true, false, false, true];
    let u = Universe::new(2, 2, 4, seed);
    assert!(is_alive(&u, 0, 0));
    assert!(!is_alive(&u, 0, 1));
    assert!(!is_alive(&u, 1, 0));
    assert!(is_alive(&u, 1, 1));
    // cell_size 4: a live cell at (row, col) contributes the pair
    // (col * 5 + 3, row * 5 + 3).
    assert_eq!(u.cells_position(), &vec![3, 3, 8, 8]);
    assert_eq!(u.cells_position_len(), 4);
}

#[test]
fn tick_rebuilds_positions_for_next_generation() {
    // A 2x2 block on a 3x3 torus: every live cell keeps 3 live neighbors
    // and every dead cell sees 4, so the block is stable.
    let mut u = dead_universe(3, 3, 2);
    u.set_cells(&[(0, 0), (0, 1), (1, 0), (1, 1)]);
    u.tick();
    assert_eq!(u.cells_position(), &vec![2, 2, 5, 2, 2, 5, 5, 5]);
    assert_eq!(u.cells_position_len(), 8);
}

#[test]
fn explicit_position_recompute() {
    let mut u = dead_universe(3, 3, 2);
    u.set_cells(&[(0, 1)]);
    // Mutators do not refresh the cache ...
    assert_eq!(u.cells_position_len(), 0);
    // ... an explicit recompute does.
    u.cells_to_cells_positon();
    assert_eq!(u.cells_position(), &vec![5, 2]);
}

#[test]
fn clear_kills_everything_and_keeps_dimensions() {
    let mut u = dead_universe(4, 2, 1);
    u.set_cells(&[(0, 0), (1, 3)]);
    u.cells_to_cells_positon();
    let cached = u.cells_position().clone();
    u.clear();
    assert_eq!(u.width(), 4);
    assert_eq!(u.height(), 2);
    for row in 0..2 {
        for col in 0..4 {
            assert!(!is_alive(&u, row, col));
        }
    }
    // The cache is not refreshed by clear.
    assert_eq!(u.cells_position(), &cached);
}

#[test]
fn reset_builds_a_fresh_universe() {
    let mut u = dead_universe(2, 2, 1);
    u.set_cells(&[(0, 0)]);
    u.reset(3, 1, 2, vec![false, true, false]);
    assert_eq!(u.width(), 3);
    assert_eq!(u.height(), 1);
    assert_eq!(u.cell_size(), 2);
    assert!(!is_alive(&u, 0, 0));
    assert!(is_alive(&u, 0, 1));
    assert!(!is_alive(&u, 0, 2));
    assert_eq!(u.cells_position(), &vec![5, 2]);
}

#[test]
fn empty_grid_operations_are_noops() {
    let mut u = Universe::new(0, 3, 1, vec![]);
    u.tick();
    assert_eq!(u.render(), "");
    u.set_glider(0, 0);
    u.clear();
    u.cells_to_cells_positon();
    assert_eq!(u.cells_position_len(), 0);
    assert_eq!(u.width(), 0);
    assert_eq!(u.height(), 3);
}

#[test]
fn accessors_report_construction_arguments() {
    let u = dead_universe(7, 5, 9);
    assert_eq!(u.width(), 7);
    assert_eq!(u.height(), 5);
    assert_eq!(u.cell_size(), 9);
    assert_eq!(u.get_cells().len(), 35);
    assert_eq!(u.cells().len(), 35);
}

#[test]
fn set_cells_adds_without_clearing() {
    let mut u = dead_universe(3, 3, 1);
    u.set_cells(&[(0, 0)]);
    u.set_cells(&[(1, 1)]);
    assert!(is_alive(&u, 0, 0));
    assert!(is_alive(&u, 1, 1));
    assert!(!is_alive(&u, 2, 2));
}

#[test]
fn cell_toggle_flips_between_states() {
    let mut c = Cell::Dead;
    c.toggle();
    assert_eq!(c, Cell::Alive);
    c.toggle();
    assert_eq!(c, Cell::Dead);
}
