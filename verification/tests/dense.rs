use game_of_life::cell::Cell;
use game_of_life::dense::Universe;

fn sized(width: u32, height: u32) -> Universe {
    let mut universe = Universe::new();
    universe.set_width(width);
    universe.set_height(height);
    universe
}

fn with_alive(width: u32, height: u32, coords: &[(u32, u32)]) -> Universe {
    let mut universe = sized(width, height);
    universe.set_cells(coords);
    universe
}

fn alive_positions(universe: &Universe) -> Vec<(u32, u32)> {
    let width = universe.width();
    let mut found = Vec::new();
    for (i, cell) in universe.cells().iter().enumerate() {
        if cell.to_bool() {
            found.push((i as u32 / width, i as u32 % width));
        }
    }
    found
}

fn bools(universe: &Universe) -> Vec<bool> {
    universe.cells().iter().map(|cell| cell.to_bool()).collect()
}

// The count and the rule written out a second time, with signed steps, for
// grids of at least three rows and three columns.
fn count_by_steps(cells: &[bool], width: i64, height: i64, row: i64, col: i64) -> u8 {
    let mut count = 0;
    for drow in [-1i64, 0, 1] {
        for dcol in [-1i64, 0, 1] {
            if drow == 0 && dcol == 0 {
                continue;
            }
            let r = (row + drow).rem_euclid(height);
            let c = (col + dcol).rem_euclid(width);
            if cells[(r * width + c) as usize] {
                count += 1;
            }
        }
    }
    count
}

fn next_by_steps(cells: &[bool], width: i64, height: i64) -> Vec<bool> {
    let mut next = Vec::new();
    for row in 0..height {
        for col in 0..width {
            let n = count_by_steps(cells, width, height, row, col);
            let alive = cells[(row * width + col) as usize];
            next.push(n == 3 || (alive && n == 2));
        }
    }
    next
}

#[test]
fn dense_new_is_64_by_64_with_the_pattern() {
    let universe = Universe::new();
    assert_eq!(universe.width(), 64);
    assert_eq!(universe.height(), 64);
    let cells = universe.cells();
    assert_eq!(cells.len(), 4096);
    for (i, cell) in cells.iter().enumerate() {
        assert_eq!(cell.to_bool(), i % 2 == 0 || i % 7 == 0, "cell {}", i);
    }
    assert_eq!(cells[0], Cell::Alive);
    assert_eq!(cells[1], Cell::Dead);
    assert_eq!(cells[7], Cell::Alive);
    assert_eq!(cells[4095], Cell::Alive);
}

#[test]
fn dense_get_index_is_row_major() {
    let universe = Universe::new();
    assert_eq!(universe.get_index(0, 0), 0);
    assert_eq!(universe.get_index(0, 63), 63);
    assert_eq!(universe.get_index(1, 0), 64);
    assert_eq!(universe.get_index(2, 3), 131);
    assert_eq!(universe.get_index(63, 63), 4095);
    let narrow = sized(5, 7);
    assert_eq!(narrow.get_index(6, 4), 34);
    assert_eq!(narrow.get_index(3, 1), 16);
}

#[test]
fn dense_neighbor_count_on_the_pattern() {
    let universe = Universe::new();
    assert_eq!(universe.live_neighbot_count(0, 0), 4);
    let cells = bools(&universe);
    for row in 0..64u32 {
        for col in 0..64u32 {
            assert_eq!(
                universe.live_neighbot_count(row, col),
                count_by_steps(&cells, 64, 64, row as i64, col as i64),
                "at ({}, {})",
                row,
                col
            );
        }
    }
}

#[test]
fn dense_neighbor_count_reaches_eight_and_no_more() {
    let mut all = Vec::new();
    for row in 0..3u32 {
        for col in 0..4u32 {
            all.push((row, col));
        }
    }
    let universe = with_alive(4, 3, &all);
    for &(row, col) in &all {
        assert_eq!(universe.live_neighbot_count(row, col), 8);
    }
    let dead = sized(4, 3);
    for &(row, col) in &all {
        assert_eq!(dead.live_neighbot_count(row, col), 0);
    }
}

#[test]
fn dense_corner_counts_the_opposite_corner() {
    let universe = with_alive(5, 5, &[(4, 4)]);
    assert_eq!(universe.live_neighbot_count(0, 0), 1);
    assert_eq!(universe.live_neighbot_count(0, 4), 1);
    assert_eq!(universe.live_neighbot_count(4, 0), 1);
    assert_eq!(universe.live_neighbot_count(1, 1), 0);
    assert_eq!(universe.live_neighbot_count(4, 4), 0);
    let universe = with_alive(5, 5, &[(0, 0)]);
    assert_eq!(universe.live_neighbot_count(4, 4), 1);
}

#[test]
fn dense_edges_count_the_opposite_edge() {
    let universe = with_alive(6, 5, &[(4, 2)]);
    assert_eq!(universe.live_neighbot_count(0, 1), 1);
    assert_eq!(universe.live_neighbot_count(0, 2), 1);
    assert_eq!(universe.live_neighbot_count(0, 3), 1);
    assert_eq!(universe.live_neighbot_count(0, 4), 0);
    let universe = with_alive(6, 5, &[(0, 2)]);
    assert_eq!(universe.live_neighbot_count(4, 2), 1);
    let universe = with_alive(6, 5, &[(2, 5)]);
    assert_eq!(universe.live_neighbot_count(1, 0), 1);
    assert_eq!(universe.live_neighbot_count(2, 0), 1);
    assert_eq!(universe.live_neighbot_count(3, 0), 1);
    let universe = with_alive(6, 5, &[(2, 0)]);
    assert_eq!(universe.live_neighbot_count(2, 5), 1);
}

#[test]
fn dense_narrow_torus_counts_a_neighbour_more_than_once() {
    let single = with_alive(1, 1, &[(0, 0)]);
    assert_eq!(single.live_neighbot_count(0, 0), 5);
    let row = with_alive(3, 1, &[(0, 1)]);
    assert_eq!(row.live_neighbot_count(0, 0), 3);
    assert_eq!(row.live_neighbot_count(0, 1), 1);
    assert_eq!(row.live_neighbot_count(0, 2), 3);
    let square = with_alive(2, 2, &[(1, 1)]);
    assert_eq!(square.live_neighbot_count(0, 0), 4);
    assert_eq!(square.live_neighbot_count(0, 1), 2);
    assert_eq!(square.live_neighbot_count(1, 0), 2);
    assert_eq!(square.live_neighbot_count(1, 1), 0);
}

#[test]
fn dense_neighbor_count_reduces_positions_off_the_grid() {
    let universe = with_alive(5, 5, &[(4, 4), (1, 0)]);
    assert_eq!(universe.live_neighbot_count(5, 5), universe.live_neighbot_count(0, 0));
    assert_eq!(universe.live_neighbot_count(5, 5), 2);
    assert_eq!(universe.live_neighbot_count(12, 6), universe.live_neighbot_count(2, 1));
}

#[test]
fn dense_empty_grid_does_nothing() {
    let mut universe = Universe::new();
    universe.set_width(0);
    assert_eq!(universe.width(), 0);
    assert_eq!(universe.height(), 64);
    assert_eq!(universe.cells().len(), 0);
    assert_eq!(universe.live_neighbot_count(0, 0), 0);
    assert_eq!(universe.live_neighbot_count(3, 9), 0);
    universe.tick();
    assert_eq!(universe.cells().len(), 0);
    assert_eq!(universe.width(), 0);
    assert_eq!(universe.height(), 64);
    universe.set_cells(&[]);
    assert_eq!(universe.render(), "\n".repeat(64));
    let mut flat = Universe::new();
    flat.set_height(0);
    assert_eq!(flat.cells().len(), 0);
    assert_eq!(flat.live_neighbot_count(0, 0), 0);
    flat.tick();
    assert_eq!(flat.width(), 64);
    assert_eq!(flat.height(), 0);
    assert_eq!(flat.render(), "");
}

#[test]
fn dense_block_is_a_still_life() {
    let block = [(1, 1), (1, 2), (2, 1), (2, 2)];
    let mut universe = with_alive(4, 4, &block);
    for _ in 0..10 {
        universe.tick();
        assert_eq!(alive_positions(&universe), block.to_vec());
    }
    let mut wide = with_alive(7, 5, &block);
    for _ in 0..10 {
        wide.tick();
        assert_eq!(alive_positions(&wide), block.to_vec());
    }
}

#[test]
fn dense_block_across_the_edges_is_a_still_life() {
    let mut universe = with_alive(6, 6, &[(5, 5), (5, 0), (0, 5), (0, 0)]);
    let before: Vec<Cell> = universe.cells().to_vec();
    for _ in 0..7 {
        universe.tick();
        assert_eq!(universe.cells(), &before[..]);
    }
    assert_eq!(alive_positions(&universe), vec![(0, 0), (0, 5), (5, 0), (5, 5)]);
}

#[test]
fn dense_blinker_turns_and_returns() {
    let flat = vec![(2, 1), (2, 2), (2, 3)];
    let upright = vec![(1, 2), (2, 2), (3, 2)];
    let mut universe = with_alive(5, 5, &flat);
    for _ in 0..4 {
        universe.tick();
        assert_eq!(alive_positions(&universe), upright);
        universe.tick();
        assert_eq!(alive_positions(&universe), flat);
    }
}

#[test]
fn dense_blinker_across_an_edge_turns_and_returns() {
    let mut universe = with_alive(6, 7, &[(0, 5), (0, 0), (0, 1)]);
    universe.tick();
    assert_eq!(alive_positions(&universe), vec![(0, 0), (1, 0), (6, 0)]);
    universe.tick();
    assert_eq!(alive_positions(&universe), vec![(0, 0), (0, 1), (0, 5)]);
}

#[test]
fn dense_tick_reads_the_generation_before() {
    let mut universe = with_alive(5, 5, &[(2, 2), (1, 1), (1, 3), (3, 2)]);
    assert_eq!(universe.live_neighbot_count(2, 2), 3);
    assert_eq!(universe.live_neighbot_count(1, 1), 1);
    assert_eq!(universe.live_neighbot_count(1, 3), 1);
    assert_eq!(universe.live_neighbot_count(3, 2), 1);
    universe.tick();
    assert_eq!(alive_positions(&universe), vec![(1, 2), (2, 1), (2, 2), (2, 3)]);
}

#[test]
fn dense_tick_gives_the_same_grid_for_the_same_grid() {
    let mut first = Universe::new();
    let mut second = Universe::new();
    for _ in 0..5 {
        first.tick();
        second.tick();
        assert_eq!(first.cells(), second.cells());
    }
}

#[test]
fn dense_tick_follows_the_rule_on_the_pattern() {
    let mut universe = Universe::new();
    let mut expected = bools(&universe);
    for _ in 0..3 {
        universe.tick();
        expected = next_by_steps(&expected, 64, 64);
        assert_eq!(bools(&universe), expected);
        assert_eq!(universe.cells().len(), 4096);
        assert_eq!(universe.width(), 64);
        assert_eq!(universe.height(), 64);
    }
}

#[test]
fn dense_tick_keeps_the_size() {
    let mut universe = with_alive(7, 3, &[(0, 0), (1, 1), (2, 2), (1, 2)]);
    for _ in 0..6 {
        universe.tick();
        assert_eq!(universe.width(), 7);
        assert_eq!(universe.height(), 3);
        assert_eq!(universe.cells().len(), 21);
    }
}

#[test]
fn dense_set_width_resets_every_cell() {
    let mut universe = Universe::new();
    universe.set_width(10);
    assert_eq!(universe.width(), 10);
    assert_eq!(universe.height(), 64);
    assert_eq!(universe.cells().len(), 640);
    assert!(universe.cells().iter().all(|cell| *cell == Cell::Dead));
}

#[test]
fn dense_set_height_resets_every_cell() {
    let mut universe = Universe::new();
    universe.set_height(3);
    assert_eq!(universe.width(), 64);
    assert_eq!(universe.height(), 3);
    assert_eq!(universe.cells().len(), 192);
    assert!(universe.cells().iter().all(|cell| *cell == Cell::Dead));
    universe.set_cells(&[(1, 5), (2, 63)]);
    universe.set_height(3);
    assert_eq!(universe.cells().len(), 192);
    assert!(universe.cells().iter().all(|cell| *cell == Cell::Dead));
}

#[test]
fn dense_set_cells_on_a_dead_grid_lights_one_cell() {
    let mut universe = sized(4, 3);
    universe.set_cells(&[(1, 1)]);
    assert_eq!(alive_positions(&universe), vec![(1, 1)]);
    assert_eq!(universe.cells().len(), 12);
    assert_eq!(universe.cells()[5], Cell::Alive);
    assert_eq!(universe.cells().iter().filter(|cell| cell.to_bool()).count(), 1);
}

#[test]
fn dense_set_cells_keeps_the_other_cells() {
    let mut universe = with_alive(4, 3, &[(0, 0), (2, 3)]);
    universe.set_cells(&[(1, 2), (0, 0), (1, 2)]);
    assert_eq!(alive_positions(&universe), vec![(0, 0), (1, 2), (2, 3)]);
    universe.set_cells(&[]);
    assert_eq!(alive_positions(&universe), vec![(0, 0), (1, 2), (2, 3)]);
    assert_eq!(universe.width(), 4);
    assert_eq!(universe.height(), 3);
}

#[test]
fn dense_render_draws_row_after_row() {
    let universe = with_alive(3, 2, &[(0, 1), (1, 2)]);
    assert_eq!(universe.render(), "\u{25FB}\u{25FC}\u{25FB}\n\u{25FB}\u{25FB}\u{25FC}\n");
    let dead = sized(2, 2);
    assert_eq!(dead.render(), "\u{25FB}\u{25FB}\n\u{25FB}\u{25FB}\n");
}

#[test]
fn dense_render_of_the_pattern() {
    let text = Universe::new().render();
    let lines: Vec<&str> = text.split('\n').collect();
    assert_eq!(lines.len(), 65);
    assert_eq!(lines[64], "");
    for (row, line) in lines[..64].iter().enumerate() {
        let glyphs: Vec<char> = line.chars().collect();
        assert_eq!(glyphs.len(), 64);
        for (col, glyph) in glyphs.iter().enumerate() {
            let i = row * 64 + col;
            let expected = if i % 2 == 0 || i % 7 == 0 { '\u{25FC}' } else { '\u{25FB}' };
            assert_eq!(*glyph, expected);
        }
    }
}
