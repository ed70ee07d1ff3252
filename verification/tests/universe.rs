use game_of_life::Cell;
use game_of_life::Universe;

/// A `w x h` universe with every cell dead.
fn blank(w: u32, h: u32) -> Universe {
    let mut u = Universe::new();
    u.set_width(w);
    u.set_height(h);
    u
}

#[test]
fn test_get_index() {
    let mut u = Universe::new();
    u.set_width(64);
    u.set_height(64);

    assert_eq!(u.get_index(0, 0), 0);
    assert_eq!(u.get_index(1, 0), 64);
    assert_eq!(u.get_index(1, 1), 65);
    assert_eq!(u.get_index(7, 7), 64 * 7 + 7);
}

#[test]
fn test_new_seed_pattern() {
    let u = Universe::new();
    assert_eq!(u.width(), 128);
    assert_eq!(u.height(), 128);
    let cells = u.get_cells();
    assert_eq!(cells.len(), 128 * 128);
    for (i, &c) in cells.iter().enumerate() {
        let expected = if i % 2 == 0 || i % 9 == 0 { Cell::Alive } else { Cell::Dead };
        assert_eq!(c, expected);
    }
}

#[test]
fn test_neighbor_count_wraps() {
    let mut u = blank(8, 8);
    u.set_cell(0, 0, Cell::Alive);
    // The diagonal wrap neighbor counts the origin.
    assert_eq!(u.live_neighbor_count(7, 7), 1);
    assert_eq!(u.live_neighbor_count(0, 7), 1);
    assert_eq!(u.live_neighbor_count(7, 0), 1);
    assert_eq!(u.live_neighbor_count(1, 1), 1);
    assert_eq!(u.live_neighbor_count(0, 1), 1);
    // Cells two or more steps away count nothing.
    assert_eq!(u.live_neighbor_count(2, 2), 0);
    assert_eq!(u.live_neighbor_count(0, 2), 0);
    assert_eq!(u.live_neighbor_count(4, 4), 0);
    assert_eq!(u.live_neighbor_count(6, 6), 0);
    // The cell itself is not counted.
    assert_eq!(u.live_neighbor_count(0, 0), 0);
}

#[test]
fn test_live_cell_with_one_neighbor_dies() {
    let mut u = blank(5, 5);
    u.set_cells(&[(2, 2), (2, 3)]);
    u.tick();
    for &c in u.get_cells() {
        assert_eq!(c, Cell::Dead);
    }
}

#[test]
fn test_live_cell_with_two_or_three_neighbors_survives() {
    let mut u = blank(5, 5);
    // Center of a horizontal blinker has exactly 2 live neighbors.
    u.set_cells(&[(1, 1), (1, 2), (1, 3)]);
    u.tick();
    assert_eq!(u.get_cells()[u.get_index(1, 2)], Cell::Alive);

    // Every cell of a 2x2 block has exactly 3 live neighbors.
    let mut b = blank(5, 5);
    b.set_cells(&[(1, 1), (1, 2), (2, 1), (2, 2)]);
    b.tick();
    assert_eq!(b.get_cells()[b.get_index(1, 1)], Cell::Alive);
    assert_eq!(b.get_cells()[b.get_index(2, 2)], Cell::Alive);
}

#[test]
fn test_live_cell_with_four_neighbors_dies() {
    let mut u = blank(5, 5);
    // A plus shape: the center has 4 live neighbors.
    u.set_cells(&[(2, 2), (1, 2), (3, 2), (2, 1), (2, 3)]);
    u.tick();
    assert_eq!(u.get_cells()[u.get_index(2, 2)], Cell::Dead);
}

#[test]
fn test_dead_cell_with_three_neighbors_is_born() {
    let mut u = blank(5, 5);
    u.set_cells(&[(1, 1), (1, 2), (2, 1)]);
    u.tick();
    assert_eq!(u.get_cells()[u.get_index(2, 2)], Cell::Alive);
}

#[test]
fn test_dead_cell_without_three_neighbors_stays_dead() {
    let mut u = blank(5, 5);
    u.set_cells(&[(1, 1), (1, 2)]);
    u.tick();
    // 2 neighbors: stays dead.
    assert_eq!(u.get_cells()[u.get_index(2, 1)], Cell::Dead);
    // 0 neighbors: stays dead.
    assert_eq!(u.get_cells()[u.get_index(4, 4)], Cell::Dead);

    let mut v = blank(5, 5);
    // 4 neighbors around (2, 2), which stays dead.
    v.set_cells(&[(1, 1), (1, 3), (3, 1), (3, 3)]);
    v.tick();
    assert_eq!(v.get_cells()[v.get_index(2, 2)], Cell::Dead);
}

#[test]
fn test_block_is_still_life() {
    let mut u = blank(4, 4);
    u.set_cells(&[(1, 1), (1, 2), (2, 1), (2, 2)]);
    let before = u.get_cells().to_vec();
    for _ in 0..5 {
        u.tick();
        assert_eq!(u.get_cells(), before.as_slice());
    }
}

#[test]
fn test_blinker_oscillates() {
    let mut u = blank(5, 5);
    u.set_cells(&[(1, 1), (1, 2), (1, 3)]);
    let horizontal = u.get_cells().to_vec();

    u.tick();
    let mut v = blank(5, 5);
    v.set_cells(&[(0, 2), (1, 2), (2, 2)]);
    assert_eq!(u.get_cells(), v.get_cells());

    u.tick();
    assert_eq!(u.get_cells(), horizontal.as_slice());
}

#[test]
fn test_resize_resets() {
    let mut u = Universe::new();
    u.set_width(10);
    assert_eq!(u.width(), 10);
    assert_eq!(u.height(), 128);
    assert_eq!(u.get_cells().len(), 10 * 128);
    for &c in u.get_cells() {
        assert_eq!(c, Cell::Dead);
    }

    let mut v = Universe::new();
    v.set_cell(0, 0, Cell::Alive);
    v.set_height(3);
    assert_eq!(v.height(), 3);
    assert_eq!(v.get_cells().len(), 128 * 3);
    for &c in v.get_cells() {
        assert_eq!(c, Cell::Dead);
    }
}

#[test]
fn test_render_format() {
    let mut u = blank(2, 2);
    u.set_cell(0, 0, Cell::Alive);
    u.set_cell(1, 1, Cell::Alive);
    assert_eq!(u.render(), "+.\n.+\n");
}

#[test]
fn test_render_blank_row() {
    let u = blank(3, 2);
    assert_eq!(u.render(), "...\n...\n");
}

#[test]
fn test_toggle_cell() {
    let mut u = blank(3, 3);
    u.toggle_cell(1, 2);
    assert_eq!(u.get_cells()[u.get_index(1, 2)], Cell::Alive);
    u.toggle_cell(1, 2);
    assert_eq!(u.get_cells()[u.get_index(1, 2)], Cell::Dead);
    assert_eq!(u.get_cells()[u.get_index(0, 0)], Cell::Dead);
}

#[test]
fn test_set_cells_marks_only_listed() {
    let mut u = blank(3, 3);
    u.set_cells(&[(0, 1), (2, 0)]);
    let cells = u.get_cells();
    for r in 0..3 {
        for c in 0..3 {
            let expected = if (r, c) == (0, 1) || (r, c) == (2, 0) {
                Cell::Alive
            } else {
                Cell::Dead
            };
            assert_eq!(cells[u.get_index(r, c)], expected);
        }
    }
}

#[test]
fn test_cells_view_matches_get_cells() {
    let u = Universe::new();
    assert_eq!(u.cells(), u.get_cells());
}
