use life::parsers::{Cell, parse_rle_file};
use life::universe::{Action, HalfBlock, Universe, UniverseError};

fn blank(width: usize, height: usize) -> Universe {
    let empty = parse_rle_file("x = 1, y = 1\n!").unwrap();
    let mut u = Universe::new(Some(empty));
    u.init(width, height);
    u
}

fn live_count(u: &Universe) -> usize {
    let mut n = 0;
    for r in 0..u.height {
        for c in 0..u.width {
            if matches!(u.get(r, c), Cell::Alive(_)) {
                n += 1;
            }
        }
    }
    n
}

#[test]
fn new_universe_is_empty_and_unpaused() {
    let u = Universe::new(None);
    assert_eq!(u.width, 0);
    assert_eq!(u.height, 0);
    assert!(!u.paused);
    assert_eq!(u.half_block, HalfBlock::Full);
}

#[test]
fn init_with_empty_pattern_gives_all_dead() {
    let u = blank(4, 4);
    for r in 0..4 {
        for c in 0..4 {
            assert_eq!(u.get(r, c), Cell::Dead(0));
        }
    }
}

#[test]
fn init_without_pattern_randomizes_at_age_zero() {
    let mut u = Universe::new(None);
    u.init(6, 6);
    assert_eq!(u.width, 6);
    assert_eq!(u.height, 6);
    for r in 0..6 {
        for c in 0..6 {
            match u.get(r, c) {
                Cell::Alive(a) | Cell::Dead(a) => assert_eq!(a, 0),
            }
        }
    }
}

#[test]
fn glider_is_stamped_centered() {
    let p = parse_rle_file("x = 3, y = 3\nbo$2bo$3o!").unwrap();
    let mut u = Universe::new(Some(p));
    u.init(10, 10);
    // origin is (10 / 2, 10 / 2); offsets (x, y) land on row 5 + y, col 5 + x
    for (x, y) in [(1isize, 0isize), (2, 1), (0, 2), (1, 2), (2, 2)] {
        assert_eq!(u.get((5 + y) as usize, (5 + x) as usize), Cell::Alive(0));
    }
    assert_eq!(live_count(&u), 5);
}

#[test]
fn stamping_drops_only_out_of_range_cells() {
    // a 5-cell row on a 3x3 grid, centered at (1, 1): columns 1..=5 of row 1
    // are targeted, only columns 1 and 2 exist
    let p = parse_rle_file("x = 5, y = 1\n5o!").unwrap();
    let mut u = Universe::new(Some(p));
    u.init(3, 3);
    assert_eq!(u.get(1, 1), Cell::Alive(0));
    assert_eq!(u.get(1, 2), Cell::Alive(0));
    assert_eq!(live_count(&u), 2);
}

#[test]
fn set_cell_in_range_and_out_of_range() {
    let mut u = blank(3, 3);
    assert!(u.set_cell(0, 0).is_ok());
    assert_eq!(u.get(0, 0), Cell::Alive(0));
    assert_eq!(u.set_cell(3, 0).unwrap_err(), UniverseError::OutOfBounds);
    assert_eq!(u.set_cell(0, 3).unwrap_err(), UniverseError::OutOfBounds);
}

#[test]
fn blinker_oscillates_and_returns_after_two_ticks() {
    let mut u = blank(5, 5);
    for r in 1..4 {
        u.set_cell(r, 2).unwrap();
    }
    u.tick();
    for c in 1..4 {
        assert!(matches!(u.get(2, c), Cell::Alive(_)), "horizontal cell {c}");
    }
    assert_eq!(live_count(&u), 3);
    u.tick();
    for r in 1..4 {
        assert!(matches!(u.get(r, 2), Cell::Alive(_)), "vertical cell {r}");
    }
    assert_eq!(live_count(&u), 3);
}

#[test]
fn lone_cell_dies_of_underpopulation() {
    let mut u = blank(5, 5);
    u.set_cell(2, 2).unwrap();
    u.tick();
    assert_eq!(u.get(2, 2), Cell::Dead(0));
    assert_eq!(live_count(&u), 0);
}

#[test]
fn crowded_cell_dies_of_overpopulation() {
    let mut u = blank(5, 5);
    for (r, c) in [(2, 2), (1, 2), (3, 2), (2, 1), (2, 3)] {
        u.set_cell(r, c).unwrap();
    }
    u.tick();
    assert_eq!(u.get(2, 2), Cell::Dead(0));
}

#[test]
fn block_survives_and_ages() {
    let mut u = blank(5, 5);
    for (r, c) in [(1, 1), (1, 2), (2, 1), (2, 2)] {
        u.set_cell(r, c).unwrap();
    }
    u.tick();
    for (r, c) in [(1, 1), (1, 2), (2, 1), (2, 2)] {
        assert_eq!(u.get(r, c), Cell::Alive(1));
    }
    assert_eq!(u.get(4, 4), Cell::Dead(1));
    u.tick();
    assert_eq!(u.get(1, 1), Cell::Alive(2));
    assert_eq!(u.get(4, 4), Cell::Dead(2));
}

#[test]
fn newborn_cell_starts_at_age_zero() {
    let mut u = blank(5, 5);
    // an L of three cells: (1,1), (2,1), (2,2); the dead (1,2) has exactly 3
    // live neighbors and is born
    for (r, c) in [(1, 1), (2, 1), (2, 2)] {
        u.set_cell(r, c).unwrap();
    }
    u.tick();
    assert_eq!(u.get(1, 2), Cell::Alive(0));
}

#[test]
fn neighbor_counting_wraps_around_the_edges() {
    let mut u = blank(3, 3);
    u.set_cell(0, 0).unwrap();
    assert_eq!(u.live_neighbor_count(2, 2), 1);
    assert_eq!(u.live_neighbor_count(2, 0), 1);
    assert_eq!(u.live_neighbor_count(0, 2), 1);
}

#[test]
fn blinker_wraps_across_the_edge() {
    // vertical blinker on the top edge of a 5x5 torus: rows 4, 0, 1 of col 2
    let mut u = blank(5, 5);
    u.set_cell(4, 2).unwrap();
    u.set_cell(0, 2).unwrap();
    u.set_cell(1, 2).unwrap();
    u.tick();
    for c in 1..4 {
        assert!(matches!(u.get(0, c), Cell::Alive(_)));
    }
    assert_eq!(live_count(&u), 3);
}

#[test]
fn update_tick_respects_pause() {
    let mut u = blank(5, 5);
    u.set_cell(2, 2).unwrap();
    assert_eq!(u.update(Action::TogglePause).unwrap(), None);
    assert!(u.paused);
    u.update(Action::Tick).unwrap();
    assert_eq!(u.get(2, 2), Cell::Alive(0));
    u.update(Action::TogglePause).unwrap();
    assert!(!u.paused);
    u.update(Action::Tick).unwrap();
    assert_eq!(u.get(2, 2), Cell::Dead(0));
}

#[test]
fn update_insert_and_bounds_error() {
    let mut u = blank(3, 3);
    assert_eq!(u.update(Action::Insert(1, 1)).unwrap(), None);
    assert_eq!(u.get(1, 1), Cell::Alive(0));
    assert_eq!(u.update(Action::Insert(9, 9)).unwrap_err(), UniverseError::OutOfBounds);
}

#[test]
fn update_resize_reseeds() {
    let mut u = blank(3, 3);
    u.set_cell(1, 1).unwrap();
    u.update(Action::Resize(4, 6)).unwrap();
    assert_eq!(u.width, 4);
    assert_eq!(u.height, 6);
    assert_eq!(live_count(&u), 0);
}

#[test]
fn update_half_block_modes() {
    let mut u = blank(3, 3);
    u.update(Action::UseHalfBlockUpper).unwrap();
    assert_eq!(u.half_block, HalfBlock::Upper);
    u.update(Action::UseHalfBlockLower).unwrap();
    assert_eq!(u.half_block, HalfBlock::Lower);
    u.update(Action::UseHalfBlockFull).unwrap();
    assert_eq!(u.half_block, HalfBlock::Full);
}

#[test]
fn key_events_map_to_actions() {
    let u = Universe::new(None);
    assert_eq!(u.handle_key_events(true, Some(' ')), Some(Action::TogglePause));
    assert_eq!(u.handle_key_events(true, Some('1')), Some(Action::UseHalfBlockFull));
    assert_eq!(u.handle_key_events(true, Some('2')), Some(Action::UseHalfBlockUpper));
    assert_eq!(u.handle_key_events(true, Some('3')), Some(Action::UseHalfBlockLower));
    assert_eq!(u.handle_key_events(true, Some('x')), None);
    assert_eq!(u.handle_key_events(true, None), None);
    assert_eq!(u.handle_key_events(false, Some(' ')), None);
}

#[test]
fn mouse_events_map_to_insertions() {
    let mut u = blank(4, 4);
    assert_eq!(u.handle_mouse_events(true, 1, 3), vec![
        Action::Insert(2, 3),
        Action::Insert(3, 3)
    ]);
    u.update(Action::UseHalfBlockUpper).unwrap();
    assert_eq!(u.handle_mouse_events(true, 1, 3), vec![Action::Insert(2, 3)]);
    u.update(Action::UseHalfBlockLower).unwrap();
    assert_eq!(u.handle_mouse_events(true, 1, 3), vec![Action::Insert(3, 3)]);
    assert_eq!(u.handle_mouse_events(false, 1, 3), vec![]);
}

#[test]
fn tick_on_an_uninitialized_universe_is_a_no_op() {
    let mut u = Universe::new(None);
    u.tick();
    assert_eq!(u.width, 0);
    assert_eq!(u.height, 0);
}
