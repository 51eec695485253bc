use life::parsers::{Cell, parse_rle_file};
use life::render::{CellColor, glyph_for};
use life::universe::Universe;

#[test]
fn glyphs_for_stacked_pairs() {
    assert_eq!(
        glyph_for(Cell::Alive(0), Cell::Alive(0)),
        ('\u{2580}', CellColor::Young, CellColor::Young)
    );
    assert_eq!(
        glyph_for(Cell::Alive(0), Cell::Alive(5)),
        ('\u{2580}', CellColor::Young, CellColor::Old)
    );
    assert_eq!(
        glyph_for(Cell::Alive(3), Cell::Dead(2)),
        ('\u{2580}', CellColor::Old, CellColor::Reset)
    );
    assert_eq!(
        glyph_for(Cell::Dead(0), Cell::Alive(0)),
        ('\u{2584}', CellColor::Young, CellColor::Reset)
    );
    assert_eq!(
        glyph_for(Cell::Dead(4), Cell::Alive(9)),
        ('\u{2584}', CellColor::Old, CellColor::Reset)
    );
    assert_eq!(
        glyph_for(Cell::Dead(1), Cell::Dead(0)),
        (' ', CellColor::Reset, CellColor::Reset)
    );
}

#[test]
fn render_cells_packs_two_rows_per_entry() {
    let empty = parse_rle_file("x = 1, y = 1\n!").unwrap();
    let mut u = Universe::new(Some(empty));
    u.init(2, 4);
    u.set_cell(0, 0).unwrap();
    u.set_cell(1, 0).unwrap();
    u.set_cell(3, 1).unwrap();
    let frame = u.render_cells();
    assert_eq!(frame.len(), 4);
    assert_eq!(frame[0], (0, 0, '\u{2580}', CellColor::Young, CellColor::Young));
    assert_eq!(frame[1], (1, 0, ' ', CellColor::Reset, CellColor::Reset));
    assert_eq!(frame[2], (0, 1, ' ', CellColor::Reset, CellColor::Reset));
    assert_eq!(frame[3], (1, 1, '\u{2584}', CellColor::Young, CellColor::Reset));
}

#[test]
fn render_cells_ignores_a_trailing_unpaired_row() {
    let empty = parse_rle_file("x = 1, y = 1\n!").unwrap();
    let mut u = Universe::new(Some(empty));
    u.init(3, 5);
    let frame = u.render_cells();
    assert_eq!(frame.len(), 6);
}
