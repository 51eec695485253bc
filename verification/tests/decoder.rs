use life::parsers::{Cell, DecodeError, FileType, LoadError, Pattern, parse_rle_file};

#[test]
fn glider_decodes() {
    let p = parse_rle_file("#N Glider\nx = 3, y = 3\nbo$2bo$3o!").unwrap();
    assert_eq!(p.name.as_deref(), Some("Glider"));
    assert_eq!(p.area, Some((3, 3)));
    assert_eq!(p.cells, vec![(1, 0), (2, 1), (0, 2), (1, 2), (2, 2)]);
    assert!(p.description.is_none());
    assert!(p.author.is_none());
}

#[test]
fn decoding_stops_at_terminator() {
    let p = parse_rle_file("#N Glider\nx = 3, y = 3\nbo$2bo$3o!bogus trailing bytes\nmore").unwrap();
    assert_eq!(p.cells, vec![(1, 0), (2, 1), (0, 2), (1, 2), (2, 2)]);
}

#[test]
fn unknown_directive_fails() {
    let e = parse_rle_file("#Zgarbage\nx = 1, y = 1\n!").unwrap_err();
    assert_eq!(e, DecodeError::UnknownDirective('Z'));
}

#[test]
fn unexpected_body_character_fails() {
    let e = parse_rle_file("x = 2, y = 1\noq!").unwrap_err();
    assert_eq!(e, DecodeError::UnexpectedCharacter('q'));
}

#[test]
fn missing_header_fails() {
    assert_eq!(parse_rle_file("").unwrap_err(), DecodeError::MissingHeader);
    assert_eq!(parse_rle_file("#N only metadata").unwrap_err(), DecodeError::MissingHeader);
}

#[test]
fn headerless_first_line_is_consumed() {
    let p = parse_rle_file("anything but the header shape\no!").unwrap();
    assert!(p.area.is_none());
    assert_eq!(p.cells, vec![(0, 0)]);
}

#[test]
fn malformed_header_number_fails() {
    let e = parse_rle_file("x = a, y = 2\n!").unwrap_err();
    assert_eq!(e, DecodeError::MalformedHeader);
}

#[test]
fn header_number_overflow_fails() {
    let e = parse_rle_file("x = 99999999999999999999999999999999, y = 2\n!").unwrap_err();
    assert_eq!(e, DecodeError::MalformedHeader);
}

#[test]
fn header_without_comma_fails() {
    let e = parse_rle_file("x = 1 y = 2\n!").unwrap_err();
    assert_eq!(e, DecodeError::MalformedHeader);
}

#[test]
fn metadata_accumulates() {
    let p = parse_rle_file(
        "#N First\n#N Second\n#C line one\n#C line two\n#O someone\nx = 1, y = 1\n!",
    )
    .unwrap();
    assert_eq!(p.name.as_deref(), Some("Second"));
    assert_eq!(p.description.as_deref(), Some("line one\nline two"));
    assert_eq!(p.author.as_deref(), Some("someone"));
}

#[test]
fn bare_hash_line_is_ignored() {
    let p = parse_rle_file("#\nx = 1, y = 1\n!").unwrap();
    assert!(p.name.is_none());
    assert!(p.description.is_none());
    assert!(p.author.is_none());
}

#[test]
fn empty_name_is_not_set() {
    let p = parse_rle_file("#N   \nx = 1, y = 1\n!").unwrap();
    assert!(p.name.is_none());
}

#[test]
fn lowercase_c_is_also_a_description() {
    let p = parse_rle_file("#c a remark\nx = 1, y = 1\n!").unwrap();
    assert_eq!(p.description.as_deref(), Some("a remark"));
}

#[test]
fn numbered_row_separator_skips_rows() {
    let p = parse_rle_file("x = 1, y = 5\no$3$o!").unwrap();
    assert_eq!(p.cells, vec![(0, 0), (0, 4)]);
}

#[test]
fn dead_runs_and_live_runs() {
    let p = parse_rle_file("x = 5, y = 2\n2b3o$o!").unwrap();
    assert_eq!(p.cells, vec![(2, 0), (3, 0), (4, 0), (0, 1)]);
}

#[test]
fn dot_and_capital_a_aliases() {
    let p = parse_rle_file("x = 2, y = 1\n.A!").unwrap();
    assert_eq!(p.cells, vec![(1, 0)]);
}

#[test]
fn missing_terminator_still_returns_pattern() {
    let p = parse_rle_file("x = 2, y = 2\n2o$2o").unwrap();
    assert_eq!(p.cells, vec![(0, 0), (1, 0), (0, 1), (1, 1)]);
}

#[test]
fn crlf_lines_decode_like_plain_lines() {
    let p = parse_rle_file("#N Pair\r\nx = 2, y = 1\r\n2o!\r\n").unwrap();
    assert_eq!(p.name.as_deref(), Some("Pair"));
    assert_eq!(p.cells, vec![(0, 0), (1, 0)]);
}

#[test]
fn multi_digit_run_counts() {
    let p = parse_rle_file("x = 12, y = 1\n10b2o!").unwrap();
    assert_eq!(p.cells, vec![(10, 0), (11, 0)]);
}

#[test]
fn from_filename_recognises_extensions() {
    assert_eq!(FileType::from_filename("glider.rle"), Some(FileType::RLE));
    assert_eq!(FileType::from_filename("ship.lif"), Some(FileType::Life));
    assert_eq!(FileType::from_filename("ship.life"), Some(FileType::Life));
    assert_eq!(FileType::from_filename("grid.cells"), Some(FileType::PlainText));
    assert_eq!(FileType::from_filename("notes.txt"), None);
}

#[test]
fn decode_file_dispatches_on_extension() {
    let p = Pattern::decode_file("glider.rle", "x = 3, y = 3\nbo$2bo$3o!").unwrap();
    assert_eq!(p.cells.len(), 5);
    assert_eq!(
        Pattern::decode_file("ship.lif", "whatever").unwrap_err(),
        LoadError::UnsupportedFormat
    );
    assert_eq!(
        Pattern::decode_file("grid.cells", "whatever").unwrap_err(),
        LoadError::UnsupportedFormat
    );
    assert_eq!(
        Pattern::decode_file("notes.txt", "whatever").unwrap_err(),
        LoadError::UnrecognizedExtension
    );
    assert_eq!(
        Pattern::decode_file("bad.rle", "x = 1, y = 1\nz!").unwrap_err(),
        LoadError::Decode(DecodeError::UnexpectedCharacter('z'))
    );
}

#[test]
fn cell_from_bool_and_toggle() {
    assert_eq!(Cell::from(true), Cell::Alive(0));
    assert_eq!(Cell::from(false), Cell::Dead(0));
    assert_eq!(Cell::Alive(7).toggled(), Cell::Dead(0));
    assert_eq!(Cell::Dead(3).toggled(), Cell::Alive(0));
}

#[test]
fn cell_text() {
    assert_eq!(Cell::Alive(2).to_text(), "\u{25CF}");
    assert_eq!(Cell::Dead(0).to_text(), " ");
}
