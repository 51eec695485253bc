//! The cell vocabulary shared with the engine, and the decoder that turns
//! run-length-encoded (RLE) pattern text into a sparse [`Pattern`]: a list of
//! live-cell offsets plus optional name, description, author and declared
//! bounding box.
//!
//! The grammar: leading `#` lines carry metadata selected by their second
//! character (`N` name, `C`/`c` description, `O` author; anything else is a
//! decode failure); the first other line is the header, read as `x = N, y = M`
//! when it has that shape and otherwise consumed with the bounding box left
//! unset; the remaining lines, concatenated, are runs of dead (`b`, `.`) and
//! live (`o`, `A`) cells with decimal run counts, `$` ending a row and `!`
//! ending the whole pattern.

use crate::text::{
    chars_of, contains_seq, digit_val, digit_value, ends_with_pat, find_first, is_digit,
    is_digit_char, match_at, matches_at, parse_usize_range, seq_views, spec_ends_with,
    spec_find, spec_lines, spec_parse_usize, split_lines, string_from_chars, trim_range, trim_spec,
};
use vstd::prelude::*;

verus! {

/// One cell: dead or alive, with the number of consecutive generations it has
/// held that state (0 on the generation the state was acquired).
#[derive(Clone, Copy, PartialEq, Eq, Structural, Debug)]
pub enum Cell {
    Dead(usize),
    Alive(usize),
}

impl Cell {
    pub open spec fn is_alive(self) -> bool {
        self is Alive
    }

    pub open spec fn age(self) -> usize {
        match self {
            Cell::Dead(a) => a,
            Cell::Alive(a) => a,
        }
    }

    /// The opposite state, at age 0.
    pub fn toggled(self) -> (r: Cell)
        ensures
            r == if self.is_alive() {
                Cell::Dead(0usize)
            } else {
                Cell::Alive(0usize)
            },
    {
        match self {
            Cell::Dead(_) => Cell::Alive(0),
            Cell::Alive(_) => Cell::Dead(0),
        }
    }

    /// The single-character text a renderer shows for this cell.
    pub fn to_text(&self) -> (r: String)
        ensures
            r@ == if self.is_alive() {
                "\u{25CF}"@
            } else {
                " "@
            },
    {
        match self {
            Cell::Dead(_) => String::from_str(" "),
            Cell::Alive(_) => String::from_str("\u{25CF}"),
        }
    }
}

impl From<bool> for Cell {
    /// `true` is a newborn live cell, `false` a fresh dead one.
    fn from(b: bool) -> (r: Cell) {
        if b {
            Cell::Alive(0)
        } else {
            Cell::Dead(0)
        }
    }
}

impl vstd::std_specs::convert::FromSpecImpl<bool> for Cell {
    open spec fn obeys_from_spec() -> bool {
        true
    }

    open spec fn from_spec(b: bool) -> Cell {
        if b {
            Cell::Alive(0usize)
        } else {
            Cell::Dead(0usize)
        }
    }
}

/// The pattern file formats recognised by their extension.
#[derive(Clone, Copy, PartialEq, Eq, Structural, Debug)]
pub enum FileType {
    Life,
    PlainText,
    RLE,
}

/// The file type selected by a file name's ending.
pub open spec fn spec_from_filename(s: Seq<char>) -> Option<FileType> {
    if spec_ends_with(s, "lif"@) || spec_ends_with(s, "life"@) {
        Some(FileType::Life)
    } else if spec_ends_with(s, "cells"@) {
        Some(FileType::PlainText)
    } else if spec_ends_with(s, "rle"@) {
        Some(FileType::RLE)
    } else {
        None
    }
}

impl FileType {
    /// Parses the file type from filename.
    pub fn from_filename(s: &str) -> (r: Option<FileType>)
        ensures
            r == spec_from_filename(s@),
    {
        let v = chars_of(s);
        if ends_with_pat(&v, &chars_of("lif")) || ends_with_pat(&v, &chars_of("life")) {
            Some(FileType::Life)
        } else if ends_with_pat(&v, &chars_of("cells")) {
            Some(FileType::PlainText)
        } else if ends_with_pat(&v, &chars_of("rle")) {
            Some(FileType::RLE)
        } else {
            None
        }
    }
}

/// Why a decode failed: an unknown `#` directive (with the offending
/// character), no header line at all, a header whose `x = N, y = M` fields do
/// not read as numbers, an unexpected body character (carried along), or a
/// run count or coordinate past the machine's integer range.
#[derive(Clone, Copy, PartialEq, Eq, Structural, Debug)]
pub enum DecodeError {
    UnknownDirective(char),
    MissingHeader,
    MalformedHeader,
    UnexpectedCharacter(char),
    RunOverflow,
}

/// A decoded pattern: live-cell offsets relative to the top-left of the
/// bounding box, in emission order, plus optional metadata.
#[derive(Debug)]
pub struct Pattern {
    pub cells: Vec<(isize, isize)>,
    pub name: Option<String>,
    pub description: Option<String>,
    pub author: Option<String>,
    pub area: Option<(usize, usize)>,
}

/// The mathematical image of a [`Pattern`].
pub ghost struct PatternView {
    pub cells: Seq<(int, int)>,
    pub name: Option<Seq<char>>,
    pub description: Option<Seq<char>>,
    pub author: Option<Seq<char>>,
    pub area: Option<(int, int)>,
}

/// Live-cell coordinate pairs as mathematical integers.
pub open spec fn cells_view(v: Seq<(isize, isize)>) -> Seq<(int, int)> {
    Seq::new(v.len(), |i: int| (v[i].0 as int, v[i].1 as int))
}

pub open spec fn opt_chars(o: Option<String>) -> Option<Seq<char>> {
    match o {
        Some(s) => Some(s@),
        None => None,
    }
}

impl View for Pattern {
    type V = PatternView;

    open spec fn view(&self) -> PatternView {
        PatternView {
            cells: cells_view(self.cells@),
            name: opt_chars(self.name),
            description: opt_chars(self.description),
            author: opt_chars(self.author),
            area: match self.area {
                Some((x, y)) => Some((x as int, y as int)),
                None => None,
            },
        }
    }
}

/// Metadata gathered from the leading `#` lines.
pub ghost struct MetaInfo {
    pub name: Option<Seq<char>>,
    pub description: Option<Seq<char>>,
    pub author: Option<Seq<char>>,
}

pub open spec fn empty_meta() -> MetaInfo {
    MetaInfo { name: None, description: None, author: None }
}

/// Scanning the leading `#` lines from line `i` on: `N` sets the name when
/// its trimmed text is non-empty, `C`/`c` appends a description line, `O`
/// sets the author, a bare `#` is ignored, anything else aborts the decode.
/// Returns the index of the first non-`#` line and the gathered metadata.
pub open spec fn spec_meta(lines: Seq<Seq<char>>, i: int, m: MetaInfo) -> Result<
    (int, MetaInfo),
    DecodeError,
>
    decreases lines.len() - i,
{
    if i < 0 || i >= lines.len() || lines[i].len() == 0 || lines[i][0] != '#' {
        Ok((i, m))
    } else if lines[i].len() == 1 {
        spec_meta(lines, i + 1, m)
    } else {
        let c = lines[i][1];
        let t = trim_spec(lines[i].skip(2));
        if c == 'N' {
            spec_meta(
                lines,
                i + 1,
                MetaInfo {
                    name: if t.len() > 0 {
                        Some(t)
                    } else {
                        m.name
                    },
                    ..m
                },
            )
        } else if c == 'C' || c == 'c' {
            spec_meta(
                lines,
                i + 1,
                MetaInfo {
                    description: match m.description {
                        Some(d) => Some(d + seq!['\n'] + t),
                        None => Some(t),
                    },
                    ..m
                },
            )
        } else if c == 'O' {
            spec_meta(lines, i + 1, MetaInfo { author: Some(t), ..m })
        } else {
            Err(DecodeError::UnknownDirective(c))
        }
    }
}

/// Reading the header line. When it mentions both `x = ` and `y = ` it must
/// split at `, ` into fields whose first two are `x = N` and `y = M` with
/// decimal N and M; otherwise the line is consumed with no bounding box.
pub open spec fn spec_header(line: Seq<char>) -> Result<Option<(int, int)>, DecodeError> {
    if contains_seq(line, "x = "@) && contains_seq(line, "y = "@) {
        match spec_find(line, ", "@, 0) {
            None => Err(DecodeError::MalformedHeader),
            Some(p1) => {
                let f1s = p1 + 2;
                let f1e = match spec_find(line, ", "@, f1s) {
                    Some(p2) => p2,
                    None => line.len() as int,
                };
                if p1 < 4 || !matches_at(line, "x = "@, 0) {
                    Err(DecodeError::MalformedHeader)
                } else if f1e - f1s < 4 || !matches_at(line, "y = "@, f1s) {
                    Err(DecodeError::MalformedHeader)
                } else {
                    match spec_parse_usize(line.subrange(4, p1)) {
                        None => Err(DecodeError::MalformedHeader),
                        Some(x) => match spec_parse_usize(line.subrange(f1s + 4, f1e)) {
                            None => Err(DecodeError::MalformedHeader),
                            Some(y) => Ok(Some((x, y))),
                        },
                    }
                }
            },
        }
    } else {
        Ok(None)
    }
}

/// The body lines from `i` on, concatenated.
pub open spec fn spec_concat(lines: Seq<Seq<char>>, i: int) -> Seq<char>
    decreases lines.len() - i,
{
    if i < 0 || i >= lines.len() {
        Seq::empty()
    } else {
        lines[i] + spec_concat(lines, i + 1)
    }
}

/// One pass over the body text with a column cursor `x`, row cursor `y` and
/// pending run count `amount`. Dead runs advance the column; live runs emit
/// one coordinate per cell; digits build up the run count; `$` closes a row
/// (a pending count skips that many rows); `!` ends the pattern at once; any
/// other character is a failure. A counter or cursor that would pass
/// `isize::MAX` is reported as a failure rather than wrapping.
pub open spec fn spec_body(
    s: Seq<char>,
    x: int,
    y: int,
    amount: int,
    cells: Seq<(int, int)>,
) -> Result<Seq<(int, int)>, DecodeError>
    decreases s.len(),
{
    if s.len() == 0 {
        Ok(cells)
    } else {
        let c = s[0];
        if c == 'b' || c == '.' {
            let step = if amount == 0 {
                1
            } else {
                amount
            };
            if x + step > isize::MAX as int {
                Err(DecodeError::RunOverflow)
            } else {
                spec_body(s.skip(1), x + step, y, 0, cells)
            }
        } else if c == 'o' || c == 'A' {
            let step = if amount == 0 {
                1
            } else {
                amount
            };
            if x + step > isize::MAX as int {
                Err(DecodeError::RunOverflow)
            } else {
                spec_body(
                    s.skip(1),
                    x + step,
                    y,
                    0,
                    cells + Seq::new(step as nat, |i: int| (x + i, y)),
                )
            }
        } else if is_digit(c) {
            let a2 = amount * 10 + digit_val(c);
            if a2 > isize::MAX as int {
                Err(DecodeError::RunOverflow)
            } else {
                spec_body(s.skip(1), x, y, a2, cells)
            }
        } else if c == '$' {
            let step = if amount == 0 {
                1
            } else {
                amount
            };
            if y + step > isize::MAX as int {
                Err(DecodeError::RunOverflow)
            } else {
                spec_body(s.skip(1), 0, y + step, 0, cells)
            }
        } else if c == '!' {
            Ok(cells)
        } else {
            Err(DecodeError::UnexpectedCharacter(c))
        }
    }
}

/// The whole decode: metadata, then the header (whose absence is the one way
/// to fail after clean metadata without reading the body), then the body.
pub open spec fn spec_parse_rle(s: Seq<char>) -> Result<PatternView, DecodeError> {
    let lines = spec_lines(s);
    match spec_meta(lines, 0, empty_meta()) {
        Err(e) => Err(e),
        Ok((h, m)) => {
            if h >= lines.len() {
                Err(DecodeError::MissingHeader)
            } else {
                match spec_header(lines[h]) {
                    Err(e) => Err(e),
                    Ok(area) => match spec_body(spec_concat(lines, h + 1), 0, 0, 0, Seq::empty()) {
                        Err(e) => Err(e),
                        Ok(cells) => Ok(
                            PatternView {
                                cells,
                                name: m.name,
                                description: m.description,
                                author: m.author,
                                area,
                            },
                        ),
                    },
                }
            }
        },
    }
}

/// Gathered metadata as vectors, while scanning.
struct MetaAcc {
    name: Option<Vec<char>>,
    description: Option<Vec<char>>,
    author: Option<Vec<char>>,
}

impl MetaAcc {
    spec fn view(self) -> MetaInfo {
        MetaInfo {
            name: match self.name {
                Some(v) => Some(v@),
                None => None,
            },
            description: match self.description {
                Some(v) => Some(v@),
                None => None,
            },
            author: match self.author {
                Some(v) => Some(v@),
                None => None,
            },
        }
    }
}

#[verifier::loop_isolation(false)]
fn scan_metadata(lines: &Vec<Vec<char>>) -> (r: Result<(usize, MetaAcc), DecodeError>)
    ensures
        match r {
            Ok((i, m)) => i <= lines@.len() && spec_meta(seq_views(lines@), 0, empty_meta()) == Ok::<
                _,
                DecodeError,
            >((i as int, m.view())),
            Err(e) => spec_meta(seq_views(lines@), 0, empty_meta()) == Err::<
                (int, MetaInfo),
                _,
            >(e),
        },
{
    let ghost ls = seq_views(lines@);
    let mut m = MetaAcc { name: None, description: None, author: None };
    let mut i: usize = 0;
    while i < lines.len() && lines[i].len() > 0 && lines[i][0] == '#'
        invariant
            i <= lines@.len(),
            spec_meta(ls, 0, empty_meta()) == spec_meta(ls, i as int, m.view()),
        decreases lines@.len() - i,
    {
        let line = &lines[i];
        proof {
            assert(ls[i as int] == line@);
        }
        if line.len() >= 2 {
            let c = line[1];
            let ghost entering = m.view();
            if c == 'N' {
                let t = trim_range(line, 2, line.len());
                if t.len() > 0 {
                    m.name = Some(t);
                }
            } else if c == 'C' || c == 'c' {
                let mut t = trim_range(line, 2, line.len());
                m.description = match m.description {
                    Some(mut d) => {
                        d.push('\n');
                        d.append(&mut t);
                        Some(d)
                    },
                    None => Some(t),
                };
                proof {
                    if entering.description is Some {
                        assert(m.view().description.unwrap() =~= entering.description.unwrap()
                            + seq!['\n'] + trim_spec(line@.skip(2)));
                    }
                }
            } else if c == 'O' {
                let t = trim_range(line, 2, line.len());
                m.author = Some(t);
            } else {
                return Err(DecodeError::UnknownDirective(c));
            }
        }
        i = i + 1;
    }
    Ok((i, m))
}

#[verifier::loop_isolation(false)]
fn parse_header(line: &Vec<char>) -> (r: Result<Option<(usize, usize)>, DecodeError>)
    ensures
        match r {
            Ok(Some((x, y))) => spec_header(line@) == Ok::<_, DecodeError>(
                Some((x as int, y as int)),
            ),
            Ok(None) => spec_header(line@) == Ok::<Option<(int, int)>, DecodeError>(None),
            Err(e) => spec_header(line@) == Err::<Option<(int, int)>, _>(e),
        },
{
    proof {
        reveal_strlit("x = ");
        reveal_strlit("y = ");
        reveal_strlit(", ");
    }
    let xp = chars_of("x = ");
    let yp = chars_of("y = ");
    let sep = chars_of(", ");
    if find_first(line, &xp, 0).is_none() || find_first(line, &yp, 0).is_none() {
        return Ok(None);
    }
    let p1 = match find_first(line, &sep, 0) {
        None => {
            return Err(DecodeError::MalformedHeader);
        },
        Some(p) => p,
    };
    let n = line.len();
    proof {
        assert(matches_at(line@, sep@, p1 as int));
        assert(p1 + 2 <= n);
    }
    let f1s = p1 + 2;
    let f1e = match find_first(line, &sep, f1s) {
        Some(p2) => p2,
        None => line.len(),
    };
    assert(f1s <= f1e <= line@.len());
    if p1 < 4 || !match_at(line, &xp, 0) {
        return Err(DecodeError::MalformedHeader);
    }
    if f1e - f1s < 4 || !match_at(line, &yp, f1s) {
        return Err(DecodeError::MalformedHeader);
    }
    let x = match parse_usize_range(line, 4, p1) {
        None => {
            return Err(DecodeError::MalformedHeader);
        },
        Some(x) => x,
    };
    let y = match parse_usize_range(line, f1s + 4, f1e) {
        None => {
            return Err(DecodeError::MalformedHeader);
        },
        Some(y) => y,
    };
    Ok(Some((x, y)))
}

#[verifier::loop_isolation(false)]
fn concat_from(lines: &Vec<Vec<char>>, from: usize) -> (r: Vec<char>)
    ensures
        r@ == spec_concat(seq_views(lines@), from as int),
{
    let ghost ls = seq_views(lines@);
    let mut r: Vec<char> = Vec::new();
    let mut j: usize = from;
    proof {
        assert(r@ + spec_concat(ls, from as int) =~= spec_concat(ls, from as int));
    }
    while j < lines.len()
        invariant
            from <= j <= lines@.len() || (from > lines@.len() && j == from),
            spec_concat(ls, from as int) == r@ + spec_concat(ls, j as int),
        decreases lines@.len() - j,
    {
        let line = &lines[j];
        proof {
            assert(ls[j as int] == line@);
        }
        let ghost before = r@;
        let mut k: usize = 0;
        while k < line.len()
            invariant
                k <= line@.len(),
                r@ == before + line@.take(k as int),
            decreases line@.len() - k,
        {
            r.push(line[k]);
            proof {
                assert(before + line@.take(k + 1 as int) =~= (before + line@.take(k as int)).push(
                    line@[k as int],
                ));
            }
            k = k + 1;
        }
        proof {
            assert(line@.take(line@.len() as int) =~= line@);
            assert(spec_concat(ls, j as int) == ls[j as int] + spec_concat(ls, j + 1 as int));
            assert(before + (line@ + spec_concat(ls, j + 1 as int)) =~= (before + line@)
                + spec_concat(ls, j + 1 as int));
        }
        j = j + 1;
    }
    proof {
        assert(spec_concat(ls, j as int) =~= Seq::<char>::empty());
        assert(r@ + Seq::<char>::empty() =~= r@);
    }
    r
}

#[verifier::loop_isolation(false)]
fn decode_body(body: &Vec<char>) -> (r: Result<Vec<(isize, isize)>, DecodeError>)
    ensures
        match r {
            Ok(cells) => spec_body(body@, 0, 0, 0, Seq::empty()) == Ok::<_, DecodeError>(
                cells_view(cells@),
            ),
            Err(e) => spec_body(body@, 0, 0, 0, Seq::empty()) == Err::<Seq<(int, int)>, _>(e),
        },
{
    let mut cells: Vec<(isize, isize)> = Vec::new();
    let mut x: usize = 0;
    let mut y: usize = 0;
    let mut amount: usize = 0;
    let mut k: usize = 0;
    let imax: u128 = isize::MAX as u128;
    proof {
        assert(body@.skip(0) =~= body@);
        assert(cells_view(cells@) =~= Seq::<(int, int)>::empty());
    }
    while k < body.len()
        invariant
            k <= body@.len(),
            x <= isize::MAX as usize,
            y <= isize::MAX as usize,
            amount <= isize::MAX as usize,
            imax == isize::MAX as u128,
            spec_body(body@, 0, 0, 0, Seq::empty()) == spec_body(
                body@.skip(k as int),
                x as int,
                y as int,
                amount as int,
                cells_view(cells@),
            ),
        decreases body@.len() - k,
    {
        let c = body[k];
        let ghost rest = body@.skip(k as int);
        proof {
            assert(rest[0] == body@[k as int]);
            assert(rest.skip(1) =~= body@.skip(k + 1 as int));
        }
        if c == 'b' || c == '.' {
            let step: usize = if amount == 0 {
                1
            } else {
                amount
            };
            let nx: u128 = x as u128 + step as u128;
            if nx > imax {
                return Err(DecodeError::RunOverflow);
            }
            x = nx as usize;
            amount = 0;
        } else if c == 'o' || c == 'A' {
            let step: usize = if amount == 0 {
                1
            } else {
                amount
            };
            let nx: u128 = x as u128 + step as u128;
            if nx > imax {
                return Err(DecodeError::RunOverflow);
            }
            let ghost entering_cells = cells_view(cells@);
            let mut t: usize = 0;
            while t < step
                invariant
                    t <= step,
                    x + step <= isize::MAX as usize,
                    y <= isize::MAX as usize,
                    cells@.len() == entering_cells.len() + t,
                    cells_view(cells@) == entering_cells + Seq::new(
                        t as nat,
                        |i: int| (x + i, y as int),
                    ),
                decreases step - t,
            {
                let ghost prev = cells@;
                cells.push(((x + t) as isize, y as isize));
                proof {
                    assert((x + t) as isize as int == x + t);
                    assert((y as isize) as int == y);
                    assert(cells@[prev.len() as int] == ((x + t) as isize, y as isize));
                    assert forall|i: int| 0 <= i < entering_cells.len() + t + 1 implies
                        cells_view(cells@)[i] == (entering_cells + Seq::new(
                            (t + 1) as nat,
                            |j: int| (x + j, y as int),
                        ))[i] by {
                        if i < entering_cells.len() + t {
                            assert(cells@[i] == prev[i]);
                            assert(cells_view(prev)[i] == (entering_cells + Seq::new(
                                t as nat,
                                |j: int| (x + j, y as int),
                            ))[i]);
                        } else {
                            assert(cells@[i] == ((x + t) as isize, y as isize));
                        }
                    }
                    assert(cells_view(cells@) =~= entering_cells + Seq::new(
                        (t + 1) as nat,
                        |i: int| (x + i, y as int),
                    ));
                }
                t = t + 1;
            }
            proof {
                assert(Seq::new(step as nat, |i: int| (x + i, y as int)) =~= Seq::new(
                    step as nat,
                    |i: int| (x as int + i, y as int),
                ));
            }
            x = nx as usize;
            amount = 0;
        } else if is_digit_char(c) {
            let d = digit_value(c);
            let na: u128 = amount as u128 * 10 + d as u128;
            if na > imax {
                return Err(DecodeError::RunOverflow);
            }
            amount = na as usize;
        } else if c == '$' {
            let step: usize = if amount == 0 {
                1
            } else {
                amount
            };
            let ny: u128 = y as u128 + step as u128;
            if ny > imax {
                return Err(DecodeError::RunOverflow);
            }
            y = ny as usize;
            x = 0;
            amount = 0;
        } else if c == '!' {
            return Ok(cells);
        } else {
            return Err(DecodeError::UnexpectedCharacter(c));
        }
        k = k + 1;
    }
    proof {
        assert(body@.skip(k as int).len() == 0);
    }
    Ok(cells)
}

/// Decodes RLE pattern text. The result is exactly what [`spec_parse_rle`]
/// assigns to the input's characters, success and failure cases alike.
pub fn parse_rle_file(s: &str) -> (r: Result<Pattern, DecodeError>)
    ensures
        match r {
            Ok(p) => spec_parse_rle(s@) == Ok::<_, DecodeError>(p@),
            Err(e) => spec_parse_rle(s@) == Err::<PatternView, _>(e),
        },
{
    let v = chars_of(s);
    let lines = split_lines(&v);
    let (hdr, meta) = match scan_metadata(&lines) {
        Ok(im) => im,
        Err(e) => {
            return Err(e);
        },
    };
    if hdr == lines.len() {
        return Err(DecodeError::MissingHeader);
    }
    let area = match parse_header(&lines[hdr]) {
        Ok(a) => a,
        Err(e) => {
            return Err(e);
        },
    };
    let body = concat_from(&lines, hdr + 1);
    let cells = match decode_body(&body) {
        Ok(cs) => cs,
        Err(e) => {
            return Err(e);
        },
    };
    let name = match meta.name {
        Some(cs) => Some(string_from_chars(&cs)),
        None => None,
    };
    let description = match meta.description {
        Some(cs) => Some(string_from_chars(&cs)),
        None => None,
    };
    let author = match meta.author {
        Some(cs) => Some(string_from_chars(&cs)),
        None => None,
    };
    Ok(Pattern { cells, name, description, author, area })
}

/// Why loading a pattern from already-read file text failed: a file name with
/// no recognised extension, a recognised format with no decoder, or a decode
/// failure of the RLE text.
#[derive(Clone, Copy, PartialEq, Eq, Structural, Debug)]
pub enum LoadError {
    UnrecognizedExtension,
    UnsupportedFormat,
    Decode(DecodeError),
}

/// What decoding file text named `filename` must yield.
pub open spec fn spec_decode_file(filename: Seq<char>, contents: Seq<char>) -> Result<
    PatternView,
    LoadError,
> {
    match spec_from_filename(filename) {
        None => Err(LoadError::UnrecognizedExtension),
        Some(FileType::Life) => Err(LoadError::UnsupportedFormat),
        Some(FileType::PlainText) => Err(LoadError::UnsupportedFormat),
        Some(FileType::RLE) => match spec_parse_rle(contents) {
            Ok(p) => Ok(p),
            Err(e) => Err(LoadError::Decode(e)),
        },
    }
}

impl Pattern {
    /// Decodes the already-read text of a pattern file, dispatching on the
    /// file name's extension. The Life and plain-text formats are recognised
    /// but have no decoder.
    pub fn decode_file(filename: &str, contents: &str) -> (r: Result<Pattern, LoadError>)
        ensures
            match r {
                Ok(p) => spec_decode_file(filename@, contents@) == Ok::<_, LoadError>(p@),
                Err(e) => spec_decode_file(filename@, contents@) == Err::<PatternView, _>(e),
            },
    {
        match FileType::from_filename(filename) {
            None => Err(LoadError::UnrecognizedExtension),
            Some(FileType::Life) => Err(LoadError::UnsupportedFormat),
            Some(FileType::PlainText) => Err(LoadError::UnsupportedFormat),
            Some(FileType::RLE) => match parse_rle_file(contents) {
                Ok(p) => Ok(p),
                Err(e) => Err(LoadError::Decode(e)),
            },
        }
    }
}

} // verus!
