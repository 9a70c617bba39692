//! The textual level format and its parser.
//!
//! A level is: a `width,height` line; `height` map lines of at least
//! `width` cells each, `' '` for empty and `'w'` for wall; a `food_x,food_y`
//! line; and a semicolon-separated list of `x,y` pairs, the head first and
//! the body after it, neck to tail. Blank lines are ignored throughout,
//! and characters beyond the first `width` of a map line too.

use vstd::prelude::*;
use vstd::slice::{slice_subrange, slice_to_vec};
use vstd::string::StringSliceAdditionalSpecFns;

use crate::common::{CellField, Direction, Position};
use crate::game::{GameModel, SnakeGame};
use crate::grid::Grid;

verus! {

/// Malformed level text; construction produces no engine.
#[derive(Debug, Clone, Copy, PartialEq, Eq, Structural)]
pub struct ParseError;

/// The index of the first occurrence of `b` in `s` at or after `from`,
/// or the length of `s` if there is none.
pub open spec fn next_byte(s: Seq<u8>, from: int, b: u8) -> int
    decreases s.len() - from,
{
    if from >= s.len() {
        s.len() as int
    } else if s[from] == b {
        from
    } else {
        next_byte(s, from + 1, b)
    }
}

pub proof fn lemma_next_byte(s: Seq<u8>, from: int, b: u8)
    requires
        from <= s.len(),
    ensures
        from <= next_byte(s, from, b) <= s.len(),
        next_byte(s, from, b) < s.len() ==> s[next_byte(s, from, b)] == b,
        forall|i: int| from <= i < next_byte(s, from, b) ==> s[i] != b,
    decreases s.len() - from,
{
    if from < s.len() && s[from] != b {
        lemma_next_byte(s, from + 1, b);
    }
}

/// A line as `str::lines` yields it: without one trailing carriage return.
pub open spec fn strip_cr(line: Seq<u8>) -> Seq<u8> {
    if line.len() > 0 && line.last() == 13 {
        line.drop_last()
    } else {
        line
    }
}

/// The nonblank lines of `s` from index `from` on: pieces between newline
/// bytes, each without a trailing carriage return, empty pieces dropped.
pub open spec fn lines_from(s: Seq<u8>, from: int) -> Seq<Seq<u8>>
    decreases s.len() - from,
    via lines_from_decreases
{
    if from >= s.len() {
        Seq::empty()
    } else {
        let e = next_byte(s, from, 10);
        let line = strip_cr(s.subrange(from, e));
        let rest = if e + 1 <= s.len() {
            lines_from(s, e + 1)
        } else {
            Seq::empty()
        };
        if line.len() == 0 {
            rest
        } else {
            seq![line] + rest
        }
    }
}

#[via_fn]
proof fn lines_from_decreases(s: Seq<u8>, from: int) {
    if from < s.len() {
        lemma_next_byte(s, from, 10);
    }
}

/// The nonblank lines of the whole of `s`.
pub open spec fn spec_lines(s: Seq<u8>) -> Seq<Seq<u8>> {
    lines_from(s, 0)
}

/// The pieces of `s` from index `from` on, split at every `sep` byte; a
/// separator at the very end yields a trailing empty piece, and a piece is
/// never dropped.
pub open spec fn split_from(s: Seq<u8>, from: int, sep: u8) -> Seq<Seq<u8>>
    decreases s.len() - from + 1,
    via split_from_decreases
{
    let e = next_byte(s, from, sep);
    if e >= s.len() {
        seq![s.subrange(from, s.len() as int)]
    } else {
        seq![s.subrange(from, e)] + split_from(s, e + 1, sep)
    }
}

#[via_fn]
proof fn split_from_decreases(s: Seq<u8>, from: int, sep: u8) {
    if next_byte(s, from, sep) < s.len() {
        lemma_next_byte(s, from, sep);
    }
}

/// The index of the first occurrence of `b` in `s` at or after `from`, or
/// `s.len()` if there is none.
fn find_byte(s: &[u8], from: usize, b: u8) -> (r: usize)
    requires
        from <= s@.len(),
    ensures
        r as int == next_byte(s@, from as int, b),
        from <= r <= s@.len(),
{
    let mut i = from;
    while i < s.len()
        invariant
            from <= i <= s@.len(),
            next_byte(s@, from as int, b) == next_byte(s@, i as int, b),
        decreases s@.len() - i,
    {
        if s[i] == b {
            return i;
        }
        i += 1;
    }
    proof {
        lemma_next_byte(s@, from as int, b);
    }
    s.len()
}

/// The nonblank lines of `s`, as `spec_lines` describes them.
fn nonblank_lines(s: &[u8]) -> (r: Vec<Vec<u8>>)
    ensures
        r.deep_view() == spec_lines(s@),
{
    let mut out: Vec<Vec<u8>> = Vec::new();
    let mut pos: usize = 0;
    assert(out.deep_view() =~= Seq::<Seq<u8>>::empty());
    loop
        invariant_except_break
            pos <= s@.len(),
            out.deep_view() + lines_from(s@, pos as int) == spec_lines(s@),
        ensures
            out.deep_view() == spec_lines(s@),
        decreases s@.len() - pos,
    {
        if pos == s.len() {
            proof {
                assert(out.deep_view() + lines_from(s@, pos as int) =~= out.deep_view());
            }
            break ;
        }
        let e = find_byte(s, pos, 10);
        let mut line = slice_to_vec(slice_subrange(s, pos, e));
        if line.len() > 0 && line[line.len() - 1] == 13 {
            line.pop();
            assert(line@ =~= strip_cr(s@.subrange(pos as int, e as int)));
        }
        let ghost out0 = out.deep_view();
        if line.len() > 0 {
            out.push(line);
            assert(out.deep_view() =~~= out0 + seq![line@]);
        }
        proof {
            assert(out.deep_view() + (if e + 1 <= s@.len() {
                lines_from(s@, e as int + 1)
            } else {
                Seq::<Seq<u8>>::empty()
            }) =~= spec_lines(s@));
        }
        if e == s.len() {
            proof {
                assert(out.deep_view() =~= spec_lines(s@));
            }
            break ;
        }
        pos = e + 1;
    }
    out
}

/// The pieces of `s` split at every `sep`, as `split_from` describes them.
fn split_bytes(s: &[u8], sep: u8) -> (r: Vec<Vec<u8>>)
    ensures
        r.deep_view() == split_from(s@, 0, sep),
{
    let mut out: Vec<Vec<u8>> = Vec::new();
    let mut pos: usize = 0;
    assert(out.deep_view() =~= Seq::<Seq<u8>>::empty());
    loop
        invariant_except_break
            pos <= s@.len(),
            out.deep_view() + split_from(s@, pos as int, sep) == split_from(s@, 0, sep),
        ensures
            out.deep_view() == split_from(s@, 0, sep),
        decreases s@.len() - pos,
    {
        let e = find_byte(s, pos, sep);
        let seg = slice_to_vec(slice_subrange(s, pos, e));
        let ghost out0 = out.deep_view();
        out.push(seg);
        assert(out.deep_view() =~~= out0 + seq![seg@]);
        if e == s.len() {
            proof {
                assert(out.deep_view() =~= split_from(s@, 0, sep));
            }
            break ;
        }
        pos = e + 1;
        proof {
            assert(out.deep_view() + split_from(s@, pos as int, sep) =~= split_from(s@, 0, sep));
        }
    }
    out
}

pub open spec fn is_digit(b: u8) -> bool {
    48 <= b <= 57
}

pub open spec fn digit_val(b: u8) -> nat {
    if is_digit(b) {
        (b - 48) as nat
    } else {
        0
    }
}

pub open spec fn all_digits(s: Seq<u8>) -> bool {
    forall|i: int| 0 <= i < s.len() ==> is_digit(#[trigger] s[i])
}

/// The number the digit bytes of `s` write in base ten.
pub open spec fn digits_value(s: Seq<u8>) -> nat
    decreases s.len(),
{
    if s.len() == 0 {
        0
    } else {
        digits_value(s.drop_last()) * 10 + digit_val(s.last())
    }
}

/// An unsigned number: one or more ASCII digits whose value fits in
/// `usize`. Anything else, a sign or blank included, is rejected.
pub open spec fn spec_number(s: Seq<u8>) -> Option<usize> {
    if s.len() > 0 && all_digits(s) && digits_value(s) <= usize::MAX {
        Some(digits_value(s) as usize)
    } else {
        None
    }
}

/// A longer digit prefix never writes a smaller number.
proof fn lemma_digits_value_monotone(s: Seq<u8>, j: int, k: int)
    requires
        0 <= j <= k <= s.len(),
    ensures
        digits_value(s.take(j)) <= digits_value(s.take(k)),
    decreases k - j,
{
    if j < k {
        lemma_digits_value_monotone(s, j, k - 1);
        assert(s.take(k).drop_last() =~= s.take(k - 1));
    }
}

/// Reads a base-ten number, as `spec_number` describes it.
fn parse_number(line: &[u8]) -> (r: Option<usize>)
    ensures
        r == spec_number(line@),
{
    if line.len() == 0 {
        return None;
    }
    let mut acc: usize = 0;
    let mut i: usize = 0;
    while i < line.len()
        invariant
            i <= line@.len(),
            all_digits(line@.take(i as int)),
            acc == digits_value(line@.take(i as int)),
        decreases line@.len() - i,
    {
        let b = line[i];
        if b < 48 || b > 57 {
            assert(!all_digits(line@));
            return None;
        }
        let d = (b - 48) as usize;
        proof {
            assert(line@.take(i + 1).drop_last() =~= line@.take(i as int));
            assert(line@.take(i + 1).last() == line@[i as int]);
        }
        let acc10 = match acc.checked_mul(10) {
            Some(v) => v,
            None => {
                proof {
                    assert(digits_value(line@.take(i + 1)) > usize::MAX);
                    lemma_digits_value_monotone(line@, i + 1, line@.len() as int);
                    assert(line@.take(line@.len() as int) =~= line@);
                }
                return None;
            },
        };
        acc = match acc10.checked_add(d) {
            Some(v) => v,
            None => {
                proof {
                    assert(digits_value(line@.take(i + 1)) > usize::MAX);
                    lemma_digits_value_monotone(line@, i + 1, line@.len() as int);
                    assert(line@.take(line@.len() as int) =~= line@);
                }
                return None;
            },
        };
        i += 1;
    }
    proof {
        assert(line@.take(line@.len() as int) =~= line@);
    }
    Some(acc)
}

/// Two numbers split at the first comma.
pub open spec fn spec_pair(s: Seq<u8>) -> Option<(usize, usize)> {
    let c = next_byte(s, 0, 44);
    if c >= s.len() {
        None
    } else {
        let a = spec_number(s.subrange(0, c));
        let b = spec_number(s.subrange(c + 1, s.len() as int));
        if a is Some && b is Some {
            Some((a.unwrap(), b.unwrap()))
        } else {
            None
        }
    }
}

/// Reads an `x,y` pair, as `spec_pair` describes it.
fn parse_pair(line: &[u8]) -> (r: Option<(usize, usize)>)
    ensures
        r == spec_pair(line@),
{
    let c = find_byte(line, 0, 44);
    if c == line.len() {
        return None;
    }
    let a = parse_number(slice_subrange(line, 0, c));
    let b = parse_number(slice_subrange(line, c + 1, line.len()));
    match (a, b) {
        (Some(a), Some(b)) => Some((a, b)),
        _ => None,
    }
}

pub open spec fn is_cell_byte(b: u8) -> bool {
    b == 32 || b == 119
}

/// The cell a map byte declares: `'w'` a wall, `' '` empty.
pub open spec fn cell_of(b: u8) -> CellField {
    if b == 119 {
        CellField::Wall
    } else {
        CellField::Empty
    }
}

/// One map row: at least `w` bytes, the first `w` of them cell bytes,
/// everything after them ignored.
pub open spec fn spec_row(line: Seq<u8>, w: int) -> Option<Seq<CellField>> {
    if line.len() < w {
        None
    } else if exists|i: int| 0 <= i < w && !is_cell_byte(#[trigger] line[i]) {
        None
    } else {
        Some(Seq::new(w as nat, |i: int| cell_of(line[i])))
    }
}

/// Reads the first `w` cells of a map row, as `spec_row` describes it.
fn parse_row(line: &[u8], w: usize) -> (r: Option<Vec<CellField>>)
    ensures
        r is Some <==> spec_row(line@, w as int) is Some,
        r matches Some(cells) ==> Some(cells@) == spec_row(line@, w as int),
{
    if line.len() < w {
        return None;
    }
    let mut cells: Vec<CellField> = Vec::new();
    let mut i: usize = 0;
    while i < w
        invariant
            i <= w <= line@.len(),
            cells@.len() == i,
            forall|j: int| 0 <= j < i ==> is_cell_byte(line@[j]),
            forall|j: int| 0 <= j < i ==> cells@[j] == cell_of(line@[j]),
        decreases w - i,
    {
        let b = line[i];
        if b == 32 {
            cells.push(CellField::Empty);
        } else if b == 119 {
            cells.push(CellField::Wall);
        } else {
            assert(!is_cell_byte(line@[i as int]));
            return None;
        }
        i += 1;
    }
    proof {
        assert(cells@ =~= Seq::new(w as nat, |j: int| cell_of(line@[j])));
    }
    Some(cells)
}

/// The positions a semicolon-separated list of pairs declares, in order.
pub open spec fn spec_position_list(segs: Seq<Seq<u8>>) -> Option<Seq<Position>>
    decreases segs.len(),
{
    if segs.len() == 0 {
        Some(Seq::empty())
    } else {
        let first = spec_pair(segs[0]);
        let rest = spec_position_list(segs.drop_first());
        if first is Some && rest is Some {
            Some(
                seq![Position { x: first.unwrap().0, y: first.unwrap().1 }] + rest.unwrap(),
            )
        } else {
            None
        }
    }
}

pub open spec fn spec_positions(s: Seq<u8>) -> Option<Seq<Position>> {
    spec_position_list(split_from(s, 0, 59))
}

/// Reads a `x,y;x,y;...` list, as `spec_positions` describes it.
fn parse_positions(line: &[u8]) -> (r: Option<Vec<Position>>)
    ensures
        r is Some <==> spec_positions(line@) is Some,
        r matches Some(v) ==> Some(v@) == spec_positions(line@),
{
    let segs = split_bytes(line, 59);
    let ghost all = segs.deep_view();
    let mut acc: Vec<Position> = Vec::new();
    let mut i: usize = 0;
    proof {
        assert(all.skip(0) =~= all);
        if spec_position_list(all) is Some {
            assert(acc@ + spec_position_list(all).unwrap() =~= spec_position_list(all).unwrap());
        }
    }
    while i < segs.len()
        invariant
            i <= segs@.len(),
            all == segs.deep_view(),
            all == split_from(line@, 0, 59),
            spec_position_list(all) == (match spec_position_list(all.skip(i as int)) {
                Some(rest) => Some(acc@ + rest),
                None => None::<Seq<Position>>,
            }),
        decreases segs@.len() - i,
    {
        proof {
            assert(all.skip(i as int)[0] == all[i as int]);
            assert(all.skip(i as int).drop_first() =~= all.skip(i + 1));
            assert(all[i as int] =~= segs@[i as int]@);
        }
        let seg = segs[i].as_slice();
        match parse_pair(seg) {
            None => {
                return None;
            },
            Some(p) => {
                let ghost acc0 = acc@;
                acc.push(Position::new(p.0, p.1));
                proof {
                    if spec_position_list(all.skip(i + 1)) is Some {
                        assert(acc0 + (seq![
                            Position { x: p.0, y: p.1 },
                        ] + spec_position_list(all.skip(i + 1)).unwrap()) =~= acc@
                            + spec_position_list(all.skip(i + 1)).unwrap());
                    }
                }
            },
        }
        i += 1;
    }
    proof {
        assert(all.skip(segs@.len() as int) =~= Seq::<Seq<u8>>::empty());
        assert(acc@ + Seq::<Position>::empty() =~= acc@);
    }
    Some(acc)
}

/// The engine state a well-formed level declares: the map as written, the
/// snake and food where the text puts them, direction up, no growth
/// pending. `None` exactly on malformed text: a missing or unreadable
/// line, a zero dimension, a short or ill-lettered map row, or an empty
/// snake list.
pub open spec fn spec_level(s: Seq<u8>) -> Option<GameModel> {
    let ls = spec_lines(s);
    if ls.len() < 1 {
        None
    } else {
        match spec_pair(ls[0]) {
            None => None,
            Some(dim) => {
                let w = dim.0;
                let h = dim.1;
                if w < 1 || h < 1 {
                    None
                } else if ls.len() < h + 3 {
                    None
                } else if exists|i: int|
                    0 <= i < h && (#[trigger] spec_row(ls[1 + i], w as int)) is None {
                    None
                } else {
                    match (spec_pair(ls[h + 1]), spec_positions(ls[h + 2])) {
                        (Some(f), Some(snake)) => {
                            if snake.len() < 1 {
                                None
                            } else {
                                Some(
                                    GameModel {
                                        grid: Seq::new(
                                            h as nat,
                                            |i: int| spec_row(ls[1 + i], w as int).unwrap(),
                                        ),
                                        width: w as nat,
                                        height: h as nat,
                                        head: snake[0],
                                        body: snake.drop_first(),
                                        food: Position { x: f.0, y: f.1 },
                                        direction: Direction::Up,
                                        growth: 0,
                                    },
                                )
                            }
                        },
                        _ => None,
                    }
                }
            },
        }
    }
}

impl SnakeGame {
    /// Builds the engine a level text declares, or reports malformed text.
    /// Succeeds exactly when `spec_level` accepts the text, and then the
    /// engine's state is the declared one.
    pub fn from_str(s: &str) -> (r: Result<SnakeGame, ParseError>)
        ensures
            r is Ok <==> spec_level(s.spec_bytes()) is Some,
            r matches Ok(game) ==> Some(game@) == spec_level(s.spec_bytes()) && game.wf(),
    {
        let bytes = s.as_bytes();
        let lines = nonblank_lines(bytes);
        let ghost ls = spec_lines(s.spec_bytes());
        if lines.len() == 0 {
            return Err(ParseError);
        }
        proof {
            assert(lines.deep_view()[0] =~= lines@[0]@);
        }
        let first = lines[0].as_slice();
        let (w, h) = match parse_pair(first) {
            None => {
                return Err(ParseError);
            },
            Some(d) => d,
        };
        if w < 1 || h < 1 {
            return Err(ParseError);
        }
        if lines.len() < 3 || lines.len() - 3 < h {
            return Err(ParseError);
        }
        let mut rows: Vec<Vec<CellField>> = Vec::new();
        let mut i: usize = 0;
        while i < h
            invariant
                i <= h,
                h + 3 <= lines@.len(),
                1 <= w,
                1 <= h,
                ls == lines.deep_view(),
                ls == spec_lines(s.spec_bytes()),
                spec_pair(ls[0]) == Some((w, h)),
                rows@.len() == i,
                forall|j: int| 0 <= j < i ==> (#[trigger] spec_row(ls[1 + j], w as int)) is Some,
                forall|j: int|
                    0 <= j < i ==> Some((#[trigger] rows@[j])@) == spec_row(ls[1 + j], w as int),
            decreases h - i,
        {
            proof {
                assert(ls[1 + i] =~= lines@[1 + i]@);
            }
            let row_line = lines[1 + i].as_slice();
            match parse_row(row_line, w) {
                None => {
                    assert(spec_row(ls[1 + i], w as int) is None);
                    return Err(ParseError);
                },
                Some(cells) => {
                    rows.push(cells);
                },
            }
            i += 1;
        }
        proof {
            assert(ls[h + 1] =~= lines@[h + 1]@);
            assert(ls[h + 2] =~= lines@[h + 2]@);
        }
        let food_line = lines[h + 1].as_slice();
        let food = match parse_pair(food_line) {
            None => {
                return Err(ParseError);
            },
            Some(f) => f,
        };
        let snake_line = lines[h + 2].as_slice();
        let mut snake = match parse_positions(snake_line) {
            None => {
                return Err(ParseError);
            },
            Some(v) => v,
        };
        if snake.len() == 0 {
            return Err(ParseError);
        }
        let snake_head = snake.remove(0);
        let game = SnakeGame {
            map: Grid { rows, width: w, height: h },
            snake_head,
            snake_body: snake,
            food: Position::new(food.0, food.1),
            direction: Direction::Up,
            increment_size: 0,
        };
        proof {
            let m = spec_level(s.spec_bytes()).unwrap();
            assert(game@.grid =~~= m.grid);
            assert(game@.body =~= m.body);
            assert(game@ =~~= m);
            assert(game.wf());
        }
        Ok(game)
    }
}

} // verus!
