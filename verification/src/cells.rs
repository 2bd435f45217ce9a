//! Rows of cells: painting text, padding, and fitting a row into a width.

use vstd::prelude::*;

use crate::proto::{Cell, CellAttrs, Color};
use crate::text::{chars_of, decimal, decimal_chars};

verus! {

/// One cell of a style.
pub open spec fn styled(ch: char, fg: Color, bg: Color, attrs: CellAttrs) -> Cell {
    Cell { ch, fg, bg, attrs }
}

/// `text` as cells of one style.
pub open spec fn painted(text: Seq<char>, fg: Color, bg: Color, attrs: CellAttrs) -> Seq<Cell> {
    text.map_values(|ch: char| styled(ch, fg, bg, attrs))
}

/// `count` copies of `cell`.
pub open spec fn repeated(cell: Cell, count: nat) -> Seq<Cell> {
    Seq::new(count, |i: int| cell)
}

/// The characters of a row.
pub open spec fn text_of(cells: Seq<Cell>) -> Seq<char> {
    cells.map_values(|cell: Cell| cell.ch)
}

/// The longest prefix of `text` no longer than `budget`.
pub open spec fn cut<A>(text: Seq<A>, budget: nat) -> Seq<A> {
    if text.len() <= budget {
        text
    } else {
        text.take(budget as int)
    }
}

/// The first of two answers that is one.
pub open spec fn or<A>(first: Option<A>, second: Option<A>) -> Option<A> {
    if first is Some {
        first
    } else {
        second
    }
}

/// Appends `chars` as styled cells.
pub fn push_chars(cells: &mut Vec<Cell>, chars: &[char], fg: Color, bg: Color, attrs: CellAttrs)
    ensures
        final(cells)@ == old(cells)@ + painted(chars@, fg, bg, attrs),
{
    for i in 0..chars.len()
        invariant
            cells@ == old(cells)@ + painted(chars@.take(i as int), fg, bg, attrs),
    {
        let ghost before = painted(chars@.take(i as int), fg, bg, attrs);
        cells.push(Cell { ch: chars[i], fg, bg, attrs });
        assert(chars@.take(i + 1) =~= chars@.take(i as int).push(chars@[i as int]));
        assert(painted(chars@.take(i + 1), fg, bg, attrs) =~= before.push(
            styled(chars@[i as int], fg, bg, attrs),
        ));
        assert(cells@ =~= old(cells)@ + painted(chars@.take(i + 1), fg, bg, attrs));
    }
    assert(chars@.take(chars@.len() as int) =~= chars@);
}

/// Appends `text` as styled cells over an explicit background.
pub fn push_styled(cells: &mut Vec<Cell>, text: &str, fg: Color, bg: Color, attrs: CellAttrs)
    ensures
        final(cells)@ == old(cells)@ + painted(text@, fg, bg, attrs),
{
    let chars = chars_of(text);
    push_chars(cells, chars.as_slice(), fg, bg, attrs);
}

/// Appends one styled character.
pub fn push_char(cells: &mut Vec<Cell>, ch: char, fg: Color, bg: Color, attrs: CellAttrs)
    ensures
        final(cells)@ == old(cells)@ + painted(seq![ch], fg, bg, attrs),
{
    cells.push(Cell { ch, fg, bg, attrs });
    assert(cells@ =~= old(cells)@ + painted(seq![ch], fg, bg, attrs));
}

/// Appends a number in decimal as styled cells.
pub fn push_number(cells: &mut Vec<Cell>, value: u64, fg: Color, bg: Color, attrs: CellAttrs)
    ensures
        final(cells)@ == old(cells)@ + painted(decimal(value as nat), fg, bg, attrs),
{
    let chars = decimal_chars(value);
    push_chars(cells, chars.as_slice(), fg, bg, attrs);
}

/// Appends `more` as they are.
pub fn push_cells(cells: &mut Vec<Cell>, more: &[Cell])
    ensures
        final(cells)@ == old(cells)@ + more@,
{
    for i in 0..more.len()
        invariant
            cells@ == old(cells)@ + more@.take(i as int),
    {
        cells.push(more[i]);
        assert(more@.take(i + 1) =~= more@.take(i as int).push(more@[i as int]));
    }
    assert(more@.take(more@.len() as int) =~= more@);
}

/// A copy of `cells`.
pub fn copy_cells(cells: &[Cell]) -> (copy: Vec<Cell>)
    ensures
        copy@ == cells@,
{
    let mut copy: Vec<Cell> = Vec::new();
    push_cells(&mut copy, cells);
    assert(copy@ =~= cells@);
    copy
}

/// Appends `cell` until there are `width` of them.
pub fn pad_to(cells: &mut Vec<Cell>, width: usize, cell: Cell)
    ensures
        old(cells)@.len() >= width ==> final(cells)@ == old(cells)@,
        old(cells)@.len() < width ==> final(cells)@ == old(cells)@ + repeated(
            cell,
            (width - old(cells)@.len()) as nat,
        ),
{
    let ghost start = cells@;
    while cells.len() < width
        invariant
            start == old(cells)@,
            start.len() >= width ==> cells@ == start,
            start.len() < width ==> start.len() <= cells@.len() <= width && cells@ == start
                + repeated(cell, (cells@.len() - start.len()) as nat),
        decreases width - cells.len(),
    {
        let ghost before = cells@;
        cells.push(cell);
        assert(cells@ =~= start + repeated(cell, (cells@.len() - start.len()) as nat));
    }
}

/// `cells` cut or padded to exactly `width`.
pub open spec fn exactly(cells: Seq<Cell>, width: nat, blank: Cell) -> Seq<Cell> {
    if cells.len() >= width {
        cells.take(width as int)
    } else {
        cells + repeated(blank, (width - cells.len()) as nat)
    }
}

/// Cuts or pads `cells` to exactly `width`.
pub fn to_width(cells: &mut Vec<Cell>, width: usize, blank: Cell)
    ensures
        final(cells)@ == exactly(old(cells)@, width as nat, blank),
        final(cells)@.len() == width,
{
    if cells.len() > width {
        cells.truncate(width);
    } else {
        assert(cells@.len() == width ==> cells@.take(width as int) =~= cells@);
        pad_to(cells, width, blank);
    }
}

/// `left` and `right` at the two ends of a row of `width`, at least `gap` cells
/// apart; nothing where they do not fit.
pub open spec fn fitted(
    left: Seq<Cell>,
    gap: nat,
    right: Seq<Cell>,
    width: nat,
    blank: Cell,
) -> Option<Seq<Cell>> {
    if left.len() + gap + right.len() <= width {
        Some(left + repeated(blank, (width - left.len() - right.len()) as nat) + right)
    } else {
        None
    }
}

/// A row that may not fit, by its cells.
pub open spec fn row_view(row: Option<Vec<Cell>>) -> Option<Seq<Cell>> {
    match row {
        Some(cells) => Some(cells@),
        None => None,
    }
}

/// `a`, `b` and `c` in a row.
pub fn join3(a: &[Cell], b: &[Cell], c: &[Cell]) -> (cells: Vec<Cell>)
    ensures
        cells@ == a@ + b@ + c@,
{
    let mut cells = copy_cells(a);
    push_cells(&mut cells, b);
    push_cells(&mut cells, c);
    cells
}

/// Fits `left` and `right` into a row of `width`.
pub fn fit_row(left: &[Cell], gap: usize, right: &[Cell], width: usize, blank: Cell) -> (row:
    Option<Vec<Cell>>)
    ensures
        row_view(row) == fitted(left@, gap as nat, right@, width as nat, blank),
        row is Some <==> fitted(left@, gap as nat, right@, width as nat, blank) is Some,
        row matches Some(cells) ==> Some(cells@) == fitted(
            left@,
            gap as nat,
            right@,
            width as nat,
            blank,
        ) && cells@.len() == width,
{
    if left.len() > width {
        return None;
    }
    let spare: usize = width - left.len();
    if right.len() > spare || gap > spare - right.len() {
        return None;
    }
    let mut cells = copy_cells(left);
    pad_to(&mut cells, width - right.len(), blank);
    push_cells(&mut cells, right);
    assert(cells@ =~= left@ + repeated(blank, (width - left@.len() - right@.len()) as nat)
        + right@);
    Some(cells)
}

} // verus!
