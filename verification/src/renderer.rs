//! What chrome hands the renderer, and the cache of a pane's cells.

use vstd::prelude::*;

use crate::cells::{copy_cells, repeated};
use crate::proto::{Cell, Point, RowUpdate, Size};

verus! {

/// A run of cells drawn from a screen position rightwards.
#[derive(Debug, PartialEq, Eq)]
pub struct Span {
    pub at: Point,
    pub cells: Vec<Cell>,
}

/// A span by its contents.
pub struct SpanView {
    pub at: Point,
    pub cells: Seq<Cell>,
}

impl View for Span {
    type V = SpanView;

    open spec fn view(&self) -> SpanView {
        SpanView { at: self.at, cells: self.cells@ }
    }
}

/// Spans by their contents.
pub open spec fn span_views(spans: Seq<Span>) -> Seq<SpanView> {
    spans.map_values(|span: Span| span@)
}

impl Span {
    pub fn new(at: Point, cells: Vec<Cell>) -> (span: Span)
        ensures
            span.at == at,
            span.cells == cells,
    {
        Span { at, cells }
    }
}

impl Clone for Span {
    fn clone(&self) -> (copy: Span)
        ensures
            copy@ == self@,
    {
        Span { at: self.at, cells: copy_cells(self.cells.as_slice()) }
    }
}

/// Why a row could not be taken into a grid.
#[derive(Clone, Copy, Debug, PartialEq, Eq, Structural)]
pub enum RenderError {
    /// The grid has no such row.
    RowOutOfBounds { row: u16, rows: u16 },
    /// The row is not as wide as the grid.
    WidthMismatch { cells: usize, cols: u16 },
}

/// A cache of the cells a pane shows. Never authoritative.
#[derive(Clone, Debug, PartialEq, Eq)]
pub struct Grid {
    size: Size,
    rows: Vec<Vec<Cell>>,
}

/// A row of blanks.
pub open spec fn blank_row(cols: u16) -> Seq<Cell> {
    repeated(Cell::blank(), cols as nat)
}

/// A grid of blanks.
pub open spec fn blank_rows(size: Size) -> Seq<Seq<Cell>> {
    Seq::new(size.rows as nat, |i: int| blank_row(size.cols))
}

fn blank_cells(cols: u16) -> (row: Vec<Cell>)
    ensures
        row@ == blank_row(cols),
{
    let mut row: Vec<Cell> = Vec::new();
    crate::cells::pad_to(&mut row, cols as usize, Cell::blank());
    assert(row@ =~= blank_row(cols));
    row
}

impl Grid {
    /// The rows, top first.
    pub closed spec fn contents(&self) -> Seq<Seq<Cell>> {
        self.rows@.map_values(|row: Vec<Cell>| row@)
    }

    /// How large the grid is.
    pub closed spec fn extent(&self) -> Size {
        self.size
    }

    /// Whether the grid has the rows and columns it says it has.
    pub open spec fn wf(&self) -> bool {
        &&& self.contents().len() == self.extent().rows
        &&& forall|r: int|
            0 <= r < self.contents().len() ==> (#[trigger] self.contents()[r]).len()
                == self.extent().cols
    }

    /// A grid of blanks.
    pub fn new(size: Size) -> (grid: Grid)
        ensures
            grid.wf(),
            grid.extent() == size,
            grid.contents() == blank_rows(size),
    {
        let mut rows: Vec<Vec<Cell>> = Vec::new();
        let mut r: u16 = 0;
        while r < size.rows
            invariant
                r <= size.rows,
                rows@.len() == r,
                forall|i: int| 0 <= i < r ==> (#[trigger] rows@[i])@ == blank_row(size.cols),
            decreases size.rows - r,
        {
            rows.push(blank_cells(size.cols));
            r = r + 1;
        }
        let grid = Grid { size, rows };
        assert(grid.contents() =~= blank_rows(size));
        grid
    }

    pub fn size(&self) -> (size: Size)
        ensures
            size == self.extent(),
    {
        self.size
    }

    /// One row, if the grid has it.
    pub fn row(&self, row: u16) -> (cells: Option<&[Cell]>)
        requires
            self.wf(),
        ensures
            cells is Some <==> row < self.extent().rows,
            cells matches Some(found) ==> found@ == self.contents()[row as int],
    {
        if (row as usize) < self.rows.len() {
            Some(self.rows[row as usize].as_slice())
        } else {
            None
        }
    }

    /// Replaces one whole row. A row the grid does not have, or one of another
    /// width, is refused and changes nothing.
    pub fn apply(&mut self, update: &RowUpdate) -> (result: Result<(), RenderError>)
        requires
            old(self).wf(),
        ensures
            final(self).wf(),
            final(self).extent() == old(self).extent(),
            update.row >= old(self).extent().rows ==> result == Err::<(), RenderError>(
                RenderError::RowOutOfBounds { row: update.row, rows: old(self).extent().rows },
            ),
            update.row < old(self).extent().rows && update.cells@.len() != old(self).extent().cols
                ==> result == Err::<(), RenderError>(
                RenderError::WidthMismatch {
                    cells: update.cells@.len() as usize,
                    cols: old(self).extent().cols,
                },
            ),
            result is Ok <==> update.row < old(self).extent().rows && update.cells@.len() == old(
                self,
            ).extent().cols,
            result is Ok ==> final(self).contents() == old(self).contents().update(
                update.row as int,
                update.cells@,
            ),
            result is Err ==> final(self).contents() == old(self).contents(),
    {
        if update.row >= self.size.rows {
            return Err(RenderError::RowOutOfBounds { row: update.row, rows: self.size.rows });
        }
        if update.cells.len() != self.size.cols as usize {
            return Err(
                RenderError::WidthMismatch { cells: update.cells.len(), cols: self.size.cols },
            );
        }
        let cells = copy_cells(update.cells.as_slice());
        self.rows.set(update.row as usize, cells);
        proof {
            assert(self.contents() =~= old(self).contents().update(
                update.row as int,
                update.cells@,
            ));
        }
        Ok(())
    }

    /// Takes on another size, keeping none of the cells: the server sends every
    /// row of a resized pane again.
    pub fn resize(&mut self, size: Size)
        ensures
            final(self).wf(),
            final(self).extent() == size,
            final(self).contents() == blank_rows(size),
    {
        *self = Grid::new(size);
    }
}

} // verus!
