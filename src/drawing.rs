//! The canvas: a grid of Braille cells addressed by pixel, with a flag that
//! records whether anything changed since the last frame was taken.
use crate::braille::{glyph_of, no_dots, pixel_is_new, with_pixel, BraileChar};
use vstd::prelude::*;

verus! {

/// Width of one cell, in pixels.
pub const CHAR_WIDTH: u32 = 16;

/// Height of one cell, in pixels.
pub const CHAR_HEIGHT: u32 = 32;

/// What a `Drawing` holds: its size in cells, the dots of each cell in row-major
/// order (cell `(row, col)` at `row * columns + col`), and whether a frame is owed.
pub struct DrawingView {
    pub rows: nat,
    pub columns: nat,
    pub cells: Seq<Seq<bool>>,
    pub dirty: bool,
}

impl DrawingView {
    /// Where cell `(row, col)` sits in `cells`.
    pub open spec fn index(self, row: int, col: int) -> int {
        row * self.columns + col
    }

    /// The dots of cell `(row, col)`.
    pub open spec fn cell(self, row: int, col: int) -> Seq<bool> {
        self.cells[self.index(row, col)]
    }

    pub open spec fn has_cell(self, row: int, col: int) -> bool {
        0 <= row < self.rows && 0 <= col < self.columns
    }
}

/// The state after pixel `(x, y)` of the `width` by `height` cell `(row, col)`
/// was hit: a cell outside the grid changes nothing; otherwise the hit dot is
/// set, and a frame is owed if it was new.
pub open spec fn cell_hit(
    m: DrawingView,
    row: int,
    col: int,
    x: u32,
    y: u32,
    width: u32,
    height: u32,
) -> DrawingView {
    if m.has_cell(row, col) {
        let i = m.index(row, col);
        DrawingView {
            rows: m.rows,
            columns: m.columns,
            cells: m.cells.update(i, with_pixel(m.cells[i], x, y, width, height)),
            dirty: m.dirty || pixel_is_new(m.cells[i], x, y, width, height),
        }
    } else {
        m
    }
}

/// The state after the canvas pixel `(x, y)` was written: it falls on cell
/// `(y / CHAR_HEIGHT, x / CHAR_WIDTH)`, at `(x % CHAR_WIDTH, y % CHAR_HEIGHT)`
/// inside it.
pub open spec fn after_write(m: DrawingView, x: u32, y: u32) -> DrawingView {
    cell_hit(
        m,
        (y / CHAR_HEIGHT) as int,
        (x / CHAR_WIDTH) as int,
        x % CHAR_WIDTH,
        y % CHAR_HEIGHT,
        CHAR_WIDTH,
        CHAR_HEIGHT,
    )
}

/// A horizontal border line: `left`, one `─` per column, `right`, then a newline.
pub open spec fn border_text(left: char, right: char, columns: nat) -> Seq<char> {
    seq![left] + Seq::new(columns, |i: int| '─') + seq![right, '\n']
}

/// Grid row `row` between its side borders: the glyph of each cell, left to right.
pub open spec fn row_text(m: DrawingView, row: int) -> Seq<char> {
    seq!['│'] + Seq::new(m.columns, |col: int| glyph_of(m.cell(row, col))) + seq!['│', '\n']
}

/// The first `n` grid rows, top to bottom.
pub open spec fn rows_text(m: DrawingView, n: nat) -> Seq<char>
    decreases n,
{
    if n == 0 {
        Seq::empty()
    } else {
        rows_text(m, (n - 1) as nat) + row_text(m, n - 1)
    }
}

/// The whole grid framed by a box border, one line of text per grid row.
pub open spec fn frame_text(m: DrawingView) -> Seq<char> {
    border_text('┌', '┐', m.columns) + rows_text(m, m.rows) + border_text('└', '┘', m.columns)
}

/// The frame that rendering hands out: the grid's text if a frame is owed, else nothing.
pub open spec fn frame_of(m: DrawingView) -> Option<Seq<char>> {
    if m.dirty {
        Some(frame_text(m))
    } else {
        None
    }
}

/// The state after rendering: the same cells, with no frame owed.
pub open spec fn after_frame(m: DrawingView) -> DrawingView {
    DrawingView { rows: m.rows, columns: m.columns, cells: m.cells, dirty: false }
}

/// The state after the pointer was seen at `(x, y)`: a position with both
/// coordinates positive is written, any other is ignored.
pub open spec fn after_pointer(m: DrawingView, x: i32, y: i32) -> DrawingView {
    if x > 0 && y > 0 {
        after_write(m, x as u32, y as u32)
    } else {
        m
    }
}

/// Rendering twice with no write between hands out the owed frame the first
/// time and nothing the second: the flag is consumed exactly once.
pub proof fn lemma_frame_taken_once(m: DrawingView)
    ensures
        m.dirty ==> frame_of(m) == Some(frame_text(m)),
        frame_of(after_frame(m)) is None,
        after_frame(after_frame(m)) == after_frame(m),
{
}

/// A write to a pixel beyond the grid's rows or columns changes no cell and
/// leaves the flag as it was.
pub proof fn lemma_write_outside_is_ignored(m: DrawingView, x: u32, y: u32)
    requires
        y / CHAR_HEIGHT >= m.rows || x / CHAR_WIDTH >= m.columns,
    ensures
        after_write(m, x, y) == m,
{
}

/// Only rendering clears the flag: a write never takes back a frame that is owed.
pub proof fn lemma_write_keeps_frame_owed(m: DrawingView, x: u32, y: u32)
    requires
        m.dirty,
    ensures
        after_write(m, x, y).dirty,
{
}

/// Relies on `String::push`: appends the one character `c`.
#[verifier::external_body]
fn push_char(s: &mut String, c: char)
    ensures
        final(s)@ == old(s)@.push(c),
{
    s.push(c)
}

/// Appends `border_text(left, right, columns)` to `s`.
fn push_border(s: &mut String, left: char, right: char, columns: u32)
    ensures
        final(s)@ == old(s)@ + border_text(left, right, columns as nat),
{
    let ghost start = s@;
    push_char(s, left);
    let mut j: u32 = 0;
    while j < columns
        invariant
            j <= columns,
            s@ == start + seq![left] + Seq::new(j as nat, |i: int| '─'),
        decreases columns - j,
    {
        push_char(s, '─');
        j = j + 1;
        assert(s@ =~= start + seq![left] + Seq::new(j as nat, |i: int| '─'));
    }
    push_char(s, right);
    push_char(s, '\n');
    assert(s@ =~= start + border_text(left, right, columns as nat));
}

proof fn lemma_index_in_grid(row: int, col: int, rows: int, columns: int)
    requires
        0 <= row < rows,
        0 <= col < columns,
    ensures
        0 <= row * columns <= row * columns + col < rows * columns,
{
    assert(0 <= row * columns <= row * columns + col < rows * columns) by (nonlinear_arith)
        requires
            0 <= row < rows,
            0 <= col < columns,
    ;
}

/// A grid of Braille cells, `rows` by `columns`, drawn on by pixel.
pub struct Drawing {
    cells: Vec<BraileChar>,
    rows: u32,
    columns: u32,
    dirty: bool,
}

impl View for Drawing {
    type V = DrawingView;

    closed spec fn view(&self) -> DrawingView {
        DrawingView {
            rows: self.rows as nat,
            columns: self.columns as nat,
            cells: self.cells@.map_values(|c: BraileChar| c@),
            dirty: self.dirty,
        }
    }
}

impl Drawing {
    #[verifier::type_invariant]
    spec fn inv(&self) -> bool {
        self.cells@.len() == self.rows * self.columns
    }

    /// A blank grid of `rows` by `columns` cells, which owes its first frame.
    pub fn new(rows: u32, columns: u32) -> (r: Drawing)
        requires
            rows * columns <= usize::MAX,
        ensures
            r@ == (DrawingView {
                rows: rows as nat,
                columns: columns as nat,
                cells: Seq::new((rows * columns) as nat, |i: int| no_dots()),
                dirty: true,
            }),
    {
        let n: usize = rows as usize * columns as usize;
        let mut cells: Vec<BraileChar> = Vec::new();
        let mut i: usize = 0;
        while i < n
            invariant
                i <= n,
                cells@.len() == i,
                forall|j: int| 0 <= j < i ==> (#[trigger] cells@[j])@ == no_dots(),
            decreases n - i,
        {
            cells.push(BraileChar::new());
            i = i + 1;
        }
        let r = Drawing { cells, rows, columns, dirty: true };
        assert(r@.cells =~= Seq::new((rows * columns) as nat, |i: int| no_dots()));
        r
    }

    /// Hits pixel `(x, y)` of the `width` by `height` cell `(row, col)`; a cell
    /// outside the grid is left alone. Returns whether a new dot was set.
    pub fn set_cell_pixel(
        &mut self,
        row: u32,
        col: u32,
        x: u32,
        y: u32,
        width: u32,
        height: u32,
    ) -> (r: bool)
        requires
            width >= 2,
            height >= 4,
        ensures
            final(self)@ == cell_hit(old(self)@, row as int, col as int, x, y, width, height),
            r == (old(self)@.has_cell(row as int, col as int) && pixel_is_new(
                old(self)@.cell(row as int, col as int),
                x,
                y,
                width,
                height,
            )),
    {
        proof {
            use_type_invariant(&*self);
        }
        if row >= self.rows || col >= self.columns {
            return false;
        }
        proof {
            lemma_index_in_grid(row as int, col as int, self.rows as int, self.columns as int);
        }
        let i = self.cell_index(row, col);
        let ghost before = self.cells@;
        let fresh = self.cells[i].set_pixel(x, y, width, height);
        if fresh {
            self.dirty = true;
        }
        assert(self.cells@.map_values(|c: BraileChar| c@) =~= before.map_values(
            |c: BraileChar| c@,
        ).update(i as int, with_pixel(before[i as int]@, x, y, width, height)));
        fresh
    }

    /// Where cell `(row, col)` sits in `cells`.
    fn cell_index(&self, row: u32, col: u32) -> (i: usize)
        requires
            self@.has_cell(row as int, col as int),
        ensures
            i == self@.index(row as int, col as int),
            i < self.cells@.len(),
    {
        proof {
            use_type_invariant(self);
            lemma_index_in_grid(row as int, col as int, self.rows as int, self.columns as int);
        }
        let len = self.cells.len();
        assert(row * self.columns + col < len);
        row as usize * self.columns as usize + col as usize
    }

    /// The cell at `(row, col)`.
    pub fn cell(&self, row: u32, col: u32) -> (r: &BraileChar)
        requires
            self@.has_cell(row as int, col as int),
        ensures
            r@ == self@.cell(row as int, col as int),
    {
        &self.cells[self.cell_index(row, col)]
    }

    /// Whether a frame is owed.
    pub fn is_dirty(&self) -> (r: bool)
        ensures
            r == self@.dirty,
    {
        self.dirty
    }

    /// The number of grid rows.
    pub fn rows(&self) -> (r: u32)
        ensures
            r == self@.rows,
    {
        self.rows
    }

    /// The number of grid columns.
    pub fn columns(&self) -> (r: u32)
        ensures
            r == self@.columns,
    {
        self.columns
    }

    /// Appends `row_text(self@, row)` to `s`.
    fn push_row(&self, s: &mut String, row: u32)
        requires
            row < self@.rows,
        ensures
            final(s)@ == old(s)@ + row_text(self@, row as int),
    {
        proof {
            use_type_invariant(self);
        }
        let ghost start = s@;
        let ghost m = self@;
        push_char(s, '│');
        let mut col: u32 = 0;
        while col < self.columns
            invariant
                col <= self.columns,
                m == self@,
                row < self.rows,
                self.cells@.len() == self.rows * self.columns,
                s@ == start + seq!['│'] + Seq::new(col as nat, |c: int| glyph_of(m.cell(row as int, c))),
            decreases self.columns - col,
        {
            let g = self.cells[self.cell_index(row, col)].render();
            push_char(s, g);
            col = col + 1;
            assert(s@ =~= start + seq!['│'] + Seq::new(col as nat, |c: int| glyph_of(m.cell(row as int, c))));
        }
        push_char(s, '│');
        push_char(s, '\n');
        assert(s@ =~= start + row_text(m, row as int));
    }

    /// The grid's text, `frame_text(self@)`.
    fn frame(&self) -> (r: String)
        ensures
            r@ == frame_text(self@),
    {
        let mut s = String::new();
        push_border(&mut s, '┌', '┐', self.columns);
        let ghost top = s@;
        let mut row: u32 = 0;
        while row < self.rows
            invariant
                row <= self@.rows,
                s@ == top + rows_text(self@, row as nat),
            decreases self.rows - row,
        {
            self.push_row(&mut s, row);
            row = row + 1;
            assert(s@ =~= top + rows_text(self@, row as nat));
        }
        push_border(&mut s, '└', '┘', self.columns);
        assert(s@ =~= frame_text(self@));
        s
    }

    /// Takes the frame owed, if any: when something changed since the last frame
    /// (or none was taken yet), returns the grid framed by a box border, one line
    /// per grid row; otherwise returns `None`. Either way no frame is owed after.
    pub fn draw(&mut self) -> (r: Option<String>)
        ensures
            final(self)@ == after_frame(old(self)@),
            match frame_of(old(self)@) {
                Some(f) => r matches Some(s) && s@ == f,
                None => r is None,
            },
    {
        proof {
            use_type_invariant(&*self);
        }
        if !self.dirty {
            return None;
        }
        let frame = self.frame();
        self.dirty = false;
        Some(frame)
    }

    /// One step of pointer tracking: writes the pointer position `(x, y)` when
    /// both coordinates are positive, then takes the frame owed, if any.
    pub fn on_pointer(&mut self, x: i32, y: i32) -> (r: Option<String>)
        ensures
            final(self)@ == after_frame(after_pointer(old(self)@, x, y)),
            match frame_of(after_pointer(old(self)@, x, y)) {
                Some(f) => r matches Some(s) && s@ == f,
                None => r is None,
            },
    {
        if x > 0 && y > 0 {
            self.update(x as u32, y as u32);
        }
        self.draw()
    }

    /// Writes the canvas pixel `(x, y)`: sets the dot it falls on, in cell
    /// `(y / CHAR_HEIGHT, x / CHAR_WIDTH)`, and marks a frame as owed if that dot
    /// is new. A pixel beyond the grid changes nothing.
    pub fn update(&mut self, x: u32, y: u32)
        ensures
            final(self)@ == after_write(old(self)@, x, y),
    {
        let row_id = y / CHAR_HEIGHT;
        let col_id = x / CHAR_WIDTH;
        self.set_cell_pixel(row_id, col_id, x % CHAR_WIDTH, y % CHAR_HEIGHT, CHAR_WIDTH, CHAR_HEIGHT);
    }
}

} // verus!
