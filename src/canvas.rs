//! The square character canvas.
//!
//! A canvas of `cols` columns (an odd number) has `cols` rows. Cells are
//! addressed by centred coordinates: column and row `0` are the middle ones,
//! so both range over `[-(cols - 1) / 2, (cols - 1) / 2]`. Each row is stored
//! as `3 * cols - 2` characters, one cell every third character, so that the
//! picture keeps its proportions on a terminal. Beside each stored character
//! sits a depth: `None` where nothing was drawn (minus infinity), else the
//! depth key of the triangle that drew it. Depth keys are integers ordered as
//! the depths they stand for; a larger key is nearer to the observer.
use crate::shading::{is_palette_glyph, palette, shade_glyph, shade_level_to_char};
use crate::text::push_char;
use vstd::prelude::*;

verus! {

/// Characters stored for one row of a canvas of `cols` columns.
pub open spec fn row_len(cols: int) -> int {
    3 * cols - 2
}

/// Offset that turns a centred coordinate into a zero-based one.
pub open spec fn centre(cols: int) -> int {
    (cols - 1) / 2
}

/// Whether the cell at centred coordinates `(col, row)` lies on the canvas.
pub open spec fn in_canvas(cols: int, col: int, row: int) -> bool {
    0 <= col + centre(cols) < cols && 0 <= row + centre(cols) < cols
}

/// Storage position of the cell at centred coordinates `(col, row)`.
pub open spec fn cell_offset(cols: int, col: int, row: int) -> int {
    3 * (col + centre(cols)) + (row + centre(cols)) * row_len(cols)
}

/// Whether a canvas of `cols` columns can be made: `cols` is odd and its
/// storage fits in memory.
pub open spec fn valid_cols(cols: int) -> bool {
    cols % 2 == 1 && row_len(cols) * cols <= usize::MAX
}

/// Whether a canvas of `cols` columns can be made (see `valid_cols`).
pub fn is_valid_cols(cols: usize) -> (r: bool)
    ensures
        r == valid_cols(cols as int),
{
    if cols % 2 == 0 {
        return false;
    }
    match cols.checked_mul(3) {
        None => {
            assert(row_len(cols as int) * cols >= row_len(cols as int)) by (nonlinear_arith)
                requires
                    cols >= 1,
            ;
            false
        },
        Some(triple) => match (triple - 2).checked_mul(cols) {
            None => false,
            Some(_) => true,
        },
    }
}

/// A projected triangle ready to be drawn: the cells that it covers, its shade
/// level (see `shading`) and its depth key.
pub struct RasterTriangle {
    pub cells: Vec<(i64, i64)>,
    pub shade_level: i64,
    pub depth: i64,
}

/// Whether a triangle of depth key `depth` is drawn over a cell whose depth
/// is `current`: only when it is strictly nearer.
pub open spec fn beats(depth: i64, current: Option<i64>) -> bool {
    match current {
        None => true,
        Some(d) => depth > d,
    }
}

/// Whether the `j`-th of `cells` is on the canvas and stored at position `i`.
pub open spec fn covers_at(cols: int, cells: Seq<(i64, i64)>, j: int, i: int) -> bool {
    0 <= j < cells.len() && in_canvas(cols, cells[j].0 as int, cells[j].1 as int) && cell_offset(
        cols,
        cells[j].0 as int,
        cells[j].1 as int,
    ) == i
}

/// Whether one of `cells` is on the canvas and stored at position `i`.
pub open spec fn covers(cols: int, cells: Seq<(i64, i64)>, i: int) -> bool {
    exists|j: int| #[trigger] covers_at(cols, cells, j, i)
}

/// Character and depth at position `i` after drawing triangle `t` over `prev`.
pub open spec fn paint(cols: int, prev: (char, Option<i64>), t: RasterTriangle, i: int) -> (
    char,
    Option<i64>,
) {
    if covers(cols, t.cells@, i) && beats(t.depth, prev.1) {
        (shade_glyph(t.shade_level as int), Some(t.depth))
    } else {
        prev
    }
}

/// Character and depth at position `i` after clearing the canvas and drawing
/// `tris` in order.
pub open spec fn rendered(cols: int, tris: Seq<RasterTriangle>, i: int) -> (char, Option<i64>)
    decreases tris.len(),
{
    if tris.len() == 0 {
        (' ', None)
    } else {
        paint(cols, rendered(cols, tris.drop_last(), i), tris.last(), i)
    }
}

/// Whether every cell of `t` lies on the canvas.
pub open spec fn fits(cols: int, t: RasterTriangle) -> bool {
    forall|j: int|
        0 <= j < t.cells@.len() ==> in_canvas(cols, #[trigger] t.cells@[j].0 as int, t.cells@[j].1 as int)
}

/// Line `c` of the text frame, counted from the top: stored row
/// `rows - 1 - c`, left to right, then a carriage return and a line feed.
pub open spec fn frame_line(data: Seq<char>, width: int, rows: int, c: int) -> Seq<char> {
    data.subrange((rows - 1 - c) * width, (rows - c) * width) + seq!['\r', '\n']
}

/// The first `n` lines of the text frame.
pub open spec fn frame_text(data: Seq<char>, width: int, rows: int, n: int) -> Seq<char>
    decreases n,
{
    if n <= 0 {
        Seq::empty()
    } else {
        frame_text(data, width, rows, n - 1) + frame_line(data, width, rows, n - 1)
    }
}

/// A square character buffer with a parallel depth buffer (see the module
/// documentation for the layout).
pub struct SquaredCanvas {
    cols: usize,
    zero_col: usize,
    chars_per_row: usize,
    data_length: usize,
    data: Vec<char>,
    depth: Vec<Option<i64>>,
}

impl SquaredCanvas {
    /// Number of columns (and of rows).
    pub closed spec fn spec_cols(&self) -> int {
        self.cols as int
    }

    /// The stored characters, row after row.
    pub closed spec fn cells(&self) -> Seq<char> {
        self.data@
    }

    /// The stored depths, parallel to `cells`.
    pub closed spec fn depths(&self) -> Seq<Option<i64>> {
        self.depth@
    }

    /// The derived sizes agree with `cols`, both buffers have one entry per
    /// stored character, and every stored character is a space or a glyph of
    /// the palette.
    pub closed spec fn wf(&self) -> bool {
        &&& valid_cols(self.cols as int)
        &&& self.zero_col == centre(self.cols as int)
        &&& self.chars_per_row == row_len(self.cols as int)
        &&& self.data_length == row_len(self.cols as int) * self.cols
        &&& self.data@.len() == self.data_length
        &&& self.depth@.len() == self.data_length
        &&& forall|i: int|
            0 <= i < self.data@.len() ==> #[trigger] self.data@[i] == ' ' || is_palette_glyph(
                self.data@[i],
            )
    }

    /// Character and depth stored at position `i`.
    pub open spec fn cell(&self, i: int) -> (char, Option<i64>) {
        (self.cells()[i], self.depths()[i])
    }

    /// What `wf` tells a caller outside this module.
    pub proof fn lemma_wf(&self)
        requires
            self.wf(),
        ensures
            valid_cols(self.spec_cols()),
            self.cells().len() == row_len(self.spec_cols()) * self.spec_cols(),
            self.depths().len() == self.cells().len(),
            forall|i: int|
                0 <= i < self.cells().len() ==> #[trigger] self.cells()[i] == ' ' || is_palette_glyph(
                    self.cells()[i],
                ),
    {
    }

    /// An empty canvas of `cols` columns and rows.
    pub fn new(cols: usize) -> (c: Self)
        requires
            valid_cols(cols as int),
        ensures
            c.wf(),
            c.spec_cols() == cols,
            c.cells().len() == row_len(cols as int) * cols,
            forall|i: int| 0 <= i < c.cells().len() ==> #[trigger] c.cell(i) == (' ', None::<i64>),
    {
        proof {
            assert(cols >= 1);
            assert(row_len(cols as int) * cols >= row_len(cols as int)) by (nonlinear_arith)
                requires
                    cols >= 1,
            ;
        }
        let chars_per_row = 3 * cols - 2;
        let data_length = chars_per_row * cols;
        let zero_col = (cols - 1) / 2;
        let data = vec![' '; data_length];
        let depth: Vec<Option<i64>> = vec![None; data_length];
        SquaredCanvas { cols, zero_col, chars_per_row, data_length, data, depth }
    }

    /// Number of columns (and of rows).
    pub fn cols(&self) -> (r: usize)
        requires
            self.wf(),
        ensures
            r == self.spec_cols(),
    {
        self.cols
    }

    /// Characters stored per row: `3 * cols - 2`.
    pub fn chars_per_row(&self) -> (r: usize)
        requires
            self.wf(),
        ensures
            r == row_len(self.spec_cols()),
    {
        self.chars_per_row
    }

    /// Index `(cols - 1) / 2` of the centre column and row.
    pub fn zero_col(&self) -> (r: usize)
        requires
            self.wf(),
        ensures
            r == centre(self.spec_cols()),
    {
        self.zero_col
    }

    proof fn lemma_cols_small(&self)
        requires
            self.wf(),
        ensures
            self.cols < 0x1_0000_0000,
    {
        let c = self.cols as int;
        assert(c >= 1);
        if c >= 0x1_0000_0000 {
            assert((3 * c - 2) * c >= 0x1_0000_0000 * 0x1_0000_0000) by (nonlinear_arith)
                requires
                    c >= 0x1_0000_0000,
            ;
        }
    }

    proof fn lemma_offset_bounds(cols: int, col: int, row: int)
        requires
            cols >= 1,
            in_canvas(cols, col, row),
        ensures
            0 <= cell_offset(cols, col, row) < row_len(cols) * cols,
    {
        let tc = col + centre(cols);
        let tr = row + centre(cols);
        let w = row_len(cols);
        assert(0 <= tr * w <= (cols - 1) * w) by (nonlinear_arith)
            requires
                0 <= tr <= cols - 1,
                w >= 1,
        ;
        assert((cols - 1) * w + w == w * cols) by (nonlinear_arith);
    }

    /// Storage position of the cell at centred coordinates `(col, row)`, or
    /// `None` where the cell lies off the canvas.
    pub fn get_index(&self, col: i64, row: i64) -> (r: Option<usize>)
        requires
            self.wf(),
        ensures
            r is Some <==> in_canvas(self.spec_cols(), col as int, row as int),
            r matches Some(i) ==> i == cell_offset(self.spec_cols(), col as int, row as int) && i
                < self.cells().len(),
    {
        proof {
            self.lemma_cols_small();
        }
        let z = self.zero_col as i64;
        let n = self.cols as i64;
        if col < -z || col >= n - z || row < -z || row >= n - z {
            return None;
        }
        let tc = (col + z) as usize;
        let tr = (row + z) as usize;
        proof {
            Self::lemma_offset_bounds(self.cols as int, col as int, row as int);
        }
        Some(3 * tc + tr * self.chars_per_row)
    }

    /// The first cell of `triangle` that lies off the canvas, if any.
    pub fn first_outside_cell(&self, triangle: &RasterTriangle) -> (r: Option<(i64, i64)>)
        requires
            self.wf(),
        ensures
            r is None <==> fits(self.spec_cols(), *triangle),
            r matches Some(cell) ==> exists|j: int|
                0 <= j < triangle.cells@.len() && #[trigger] triangle.cells@[j] == cell && !in_canvas(
                    self.spec_cols(),
                    cell.0 as int,
                    cell.1 as int,
                ) && forall|k: int|
                    0 <= k < j ==> in_canvas(
                        self.spec_cols(),
                        #[trigger] triangle.cells@[k].0 as int,
                        triangle.cells@[k].1 as int,
                    ),
    {
        let n = triangle.cells.len();
        let mut j: usize = 0;
        while j < n
            invariant
                self.wf(),
                n == triangle.cells@.len(),
                j <= n,
                forall|k: int|
                    0 <= k < j ==> in_canvas(
                        self.spec_cols(),
                        #[trigger] triangle.cells@[k].0 as int,
                        triangle.cells@[k].1 as int,
                    ),
            decreases n - j,
        {
            let (col, row) = triangle.cells[j];
            if self.get_index(col, row).is_none() {
                assert(triangle.cells@[j as int] == (col, row));
                return Some((col, row));
            }
            j = j + 1;
        }
        None
    }

    /// Empties every cell: a space, at depth minus infinity.
    pub fn clear(&mut self)
        requires
            old(self).wf(),
        ensures
            final(self).wf(),
            final(self).spec_cols() == old(self).spec_cols(),
            final(self).cells().len() == old(self).cells().len(),
            forall|i: int|
                0 <= i < final(self).cells().len() ==> #[trigger] final(self).cell(i) == (
                ' ',
                None::<i64>,
            ),
    {
        let n = self.data_length;
        let mut i: usize = 0;
        while i < n
            invariant
                self.wf(),
                self.cols == old(self).cols,
                n == self.data_length,
                n == old(self).data_length,
                i <= n,
                forall|k: int| 0 <= k < i ==> #[trigger] self.data@[k] == ' ' && self.depth@[k]
                    == None::<i64>,
            decreases n - i,
        {
            self.data.set(i, ' ');
            self.depth.set(i, None);
            i = i + 1;
        }
    }

    /// Draws the glyph of `shade_level` in the cell `(col, row)` when `depth`
    /// is strictly nearer than what the cell holds; leaves it alone otherwise.
    pub fn set_pixel(&mut self, col: i64, row: i64, shade_level: i64, depth: i64)
        requires
            old(self).wf(),
            in_canvas(old(self).spec_cols(), col as int, row as int),
        ensures
            final(self).wf(),
            final(self).spec_cols() == old(self).spec_cols(),
            final(self).cells().len() == old(self).cells().len(),
            forall|i: int|
                0 <= i < final(self).cells().len() ==> #[trigger] final(self).cell(i) == (if i
                    == cell_offset(old(self).spec_cols(), col as int, row as int) && beats(
                    depth,
                    old(self).cell(i).1,
                ) {
                    (shade_glyph(shade_level as int), Some(depth))
                } else {
                    old(self).cell(i)
                }),
    {
        let idx = match self.get_index(col, row) {
            Some(i) => i,
            None => {
                return ;
            },
        };
        let current = self.depth[idx];
        let nearer = match current {
            None => true,
            Some(d) => depth > d,
        };
        if nearer {
            let g = shade_level_to_char(shade_level);
            self.data.set(idx, g);
            self.depth.set(idx, Some(depth));
        }
    }

    /// Draws every cell of `triangle` with the depth test of `set_pixel`.
    pub fn set_triangle(&mut self, triangle: &RasterTriangle)
        requires
            old(self).wf(),
            fits(old(self).spec_cols(), *triangle),
        ensures
            final(self).wf(),
            final(self).spec_cols() == old(self).spec_cols(),
            final(self).cells().len() == old(self).cells().len(),
            forall|i: int|
                0 <= i < final(self).cells().len() ==> #[trigger] final(self).cell(i) == paint(
                    old(self).spec_cols(),
                    old(self).cell(i),
                    *triangle,
                    i,
                ),
    {
        let ghost cols = self.cols as int;
        let ghost start = *self;
        let ghost cells = triangle.cells@;
        let n = triangle.cells.len();
        let mut j: usize = 0;
        while j < n
            invariant
                self.wf(),
                start.wf(),
                self.cols == start.cols,
                cols == start.cols,
                self.data@.len() == start.data@.len(),
                n == cells.len(),
                cells == triangle.cells@,
                fits(cols, *triangle),
                j <= n,
                forall|i: int|
                    0 <= i < self.data@.len() ==> #[trigger] self.cell(i) == (if covers(
                        cols,
                        cells.take(j as int),
                        i,
                    ) && beats(triangle.depth, start.cell(i).1) {
                        (shade_glyph(triangle.shade_level as int), Some(triangle.depth))
                    } else {
                        start.cell(i)
                    }),
            decreases n - j,
        {
            let (col, row) = triangle.cells[j];
            assert(in_canvas(cols, cells[j as int].0 as int, cells[j as int].1 as int));
            let ghost before = *self;
            let ghost at = cell_offset(cols, col as int, row as int);
            self.set_pixel(col, row, triangle.shade_level, triangle.depth);
            assert forall|i: int| 0 <= i < self.data@.len() implies #[trigger] self.cell(i) == (if covers(
                cols,
                cells.take(j + 1),
                i,
            ) && beats(triangle.depth, start.cell(i).1) {
                (shade_glyph(triangle.shade_level as int), Some(triangle.depth))
            } else {
                start.cell(i)
            }) by {
                assert(before.cell(i) == self.cell(i) || i == at);
                let prev = cells.take(j as int);
                let next = cells.take(j + 1);
                if covers(cols, prev, i) {
                    let k = choose|k: int| covers_at(cols, prev, k, i);
                    assert(next[k] == prev[k]);
                    assert(covers_at(cols, next, k, i));
                }
                if i == at {
                    assert(next[j as int] == cells[j as int]);
                    assert(covers_at(cols, next, j as int, i));
                } else if covers(cols, next, i) {
                    let k = choose|k: int| covers_at(cols, next, k, i);
                    assert(k != j);
                    assert(next[k] == prev[k]);
                    assert(covers_at(cols, prev, k, i));
                }
            }
            j = j + 1;
        }
        assert(cells.take(n as int) =~= cells);
    }

    /// Clears the canvas and draws `triangles` in order, each cell keeping the
    /// glyph of the nearest triangle that covers it (the first one drawn
    /// among equally near ones).
    pub fn set_mesh(&mut self, triangles: &Vec<RasterTriangle>)
        requires
            old(self).wf(),
            forall|t: int|
                0 <= t < triangles@.len() ==> fits(old(self).spec_cols(), #[trigger] triangles@[t]),
        ensures
            final(self).wf(),
            final(self).spec_cols() == old(self).spec_cols(),
            final(self).cells().len() == old(self).cells().len(),
            forall|i: int|
                0 <= i < final(self).cells().len() ==> #[trigger] final(self).cell(i) == rendered(
                    old(self).spec_cols(),
                    triangles@,
                    i,
                ),
    {
        self.clear();
        let ghost cols = self.cols as int;
        let n = triangles.len();
        let mut k: usize = 0;
        while k < n
            invariant
                self.wf(),
                self.cols == old(self).cols,
                cols == self.cols,
                self.data@.len() == old(self).data@.len(),
                n == triangles@.len(),
                k <= n,
                forall|t: int| 0 <= t < triangles@.len() ==> fits(cols, #[trigger] triangles@[t]),
                forall|i: int|
                    0 <= i < self.data@.len() ==> #[trigger] self.cell(i) == rendered(
                        cols,
                        triangles@.take(k as int),
                        i,
                    ),
            decreases n - k,
        {
            let ghost before = *self;
            assert(fits(cols, triangles@[k as int]));
            self.set_triangle(&triangles[k]);
            assert(triangles@.take(k + 1).drop_last() =~= triangles@.take(k as int));
            assert forall|i: int| 0 <= i < self.data@.len() implies #[trigger] self.cell(i)
                == rendered(cols, triangles@.take(k + 1), i) by {
                assert(before.cell(i) == rendered(cols, triangles@.take(k as int), i));
            }
            k = k + 1;
        }
        assert(triangles@.take(n as int) =~= triangles@);
    }

    /// The canvas as text: `cols` lines of `3 * cols - 2` characters, each
    /// ended by a carriage return and a line feed. The top line is the last
    /// stored row, so rows with larger coordinates are printed higher up.
    pub fn get_frame(&self) -> (r: String)
        requires
            self.wf(),
        ensures
            r@ == frame_text(self.cells(), row_len(self.spec_cols()), self.spec_cols(), self.spec_cols()),
    {
        let rows = self.cols;
        let width = self.chars_per_row;
        let ghost data = self.data@;
        let mut frame = String::new();
        let mut c: usize = 0;
        while c < rows
            invariant
                self.wf(),
                rows == self.cols,
                width == self.chars_per_row,
                data == self.data@,
                c <= rows,
                frame@ == frame_text(data, width as int, rows as int, c as int),
            decreases rows - c,
        {
            let r = rows - 1 - c;
            proof {
                assert(width * rows == self.data_length);
                assert(r * width <= rows * width) by (nonlinear_arith)
                    requires
                        r <= rows,
                ;
                assert((r + 1) * width <= rows * width) by (nonlinear_arith)
                    requires
                        r + 1 <= rows,
                ;
                assert((r + 1) * width == r * width + width) by (nonlinear_arith);
            }
            let start = r * width;
            let mut j: usize = 0;
            while j < width
                invariant
                    self.wf(),
                    data == self.data@,
                    rows == self.cols,
                    width == self.chars_per_row,
                    c < rows,
                    r == rows - 1 - c,
                    start == r * width,
                    start + width <= data.len(),
                    j <= width,
                    frame@ == frame_text(data, width as int, rows as int, c as int) + data.subrange(
                        start as int,
                        start + j,
                    ),
                decreases width - j,
            {
                let ghost before = frame@;
                push_char(&mut frame, self.data[start + j]);
                assert(data.subrange(start as int, start + j + 1) =~= data.subrange(
                    start as int,
                    start + j,
                ).push(data[start + j]));
                j = j + 1;
            }
            push_char(&mut frame, '\r');
            push_char(&mut frame, '\n');
            proof {
                assert((rows - 1 - c) * width == start);
                assert((rows - c) * width == start + width) by (nonlinear_arith)
                    requires
                        start == r * width,
                        r == rows - 1 - c,
                ;
                assert(frame@ =~= frame_text(data, width as int, rows as int, c as int) + frame_line(
                    data,
                    width as int,
                    rows as int,
                    c as int,
                ));
            }
            c = c + 1;
        }
        frame
    }
}

/// Inclusive range between two indices, ascending whichever comes first.
pub fn get_asc_range(number_1: i64, number_2: i64) -> (r: std::ops::Range<i64>)
    requires
        number_1 < i64::MAX,
        number_2 < i64::MAX,
    ensures
        number_1 <= number_2 ==> r.start == number_1 && r.end == number_2 + 1,
        number_2 <= number_1 ==> r.start == number_2 && r.end == number_1 + 1,
{
    if number_1 < number_2 {
        number_1..(number_2 + 1)
    } else {
        number_2..(number_1 + 1)
    }
}

proof fn lemma_frame_line(data: Seq<char>, width: int, rows: int, c: int)
    requires
        width >= 0,
        0 <= c < rows,
        data.len() == width * rows,
    ensures
        frame_line(data, width, rows, c).len() == width + 2,
        frame_line(data, width, rows, c)[width] == '\r',
        frame_line(data, width, rows, c)[width + 1] == '\n',
        0 <= (rows - 1 - c) * width,
        (rows - 1 - c) * width + width <= data.len(),
        forall|k: int|
            0 <= k < width ==> #[trigger] frame_line(data, width, rows, c)[k] == data[(rows - 1 - c)
                * width + k],
{
    assert(0 <= (rows - 1 - c) * width <= (rows - c) * width <= width * rows) by (nonlinear_arith)
        requires
            0 <= c < rows,
            width >= 0,
    ;
    assert((rows - c) * width - (rows - 1 - c) * width == width) by (nonlinear_arith);
}

proof fn lemma_frame_index(data: Seq<char>, width: int, rows: int, n: int, c: int, k: int)
    requires
        width >= 0,
        0 <= c < n,
        0 <= k < width + 2,
        0 <= n <= rows,
        data.len() == width * rows,
    ensures
        frame_text(data, width, rows, n).len() == n * (width + 2),
        frame_text(data, width, rows, n)[c * (width + 2) + k] == frame_line(data, width, rows, c)[k],
    decreases n,
{
    let line = frame_line(data, width, rows, n - 1);
    lemma_frame_line(data, width, rows, n - 1);
    assert(n * (width + 2) == (n - 1) * (width + 2) + width + 2) by (nonlinear_arith);
    if n == 1 {
        assert(frame_text(data, width, rows, 0).len() == 0);
        assert(c == 0);
    } else {
        if c < n - 1 {
            lemma_frame_index(data, width, rows, n - 1, c, k);
            assert(c * (width + 2) + k < (n - 1) * (width + 2)) by (nonlinear_arith)
                requires
                    0 <= c <= n - 2,
                    0 <= k < width + 2,
                    width >= 0,
            ;
        } else {
            lemma_frame_index(data, width, rows, n - 1, 0, 0);
        }
    }
}

/// A frame of a canvas of `cols` columns has exactly `cols` lines: each is
/// `3 * cols - 2` characters without a line break, followed by a carriage
/// return and a line feed.
pub proof fn lemma_frame_shape(canvas: &SquaredCanvas)
    requires
        canvas.wf(),
    ensures
        ({
            let cols = canvas.spec_cols();
            let w = row_len(cols);
            let f = frame_text(canvas.cells(), w, cols, cols);
            &&& f.len() == cols * (w + 2)
            &&& forall|c: int|
                0 <= c < cols ==> f[#[trigger] (c * (w + 2)) + w] == '\r' && f[c * (w + 2) + w + 1]
                    == '\n'
            &&& forall|c: int, k: int|
                0 <= c < cols && 0 <= k < w ==> f[#[trigger] (c * (w + 2) + k)] != '\r' && f[c * (
                w + 2) + k] != '\n'
        }),
{
    canvas.lemma_wf();
    let cols = canvas.spec_cols();
    let w = row_len(cols);
    let data = canvas.cells();
    let f = frame_text(data, w, cols, cols);
    assert(data.len() == w * cols) by (nonlinear_arith)
        requires
            data.len() == row_len(cols) * cols,
            w == row_len(cols),
    ;
    lemma_frame_index(data, w, cols, cols, 0, 0);
    assert forall|c: int| 0 <= c < cols implies f[#[trigger] (c * (w + 2)) + w] == '\r' && f[c * (
    w + 2) + w + 1] == '\n' by {
        lemma_frame_index(data, w, cols, cols, c, w);
        lemma_frame_index(data, w, cols, cols, c, w + 1);
        lemma_frame_line(data, w, cols, c);
    }
    assert forall|c: int, k: int| 0 <= c < cols && 0 <= k < w implies f[#[trigger] (c * (w + 2)
        + k)] != '\r' && f[c * (w + 2) + k] != '\n' by {
        lemma_frame_index(data, w, cols, cols, c, k);
        let p = (cols - 1 - c) * w + k;
        lemma_frame_line(data, w, cols, c);
        assert(frame_line(data, w, cols, c)[k] == data[p]);
        let g = data[p];
        if g != ' ' {
            let i = choose|i: int| 0 <= i < palette().len() && palette()[i] == g;
            assert(palette()[i] != '\r' && palette()[i] != '\n');
        }
    }
}

/// Where two triangles cover the same cell at different depths, the cell
/// ends up with the glyph and depth of the nearer one, whichever is drawn
/// first.
pub proof fn lemma_depth_resolution(cols: int, far: RasterTriangle, near: RasterTriangle, i: int)
    requires
        covers(cols, far.cells@, i),
        covers(cols, near.cells@, i),
        far.depth < near.depth,
    ensures
        rendered(cols, seq![far, near], i) == (shade_glyph(near.shade_level as int), Some(near.depth)),
        rendered(cols, seq![near, far], i) == (shade_glyph(near.shade_level as int), Some(near.depth)),
{
    assert(seq![far, near].drop_last() =~= seq![far]);
    assert(seq![near, far].drop_last() =~= seq![near]);
    assert(seq![far].drop_last() =~= Seq::<RasterTriangle>::empty());
    assert(seq![near].drop_last() =~= Seq::<RasterTriangle>::empty());
    let empty = (' ', None::<i64>);
    assert(rendered(cols, Seq::<RasterTriangle>::empty(), i) == empty);
    assert(seq![far].last() == far && seq![far].len() == 1);
    assert(seq![near].last() == near && seq![near].len() == 1);
    assert(seq![far, near].last() == near && seq![near, far].last() == far);
    assert(rendered(cols, seq![far], i) == paint(cols, empty, far, i));
    assert(rendered(cols, seq![near], i) == paint(cols, empty, near, i));
    assert(rendered(cols, seq![far, near], i) == paint(cols, paint(cols, empty, far, i), near, i));
    assert(rendered(cols, seq![near, far], i) == paint(cols, paint(cols, empty, near, i), far, i));
}

/// Whether `current` is a depth at or beyond `depth`.
pub open spec fn reaches(current: Option<i64>, depth: i64) -> bool {
    match current {
        None => false,
        Some(d) => depth <= d,
    }
}

/// After clearing the canvas and drawing any sequence of triangles, a cell
/// is empty exactly when no triangle covers it; otherwise it holds the depth
/// of the nearest triangle that covers it, and the glyph of a covering
/// triangle at that depth. So where covering triangles have distinct depths,
/// the order in which they are drawn does not matter.
pub proof fn lemma_nearest_wins(cols: int, tris: Seq<RasterTriangle>, i: int)
    ensures
        rendered(cols, tris, i).1 is None <==> forall|t: int|
            0 <= t < tris.len() ==> !covers(cols, #[trigger] tris[t].cells@, i),
        forall|t: int|
            0 <= t < tris.len() && covers(cols, #[trigger] tris[t].cells@, i) ==> reaches(
                rendered(cols, tris, i).1,
                tris[t].depth,
            ),
        rendered(cols, tris, i).1 is Some ==> exists|t: int|
            0 <= t < tris.len() && covers(cols, #[trigger] tris[t].cells@, i) && rendered(
                cols,
                tris,
                i,
            ) == (shade_glyph(tris[t].shade_level as int), Some(tris[t].depth)),
    decreases tris.len(),
{
    if tris.len() > 0 {
        let p = tris.drop_last();
        let n = tris.len() - 1;
        let last = tris.last();
        lemma_nearest_wins(cols, p, i);
        let prev = rendered(cols, p, i);
        let now = rendered(cols, tris, i);
        assert(now == paint(cols, prev, last, i));
        assert forall|t: int| 0 <= t < n implies #[trigger] tris[t] == p[t] by {}
        if covers(cols, last.cells@, i) && beats(last.depth, prev.1) {
            assert(now == (shade_glyph(last.shade_level as int), Some(last.depth)));
            assert forall|t: int|
                0 <= t < tris.len() && covers(cols, #[trigger] tris[t].cells@, i) implies reaches(
                now.1,
                tris[t].depth,
            ) by {
                if t < n {
                    assert(tris[t] == p[t]);
                }
            }
            assert(covers(cols, tris[n].cells@, i));
        } else {
            assert(now == prev);
            if prev.1 is Some {
                let t = choose|t: int|
                    0 <= t < p.len() && covers(cols, #[trigger] p[t].cells@, i) && prev == (
                    shade_glyph(p[t].shade_level as int),
                    Some(p[t].depth),
                );
                assert(tris[t] == p[t]);
            }
            assert forall|t: int|
                0 <= t < tris.len() && covers(cols, #[trigger] tris[t].cells@, i) implies reaches(
                now.1,
                tris[t].depth,
            ) by {
                if t < n {
                    assert(tris[t] == p[t]);
                }
            }
            if now.1 is None {
                assert forall|t: int| 0 <= t < tris.len() implies !covers(
                    cols,
                    #[trigger] tris[t].cells@,
                    i,
                ) by {
                    if t < n {
                        assert(tris[t] == p[t]);
                    }
                }
            }
        }
    }
}

} // verus!
