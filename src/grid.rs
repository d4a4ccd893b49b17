use vstd::prelude::*;

verus! {

/// The character of a bar.
pub const BAR_CHAR: u8 = 0x7c;

/// The character above a bar.
pub const EMPTY_CHAR: u8 = 0x20;

/// The character of a column for which there is no data.
pub const BORDER_CHAR: u8 = 0x20;

/// The character a new cell holds until it is painted; it differs from the
/// others so that a cell left unpainted is easy to spot.
pub const INIT_CHAR: u8 = 0x23;

/// `row` cut or padded with `INIT_CHAR` to `width` cells.
pub open spec fn resized(row: Seq<u8>, width: nat) -> Seq<u8> {
    Seq::new(width, |i: int| if i < row.len() { row[i] } else { INIT_CHAR })
}

/// The character at column `x` of row `y` (row 0 is the bottom one) for the
/// given bar heights.
pub open spec fn cell(heights: Seq<usize>, x: int, y: int) -> u8 {
    if x >= heights.len() {
        BORDER_CHAR
    } else if heights[x] >= y {
        BAR_CHAR
    } else {
        EMPTY_CHAR
    }
}

/// Row `y` of a grid `width` cells wide, painted for the given bar heights.
pub open spec fn painted_row(heights: Seq<usize>, width: nat, y: int) -> Seq<u8> {
    Seq::new(width, |x: int| cell(heights, x, y))
}

/// Cuts or pads `row` with `INIT_CHAR` to `width` cells, keeping the cells it
/// had below `width`.
pub fn resize_rowbuf(row: &mut Vec<u8>, width: usize)
    ensures
        final(row)@ == resized(old(row)@, width as nat),
{
    let ghost orig = row@;
    while row.len() < width
        invariant
            row@.len() <= width || row@ == orig,
            row@.len() >= orig.len(),
            forall|i: int| 0 <= i < row@.len() ==> #[trigger] row@[i] == resized(orig, row@.len())[i],
        decreases width - row@.len(),
    {
        row.push(INIT_CHAR);
    }
    while row.len() > width
        invariant
            row@.len() >= width,
            forall|i: int| 0 <= i < row@.len() ==> #[trigger] row@[i] == resized(orig, row@.len())[i],
        decreases row@.len() - width,
    {
        row.pop();
    }
    assert(row@ == resized(orig, width as nat));
}

/// The character grid of the display: one row buffer per terminal row, each
/// as wide as the visible part of the terminal.
pub struct RenderGrid {
    rows: Vec<Vec<u8>>,
    width: usize,
    height: usize,
}

impl RenderGrid {
    /// The width of the grid in columns.
    pub closed spec fn spec_width(&self) -> nat {
        self.width as nat
    }

    /// The height of the grid in rows.
    pub closed spec fn spec_height(&self) -> nat {
        self.height as nat
    }

    /// The cells of the grid, row by row.
    pub closed spec fn rows_view(&self) -> Seq<Seq<u8>> {
        self.rows@.map_values(|r: Vec<u8>| r@)
    }

    /// Every row is there and is as wide as the grid.
    pub open spec fn wf(&self) -> bool {
        &&& self.rows_view().len() == self.spec_height()
        &&& forall|y: int| 0 <= y < self.spec_height() ==> (#[trigger] self.rows_view()[y]).len() == self.spec_width()
    }

    /// An empty grid, of no rows and no columns.
    pub fn new() -> (r: RenderGrid)
        ensures
            r.wf(),
            r.spec_width() == 0,
            r.spec_height() == 0,
    {
        let r = RenderGrid { rows: Vec::new(), width: 0, height: 0 };
        assert(r.rows_view() =~= Seq::<Seq<u8>>::empty());
        r
    }

    /// Adds empty rows or removes the last ones until there are `height`.
    fn update_row_count(&mut self, height: usize)
        ensures
            final(self).rows_view() == Seq::new(
                height as nat,
                |y: int| if y < old(self).rows_view().len() { old(self).rows_view()[y] } else { Seq::empty() },
            ),
            final(self).width == old(self).width,
            final(self).height == old(self).height,
    {
        let ghost orig = self.rows_view();
        while self.rows.len() < height
            invariant
                self.rows@.len() >= orig.len(),
                self.rows@.len() <= height || self.rows@.len() == orig.len(),
                forall|y: int| 0 <= y < self.rows@.len() ==> #[trigger] self.rows@[y]@ == (
                    if y < orig.len() { orig[y] } else { Seq::empty() }),
                self.width == old(self).width,
                self.height == old(self).height,
            decreases height - self.rows@.len(),
        {
            self.rows.push(Vec::new());
        }
        while self.rows.len() > height
            invariant
                self.rows@.len() >= height,
                forall|y: int| 0 <= y < self.rows@.len() ==> #[trigger] self.rows@[y]@ == (
                    if y < orig.len() { orig[y] } else { Seq::empty() }),
                self.width == old(self).width,
                self.height == old(self).height,
            decreases self.rows@.len() - height,
        {
            self.rows.pop();
        }
        assert(self.rows_view() =~= Seq::new(
            height as nat,
            |y: int| if y < orig.len() { orig[y] } else { Seq::empty() },
        ));
    }

    /// Cuts or pads every row to `width` cells.
    fn resize_rowbufs(&mut self, width: usize)
        ensures
            final(self).rows_view() == old(self).rows_view().map_values(|r: Seq<u8>| resized(r, width as nat)),
            final(self).width == old(self).width,
            final(self).height == old(self).height,
    {
        let ghost orig = self.rows_view();
        let count = self.rows.len();
        let mut i: usize = 0;
        while i < count
            invariant
                count == orig.len(),
                self.rows@.len() == count,
                i <= count,
                forall|y: int| 0 <= y < i ==> #[trigger] self.rows@[y]@ == resized(orig[y], width as nat),
                forall|y: int| i <= y < count ==> #[trigger] self.rows@[y]@ == orig[y],
                self.width == old(self).width,
                self.height == old(self).height,
            decreases count - i,
        {
            resize_rowbuf(&mut self.rows[i], width);
            i += 1;
        }
        assert(self.rows_view() =~= orig.map_values(|r: Seq<u8>| resized(r, width as nat)));
    }

    /// Follows the terminal to `term_rows` rows and `term_cols` columns, of
    /// which the last column is kept free. Only when the size changed are rows
    /// added or removed and cut or padded; cells that stay keep their
    /// characters, new ones hold `INIT_CHAR`.
    pub fn update_size(&mut self, term_rows: usize, term_cols: usize)
        requires
            old(self).wf(),
            term_cols >= 1,
        ensures
            final(self).wf(),
            final(self).spec_height() == term_rows,
            final(self).spec_width() == term_cols - 1,
            final(self).rows_view().len() == term_rows,
            forall|y: int| 0 <= y < term_rows ==> (#[trigger] final(self).rows_view()[y]).len() == term_cols - 1,
            old(self).spec_height() == term_rows && old(self).spec_width() == term_cols - 1
                ==> final(self).rows_view() == old(self).rows_view(),
            forall|y: int| 0 <= y < term_rows && y < old(self).spec_height()
                ==> #[trigger] final(self).rows_view()[y] == resized(old(self).rows_view()[y], (term_cols - 1) as nat),
            forall|y: int| old(self).spec_height() <= y < term_rows
                ==> #[trigger] final(self).rows_view()[y] == resized(Seq::empty(), (term_cols - 1) as nat),
    {
        let height = term_rows;
        let width = term_cols - 1;
        if self.width != width || self.height != height {
            self.update_row_count(height);
            self.resize_rowbufs(width);
            self.width = width;
            self.height = height;
        } else {
            proof {
                assert forall|y: int| 0 <= y < term_rows implies #[trigger] self.rows_view()[y]
                    == resized(self.rows_view()[y], width as nat) by {
                    assert(self.rows_view()[y] =~= resized(self.rows_view()[y], width as nat));
                }
            }
        }
    }

    /// Paints row `y` (row 0 is the bottom one) for the given bar heights.
    pub fn fill_row(&mut self, y: usize, heights: &[usize])
        requires
            old(self).wf(),
            y < old(self).spec_height(),
        ensures
            final(self).wf(),
            final(self).spec_width() == old(self).spec_width(),
            final(self).spec_height() == old(self).spec_height(),
            final(self).rows_view() == old(self).rows_view().update(
                y as int,
                painted_row(heights@, old(self).spec_width(), y as int),
            ),
    {
        let width = self.width;
        let ghost orig = self.rows_view();
        assert(self.rows_view()[y as int].len() == width);
        let mut x: usize = 0;
        while x < width
            invariant
                width == self.width,
                self.width == old(self).width,
                self.height == old(self).height,
                y < self.rows@.len(),
                self.rows@.len() == orig.len(),
                self.rows@[y as int]@.len() == width,
                x <= width,
                forall|q: int| 0 <= q < orig.len() && q != y ==> #[trigger] self.rows@[q]@ == orig[q],
                forall|c: int| 0 <= c < x ==> #[trigger] self.rows@[y as int]@[c] == cell(heights@, c, y as int),
            decreases width - x,
        {
            let ch = if x >= heights.len() {
                BORDER_CHAR
            } else if heights[x] >= y {
                BAR_CHAR
            } else {
                EMPTY_CHAR
            };
            self.rows[y].set(x, ch);
            x += 1;
        }
        assert(self.rows@[y as int]@ =~= painted_row(heights@, width as nat, y as int));
        assert(self.rows_view() =~= orig.update(y as int, painted_row(heights@, width as nat, y as int)));
    }

    /// The cells of row `y`.
    pub fn row(&self, y: usize) -> (r: &Vec<u8>)
        requires
            y < self.rows_view().len(),
        ensures
            r@ == self.rows_view()[y as int],
    {
        &self.rows[y]
    }

    /// The screen line of row `y`: row 0 is the bottom line.
    pub fn screen_row(&self, y: usize) -> (r: usize)
        requires
            y < self.spec_height(),
        ensures
            r == self.spec_height() - 1 - y,
    {
        self.height - y - 1
    }

    /// The column at which a line of `text_len` characters ends at the right
    /// edge of the grid, or 0 when it is wider than the grid.
    pub fn debug_column(&self, text_len: usize) -> (r: usize)
        ensures
            text_len <= self.spec_width() ==> r == self.spec_width() - text_len,
            text_len > self.spec_width() ==> r == 0,
    {
        if text_len <= self.width {
            self.width - text_len
        } else {
            0
        }
    }

    /// The width of the grid in columns.
    pub fn width(&self) -> (r: usize)
        ensures
            r == self.spec_width(),
    {
        self.width
    }

    /// The height of the grid in rows.
    pub fn height(&self) -> (r: usize)
        ensures
            r == self.spec_height(),
    {
        self.height
    }
}

} // verus!
