use vstd::prelude::*;

use crate::chars_of;
use crate::layout::{cap_usize, Area};

verus! {

/// Foreground value that leaves the terminal's default colour in place;
/// any other value is a 24-bit RGB colour.
pub const DEFAULT_FG: u32 = 0xFFFF_FFFF;

/// What one cell of the screen holds.
#[derive(Clone, Copy, Debug, PartialEq, Eq, Structural)]
pub enum Cell {
    Blank,
    /// A character with its foreground colour.
    Glyph(char, u32),
    /// Part of an image, by the handle of its texture.
    Texture(u64),
}

/// One cell that the terminal has to repaint.
#[derive(Clone, Copy, Debug, PartialEq, Eq, Structural)]
pub struct Paint {
    pub x: usize,
    pub y: usize,
    pub cell: Cell,
}

/// The logical state of a screen buffer.
pub struct ScreenModel {
    pub width: nat,
    pub height: nat,
    /// What should be on screen, row by row.
    pub cells: Seq<Seq<Cell>>,
    /// What the last flush put on screen, row by row.
    pub shown: Seq<Seq<Cell>>,
    pub cursor_x: nat,
    pub cursor_y: nat,
    pub fg: u32,
    pub cursor_visible: bool,
}

/// `g` has `h` rows of `w` cells.
pub open spec fn grid_ok(g: Seq<Seq<Cell>>, w: nat, h: nat) -> bool {
    g.len() == h && forall|y: int| 0 <= y < h ==> #[trigger] g[y].len() == w
}

pub open spec fn blank_grid(w: nat, h: nat) -> Seq<Seq<Cell>> {
    Seq::new(h, |y: int| Seq::new(w, |x: int| Cell::Blank))
}

/// `row` with `text` written from column `x` on, cut at the row's end.
pub open spec fn painted_row(row: Seq<Cell>, x: int, text: Seq<char>, fg: u32) -> Seq<Cell> {
    Seq::new(row.len(), |i: int| painted_cell(row, x, text, fg, i))
}

/// Cell `i` of `row` once `text` is written from column `x` on.
pub open spec fn painted_cell(row: Seq<Cell>, x: int, text: Seq<char>, fg: u32, i: int) -> Cell {
    if x <= i && i < x + text.len() {
        Cell::Glyph(text[i - x], fg)
    } else {
        row[i]
    }
}

/// `g` with `text` written at (`x`, `y`); a row outside the grid changes nothing.
pub open spec fn write_grid(g: Seq<Seq<Cell>>, x: int, y: int, text: Seq<char>, fg: u32) -> Seq<
    Seq<Cell>,
> {
    if 0 <= y < g.len() {
        g.update(y, painted_row(g[y], x, text, fg))
    } else {
        g
    }
}

/// `area` lies over cell (`c`, `r`).
pub open spec fn covers(area: Area, c: int, r: int) -> bool {
    area.x <= c < area.x + area.width && area.y <= r < area.y + area.height
}

/// `g` with the cells of `area` given over to texture `t`.
pub open spec fn image_grid(g: Seq<Seq<Cell>>, area: Area, t: u64) -> Seq<Seq<Cell>> {
    Seq::new(
        g.len(),
        |r: int|
            Seq::new(
                g[r].len(),
                |c: int|
                    if covers(area, c, r) {
                        Cell::Texture(t)
                    } else {
                        g[r][c]
                    },
            ),
    )
}

/// Repaints for the first `n` cells of row `y`, left to right.
pub open spec fn row_diff(old: Seq<Cell>, new: Seq<Cell>, y: int, n: int) -> Seq<Paint>
    decreases n,
{
    if n <= 0 {
        Seq::empty()
    } else {
        let d = row_diff(old, new, y, n - 1);
        if old[n - 1] != new[n - 1] {
            d.push(Paint { x: (n - 1) as usize, y: y as usize, cell: new[n - 1] })
        } else {
            d
        }
    }
}

/// Repaints for the first `n` rows, top to bottom.
pub open spec fn grid_diff(old: Seq<Seq<Cell>>, new: Seq<Seq<Cell>>, w: int, n: int) -> Seq<Paint>
    decreases n,
{
    if n <= 0 {
        Seq::empty()
    } else {
        grid_diff(old, new, w, n - 1) + row_diff(old[n - 1], new[n - 1], n - 1, w)
    }
}

impl ScreenModel {
    pub open spec fn wf(self) -> bool {
        &&& grid_ok(self.cells, self.width, self.height)
        &&& grid_ok(self.shown, self.width, self.height)
        &&& self.width <= usize::MAX
        &&& self.height <= usize::MAX
        &&& self.cursor_x <= usize::MAX
        &&& self.cursor_y <= usize::MAX
    }

    /// Every cell back to blank.
    pub open spec fn cleared(self) -> Self {
        ScreenModel { cells: blank_grid(self.width, self.height), ..self }
    }

    pub open spec fn moved(self, x: nat, y: nat) -> Self {
        ScreenModel { cursor_x: x, cursor_y: y, ..self }
    }

    pub open spec fn inked(self, fg: u32) -> Self {
        ScreenModel { fg: fg, ..self }
    }

    pub open spec fn with_cursor_visible(self, visible: bool) -> Self {
        ScreenModel { cursor_visible: visible, ..self }
    }

    /// `text` written at the cursor in the current colour; the cursor moves past it.
    pub open spec fn written(self, text: Seq<char>) -> Self {
        ScreenModel {
            cells: write_grid(self.cells, self.cursor_x as int, self.cursor_y as int, text, self.fg),
            cursor_x: cap_usize(self.cursor_x + text.len() as int) as nat,
            ..self
        }
    }

    pub open spec fn imaged(self, area: Area, t: u64) -> Self {
        ScreenModel { cells: image_grid(self.cells, area, t), ..self }
    }

    /// The repaints that bring the terminal from `shown` to `cells`.
    pub open spec fn pending(self) -> Seq<Paint> {
        grid_diff(self.shown, self.cells, self.width as int, self.height as int)
    }

    pub open spec fn flushed(self) -> Self {
        ScreenModel { shown: self.cells, ..self }
    }
}

/// A grid of cells together with what the terminal last showed, so that a
/// flush repaints only the cells that changed.
pub struct ScreenBuffer {
    width: usize,
    height: usize,
    cells: Vec<Vec<Cell>>,
    shown: Vec<Vec<Cell>>,
    cursor_x: usize,
    cursor_y: usize,
    fg: u32,
    cursor_visible: bool,
}

pub open spec fn rows_of(v: Seq<Vec<Cell>>) -> Seq<Seq<Cell>> {
    Seq::new(v.len(), |i: int| v[i]@)
}

impl View for ScreenBuffer {
    type V = ScreenModel;

    closed spec fn view(&self) -> ScreenModel {
        ScreenModel {
            width: self.width as nat,
            height: self.height as nat,
            cells: rows_of(self.cells@),
            shown: rows_of(self.shown@),
            cursor_x: self.cursor_x as nat,
            cursor_y: self.cursor_y as nat,
            fg: self.fg,
            cursor_visible: self.cursor_visible,
        }
    }
}

fn blank_row(width: usize) -> (r: Vec<Cell>)
    ensures
        r@ == Seq::new(width as nat, |x: int| Cell::Blank),
{
    let mut row: Vec<Cell> = Vec::new();
    let mut i: usize = 0;
    while i < width
        invariant
            i <= width,
            row@ == Seq::new(i as nat, |x: int| Cell::Blank),
        decreases width - i,
    {
        row.push(Cell::Blank);
        i = i + 1;
        assert(row@ =~= Seq::new(i as nat, |x: int| Cell::Blank));
    }
    row
}

fn blank_rows(width: usize, height: usize) -> (r: Vec<Vec<Cell>>)
    ensures
        rows_of(r@) == blank_grid(width as nat, height as nat),
{
    let mut rows: Vec<Vec<Cell>> = Vec::new();
    let mut i: usize = 0;
    while i < height
        invariant
            i <= height,
            rows@.len() == i,
            forall|j: int| 0 <= j < i ==> #[trigger] rows@[j]@ == Seq::new(width as nat, |x: int| Cell::Blank),
        decreases height - i,
    {
        rows.push(blank_row(width));
        i = i + 1;
    }
    assert(rows_of(rows@) =~~= blank_grid(width as nat, height as nat));
    rows
}

fn copy_row(row: &Vec<Cell>) -> (r: Vec<Cell>)
    ensures
        r@ == row@,
{
    let mut out: Vec<Cell> = Vec::new();
    let mut i: usize = 0;
    while i < row.len()
        invariant
            i <= row.len(),
            out@ == row@.take(i as int),
        decreases row.len() - i,
    {
        out.push(row[i]);
        i = i + 1;
        assert(out@ =~= row@.take(i as int));
    }
    assert(out@ =~= row@);
    out
}

impl ScreenBuffer {
    /// A blank screen of `width` × `height` cells, taken to be what the terminal
    /// shows; cursor at the top left, visible, default colour.
    pub fn new(width: usize, height: usize) -> (r: Self)
        ensures
            r@.wf(),
            r@.width == width,
            r@.height == height,
            r@.cells == blank_grid(width as nat, height as nat),
            r@.shown == blank_grid(width as nat, height as nat),
            r@.cursor_x == 0,
            r@.cursor_y == 0,
            r@.fg == DEFAULT_FG,
            r@.cursor_visible,
    {
        ScreenBuffer {
            width,
            height,
            cells: blank_rows(width, height),
            shown: blank_rows(width, height),
            cursor_x: 0,
            cursor_y: 0,
            fg: DEFAULT_FG,
            cursor_visible: true,
        }
    }

    /// Width and height in cells.
    pub fn dimensions(&self) -> (r: (usize, usize))
        ensures
            r.0 == self@.width,
            r.1 == self@.height,
    {
        (self.width, self.height)
    }

    /// Where the next write goes.
    pub fn cursor(&self) -> (r: (usize, usize))
        ensures
            r.0 == self@.cursor_x,
            r.1 == self@.cursor_y,
    {
        (self.cursor_x, self.cursor_y)
    }

    pub fn cursor_visible(&self) -> (r: bool)
        ensures
            r == self@.cursor_visible,
    {
        self.cursor_visible
    }

    /// The cell at column `x` of row `y`, or `None` off the grid.
    pub fn cell_at(&self, x: usize, y: usize) -> (r: Option<Cell>)
        requires
            self@.wf(),
        ensures
            x < self@.width && y < self@.height ==> r == Some(self@.cells[y as int][x as int]),
            !(x < self@.width && y < self@.height) ==> r.is_none(),
    {
        if x < self.width && y < self.height {
            assert(self.cells@[y as int]@ == self@.cells[y as int]);
            Some(self.cells[y][x])
        } else {
            None
        }
    }

    /// Every cell becomes blank.
    pub fn clear(&mut self)
        requires
            old(self)@.wf(),
        ensures
            final(self)@ == old(self)@.cleared(),
            final(self)@.wf(),
    {
        self.cells = blank_rows(self.width, self.height);
    }

    /// Moves the cursor; no cell changes.
    pub fn set_cursor(&mut self, x: usize, y: usize)
        requires
            old(self)@.wf(),
        ensures
            final(self)@ == old(self)@.moved(x as nat, y as nat),
            final(self)@.wf(),
    {
        self.cursor_x = x;
        self.cursor_y = y;
    }

    /// The colour that later writes use.
    pub fn set_fg(&mut self, fg: u32)
        requires
            old(self)@.wf(),
        ensures
            final(self)@ == old(self)@.inked(fg),
            final(self)@.wf(),
    {
        self.fg = fg;
    }

    pub fn set_cursor_visible(&mut self, visible: bool)
        requires
            old(self)@.wf(),
        ensures
            final(self)@ == old(self)@.with_cursor_visible(visible),
            final(self)@.wf(),
    {
        self.cursor_visible = visible;
    }
}


impl ScreenBuffer {
    /// Writes `text` at the cursor in the current colour, one cell per
    /// character, cut at the right edge; the cursor moves past the text.
    pub fn write(&mut self, text: &str)
        requires
            old(self)@.wf(),
        ensures
            final(self)@ == old(self)@.written(text@),
            final(self)@.wf(),
    {
        let cs = chars_of(text);
        self.write_chars(&cs);
    }

    /// `write`, for text held as characters.
    pub fn write_chars(&mut self, cs: &Vec<char>)
        requires
            old(self)@.wf(),
        ensures
            final(self)@ == old(self)@.written(cs@),
            final(self)@.wf(),
    {
        let ghost m = self@;
        let ghost text = cs@;
        if self.cursor_y < self.height {
            let y = self.cursor_y;
            let x0 = self.cursor_x;
            let mut row: Vec<Cell> = Vec::new();
            let mut i: usize = 0;
            assert(self.cells@[y as int]@ == m.cells[y as int]);
            assert(m.cells[y as int].len() == m.width);
            while i < self.width
                invariant
                    i <= self.width,
                    m.cells[y as int].len() == m.width,
                    self@ == m,
                    m.wf(),
                    y == m.cursor_y,
                    y < m.height,
                    x0 == m.cursor_x,
                    cs@ == text,
                    self.cells@[y as int]@ == m.cells[y as int],
                    row@ == painted_row(m.cells[y as int], x0 as int, text, m.fg).take(i as int),
                decreases self.width - i,
            {
                let c = if x0 <= i && i - x0 < cs.len() {
                    Cell::Glyph(cs[i - x0], self.fg)
                } else {
                    self.cells[y][i]
                };
                assert(i < m.width);
                assert(painted_row(m.cells[y as int], x0 as int, text, m.fg).len() == m.width);
                assert(c == painted_row(m.cells[y as int], x0 as int, text, m.fg)[i as int]);
                row.push(c);
                i = i + 1;
                assert(row@ =~= painted_row(m.cells[y as int], x0 as int, text, m.fg).take(i as int));
            }
            assert(row@ =~= painted_row(m.cells[y as int], x0 as int, text, m.fg));
            self.cells[y] = row;
            assert(rows_of(self.cells@) =~~= write_grid(m.cells, x0 as int, y as int, text, m.fg));
        }
        self.cursor_x = self.cursor_x.saturating_add(cs.len());
        assert(self@.cells =~~= m.written(text).cells);
    }

    /// Gives the cells of `area` (cut at the grid's edges) over to the image
    /// with texture handle `texture`.
    pub fn draw_image(&mut self, area: Area, texture: u64)
        requires
            old(self)@.wf(),
        ensures
            final(self)@ == old(self)@.imaged(area, texture),
            final(self)@.wf(),
    {
        let ghost m = self@;
        let ghost target = image_grid(m.cells, area, texture);
        let mut grid: Vec<Vec<Cell>> = Vec::new();
        let mut y: usize = 0;
        while y < self.height
            invariant
                y <= self.height,
                self@ == m,
                m.wf(),
                target == image_grid(m.cells, area, texture),
                grid@.len() == y,
                forall|j: int| 0 <= j < y ==> #[trigger] grid@[j]@ == target[j],
            decreases self.height - y,
        {
            assert(self.cells@[y as int]@ == m.cells[y as int]);
            let mut row: Vec<Cell> = Vec::new();
            let mut x: usize = 0;
            while x < self.width
                invariant
                    x <= self.width,
                    y < self.height,
                    self@ == m,
                    m.wf(),
                    self.cells@[y as int]@ == m.cells[y as int],
                    target == image_grid(m.cells, area, texture),
                    row@ == target[y as int].take(x as int),
                decreases self.width - x,
            {
                let inside = x >= area.x && x - area.x < area.width && y >= area.y && y - area.y
                    < area.height;
                let c = if inside {
                    Cell::Texture(texture)
                } else {
                    self.cells[y][x]
                };
                row.push(c);
                x = x + 1;
                assert(row@ =~= target[y as int].take(x as int));
            }
            assert(row@ =~= target[y as int]);
            grid.push(row);
            y = y + 1;
        }
        self.cells = grid;
        assert(self@.cells =~~= target);
    }

    /// The repaints that make the terminal show this buffer's cells: one for
    /// each cell that differs from what the last flush showed, row by row and
    /// left to right. Afterwards the buffer counts its cells as shown.
    pub fn flush(&mut self) -> (r: Vec<Paint>)
        requires
            old(self)@.wf(),
        ensures
            r@ == old(self)@.pending(),
            final(self)@ == old(self)@.flushed(),
            final(self)@.wf(),
    {
        let ghost m = self@;
        let mut out: Vec<Paint> = Vec::new();
        let mut now_shown: Vec<Vec<Cell>> = Vec::new();
        let mut y: usize = 0;
        while y < self.height
            invariant
                y <= self.height,
                self@ == m,
                m.wf(),
                out@ == grid_diff(m.shown, m.cells, m.width as int, y as int),
                now_shown@.len() == y,
                forall|j: int| 0 <= j < y ==> #[trigger] now_shown@[j]@ == m.cells[j],
            decreases self.height - y,
        {
            assert(self.cells@[y as int]@ == m.cells[y as int]);
            assert(self.shown@[y as int]@ == m.shown[y as int]);
            let ghost before = out@;
            let mut x: usize = 0;
            proof {
                assert(before + row_diff(m.shown[y as int], m.cells[y as int], y as int, 0) =~= before);
            }
            while x < self.width
                invariant
                    x <= self.width,
                    y < self.height,
                    self@ == m,
                    m.wf(),
                    self.cells@[y as int]@ == m.cells[y as int],
                    self.shown@[y as int]@ == m.shown[y as int],
                    out@ == before + row_diff(m.shown[y as int], m.cells[y as int], y as int, x as int),
                decreases self.width - x,
            {
                let c = self.cells[y][x];
                let ghost d = row_diff(m.shown[y as int], m.cells[y as int], y as int, x as int);
                if self.shown[y][x] != c {
                    out.push(Paint { x: x, y: y, cell: c });
                    assert((before + d).push(Paint { x: x, y: y, cell: c }) =~= before + d.push(
                        Paint { x: x, y: y, cell: c },
                    ));
                }
                x = x + 1;
            }
            now_shown.push(copy_row(&self.cells[y]));
            y = y + 1;
        }
        self.shown = now_shown;
        assert(self@.shown =~~= m.cells);
        out
    }
}

proof fn lemma_row_diff_same(r: Seq<Cell>, y: int, n: int)
    ensures
        row_diff(r, r, y, n) == Seq::<Paint>::empty(),
    decreases n,
{
    if n > 0 {
        lemma_row_diff_same(r, y, n - 1);
    }
}

proof fn lemma_grid_diff_same(g: Seq<Seq<Cell>>, w: int, n: int)
    ensures
        grid_diff(g, g, w, n) == Seq::<Paint>::empty(),
    decreases n,
{
    if n > 0 {
        lemma_grid_diff_same(g, w, n - 1);
        lemma_row_diff_same(g[n - 1], n - 1, w);
        assert(Seq::<Paint>::empty() + Seq::<Paint>::empty() =~= Seq::<Paint>::empty());
    }
}

/// Flushing twice with no drawing in between: the second flush repaints
/// nothing.
pub proof fn flush_twice_repaints_nothing(m: ScreenModel)
    requires
        m.wf(),
    ensures
        m.flushed().pending() == Seq::<Paint>::empty(),
{
    lemma_grid_diff_same(m.cells, m.width as int, m.height as int);
}

} // verus!
