//! The grid of resolved character cells and the two encodings a finished
//! frame is handed on in: an ANSI string for a terminal, and one packed
//! `u32` per cell for a WebAssembly host.
use vstd::prelude::*;
use crate::decimal::{dec, push_decimal};

verus! {

/// One resolved character cell: a glyph and its foreground colour.
/// `overlay` marks heads-up-display text, which the scene resolve leaves alone.
#[derive(Clone, Copy, Debug)]
pub struct Cell {
    pub ch: char,
    pub color: (u8, u8, u8),
    pub overlay: bool,
}

impl Cell {
    /// An empty cell: a black space.
    pub open spec fn blank() -> Cell {
        Cell { ch: ' ', color: (0, 0, 0), overlay: false }
    }

    /// A heads-up-display character, drawn in white over the scene.
    pub open spec fn hud(ch: char) -> Cell {
        Cell { ch, color: (255, 255, 255), overlay: true }
    }
}

impl Default for Cell {
    fn default() -> (c: Cell)
        ensures
            c == Cell::blank(),
    {
        Cell { ch: ' ', color: (0, 0, 0), overlay: false }
    }
}

/// A `width` by `height` grid of cells, stored row by row.
pub struct Frame {
    width: usize,
    height: usize,
    cells: Vec<Cell>,
}

impl View for Frame {
    type V = Seq<Cell>;

    closed spec fn view(&self) -> Seq<Cell> {
        self.cells@
    }
}

/// A sequence of `n` blank cells.
pub open spec fn blank_cells(n: nat) -> Seq<Cell> {
    Seq::new(n, |i: int| Cell::blank())
}

/// The escape sequence that selects a 24-bit foreground colour.
pub open spec fn sgr_color(c: (u8, u8, u8)) -> Seq<char> {
    seq!['\x1b', '[', '3', '8', ';', '2', ';'] + dec(c.0 as nat) + seq![';'] + dec(c.1 as nat)
        + seq![';'] + dec(c.2 as nat) + seq!['m']
}

/// Cursor home, written once before the first row.
pub open spec fn frame_start() -> Seq<char> {
    seq!['\x1b', '[', 'H']
}

/// Attribute reset and line break, written after every row.
pub open spec fn row_end() -> Seq<char> {
    seq!['\x1b', '[', '0', 'm', '\r', '\n']
}

/// Text for cell `i` of a row: its character, preceded by a colour escape when
/// colour is on and the cell starts the row or changes colour from its left
/// neighbour.
pub open spec fn cell_text(row: Seq<Cell>, i: int, color: bool) -> Seq<char> {
    if color && (i == 0 || row[i - 1].color != row[i].color) {
        sgr_color(row[i].color).push(row[i].ch)
    } else {
        seq![row[i].ch]
    }
}

/// Text of the first `n` cells of a row.
pub open spec fn row_text(row: Seq<Cell>, color: bool, n: nat) -> Seq<char>
    decreases n,
{
    if n == 0 {
        Seq::empty()
    } else {
        row_text(row, color, (n - 1) as nat) + cell_text(row, n - 1, color)
    }
}

/// Text of the first `r` rows of a grid `width` cells wide.
pub open spec fn rows_text(cells: Seq<Cell>, width: nat, color: bool, r: nat) -> Seq<char>
    decreases r,
{
    if r == 0 {
        Seq::empty()
    } else {
        rows_text(cells, width, color, (r - 1) as nat) + row_text(
            cells.subrange((r - 1) * width, (r * width) as int),
            color,
            width,
        ) + row_end()
    }
}

/// The whole frame as a terminal string.
pub open spec fn frame_text(cells: Seq<Cell>, width: nat, height: nat, color: bool) -> Seq<char> {
    frame_start() + rows_text(cells, width, color, height)
}

/// A cell packed as `0xBBGGRRCC`: character code in the low byte, then red,
/// green and blue.
pub open spec fn pack(c: Cell) -> u32 {
    (c.ch as u32) | ((c.color.0 as u32) << 8u32) | ((c.color.1 as u32) << 16u32) | ((
    c.color.2 as u32) << 24u32)
}

/// Number of cells a text of `len` characters covers when written at column
/// `x` of a row `width` cells wide: the text is cut at the right edge.
pub open spec fn text_span(width: nat, x: nat, len: nat) -> nat {
    if x >= width {
        0
    } else if len <= width - x {
        len
    } else {
        (width - x) as nat
    }
}

/// The cells after writing `s` at column `x` of row `y`.
pub open spec fn with_text(
    cells: Seq<Cell>,
    width: nat,
    height: nat,
    x: nat,
    y: nat,
    s: Seq<char>,
) -> Seq<Cell> {
    let start: nat = y * width + x;
    let span: nat = text_span(width, x, s.len());
    Seq::new(
        cells.len(),
        |i: int|
            if y < height && start <= i < start + span {
                Cell::hud(s[i - start])
            } else {
                cells[i]
            },
    )
}

proof fn lemma_row_index(w: nat, h: nat, r: nat, c: nat)
    requires
        r < h,
        c < w,
    ensures
        r * w + c < w * h,
        r * w + w <= w * h,
        (r + 1) * w == r * w + w,
{
    assert(r * w + c < w * h) by (nonlinear_arith)
        requires
            r < h,
            c < w,
    ;
    assert(r * w + w <= w * h) by (nonlinear_arith)
        requires
            r < h,
    ;
    assert((r + 1) * w == r * w + w) by (nonlinear_arith);
}

impl Frame {
    pub closed spec fn spec_width(&self) -> nat {
        self.width as nat
    }

    pub closed spec fn spec_height(&self) -> nat {
        self.height as nat
    }

    /// The grid holds exactly one cell per column and row.
    pub open spec fn inv(&self) -> bool {
        self@.len() == self.spec_width() * self.spec_height()
    }

    fn blank_vec(n: usize) -> (v: Vec<Cell>)
        ensures
            v@ == blank_cells(n as nat),
    {
        let mut v: Vec<Cell> = Vec::new();
        let mut i: usize = 0;
        while i < n
            invariant
                i <= n,
                v@ == blank_cells(i as nat),
            decreases n - i,
        {
            v.push(Cell::default());
            i = i + 1;
            proof {
                assert(v@ =~= blank_cells(i as nat));
            }
        }
        v
    }

    /// A blank frame of the given size.
    pub fn new(width: usize, height: usize) -> (f: Frame)
        requires
            width * height <= usize::MAX,
        ensures
            f.inv(),
            f.spec_width() == width,
            f.spec_height() == height,
            f@ == blank_cells(width as nat * height as nat),
    {
        let n: usize = width * height;
        Frame { width, height, cells: Self::blank_vec(n) }
    }

    pub fn width(&self) -> (w: usize)
        ensures
            w == self.spec_width(),
    {
        self.width
    }

    pub fn height(&self) -> (h: usize)
        ensures
            h == self.spec_height(),
    {
        self.height
    }

    /// Gives the frame a new size; every cell of the old image is dropped.
    pub fn resize(&mut self, width: usize, height: usize)
        requires
            width * height <= usize::MAX,
        ensures
            final(self).inv(),
            final(self).spec_width() == width,
            final(self).spec_height() == height,
            final(self)@ == blank_cells(width as nat * height as nat),
    {
        let n: usize = width * height;
        self.width = width;
        self.height = height;
        self.cells = Self::blank_vec(n);
    }

    /// Blanks every cell; the size stays.
    pub fn clear(&mut self)
        requires
            old(self).inv(),
        ensures
            final(self).inv(),
            final(self).spec_width() == old(self).spec_width(),
            final(self).spec_height() == old(self).spec_height(),
            final(self)@ == blank_cells(old(self)@.len()),
    {
        let n: usize = self.cells.len();
        self.cells = Self::blank_vec(n);
    }

    /// The cell at a row-major index.
    pub fn cell_at(&self, index: usize) -> (c: Cell)
        requires
            index < self@.len(),
        ensures
            c == self@[index as int],
    {
        self.cells[index]
    }

    /// Replaces the cell at a row-major index.
    pub fn set_cell_at(&mut self, index: usize, cell: Cell)
        requires
            index < old(self)@.len(),
        ensures
            final(self).spec_width() == old(self).spec_width(),
            final(self).spec_height() == old(self).spec_height(),
            final(self)@ == old(self)@.update(index as int, cell),
    {
        self.cells.set(index, cell);
    }

    /// Writes `value` at column `x` of row `y` as heads-up-display cells,
    /// cut at the right edge; a row below the frame is ignored.
    pub fn text(&mut self, x: usize, y: usize, value: &str)
        requires
            old(self).inv(),
        ensures
            final(self).inv(),
            final(self).spec_width() == old(self).spec_width(),
            final(self).spec_height() == old(self).spec_height(),
            final(self)@ == with_text(
                old(self)@,
                old(self).spec_width(),
                old(self).spec_height(),
                x as nat,
                y as nat,
                value@,
            ),
    {
        let ghost w = self.width as nat;
        let ghost h = self.height as nat;
        let ghost old_cells = self.cells@;
        let n: usize = self.cells.len();
        if y >= self.height || x >= self.width {
            assert(self.cells@ =~= with_text(old_cells, w, h, x as nat, y as nat, value@));
            return;
        }
        let avail: usize = self.width - x;
        proof {
            lemma_row_index(w, h, y as nat, x as nat);
        }
        let start: usize = y * self.width + x;
        let chars = chars_of(value);
        let mut cells: Vec<Cell> = Vec::new();
        std::mem::swap(&mut cells, &mut self.cells);
        let mut i: usize = 0;
        while i < avail && i < chars.len()
            invariant
                chars@ == value@,
                y < h,
                cells@.len() == w * h,
                n == w * h,
                old_cells.len() == w * h,
                x < w,
                avail == w - x,
                start == y * w + x,
                y * w + w <= w * h,
                i <= avail,
                i <= chars@.len(),
                forall|k: int|
                    0 <= k < cells@.len() ==> #[trigger] cells@[k] == (if start <= k
                        < start + i { Cell::hud(value@[k - start]) } else { old_cells[k] }),
            decreases avail - i,
        {
            let cell = Cell { ch: chars[i], color: (255, 255, 255), overlay: true };
            let ghost before = cells@;
            cells.set(start + i, cell);
            proof {
                vstd::seq::axiom_seq_update_len(before, start + i, cell);
                assert forall|k: int| 0 <= k < cells@.len() implies #[trigger] cells@[k] == (if start
                    <= k < start + i + 1 { Cell::hud(value@[k - start]) } else { old_cells[k] }) by {
                    if k == start + i {
                        vstd::seq::axiom_seq_update_same(before, start + i, cell);
                    } else {
                        vstd::seq::axiom_seq_update_different(before, k, start + i, cell);
                    }
                }
            }
            i = i + 1;
        }
        self.cells = cells;
        proof {
            let span: nat = text_span(w, x as nat, value@.len());
            assert(i == span);
            assert(self.cells@ =~= with_text(old_cells, w, h, x as nat, y as nat, value@));
        }
    }

    /// The frame as one terminal string: cursor home, then each row's
    /// characters with colour escapes where the colour changes (when `color`
    /// is on), each row closed by an attribute reset and a line break.
    pub fn frame_string(&self, color: bool) -> (out: String)
        requires
            self.inv(),
            self.spec_width() > 0,
        ensures
            out@ == frame_text(self@, self.spec_width(), self.spec_height(), color),
    {
        let ghost w = self.width as nat;
        let ghost h = self.height as nat;
        let n: usize = self.cells.len();
        let mut out = String::new();
        out.push('\x1b');
        out.push('[');
        out.push('H');
        let mut r: usize = 0;
        while r < self.height
            invariant
                w == self.width,
                h == self.height,
                w > 0,
                self.cells@.len() == w * h,
                r <= h,
                n == w * h,
                out@ == frame_start() + rows_text(self.cells@, w, color, r as nat),
            decreases h - r,
        {
            proof {
                lemma_row_index(w, h, r as nat, 0);
            }
            let base: usize = r * self.width;
            let ghost row = self.cells@.subrange(base as int, base + w);
            let ghost before = out@;
            let mut current: Option<(u8, u8, u8)> = None;
            let mut c: usize = 0;
            while c < self.width
                invariant
                    w == self.width,
                    h == self.height,
                    self.cells@.len() == w * h,
                    r < h,
                    base == r * w,
                    base + w <= w * h,
                    n == w * h,
                    row == self.cells@.subrange(base as int, base + w),
                    c <= w,
                    out@ == before + row_text(row, color, c as nat),
                    color && c > 0 ==> current == Some(row[c - 1].color),
                    c == 0 ==> current is None,
                decreases w - c,
            {
                let cell = self.cells[base + c];
                assert(cell == row[c as int]);
                let changed = match current {
                    Some(cur) => cur.0 != cell.color.0 || cur.1 != cell.color.1 || cur.2
                        != cell.color.2,
                    None => true,
                };
                let ghost prefix = out@;
                if color && changed {
                    push_sgr(&mut out, cell.color);
                    current = Some(cell.color);
                }
                out.push(cell.ch);
                proof {
                    assert(color ==> (changed == (c == 0 || row[c - 1].color != row[c as int].color)));
                    assert(out@ =~= prefix + cell_text(row, c as int, color));
                    assert(row_text(row, color, (c + 1) as nat) == row_text(row, color, c as nat)
                        + cell_text(row, c as int, color));
                }
                c = c + 1;
            }
            out.push('\x1b');
            out.push('[');
            out.push('0');
            out.push('m');
            out.push('\r');
            out.push('\n');
            proof {
                assert((r + 1) * w == r * w + w) by (nonlinear_arith);
                assert(rows_text(self.cells@, w, color, (r + 1) as nat) == rows_text(
                    self.cells@,
                    w,
                    color,
                    r as nat,
                ) + row_text(row, color, w) + row_end());
                assert(out@ =~= frame_start() + rows_text(self.cells@, w, color, (r + 1) as nat));
            }
            r = r + 1;
        }
        out
    }

    /// Replaces `output` with one packed `u32` per cell, in row-major order.
    pub fn write_packed_cells(&self, output: &mut Vec<u32>)
        ensures
            final(output)@ == self@.map_values(|c: Cell| pack(c)),
    {
        output.clear();
        let mut i: usize = 0;
        while i < self.cells.len()
            invariant
                i <= self.cells@.len(),
                output@ == self.cells@.take(i as int).map_values(|c: Cell| pack(c)),
            decreases self.cells@.len() - i,
        {
            let cell = self.cells[i];
            let packed: u32 = (cell.ch as u32) | ((cell.color.0 as u32) << 8u32) | ((
            cell.color.1 as u32) << 16u32) | ((cell.color.2 as u32) << 24u32);
            output.push(packed);
            i = i + 1;
            proof {
                assert(output@ =~= self.cells@.take(i as int).map_values(|c: Cell| pack(c)));
            }
        }
        proof {
            assert(self.cells@.take(i as int) =~= self.cells@);
        }
    }
}

/// The row-major index of cell (`x`, `y`) in a grid `width` cells wide that
/// holds `len` cells, when the column is inside the grid and the index is in
/// range and representable.
pub fn checked_cell_index(x: usize, y: usize, width: usize, len: usize) -> (index: Option<usize>)
    ensures
        index == (if x < width && y * width + x < len {
            Some((y * width + x) as usize)
        } else {
            None
        }),
{
    if x >= width {
        return None;
    }
    // y * width + x < len <= usize::MAX whenever the index is wanted, so the
    // checked arithmetic only rejects indices that are out of range anyway.
    match y.checked_mul(width) {
        Some(row) => match row.checked_add(x) {
            Some(i) => if i < len {
                Some(i)
            } else {
                None
            },
            None => None,
        },
        None => None,
    }
}

/// The grid for a terminal of `columns` by `rows` characters: one column and
/// one row are left free so the terminal never scrolls, and at least one
/// cell remains either way.
pub fn terminal_viewport(columns: u16, rows: u16) -> (size: (usize, usize))
    ensures
        size.0 == (if columns > 1 {
            columns - 1
        } else {
            1
        }),
        size.1 == (if rows > 1 {
            rows - 1
        } else {
            1
        }),
{
    let w: u16 = if columns > 1 {
        columns - 1
    } else {
        1
    };
    let h: u16 = if rows > 1 {
        rows - 1
    } else {
        1
    };
    (w as usize, h as usize)
}

/// The grid for a canvas host asking for `width` by `height` cells: at
/// least one cell each way.
pub fn host_viewport(width: u32, height: u32) -> (size: (usize, usize))
    ensures
        size.0 == (if width > 1 {
            width
        } else {
            1
        }),
        size.1 == (if height > 1 {
            height
        } else {
            1
        }),
{
    let w: u32 = if width > 1 {
        width
    } else {
        1
    };
    let h: u32 = if height > 1 {
        height
    } else {
        1
    };
    (w as usize, h as usize)
}

proof fn lemma_pack_bits(ch: u32, r: u32, g: u32, b: u32)
    by (bit_vector)
    requires
        ch < 256,
        r < 256,
        g < 256,
        b < 256,
    ensures
        (ch | (r << 8u32) | (g << 16u32) | (b << 24u32)) & 0xffu32 == ch,
        ((ch | (r << 8u32) | (g << 16u32) | (b << 24u32)) >> 8u32) & 0xffu32 == r,
        ((ch | (r << 8u32) | (g << 16u32) | (b << 24u32)) >> 16u32) & 0xffu32 == g,
        (ch | (r << 8u32) | (g << 16u32) | (b << 24u32)) >> 24u32 == b,
{
}

/// A cell whose character code fits in one byte (ASCII among them) is
/// recovered from its packed word: the low byte is the character, then red,
/// green and blue.
pub proof fn lemma_pack_roundtrip(c: Cell)
    requires
        (c.ch as u32) < 256,
    ensures
        pack(c) & 0xffu32 == c.ch as u32,
        (pack(c) >> 8u32) & 0xffu32 == c.color.0 as u32,
        (pack(c) >> 16u32) & 0xffu32 == c.color.1 as u32,
        pack(c) >> 24u32 == c.color.2 as u32,
{
    lemma_pack_bits(c.ch as u32, c.color.0 as u32, c.color.1 as u32, c.color.2 as u32);
}

/// Text changes only cells of its own row, from its column up to the
/// right edge: every other cell keeps its value.
pub proof fn lemma_text_stays_in_row(
    cells: Seq<Cell>,
    width: nat,
    height: nat,
    x: nat,
    y: nat,
    s: Seq<char>,
    k: int,
)
    requires
        cells.len() == width * height,
        0 <= k < cells.len(),
        !(y < height && y * width + x <= k < y * width + width),
    ensures
        with_text(cells, width, height, x, y, s)[k] == cells[k],
{
}

/// Text written at a column inside the frame covers as many cells as it has
/// characters, up to the right edge, and each covered cell shows the
/// corresponding character as overlay.
pub proof fn lemma_text_writes_its_characters(
    cells: Seq<Cell>,
    width: nat,
    height: nat,
    x: nat,
    y: nat,
    s: Seq<char>,
    j: int,
)
    requires
        cells.len() == width * height,
        y < height,
        x < width,
        0 <= j < s.len(),
        x + j < width,
    ensures
        y * width + x + j < cells.len(),
        with_text(cells, width, height, x, y, s)[y * width + x + j] == Cell::hud(s[j]),
{
    lemma_row_index(width, height, y, (x + j) as nat);
}

/// With colour off a row is written as exactly its characters, in order.
pub proof fn lemma_plain_row_text(row: Seq<Cell>, n: nat)
    requires
        n <= row.len(),
    ensures
        row_text(row, false, n) == row.take(n as int).map_values(|c: Cell| c.ch),
    decreases n,
{
    if n > 0 {
        lemma_plain_row_text(row, (n - 1) as nat);
        assert(row.take(n as int).map_values(|c: Cell| c.ch) =~= row.take(n - 1).map_values(
            |c: Cell| c.ch,
        ).push(row[n - 1].ch));
    } else {
        assert(row.take(0).map_values(|c: Cell| c.ch) =~= Seq::<char>::empty());
    }
}

/// With colour on, each character is written in its cell's full colour: a
/// cell that starts its row, or whose red, green or blue differs from its
/// left neighbour's, is preceded by the escape for its own (r, g, b); a cell
/// whose three channels all equal its neighbour's is written bare, still in
/// that same colour.
pub proof fn lemma_color_escapes(row: Seq<Cell>, i: nat)
    requires
        i < row.len(),
    ensures
        (i == 0 || row[i - 1].color.0 != row[i as int].color.0 || row[i - 1].color.1
            != row[i as int].color.1 || row[i - 1].color.2 != row[i as int].color.2)
            ==> row_text(row, true, i + 1) == row_text(row, true, i) + sgr_color(
            row[i as int].color,
        ) + seq![row[i as int].ch],
        (i > 0 && row[i - 1].color.0 == row[i as int].color.0 && row[i - 1].color.1
            == row[i as int].color.1 && row[i - 1].color.2 == row[i as int].color.2)
            ==> row_text(row, true, i + 1) == row_text(row, true, i) + seq![row[i as int].ch],
        row_text(row, true, 0) == Seq::<char>::empty(),
{
    assert(row_text(row, true, i + 1) == row_text(row, true, i) + cell_text(row, i as int, true));
    if i == 0 || row[i - 1].color.0 != row[i as int].color.0 || row[i - 1].color.1
        != row[i as int].color.1 || row[i - 1].color.2 != row[i as int].color.2 {
        assert(row_text(row, true, i + 1) =~= row_text(row, true, i) + sgr_color(
            row[i as int].color,
        ) + seq![row[i as int].ch]);
    } else {
        assert(row[i - 1].color == row[i as int].color);
    }
}

/// With colour on, a row starts with the escape for its first cell's colour.
pub proof fn lemma_row_starts_with_color(row: Seq<Cell>, n: nat)
    requires
        1 <= n <= row.len(),
    ensures
        row_text(row, true, n).take(sgr_color(row[0].color).len() as int) == sgr_color(
            row[0].color,
        ),
    decreases n,
{
    if n > 1 {
        lemma_row_starts_with_color(row, (n - 1) as nat);
        let prev = row_text(row, true, (n - 1) as nat);
        assert(prev.len() >= sgr_color(row[0].color).len()) by {
            lemma_row_text_len(row, (n - 1) as nat);
        }
        assert(row_text(row, true, n).take(sgr_color(row[0].color).len() as int) =~= prev.take(
            sgr_color(row[0].color).len() as int,
        ));
    } else {
        reveal_with_fuel(row_text, 2);
        assert(row_text(row, true, 1) =~= sgr_color(row[0].color).push(row[0].ch));
        assert(row_text(row, true, n).take(sgr_color(row[0].color).len() as int) =~= sgr_color(
            row[0].color,
        ));
    }
}

proof fn lemma_row_text_len(row: Seq<Cell>, n: nat)
    requires
        1 <= n <= row.len(),
    ensures
        row_text(row, true, n).len() >= sgr_color(row[0].color).len(),
    decreases n,
{
    if n > 1 {
        lemma_row_text_len(row, (n - 1) as nat);
    } else {
        reveal_with_fuel(row_text, 2);
    }
}

fn chars_of(value: &str) -> (v: Vec<char>)
    ensures
        v@ == value@,
{
    let mut v: Vec<char> = Vec::new();
    for ch in it: value.chars()
        invariant
            it.seq() == value@,
            v@ == it.seq().take(it.index() as int),
    {
        v.push(ch);
    }
    v
}

fn push_sgr(out: &mut String, c: (u8, u8, u8))
    ensures
        final(out)@ == old(out)@ + sgr_color(c),
{
    out.push('\x1b');
    out.push('[');
    out.push('3');
    out.push('8');
    out.push(';');
    out.push('2');
    out.push(';');
    push_decimal(out, c.0 as u64);
    out.push(';');
    push_decimal(out, c.1 as u64);
    out.push(';');
    push_decimal(out, c.2 as u64);
    out.push('m');
    proof {
        assert(final(out)@ =~= old(out)@ + sgr_color(c));
    }
}

} // verus!
