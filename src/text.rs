//! Text-mode display driver over an 80x25 grid of (character, attribute)
//! cells, with a cursor and an ambient color.

use vstd::prelude::*;
use vstd::string::StringSliceAdditionalSpecFns;

verus! {

/// Columns of the grid.
pub const WIDTH: usize = 80;

/// Rows of the grid.
pub const HEIGHT: usize = 25;

/// Cells of the grid.
pub const CELLS: usize = 2000;

/// White on black: the ambient color at start-up.
pub const DEFAULT_CLR: u8 = 0x0F;

/// White on red: marks diagnostics that must not be erased.
pub const PANIC_CLR: u8 = 0x4F;

/// Blink state with a bright foreground on a black background.
pub const BLINK_FORE: u8 = 0x0F;

/// Blink state with a black foreground on a bright background.
pub const BLINK_BACK: u8 = 0xF0;

/// The blank character.
pub const SPACE: u8 = 0x20;

/// The line-feed byte.
pub const NEWLINE: u8 = 0x0A;

/// What a grid holds, as mathematics: its cells in row-major order, the
/// cursor, and the ambient color used for padding and erasing.
pub struct Screen {
    pub cells: Seq<(u8, u8)>,
    pub cursor: nat,
    pub ambient: u8,
}

/// Every cell a space in `color`.
pub open spec fn blank_cells(color: u8) -> Seq<(u8, u8)> {
    Seq::new(CELLS as nat, |i: int| (SPACE, color))
}

/// A new writer's grid: zero bytes everywhere, the cursor at the start and
/// the default ambient color.
pub open spec fn fresh_screen() -> Screen {
    Screen { cells: Seq::new(CELLS as nat, |i: int| (0u8, 0u8)), cursor: 0, ambient: DEFAULT_CLR }
}

/// A grid is well formed when it has all its cells and the cursor lies on
/// one of them or just past the last.
pub open spec fn screen_wf(s: Screen) -> bool {
    s.cells.len() == CELLS && s.cursor <= CELLS
}

/// `clear(color)`: all cells blank in `color`, cursor at the start.
pub open spec fn cleared(s: Screen, color: u8) -> Screen {
    Screen { cells: blank_cells(color), cursor: 0, ambient: s.ambient }
}

/// Writing past the last cell first clears the grid (in color 0) and
/// starts again at the top.
pub open spec fn wrapped(s: Screen) -> Screen {
    if s.cursor >= CELLS {
        cleared(s, 0)
    } else {
        s
    }
}

/// Stores `(ch, attr)` under the cursor and advances it.
pub open spec fn put_cell(s: Screen, ch: u8, attr: u8) -> Screen {
    Screen { cells: s.cells.update(s.cursor as int, (ch, attr)), cursor: s.cursor + 1, ..s }
}

/// Writes `n` spaces in `attr` from the cursor on and advances it by `n`.
pub open spec fn padded(s: Screen, n: nat, attr: u8) -> Screen {
    Screen {
        cells: Seq::new(
            s.cells.len(),
            |i: int|
                if s.cursor <= i < s.cursor + n {
                    (SPACE, attr)
                } else {
                    s.cells[i]
                },
        ),
        cursor: s.cursor + n,
        ..s
    }
}

/// Spaces from the cursor to the next multiple of the width (a whole row
/// when the cursor starts a row).
pub open spec fn to_row_end(cursor: nat) -> nat {
    (WIDTH - cursor % (WIDTH as nat)) as nat
}

/// One byte of output: a line feed pads the row with the ambient color,
/// any other byte takes one cell in `attr`.
pub open spec fn wrote_byte(s: Screen, b: u8, attr: u8) -> Screen {
    let t = wrapped(s);
    if b == NEWLINE {
        padded(t, to_row_end(t.cursor), t.ambient)
    } else {
        put_cell(t, b, attr)
    }
}

/// The bytes written one after the other.
pub open spec fn wrote_bytes(s: Screen, bytes: Seq<u8>, attr: u8) -> Screen
    decreases bytes.len(),
{
    if bytes.len() == 0 {
        s
    } else {
        wrote_byte(wrote_bytes(s, bytes.drop_last(), attr), bytes.last(), attr)
    }
}

/// Bytes written for a transient message: in the message's color, which
/// also pads line feeds, with the cursor and ambient color left as they were.
pub open spec fn overwritten(s: Screen, bytes: Seq<u8>, attr: u8) -> Screen {
    Screen {
        cells: wrote_bytes(Screen { ambient: attr, ..s }, bytes, attr).cells,
        cursor: s.cursor,
        ambient: s.ambient,
    }
}

/// The blink toggle of one attribute; other attributes stay.
pub open spec fn toggled(attr: u8) -> u8 {
    if attr == BLINK_FORE {
        BLINK_BACK
    } else if attr == BLINK_BACK {
        BLINK_FORE
    } else {
        attr
    }
}

/// `blink()`: toggles the attribute under the cursor, if there is a cell there.
pub open spec fn blinked(s: Screen) -> Screen {
    if s.cursor < CELLS {
        let c = s.cells[s.cursor as int];
        Screen { cells: s.cells.update(s.cursor as int, (c.0, toggled(c.1))), ..s }
    } else {
        s
    }
}

/// `clear_last()`: steps back one cell (staying at the first) and blanks
/// it in the ambient color, unless that cell carries the panic color, in
/// which case nothing changes.
pub open spec fn erased_last(s: Screen) -> Screen {
    let p: nat = if s.cursor == 0 {
        0
    } else {
        (s.cursor - 1) as nat
    };
    if s.cells[p as int].1 == PANIC_CLR {
        s
    } else {
        Screen { cells: s.cells.update(p as int, (SPACE, s.ambient)), cursor: p, ambient: s.ambient }
    }
}

proof fn lemma_row_end_fits(c: nat)
    requires
        c < CELLS,
    ensures
        c + to_row_end(c) <= CELLS,
        to_row_end(c) <= WIDTH,
{
    assert(c % 80 < 80) by (nonlinear_arith);
    assert(c + (80 - c % 80) <= 2000) by (nonlinear_arith)
        requires
            c < 2000,
    {
        let q = c / 80;
        let r = c % 80;
        assert(c == 80 * q + r);
        assert(q <= 24);
    }
}

/// Blinking twice in a row gives back the grid as it was: the toggle swaps
/// the two blink states and leaves every other attribute alone.
pub proof fn lemma_blink_twice(s: Screen)
    requires
        screen_wf(s),
    ensures
        blinked(blinked(s)) == s,
{
    if s.cursor < CELLS {
        assert(blinked(blinked(s)).cells =~= s.cells);
    }
}

/// After `clear(color)` every one of the grid's cells holds a space in
/// `color`, and the cursor is at the start.
pub proof fn lemma_clear_blanks(s: Screen, color: u8)
    ensures
        cleared(s, color).cells.len() == CELLS,
        forall|i: int| 0 <= i < CELLS ==> #[trigger] cleared(s, color).cells[i] == (SPACE, color),
        cleared(s, color).cursor == 0,
{
}

/// A display over a grid of cells held in memory.
pub struct Writer {
    cells: [(u8, u8); 2000],
    cursor: usize,
    ambient: u8,
}

impl View for Writer {
    type V = Screen;

    closed spec fn view(&self) -> Screen {
        Screen { cells: self.cells@, cursor: self.cursor as nat, ambient: self.ambient }
    }
}

impl Writer {
    pub closed spec fn wf(&self) -> bool {
        self.cursor <= CELLS
    }

    proof fn lemma_view_wf(&self)
        requires
            self.wf(),
        ensures
            screen_wf(self@),
    {
        assert(self.cells@.len() == CELLS);
    }

    /// A grid of zero bytes, with the cursor at the start and the default
    /// ambient color.
    pub fn new() -> (r: Writer)
        ensures
            r.wf(),
            screen_wf(r@),
            r@ == fresh_screen(),
    {
        let r = Writer { cells: [(0u8, 0u8); 2000], cursor: 0, ambient: DEFAULT_CLR };
        assert(r@.cells =~= fresh_screen().cells);
        r
    }

    /// The cursor: an index into the grid, at most the number of cells.
    pub fn cursor(&self) -> (r: usize)
        ensures
            r == self@.cursor,
    {
        self.cursor
    }

    /// The ambient color.
    pub fn ambient(&self) -> (r: u8)
        ensures
            r == self@.ambient,
    {
        self.ambient
    }

    /// The character and attribute of cell `i`.
    pub fn cell(&self, i: usize) -> (r: (u8, u8))
        requires
            i < CELLS,
        ensures
            r == self@.cells[i as int],
    {
        self.cells[i]
    }

    /// Replaces the ambient color.
    pub fn set_ambient(&mut self, colour: u8)
        requires
            old(self).wf(),
        ensures
            final(self).wf(),
            final(self)@ == (Screen { ambient: colour, ..old(self)@ }),
    {
        self.ambient = colour;
    }

    /// Moves the cursor one cell back.
    pub fn cursor_left(&mut self)
        requires
            old(self).wf(),
            old(self)@.cursor > 0,
        ensures
            final(self).wf(),
            final(self)@ == (Screen { cursor: (old(self)@.cursor - 1) as nat, ..old(self)@ }),
    {
        self.cursor = self.cursor - 1;
    }

    /// Moves the cursor one cell on.
    pub fn cursor_right(&mut self)
        requires
            old(self).wf(),
            old(self)@.cursor < CELLS,
        ensures
            final(self).wf(),
            final(self)@ == (Screen { cursor: old(self)@.cursor + 1, ..old(self)@ }),
    {
        self.cursor = self.cursor + 1;
    }

    /// Fills every cell with a space in `colour` and moves the cursor to
    /// the start.
    pub fn clear(&mut self, colour: u8)
        requires
            old(self).wf(),
        ensures
            final(self).wf(),
            final(self)@ == cleared(old(self)@, colour),
    {
        let mut i: usize = 0;
        while i < CELLS
            invariant
                i <= CELLS,
                self.ambient == old(self).ambient,
                forall|j: int| 0 <= j < i ==> self.cells@[j] == (SPACE, colour),
            decreases CELLS - i,
        {
            self.cells[i] = (SPACE, colour);
            i = i + 1;
        }
        self.cursor = 0;
        assert(self@.cells =~= blank_cells(colour));
    }

    /// Toggles the attribute under the cursor between the two blink states;
    /// any other attribute, or a cursor past the last cell, is left alone.
    /// Used in pairs to flash the caret.
    pub fn blink(&mut self)
        requires
            old(self).wf(),
        ensures
            final(self).wf(),
            final(self)@ == blinked(old(self)@),
    {
        if self.cursor < CELLS {
            let c = self.cells[self.cursor];
            if c.1 == BLINK_FORE {
                self.cells[self.cursor] = (c.0, BLINK_BACK);
            } else if c.1 == BLINK_BACK {
                self.cells[self.cursor] = (c.0, BLINK_FORE);
            }
            assert(self@.cells =~= blinked(old(self)@).cells);
        }
    }

    /// Steps the cursor back one cell and blanks it in the ambient color,
    /// but never onto a cell in the panic color: there it does nothing.
    pub fn clear_last(&mut self)
        requires
            old(self).wf(),
        ensures
            final(self).wf(),
            final(self)@ == erased_last(old(self)@),
    {
        let p: usize = if self.cursor == 0 {
            0
        } else {
            self.cursor - 1
        };
        if self.cells[p].1 == PANIC_CLR {
            return;
        }
        self.cursor = p;
        self.cells[p] = (SPACE, self.ambient);
    }

    /// Writes one byte at the cursor: see `wrote_byte`.
    pub fn write_byte(&mut self, b: u8, attr: u8)
        requires
            old(self).wf(),
        ensures
            final(self).wf(),
            final(self)@ == wrote_byte(old(self)@, b, attr),
    {
        if self.cursor >= CELLS {
            self.clear(0);
        }
        let ghost t = self@;
        if b == NEWLINE {
            let n: usize = WIDTH - self.cursor % WIDTH;
            proof {
                lemma_row_end_fits(self.cursor as nat);
            }
            let start: usize = self.cursor;
            let mut k: usize = 0;
            assert(padded(t, 0, t.ambient).cells =~= t.cells);
            while k < n
                invariant
                    t == wrapped(old(self)@),
                    t.cursor == start,
                    start < CELLS,
                    start + n <= CELLS,
                    n == to_row_end(start as nat),
                    k <= n,
                    self.wf(),
                    self@ == padded(t, k as nat, t.ambient),
                decreases n - k,
            {
                proof {
                    self.lemma_view_wf();
                }
                self.cells[self.cursor] = (SPACE, self.ambient);
                self.cursor = self.cursor + 1;
                assert(self@.cells =~= padded(t, (k + 1) as nat, t.ambient).cells);
                k = k + 1;
            }
        } else {
            self.cells[self.cursor] = (b, attr);
            self.cursor = self.cursor + 1;
        }
    }

    /// Writes `bytes[lo..hi]` one after the other from the cursor on.
    pub fn display_range(&mut self, bytes: &[u8], lo: usize, hi: usize, attr: u8)
        requires
            old(self).wf(),
            lo <= hi <= bytes@.len(),
        ensures
            final(self).wf(),
            final(self)@ == wrote_bytes(old(self)@, bytes@.subrange(lo as int, hi as int), attr),
    {
        let mut i: usize = lo;
        assert(bytes@.subrange(lo as int, lo as int) =~= Seq::<u8>::empty());
        while i < hi
            invariant
                lo <= i <= hi,
                hi <= bytes@.len(),
                self.wf(),
                self@ == wrote_bytes(old(self)@, bytes@.subrange(lo as int, i as int), attr),
            decreases hi - i,
        {
            self.write_byte(bytes[i], attr);
            assert(bytes@.subrange(lo as int, i as int + 1).drop_last() =~= bytes@.subrange(
                lo as int,
                i as int,
            ));
            i = i + 1;
        }
    }

    /// Writes the bytes one after the other from the cursor on.
    pub fn display_bytes(&mut self, bytes: &[u8], attr: u8)
        requires
            old(self).wf(),
        ensures
            final(self).wf(),
            final(self)@ == wrote_bytes(old(self)@, bytes@, attr),
    {
        assert(bytes@.subrange(0, bytes@.len() as int) =~= bytes@);
        self.display_range(bytes, 0, bytes.len(), attr);
    }

    /// Writes the text's bytes from the cursor on, each in `attr`, a line
    /// feed padding the rest of its row in the ambient color, clearing the
    /// grid first wherever the cursor has run past the last cell.
    pub fn display(&mut self, to_display: &str, attr: u8)
        requires
            old(self).wf(),
        ensures
            final(self).wf(),
            final(self)@ == wrote_bytes(old(self)@, to_display.spec_bytes(), attr),
    {
        self.display_bytes(to_display.as_bytes(), attr);
    }

    /// Writes a transient message in `attr` and puts back the cursor and the
    /// ambient color, so that the message takes no room from what follows.
    pub fn display_overwrite(&mut self, to_display: &str, attr: u8)
        requires
            old(self).wf(),
        ensures
            final(self).wf(),
            final(self)@ == overwritten(old(self)@, to_display.spec_bytes(), attr),
    {
        let last = self.cursor;
        let ambient = self.ambient;
        self.ambient = attr;
        self.display(to_display, attr);
        self.ambient = ambient;
        self.cursor = last;
    }
}

} // verus!
