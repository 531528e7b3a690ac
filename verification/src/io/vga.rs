//! A VGA text console whose cursor wraps to the top after the last cell.
use vstd::prelude::*;

use crate::vga::{entry, vga_entry, vga_entry_color, VgaColor, VGA_HEIGHT, VGA_WIDTH};

verus! {

/// Number of cells of the console.
pub const VGA_CELLS: usize = 2000;

/// Where the next character goes and in what color; the cursor wraps around.
pub struct TerminalWriter {
    terminal_pos: usize,
    terminal_color: u8,
}

/// Where the cursor is after character `c` at `pos`: the start of the next line for a
/// newline, else the next cell, back to the first after the last.
pub open spec fn next_pos(pos: nat, c: u8) -> nat {
    if c == 10 {
        (pos + VGA_WIDTH - pos % (VGA_WIDTH as nat)) as nat
    } else {
        (pos + 1) % (VGA_CELLS as nat)
    }
}

/// Whether writing `data` from `pos` only writes cells of the console: no character
/// other than a newline comes when the cursor is past the last cell.
pub open spec fn writes_in_bounds(pos: nat, data: Seq<u8>) -> bool
    decreases data.len(),
{
    if data.len() == 0 {
        true
    } else {
        (data[0] != 10 ==> pos < VGA_CELLS) && pos + VGA_WIDTH <= usize::MAX && writes_in_bounds(
            next_pos(pos, data[0]),
            data.drop_first(),
        )
    }
}

/// Where the cursor ends and which cells are written, in order, when `data` is
/// written from `pos` in `color`.
pub open spec fn cells_written(pos: nat, color: u8, data: Seq<u8>) -> (nat, Seq<(usize, u16)>)
    decreases data.len(),
{
    if data.len() == 0 {
        (pos, Seq::empty())
    } else {
        let c = data[0];
        let (p, cells) = cells_written(next_pos(pos, c), color, data.drop_first());
        (
            p,
            if c == 10 {
                cells
            } else {
                seq![(pos as usize, entry(c, color))] + cells
            },
        )
    }
}

impl TerminalWriter {
    /// The cell the next character goes to.
    pub closed spec fn pos(&self) -> nat {
        self.terminal_pos as nat
    }

    /// The attribute characters are written with.
    pub closed spec fn color(&self) -> u8 {
        self.terminal_color
    }

    /// A console at the first cell, light grey on black.
    pub fn new() -> (r: TerminalWriter)
        ensures
            r.pos() == 0,
            r.color() == 7,
    {
        TerminalWriter {
            terminal_pos: 0,
            terminal_color: vga_entry_color(VgaColor::LightGrey, VgaColor::Black),
        }
    }

    /// The cell the next character goes to.
    pub fn position(&self) -> (r: usize)
        ensures
            r == self.pos(),
    {
        self.terminal_pos
    }

    /// Writes characters in `color` from now on.
    pub fn set_color(&mut self, color: u8)
        ensures
            final(self).color() == color,
            final(self).pos() == old(self).pos(),
    {
        self.terminal_color = color;
    }

    /// Puts `c` at the current cell and moves on, or, for a newline, moves to the
    /// start of the next line. Returns the cell written and its contents.
    pub fn putchar(&mut self, c: u8) -> (r: Option<(usize, u16)>)
        requires
            old(self).pos() + VGA_WIDTH <= usize::MAX,
            c != 10 ==> old(self).pos() < VGA_CELLS,
        ensures
            final(self).color() == old(self).color(),
            final(self).pos() == next_pos(old(self).pos(), c),
            c == 10 ==> r is None,
            c != 10 ==> r == Some((old(self).pos() as usize, entry(c, old(self).color()))),
    {
        if c == 10 {
            self.terminal_pos = self.terminal_pos + (VGA_WIDTH - self.terminal_pos % VGA_WIDTH);
            return None;
        }
        let cell = (self.terminal_pos, vga_entry(c, self.terminal_color));
        self.terminal_pos = (self.terminal_pos + 1) % VGA_CELLS;
        Some(cell)
    }

    /// Writes `data`, one character after the other, and returns the cells written in
    /// order.
    pub fn write(&mut self, data: &[u8]) -> (r: Vec<(usize, u16)>)
        requires
            writes_in_bounds(old(self).pos(), data@),
        ensures
            final(self).color() == old(self).color(),
            (final(self).pos(), r@) == cells_written(old(self).pos(), old(self).color(), data@),
    {
        let mut cells: Vec<(usize, u16)> = Vec::new();
        let mut i: usize = 0;
        proof {
            assert(data@.skip(0) =~= data@);
            assert(cells@ + cells_written(self.pos(), self.color(), data@).1 =~= cells_written(
                self.pos(),
                self.color(),
                data@,
            ).1);
        }
        while i < data.len()
            invariant
                i <= data@.len(),
                self.color() == old(self).color(),
                writes_in_bounds(self.pos(), data@.skip(i as int)),
                cells_written(old(self).pos(), old(self).color(), data@) == (
                    cells_written(self.pos(), self.color(), data@.skip(i as int)).0,
                    cells@ + cells_written(self.pos(), self.color(), data@.skip(i as int)).1,
                ),
            decreases data@.len() - i,
        {
            let ghost rest = data@.skip(i as int);
            proof {
                assert(rest.drop_first() =~= data@.skip(i + 1));
                assert(rest[0] == data@[i as int]);
            }
            let ghost before = cells@;
            if let Some(cell) = self.putchar(data[i]) {
                cells.push(cell);
                proof {
                    assert(before + (seq![cell] + cells_written(self.pos(), self.color(), data@.skip(i + 1)).1)
                        =~= cells@ + cells_written(self.pos(), self.color(), data@.skip(i + 1)).1);
                }
            }
            i += 1;
        }
        proof {
            assert(data@.skip(data@.len() as int) =~= Seq::<u8>::empty());
            assert(cells@ + Seq::<(usize, u16)>::empty() =~= cells@);
        }
        cells
    }
}

/// The console that is shared by the whole kernel.
pub struct StaticTerminalWriter {
    inner: TerminalWriter,
}

impl StaticTerminalWriter {
    /// The console the kernel shares.
    pub closed spec fn terminal(&self) -> TerminalWriter {
        self.inner
    }

    /// A shared console at the first cell, light grey on black.
    pub fn new() -> (r: StaticTerminalWriter)
        ensures
            r.terminal().pos() == 0,
            r.terminal().color() == 7,
    {
        StaticTerminalWriter { inner: TerminalWriter::new() }
    }

    /// The console, for writing to it.
    pub fn borrow_mut(&mut self) -> (r: &mut TerminalWriter)
        ensures
            *r == old(self).terminal(),
            final(self).terminal() == *final(r),
    {
        &mut self.inner
    }
}

/// The cells of a cleared screen: blanks in `color`.
pub fn init(color: u8) -> (r: Vec<u16>)
    ensures
        r@ == Seq::new((VGA_WIDTH * VGA_HEIGHT) as nat, |i: int| entry(32, color)),
{
    let blank = vga_entry(32, color);
    let mut cells: Vec<u16> = Vec::new();
    let mut i: usize = 0;
    while i < VGA_WIDTH * VGA_HEIGHT
        invariant
            i <= VGA_WIDTH * VGA_HEIGHT,
            blank == entry(32, color),
            cells@ == Seq::new(i as nat, |j: int| entry(32, color)),
        decreases VGA_WIDTH * VGA_HEIGHT - i,
    {
        cells.push(blank);
        i += 1;
        assert(cells@ =~= Seq::new(i as nat, |j: int| entry(32, color)));
    }
    cells
}

} // verus!
