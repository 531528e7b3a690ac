//! The VGA text console: which cell each character goes to and with what color. The
//! cells themselves are written by the caller, at the text buffer's address.
use vstd::prelude::*;

verus! {

/// Text mode colors.
#[derive(Clone, Copy)]
pub enum VgaColor {
    Black,
    Blue,
    Green,
    Cyan,
    Red,
    Magenta,
    Brown,
    LightGrey,
    DarkGrey,
    LightBlue,
    LightGreen,
    LightCyan,
    LightRed,
    LightMagenta,
    LightBrown,
    White,
}

/// The hardware code of a color.
pub open spec fn color_code(c: VgaColor) -> u8 {
    match c {
        VgaColor::Black => 0,
        VgaColor::Blue => 1,
        VgaColor::Green => 2,
        VgaColor::Cyan => 3,
        VgaColor::Red => 4,
        VgaColor::Magenta => 5,
        VgaColor::Brown => 6,
        VgaColor::LightGrey => 7,
        VgaColor::DarkGrey => 8,
        VgaColor::LightBlue => 9,
        VgaColor::LightGreen => 10,
        VgaColor::LightCyan => 11,
        VgaColor::LightRed => 12,
        VgaColor::LightMagenta => 13,
        VgaColor::LightBrown => 14,
        VgaColor::White => 15,
    }
}

/// The hardware code of a color.
pub fn vga_color_code(c: VgaColor) -> (r: u8)
    ensures
        r == color_code(c),
{
    match c {
        VgaColor::Black => 0,
        VgaColor::Blue => 1,
        VgaColor::Green => 2,
        VgaColor::Cyan => 3,
        VgaColor::Red => 4,
        VgaColor::Magenta => 5,
        VgaColor::Brown => 6,
        VgaColor::LightGrey => 7,
        VgaColor::DarkGrey => 8,
        VgaColor::LightBlue => 9,
        VgaColor::LightGreen => 10,
        VgaColor::LightCyan => 11,
        VgaColor::LightRed => 12,
        VgaColor::LightMagenta => 13,
        VgaColor::LightBrown => 14,
        VgaColor::White => 15,
    }
}

/// The attribute byte for foreground `fg` on background `bg`.
pub fn vga_entry_color(fg: VgaColor, bg: VgaColor) -> (r: u8)
    ensures
        r == color_code(fg) + 16 * color_code(bg),
{
    let f = vga_color_code(fg);
    let b = vga_color_code(bg);
    assert(f | (b << 4u8) == f + 16 * b) by (bit_vector)
        requires
            f < 16,
            b < 16,
    ;
    f | (b << 4u8)
}

/// The cell for character `uc` with attribute `color`.
pub open spec fn entry(uc: u8, color: u8) -> u16 {
    (uc + 256 * color) as u16
}

/// The cell for character `uc` with attribute `color`.
pub fn vga_entry(uc: u8, color: u8) -> (r: u16)
    ensures
        r == entry(uc, color),
{
    let u = uc as u16;
    let c = color as u16;
    assert(u | (c << 8u16) == u + 256 * c) by (bit_vector)
        requires
            u < 256,
            c < 256,
    ;
    u | (c << 8u16)
}

/// Columns of the console.
pub const VGA_WIDTH: usize = 80;

/// Rows of the console.
pub const VGA_HEIGHT: usize = 25;

/// The attribute the console starts with: light grey on black.
pub const DEFAULT_COLOR: u8 = 7;

/// Where the next character goes and in what color.
pub struct TerminalWriter {
    terminal_pos: usize,
    terminal_color: u8,
}

impl TerminalWriter {
    /// The cell the next character goes to.
    pub closed spec fn pos(&self) -> nat {
        self.terminal_pos as nat
    }

    /// The attribute characters are written with.
    pub closed spec fn color(&self) -> u8 {
        self.terminal_color
    }

    /// A console at the first cell, light grey on black.
    pub fn new() -> (r: TerminalWriter)
        ensures
            r.pos() == 0,
            r.color() == DEFAULT_COLOR,
    {
        let terminal_color = vga_entry_color(VgaColor::LightGrey, VgaColor::Black);
        TerminalWriter { terminal_pos: 0, terminal_color }
    }

    /// The cells of a cleared screen: blanks in the current color.
    pub fn init(&self) -> (r: Vec<u16>)
        ensures
            r@ == Seq::new((VGA_WIDTH * VGA_HEIGHT) as nat, |i: int| entry(32, self.color())),
    {
        let blank = vga_entry(32, self.terminal_color);
        let mut cells: Vec<u16> = Vec::new();
        let mut i: usize = 0;
        while i < VGA_WIDTH * VGA_HEIGHT
            invariant
                i <= VGA_WIDTH * VGA_HEIGHT,
                blank == entry(32, self.color()),
                cells@ == Seq::new(i as nat, |j: int| entry(32, self.color())),
            decreases VGA_WIDTH * VGA_HEIGHT - i,
        {
            cells.push(blank);
            i += 1;
            assert(cells@ =~= Seq::new(i as nat, |j: int| entry(32, self.color())));
        }
        cells
    }

    /// The cell the next character goes to.
    pub fn position(&self) -> (r: usize)
        ensures
            r == self.pos(),
    {
        self.terminal_pos
    }

    /// Writes characters in `color` from now on.
    pub fn set_color(&mut self, color: u8)
        ensures
            final(self).color() == color,
            final(self).pos() == old(self).pos(),
    {
        self.terminal_color = color;
    }

    /// Puts `c` at the current cell and moves on, or, for a newline, moves to the
    /// start of the next line. Returns the cell written and its contents.
    pub fn putchar(&mut self, c: u8) -> (r: Option<(usize, u16)>)
        requires
            old(self).pos() + VGA_WIDTH <= usize::MAX,
        ensures
            final(self).color() == old(self).color(),
            c == 10 ==> r is None && final(self).pos() == old(self).pos() + VGA_WIDTH - old(
                self,
            ).pos() % (VGA_WIDTH as nat),
            c != 10 ==> r == Some((old(self).pos() as usize, entry(c, old(self).color())))
                && final(self).pos() == old(self).pos() + 1,
    {
        if c == 10 {
            self.terminal_pos = self.terminal_pos + (VGA_WIDTH - self.terminal_pos % VGA_WIDTH);
            return None;
        }
        let pos = self.terminal_pos;
        self.terminal_pos = self.terminal_pos + 1;
        Some((pos, vga_entry(c, self.terminal_color)))
    }

    /// Writes `data`, one character after the other, and returns the cells written in
    /// order.
    pub fn write(&mut self, data: &[u8]) -> (r: Vec<(usize, u16)>)
        requires
            old(self).pos() + VGA_WIDTH * (data@.len() + 1) <= usize::MAX,
        ensures
            final(self).color() == old(self).color(),
            (final(self).pos(), r@) == cells_written(old(self).pos(), old(self).color(), data@),
    {
        let mut cells: Vec<(usize, u16)> = Vec::new();
        let mut i: usize = 0;
        while i < data.len()
            invariant
                i <= data@.len(),
                self.color() == old(self).color(),
                self.pos() <= old(self).pos() + VGA_WIDTH * i,
                old(self).pos() + VGA_WIDTH * (data@.len() + 1) <= usize::MAX,
                (self.pos(), cells@) == cells_written(
                    old(self).pos(),
                    old(self).color(),
                    data@.take(i as int),
                ),
            decreases data@.len() - i,
        {
            assert(VGA_WIDTH * i + VGA_WIDTH <= VGA_WIDTH * (data@.len() + 1)) by (nonlinear_arith)
                requires
                    i < data@.len(),
            ;
            proof {
                assert(data@.take(i + 1).drop_last() =~= data@.take(i as int));
            }
            if let Some(cell) = self.putchar(data[i]) {
                cells.push(cell);
            }
            i += 1;
        }
        proof {
            assert(data@.take(data@.len() as int) =~= data@);
        }
        cells
    }
}

/// Where the cursor is after character `c` at `pos`.
pub open spec fn next_pos(pos: nat, c: u8) -> nat {
    if c == 10 {
        (pos + VGA_WIDTH - pos % (VGA_WIDTH as nat)) as nat
    } else {
        pos + 1
    }
}

/// Where the cursor ends and which cells are written, in order, when `data` is
/// written from `pos` in `color`.
pub open spec fn cells_written(pos: nat, color: u8, data: Seq<u8>) -> (nat, Seq<(usize, u16)>)
    decreases data.len(),
{
    if data.len() == 0 {
        (pos, Seq::empty())
    } else {
        let (p, cells) = cells_written(pos, color, data.drop_last());
        let c = data.last();
        (
            next_pos(p, c),
            if c == 10 {
                cells
            } else {
                cells.push((p as usize, entry(c, color)))
            },
        )
    }
}

} // verus!
