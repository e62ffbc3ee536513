//! A terminal display: frames rendered as ANSI 24-bit color, two pixels
//! per character cell.
//!
//! Each cell draws the upper-half-block glyph with the upper pixel as
//! foreground and the lower pixel as background. The rendered bytes go to
//! the terminal in one write, done outside this crate.

use crate::color::Pixel;
use vstd::prelude::*;

verus! {

/// The decimal digits of a byte value, without leading zeros.
pub open spec fn dec_bytes(v: u8) -> Seq<u8> {
    if v >= 100 {
        seq![(48 + v / 100) as u8, (48 + (v / 10) % 10) as u8, (48 + v % 10) as u8]
    } else if v >= 10 {
        seq![(48 + v / 10) as u8, (48 + v % 10) as u8]
    } else {
        seq![(48 + v) as u8]
    }
}

/// Append the decimal digits of `v`.
fn push_dec(out: &mut Vec<u8>, v: u8)
    ensures
        final(out)@ == old(out)@ + dec_bytes(v),
{
    if v >= 100 {
        out.push(48 + v / 100);
        out.push(48 + (v / 10) % 10);
        out.push(48 + v % 10);
    } else if v >= 10 {
        out.push(48 + v / 10);
        out.push(48 + v % 10);
    } else {
        out.push(48 + v);
    }
    proof {
        assert(final(out)@ =~= old(out)@ + dec_bytes(v));
    }
}

/// The escape that sets the foreground color: `ESC [38;2;r;g;bm`.
pub open spec fn fg_seq(p: Pixel) -> Seq<u8> {
    seq![27u8, 91u8, 51u8, 56u8, 59u8, 50u8, 59u8] + dec_bytes(p.r) + seq![59u8] + dec_bytes(p.g)
        + seq![59u8] + dec_bytes(p.b) + seq![109u8]
}

/// The escape that sets the background color: `ESC [48;2;r;g;bm`.
pub open spec fn bg_seq(p: Pixel) -> Seq<u8> {
    seq![27u8, 91u8, 52u8, 56u8, 59u8, 50u8, 59u8] + dec_bytes(p.r) + seq![59u8] + dec_bytes(p.g)
        + seq![59u8] + dec_bytes(p.b) + seq![109u8]
}

/// The escape written when a cell has no lower pixel: `ESC [48;2;0m`.
pub open spec fn bg_default_seq() -> Seq<u8> {
    seq![27u8, 91u8, 52u8, 56u8, 59u8, 50u8, 59u8, 48u8, 109u8]
}

/// The UTF-8 bytes of the upper-half-block glyph.
pub open spec fn block_seq() -> Seq<u8> {
    seq![0xE2u8, 0x96u8, 0x80u8]
}

/// The escape that clears the screen and its scrollback:
/// `ESC [3J ESC [H ESC [2J`.
pub open spec fn clear_seq() -> Seq<u8> {
    seq![27u8, 91u8, 51u8, 74u8, 27u8, 91u8, 72u8, 27u8, 91u8, 50u8, 74u8]
}

/// The escape that sends the cursor home: `ESC [1;1H`.
pub open spec fn home_seq() -> Seq<u8> {
    seq![27u8, 91u8, 49u8, 59u8, 49u8, 72u8]
}

/// The attribute reset and newline ending each row: `ESC [0m` and a line
/// feed.
pub open spec fn row_end_seq() -> Seq<u8> {
    seq![27u8, 91u8, 48u8, 109u8, 10u8]
}

/// One character cell at column `x` of cell row `y`: the background from
/// the lower pixel when the display has one there, the foreground from the
/// upper pixel, then the glyph.
pub open spec fn cell_seq(frame: Seq<Pixel>, w: int, x: int, y: int) -> Seq<u8> {
    let hi = frame[y * 2 * w + x];
    let bg = if y * 2 + 1 < (frame.len() as int) / w {
        bg_seq(frame[(y * 2 + 1) * w + x])
    } else {
        bg_default_seq()
    };
    bg + fg_seq(hi) + block_seq()
}

/// The cells of one row, left to right, up to column `x`.
pub open spec fn row_cells(frame: Seq<Pixel>, w: int, y: int, x: int) -> Seq<u8>
    decreases x,
{
    if x <= 0 {
        Seq::empty()
    } else {
        row_cells(frame, w, y, x - 1) + cell_seq(frame, w, x - 1, y)
    }
}

/// The rendered rows up to cell row `y`, each ended by the reset and
/// newline.
pub open spec fn rows_seq(frame: Seq<Pixel>, w: int, y: int) -> Seq<u8>
    decreases y,
{
    if y <= 0 {
        Seq::empty()
    } else {
        rows_seq(frame, w, y - 1) + row_cells(frame, w, y - 1, w) + row_end_seq()
    }
}


/// Append the foreground color escape of a pixel.
fn push_fg(out: &mut Vec<u8>, p: Pixel)
    ensures
        final(out)@ == old(out)@ + fg_seq(p),
{
    out.push(27);
    out.push(91);
    out.push(51);
    out.push(56);
    out.push(59);
    out.push(50);
    out.push(59);
    push_dec(out, p.r);
    out.push(59);
    push_dec(out, p.g);
    out.push(59);
    push_dec(out, p.b);
    out.push(109);
    proof {
        assert(final(out)@ =~= old(out)@ + fg_seq(p));
    }
}

/// Append the background color escape of a pixel.
fn push_bg(out: &mut Vec<u8>, p: Pixel)
    ensures
        final(out)@ == old(out)@ + bg_seq(p),
{
    out.push(27);
    out.push(91);
    out.push(52);
    out.push(56);
    out.push(59);
    out.push(50);
    out.push(59);
    push_dec(out, p.r);
    out.push(59);
    push_dec(out, p.g);
    out.push(59);
    push_dec(out, p.b);
    out.push(109);
    proof {
        assert(final(out)@ =~= old(out)@ + bg_seq(p));
    }
}

/// Append one character cell.
fn push_cell(out: &mut Vec<u8>, frame: &Vec<Pixel>, width: usize, height: usize, x: usize, y: usize)
    requires
        width >= 1,
        height >= 1,
        width * height <= usize::MAX,
        frame@.len() == width * height,
        x < width,
        y * 2 < height,
    ensures
        final(out)@ == old(out)@ + cell_seq(frame@, width as int, x as int, y as int),
{
    proof {
        crate::geometry::lemma_col_row_index(x as int, y as int * 2, width as int, height as int);
        assert(y as int * 2 * width == (y as int * 2) * width) by (nonlinear_arith);
    }
    let hi = frame[y * 2 * width + x];
    if y * 2 + 1 < height {
        proof {
            crate::geometry::lemma_col_row_index(
                x as int,
                y as int * 2 + 1,
                width as int,
                height as int,
            );
            lemma_lower_visible(width as int, height as int, y as int, frame@.len() as int);
        }
        let lo = frame[(y * 2 + 1) * width + x];
        push_bg(out, lo);
    } else {
        proof {
            lemma_lower_hidden(width as int, height as int, y as int, frame@.len() as int);
        }
        out.push(27);
        out.push(91);
        out.push(52);
        out.push(56);
        out.push(59);
        out.push(50);
        out.push(59);
        out.push(48);
        out.push(109);
    }
    push_fg(out, hi);
    out.push(0xE2);
    out.push(0x96);
    out.push(0x80);
    proof {
        assert(final(out)@ =~= old(out)@ + cell_seq(frame@, width as int, x as int, y as int));
    }
}

/// The terminal display sink.
pub struct AnsiDisplay {
    width: usize,
    height: usize,
    initial_frame: bool,
}

impl AnsiDisplay {
    /// The display width in pixels.
    pub closed spec fn spec_width(&self) -> int {
        self.width as int
    }

    /// The display height in pixels.
    pub closed spec fn spec_height(&self) -> int {
        self.height as int
    }

    /// Whether the next frame is the first, which clears the screen.
    pub closed spec fn spec_initial(&self) -> bool {
        self.initial_frame
    }

    /// A real 2D geometry whose pixel count fits the machine.
    pub open spec fn wf(&self) -> bool {
        &&& self.spec_width() >= 1
        &&& self.spec_height() >= 1
        &&& self.spec_width() * self.spec_height() <= usize::MAX
    }

    /// A display of the given size, about to draw its first frame.
    pub fn new(width: usize, height: usize) -> (d: AnsiDisplay)
        requires
            width >= 1,
            height >= 1,
            width * height <= usize::MAX,
        ensures
            d.wf(),
            d.spec_width() == width,
            d.spec_height() == height,
            d.spec_initial(),
    {
        AnsiDisplay { width, height, initial_frame: true }
    }

    /// Render one frame: a clear on the first frame, the cursor sent home,
    /// then every cell row with its colors, glyphs and reset.
    pub fn render_frame(&mut self, frame: &Vec<Pixel>) -> (out: Vec<u8>)
        requires
            old(self).wf(),
            frame@.len() == old(self).spec_width() * old(self).spec_height(),
        ensures
            final(self).wf(),
            final(self).spec_width() == old(self).spec_width(),
            final(self).spec_height() == old(self).spec_height(),
            !final(self).spec_initial(),
            out@ == (if old(self).spec_initial() {
                clear_seq()
            } else {
                Seq::<u8>::empty()
            }) + home_seq() + rows_seq(
                frame@,
                old(self).spec_width(),
                old(self).spec_height() / 2 + old(self).spec_height() % 2,
            ),
    {
        let mut out: Vec<u8> = Vec::new();
        if self.initial_frame {
            out.push(27);
            out.push(91);
            out.push(51);
            out.push(74);
            out.push(27);
            out.push(91);
            out.push(72);
            out.push(27);
            out.push(91);
            out.push(50);
            out.push(74);
            self.initial_frame = false;
        }
        out.push(27);
        out.push(91);
        out.push(49);
        out.push(59);
        out.push(49);
        out.push(72);
        proof {
            if old(self).spec_initial() {
                assert(out@ =~= clear_seq() + home_seq());
            } else {
                assert(out@ =~= Seq::<u8>::empty() + home_seq());
            }
        }
        let ghost preamble = out@;
        let rows = self.height / 2 + self.height % 2;
        let mut y: usize = 0;
        while y < rows
            invariant
                y <= rows,
                rows == self.height / 2 + self.height % 2,
                self.width == old(self).width,
                self.height == old(self).height,
                self.initial_frame == false,
                old(self).wf(),
                frame@.len() == self.width * self.height,
                out@ == preamble + rows_seq(frame@, self.width as int, y as int),
            decreases rows - y,
        {
            let mut x: usize = 0;
            let ghost row_start = out@;
            while x < self.width
                invariant
                    x <= self.width,
                    y < rows,
                    rows == self.height / 2 + self.height % 2,
                    self.width == old(self).width,
                    self.height == old(self).height,
                    self.initial_frame == false,
                    old(self).wf(),
                    frame@.len() == self.width * self.height,
                    out@ == row_start + row_cells(frame@, self.width as int, y as int, x as int),
                decreases self.width - x,
            {
                proof {
                    lemma_cell_index(
                        self.width as int,
                        self.height as int,
                        x as int,
                        y as int,
                        rows as int,
                    );
                }
                push_cell(&mut out, frame, self.width, self.height, x, y);
                proof {
                    assert(out@ =~= row_start + row_cells(
                        frame@,
                        self.width as int,
                        y as int,
                        x as int + 1,
                    ));
                }
                x += 1;
            }
            out.push(27);
            out.push(91);
            out.push(48);
            out.push(109);
            out.push(10);
            proof {
                assert(out@ =~= preamble + rows_seq(frame@, self.width as int, y as int + 1));
            }
            y += 1;
        }
        out
    }
}

/// The upper pixel of a cell is inside the frame.
proof fn lemma_cell_index(w: int, h: int, x: int, y: int, rows: int)
    requires
        w >= 1,
        h >= 1,
        w * h <= usize::MAX,
        0 <= x < w,
        0 <= y < rows,
        rows == h / 2 + h % 2,
    ensures
        0 <= y * 2 * w + x < w * h,
        y * 2 < h,
{
    assert(y * 2 < h) by (nonlinear_arith)
        requires
            0 <= y < h / 2 + h % 2,
            h >= 1,
            h / 2 == (h - h % 2) / 2,
            0 <= h % 2 < 2,
            h == 2 * (h / 2) + h % 2,
    {}
    crate::geometry::lemma_col_row_index(x, y * 2, w, h);
}

/// When the lower pixel exists, the spec picks its color.
proof fn lemma_lower_visible(w: int, h: int, y: int, flen: int)
    requires
        w >= 1,
        flen == w * h,
        y * 2 + 1 < h,
    ensures
        y * 2 + 1 < flen / w,
{
    assert(flen / w == h) by (nonlinear_arith)
        requires
            flen == w * h,
            w >= 1,
    {}
}

/// When the display has no lower pixel, the spec picks the default.
proof fn lemma_lower_hidden(w: int, h: int, y: int, flen: int)
    requires
        w >= 1,
        flen == w * h,
        y * 2 + 1 >= h,
    ensures
        !(y * 2 + 1 < flen / w),
{
    assert(flen / w == h) by (nonlinear_arith)
        requires
            flen == w * h,
            w >= 1,
    {}
}

} // verus!
