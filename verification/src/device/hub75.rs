//! HUB75 LED panels driven by bit-banging GPIO lines.
//!
//! A panel addresses `scan_height = 2^(level-select pins)` rows directly;
//! several parallel scan lines each carry one R/G/B pin triple. A worker
//! outside this crate owns the refresh loop and the channel that brings new
//! frames; the display state, its validation and one whole refresh pass
//! live here.

use crate::color::Pixel;
use crate::geometry::lemma_col_row_index;
use crate::gpio::{GpioOut, GpioOutBuffer, GpioValue};
use crate::GenericError;
use vstd::arithmetic::div_mod::lemma_fundamental_div_mod;
use vstd::arithmetic::mul::{lemma_mul_inequality, lemma_mul_is_commutative};
use vstd::prelude::*;

verus! {

/// The interleaved order in which rows are refreshed: rotate the row index
/// left by one within the scan height.
pub open spec fn spec_scan_interleave(i: usize, num_level_select: usize, scan_height: usize) -> int
    recommends
        num_level_select >= 1,
{
    (((i << 1u8) | (i >> ((num_level_select - 1) as u8))) & ((scan_height - 1) as usize)) as int
}

/// Pick the `i`-th row to refresh.
pub fn scan_interleave(i: usize, num_level_select: usize, scan_height: usize) -> (r: usize)
    requires
        1 <= num_level_select <= 16,
        scan_height == (1usize << (num_level_select as u8)),
    ensures
        r == spec_scan_interleave(i, num_level_select, scan_height),
        r < scan_height,
{
    proof {
        let n = num_level_select;
        assert(scan_height >= 1) by (bit_vector)
            requires
                scan_height == (1usize << (n as u8)),
                1 <= n <= 16,
        ;
        let x = ((i << 1u8) | (i >> ((n - 1) as u8)));
        assert((x & ((scan_height - 1) as usize)) <= ((scan_height - 1) as usize))
            by (bit_vector);
    }
    ((i << 1) | (i >> (num_level_select - 1))) & (scan_height - 1)
}

/// The threshold of grayscale sub-pass `i`: brighter channels light up in
/// more sub-passes.
pub fn pwm_min_val(i: u8, pwm_cycles: u8) -> (r: u8)
    requires
        i < pwm_cycles,
        pwm_cycles < 255,
    ensures
        r == 255 - (i as int + 1) * (255int / (pwm_cycles as int + 1)),
{
    let a = 255 / (pwm_cycles as u16 + 1);
    proof {
        let p = pwm_cycles as int;
        let av = 255 as int / (p + 1);
        lemma_fundamental_div_mod(255, p + 1);
        lemma_mul_inequality(i as int + 1, p + 1, av);
        lemma_mul_is_commutative(p + 1, av);
        assert((i as int + 1) * av <= 255);
        lemma_mul_inequality(1, i as int + 1, av);
        assert((i as int + 1) * av == i as int * av + av) by (nonlinear_arith);
    }
    (255 - (i as u16) * a - a) as u8
}

/// The data-line levels of one column: one triple per parallel scan line.
#[derive(Copy, Clone, Debug, PartialEq, Eq, Structural)]
pub struct LineLevels {
    pub red: bool,
    pub green: bool,
    pub blue: bool,
}

/// The levels clocked in for column `x` of row `y` at threshold `min_val`:
/// for each scan line, whether each channel of the pixel at
/// `(x, y + line * scan_height)` exceeds the threshold.
pub open spec fn spec_column_levels(
    frame: Seq<Pixel>,
    width: int,
    scan_height: int,
    num_lines: int,
    x: int,
    y: int,
    min_val: u8,
) -> Seq<LineLevels> {
    Seq::new(
        num_lines as nat,
        |line: int|
            (LineLevels {
                red: frame[(y + line * scan_height) * width + x].r > min_val,
                green: frame[(y + line * scan_height) * width + x].g > min_val,
                blue: frame[(y + line * scan_height) * width + x].b > min_val,
            }),
    )
}

/// The level handed to level-select pin `b` while row `y` is latched: bit
/// `b` of the row address.
pub open spec fn spec_row_address_bit(y: usize, b: usize) -> GpioValue {
    if ((y >> b) & 1) == 1 {
        GpioValue::High
    } else {
        GpioValue::Low
    }
}

/// One parallel scan line's data pins.
pub struct RgbPins<T: GpioOut> {
    pub red: GpioOutBuffer<T>,
    pub green: GpioOutBuffer<T>,
    pub blue: GpioOutBuffer<T>,
}

/// A HUB75 display: its geometry, its pins, and the frame currently being
/// refreshed.
pub struct Hub75<T: GpioOut> {
    width: usize,
    height: usize,
    pwm_cycles: u8,
    cur_frame: Vec<Pixel>,
    level_select: Vec<GpioOutBuffer<T>>,
    rgb: Vec<RgbPins<T>>,
    clock: GpioOutBuffer<T>,
    output_enable: GpioOutBuffer<T>,
    latch: GpioOutBuffer<T>,
}

impl<T: GpioOut> Hub75<T> {
    /// The display width in pixels.
    pub closed spec fn spec_width(&self) -> int {
        self.width as int
    }

    /// The display height in pixels.
    pub closed spec fn spec_height(&self) -> int {
        self.height as int
    }

    /// The number of grayscale sub-passes per refresh.
    pub closed spec fn spec_pwm_cycles(&self) -> u8 {
        self.pwm_cycles
    }

    /// The frame being refreshed.
    pub closed spec fn spec_frame(&self) -> Seq<Pixel> {
        self.cur_frame@
    }

    /// The number of level-select pins.
    pub closed spec fn spec_num_level_select(&self) -> int {
        self.level_select@.len() as int
    }

    /// The number of rows addressed directly.
    pub closed spec fn spec_scan_height(&self) -> int {
        (1usize << (self.level_select@.len() as u8)) as int
    }

    /// The number of parallel scan lines.
    pub closed spec fn spec_num_lines(&self) -> int {
        self.rgb@.len() as int
    }

    /// The display invariant: a real geometry, one to sixteen level-select
    /// pins, a height split evenly into scan blocks, exactly one pin
    /// triple per scan line, and a frame of one pixel per position.
    pub open spec fn wf(&self) -> bool {
        &&& self.spec_width() >= 1
        &&& self.spec_height() >= 1
        &&& self.spec_width() * self.spec_height() <= usize::MAX
        &&& 1 <= self.spec_num_level_select() <= 16
        &&& self.spec_height() % self.spec_scan_height() == 0
        &&& self.spec_num_lines() * self.spec_scan_height() == self.spec_height()
        &&& self.spec_frame().len() == self.spec_width() * self.spec_height()
    }

    /// Build a display over its pins, validating the geometry: the height
    /// must be a multiple of the scan height, the red, green and blue pin
    /// counts must be equal, and the scan lines must cover the height.
    pub fn new(
        width: usize,
        height: usize,
        pwm_cycles: u8,
        level_select: Vec<GpioOutBuffer<T>>,
        red: Vec<GpioOutBuffer<T>>,
        green: Vec<GpioOutBuffer<T>>,
        blue: Vec<GpioOutBuffer<T>>,
        clock: GpioOutBuffer<T>,
        latch: GpioOutBuffer<T>,
        output_enable: GpioOutBuffer<T>,
    ) -> (r: Result<Hub75<T>, GenericError>)
        requires
            width >= 1,
            height >= 1,
            width * height <= usize::MAX,
            1 <= level_select@.len() <= 16,
        ensures
            r is Ok <==> {
                let sh = (1usize << (level_select@.len() as u8)) as int;
                &&& height as int % sh == 0
                &&& red@.len() == green@.len()
                &&& green@.len() == blue@.len()
                &&& red@.len() * sh == height
            },
            r matches Ok(d) ==> {
                &&& d.wf()
                &&& d.spec_width() == width
                &&& d.spec_height() == height
                &&& d.spec_pwm_cycles() == pwm_cycles
                &&& d.spec_num_level_select() == level_select@.len()
                &&& d.spec_frame() =~= Seq::new((width * height) as nat, |i: int| Pixel { r: 0, g: 0, b: 0 })
            },
    {
        let n = level_select.len();
        let scan_height = 1usize << n;
        proof {
            assert(1 <= (1usize << (n as u8)) <= 65536) by (bit_vector)
                requires
                    1 <= n <= 16,
            ;
        }
        if height % scan_height != 0 {
            return Err(
                GenericError::new("The height must be a multiple of 2^len(level-select-pins)"),
            );
        }
        if red.len() != green.len() || green.len() != blue.len() {
            return Err(
                GenericError::new("The number of red, green and blue pins must be all equal"),
            );
        }
        if red.len() != height / scan_height {
            proof {
                // With the height a whole number of scan blocks, a wrong
                // line count cannot cover it exactly.
                if red@.len() * scan_height as int == height as int {
                    vstd::arithmetic::div_mod::lemma_fundamental_div_mod_converse(
                        height as int,
                        scan_height as int,
                        red@.len() as int,
                        0,
                    );
                }
            }
            return Err(
                GenericError::new("The scan lines must cover the whole height"),
            );
        }
        proof {
            lemma_fundamental_div_mod(height as int, scan_height as int);
        }
        let mut red = red;
        let mut green = green;
        let mut blue = blue;
        let ghost k = red@.len();
        let mut rgb: Vec<RgbPins<T>> = Vec::new();
        while red.len() > 0
            invariant
                red@.len() == green@.len(),
                green@.len() == blue@.len(),
                rgb@.len() + red@.len() == k,
            decreases red.len(),
        {
            let r0 = red.remove(0);
            let g0 = green.remove(0);
            let b0 = blue.remove(0);
            rgb.push(RgbPins { red: r0, green: g0, blue: b0 });
        }
        let size = width * height;
        let mut cur_frame: Vec<Pixel> = Vec::new();
        let mut i: usize = 0;
        while i < size
            invariant
                i <= size,
                cur_frame@.len() == i,
                forall|m: int|
                    0 <= m < i ==> #[trigger] cur_frame@[m] == (Pixel { r: 0, g: 0, b: 0 }),
            decreases size - i,
        {
            cur_frame.push(Pixel { r: 0, g: 0, b: 0 });
            i += 1;
        }
        Ok(
            Hub75 {
                width,
                height,
                pwm_cycles,
                cur_frame,
                level_select,
                rgb,
                clock,
                output_enable,
                latch,
            },
        )
    }

    /// The number of grayscale sub-passes.
    pub fn pwm_cycles(&self) -> (r: u8)
        ensures
            r == self.spec_pwm_cycles(),
    {
        self.pwm_cycles
    }

    /// Replace the frame being refreshed.
    pub fn replace_frame(&mut self, frame: Vec<Pixel>)
        requires
            old(self).wf(),
            frame@.len() == old(self).spec_width() * old(self).spec_height(),
        ensures
            final(self).wf(),
            final(self).spec_frame() == frame@,
            final(self).spec_width() == old(self).spec_width(),
            final(self).spec_height() == old(self).spec_height(),
            final(self).spec_pwm_cycles() == old(self).spec_pwm_cycles(),
    {
        self.cur_frame = frame;
    }

    /// Compute the data-line levels of one column: the triple for scan
    /// line `line` comes from the pixel at `(x, y + line * scan_height)`.
    pub fn column_levels(&self, x: usize, y: usize, min_val: u8) -> (r: Vec<LineLevels>)
        requires
            self.wf(),
            x < self.spec_width(),
            y < self.spec_scan_height(),
        ensures
            r@ == spec_column_levels(
                self.spec_frame(),
                self.spec_width(),
                self.spec_scan_height(),
                self.spec_num_lines(),
                x as int,
                y as int,
                min_val,
            ),
    {
        let scan_height = 1usize << self.level_select.len();
        let num_lines = self.rgb.len();
        let mut r: Vec<LineLevels> = Vec::new();
        let mut line: usize = 0;
        while line < num_lines
            invariant
                self.wf(),
                line <= num_lines,
                num_lines == self.rgb@.len(),
                scan_height == 1usize << (self.level_select@.len() as u8),
                x < self.spec_width(),
                y < self.spec_scan_height(),
                r@.len() == line,
                forall|l: int|
                    0 <= l < line ==> #[trigger] r@[l] == spec_column_levels(
                        self.spec_frame(),
                        self.spec_width(),
                        self.spec_scan_height(),
                        self.spec_num_lines(),
                        x as int,
                        y as int,
                        min_val,
                    )[l],
            decreases num_lines - line,
        {
            proof {
                let sh = self.spec_scan_height();
                assert(y + line * sh < num_lines * sh) by (nonlinear_arith)
                    requires
                        y < sh,
                        line < num_lines,
                        sh >= 1,
                {}
                lemma_col_row_index(
                    x as int,
                    y + line * sh,
                    self.spec_width(),
                    self.spec_height(),
                );
            }
            let row = y + line * scan_height;
            let p = self.cur_frame[row * self.width + x];
            r.push(
                LineLevels { red: p.r > min_val, green: p.g > min_val, blue: p.b > min_val },
            );
            line += 1;
        }
        proof {
            assert(r@ =~= spec_column_levels(
                self.spec_frame(),
                self.spec_width(),
                self.spec_scan_height(),
                self.spec_num_lines(),
                x as int,
                y as int,
                min_val,
            ));
        }
        r
    }

    /// One refresh sub-pass at a grayscale threshold: walk the rows in
    /// interleaved order; for each row and column clock in exactly the
    /// levels of `column_levels` on every scan line's data pins, then
    /// raise output-enable, set each level-select pin to its
    /// `spec_row_address_bit`, pulse the latch and enable output again.
    /// The ports themselves carry no model, so the contract can only
    /// preserve the display state; the levels handed to them are fixed by
    /// the two functions above.
    pub fn refresh_display(&mut self, min_val: u8) -> (r: Result<(), GenericError>)
        requires
            old(self).wf(),
        ensures
            final(self).wf(),
            final(self).spec_frame() == old(self).spec_frame(),
            final(self).spec_width() == old(self).spec_width(),
            final(self).spec_height() == old(self).spec_height(),
            final(self).spec_pwm_cycles() == old(self).spec_pwm_cycles(),
    {
        let num_level_select = self.level_select.len();
        let scan_height = 1usize << num_level_select;
        let num_lines = self.rgb.len();
        let mut ii: usize = 0;
        while ii < scan_height
            invariant
                self.wf(),
                self.cur_frame == old(self).cur_frame,
                self.width == old(self).width,
                self.height == old(self).height,
                self.pwm_cycles == old(self).pwm_cycles,
                num_level_select == self.level_select@.len(),
                scan_height == 1usize << (num_level_select as u8),
                num_lines == self.rgb@.len(),
            decreases scan_height - ii,
        {
            let y = scan_interleave(ii, num_level_select, scan_height);
            // Clock in the data of one row for every scan line.
            let mut x: usize = 0;
            while x < self.width
                invariant
                    self.wf(),
                    self.cur_frame == old(self).cur_frame,
                    self.width == old(self).width,
                    self.height == old(self).height,
                    self.pwm_cycles == old(self).pwm_cycles,
                    num_level_select == self.level_select@.len(),
                    scan_height == 1usize << (num_level_select as u8),
                    num_lines == self.rgb@.len(),
                    y < scan_height,
                decreases self.width - x,
            {
                let levels = self.column_levels(x, y, min_val);
                let mut line: usize = 0;
                while line < num_lines
                    invariant
                        self.wf(),
                        self.cur_frame == old(self).cur_frame,
                        self.width == old(self).width,
                        self.height == old(self).height,
                        self.pwm_cycles == old(self).pwm_cycles,
                        num_level_select == self.level_select@.len(),
                        scan_height == 1usize << (num_level_select as u8),
                        num_lines == self.rgb@.len(),
                        levels@.len() == num_lines,
                        y < scan_height,
                        x < self.width,
                    decreases num_lines - line,
                {
                    let lv = levels[line];
                    let pins = &mut self.rgb[line];
                    match pins.red.set_value(GpioValue::from(lv.red)) {
                        Ok(_) => (),
                        Err(e) => {
                            return Err(e);
                        }
                    }
                    match pins.green.set_value(GpioValue::from(lv.green)) {
                        Ok(_) => (),
                        Err(e) => {
                            return Err(e);
                        }
                    }
                    match pins.blue.set_value(GpioValue::from(lv.blue)) {
                        Ok(_) => (),
                        Err(e) => {
                            return Err(e);
                        }
                    }
                    line += 1;
                }
                // Clock pulse.
                match self.clock.set_high() {
                    Ok(_) => (),
                    Err(e) => {
                        return Err(e);
                    }
                }
                match self.clock.set_low() {
                    Ok(_) => (),
                    Err(e) => {
                        return Err(e);
                    }
                }
                x += 1;
            }
            // Blank the output while the row latches.
            match self.output_enable.set_high() {
                Ok(_) => (),
                Err(e) => {
                    return Err(e);
                }
            }
            // Select the row address.
            let mut b: usize = 0;
            while b < num_level_select
                invariant
                    self.wf(),
                    self.cur_frame == old(self).cur_frame,
                    self.width == old(self).width,
                    self.height == old(self).height,
                    self.pwm_cycles == old(self).pwm_cycles,
                    num_level_select == self.level_select@.len(),
                    scan_height == 1usize << (num_level_select as u8),
                    num_lines == self.rgb@.len(),
                decreases num_level_select - b,
            {
                let bit = ((y >> b) & 1) as u8;
                let lv = GpioValue::from(bit);
                proof {
                    assert(((y >> b) & 1usize) <= 1) by (bit_vector);
                    assert(lv == spec_row_address_bit(y, b));
                }
                let pin = &mut self.level_select[b];
                match pin.set_value(lv) {
                    Ok(_) => (),
                    Err(e) => {
                        return Err(e);
                    }
                }
                b += 1;
            }
            // Latch pulse, then show the row.
            match self.latch.set_high() {
                Ok(_) => (),
                Err(e) => {
                    return Err(e);
                }
            }
            match self.latch.set_low() {
                Ok(_) => (),
                Err(e) => {
                    return Err(e);
                }
            }
            match self.output_enable.set_low() {
                Ok(_) => (),
                Err(e) => {
                    return Err(e);
                }
            }
            ii += 1;
        }
        Ok(())
    }
}

} // verus!
