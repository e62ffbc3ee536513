//! Display geometry: dimensions and geometric index remappings.
//!
//! A transposition is a bijection on pixel indices. Composing the configured
//! transpositions yields one permutation table that the transform stage
//! applies to every frame.

use vstd::arithmetic::div_mod::{
    lemma_div_pos_is_pos, lemma_fundamental_div_mod, lemma_fundamental_div_mod_converse,
    lemma_mod_bound, lemma_multiply_divide_lt,
};
use vstd::prelude::*;
use vstd::string::StringSliceAdditionalSpecFns;

verus! {

broadcast use vstd::arithmetic::mul::lemma_mul_is_commutative;

/// The size of a display: a 1-pixel-high strip of length `w`, or a `w` by `h`
/// matrix.
#[derive(Copy, Clone, Debug, PartialEq, Eq, Structural)]
pub struct Dimensions {
    pub w: usize,
    pub h: usize,
}

impl Dimensions {
    /// The number of pixels, `w * h`, as a mathematical integer.
    pub open spec fn spec_size(&self) -> int {
        self.w * self.h
    }

    /// The number of pixels.
    pub fn size(&self) -> (n: usize)
        requires
            self.spec_size() <= usize::MAX,
        ensures
            n == self.spec_size(),
    {
        self.w * self.h
    }
}

/// An axis of a 2D display.
#[derive(Copy, Clone, Debug, PartialEq, Eq, Structural)]
pub enum Axis {
    X,
    Y,
}

/// A geometric remap of pixel indices: a bijection on `[0, domain)`.
pub trait Transposition {
    /// The parameters describe a real geometry.
    spec fn t_wf(&self) -> bool;

    /// The size of the index domain.
    spec fn domain(&self) -> int;

    /// The index mapping.
    spec fn map_index(&self, i: int) -> int;

    /// Apply the mapping to one index.
    fn transpose(&self, index: usize) -> (r: usize)
        requires
            self.t_wf(),
            (index as int) < self.domain(),
        ensures
            r as int == self.map_index(index as int),
            (r as int) < self.domain(),
    ;
}

/// Reverses a strip: index `i` maps to `length - 1 - i`.
pub struct Reverse {
    pub length: usize,
}

impl Transposition for Reverse {
    open spec fn t_wf(&self) -> bool {
        true
    }

    open spec fn domain(&self) -> int {
        self.length as int
    }

    open spec fn map_index(&self, i: int) -> int {
        self.length - 1 - i
    }

    fn transpose(&self, index: usize) -> (r: usize) {
        self.length - index - 1
    }
}

impl<T: Transposition> Transposition for &T {
    open spec fn t_wf(&self) -> bool {
        (**self).t_wf()
    }

    open spec fn domain(&self) -> int {
        (**self).domain()
    }

    open spec fn map_index(&self, i: int) -> int {
        (**self).map_index(i)
    }

    fn transpose(&self, index: usize) -> (r: usize) {
        (**self).transpose(index)
    }
}

impl Transposition for Box<dyn Transposition> {
    open spec fn t_wf(&self) -> bool {
        (**self).t_wf()
    }

    open spec fn domain(&self) -> int {
        (**self).domain()
    }

    open spec fn map_index(&self, i: int) -> int {
        (**self).map_index(i)
    }

    fn transpose(&self, index: usize) -> (r: usize) {
        (**self).transpose(index)
    }
}

/// Applying `Reverse` twice is the identity on `[0, length)`.
pub proof fn lemma_reverse_involution(t: &Reverse, i: int)
    requires
        0 <= i < t.domain(),
    ensures
        t.map_index(t.map_index(i)) == i,
{
}

/// An index `0 <= i < w * h` splits into a column `i % w` and a row `i / w`.
pub proof fn lemma_row_col(i: int, w: int, h: int)
    requires
        w >= 1,
        h >= 1,
        0 <= i < w * h,
    ensures
        0 <= i % w < w,
        0 <= i / w < h,
        i == (i / w) * w + (i % w),
{
    lemma_fundamental_div_mod(i, w);
    lemma_mod_bound(i, w);
    lemma_multiply_divide_lt(i, w, h);
    lemma_div_pos_is_pos(i, w);
}

/// A column `0 <= x < w` and a row `0 <= y < h` give the index `y * w + x`.
pub proof fn lemma_col_row_index(x: int, y: int, w: int, h: int)
    requires
        w >= 1,
        h >= 1,
        0 <= x < w,
        0 <= y < h,
    ensures
        0 <= y * w + x < w * h,
        (y * w + x) % w == x,
        (y * w + x) / w == y,
{
    assert(0 <= y * w + x < w * h) by (nonlinear_arith)
        requires
            w >= 1,
            h >= 1,
            0 <= x < w,
            0 <= y < h,
    {}
    lemma_fundamental_div_mod_converse(y * w + x, w, y, x);
}

impl core::str::FromStr for Dimensions {
    type Err = String;

    fn from_str(s: &str) -> (r: Result<Dimensions, String>)
        ensures
            r is Ok <==> dims_ok(s.spec_bytes()),
            r matches Ok(d) ==> d.w >= 1 && d.h >= 1 && dims_denote(s.spec_bytes(), d),
            r matches Err(e) ==> e@ == "can not parse \""@ + s@ + "\" into Dimensions"@,
    {
        match Dimensions::parse(s) {
            Some(d) => Ok(d),
            None => Err(
                "can not parse \"".to_owned().concat(s).concat("\" into Dimensions"),
            ),
        }
    }
}

/// Mirrors a `width` by `height` display along one of its axes.
pub struct Mirror {
    pub width: usize,
    pub height: usize,
    pub axis: Axis,
}

impl Transposition for Mirror {
    open spec fn t_wf(&self) -> bool {
        &&& self.width >= 1
        &&& self.height >= 1
        &&& self.width * self.height <= usize::MAX
    }

    open spec fn domain(&self) -> int {
        self.width * self.height
    }

    open spec fn map_index(&self, i: int) -> int {
        let x = i % (self.width as int);
        let y = i / (self.width as int);
        match self.axis {
            Axis::X => self.width * y + (self.width - x - 1),
            Axis::Y => self.width * (self.height - y - 1) + x,
        }
    }

    fn transpose(&self, index: usize) -> (r: usize) {
        proof {
            lemma_row_col(index as int, self.width as int, self.height as int);
        }
        let x = index % self.width;
        let y = index / self.width;
        proof {
            lemma_col_row_index(
                (self.width - x - 1) as int,
                y as int,
                self.width as int,
                self.height as int,
            );
            lemma_col_row_index(
                x as int,
                (self.height - y - 1) as int,
                self.width as int,
                self.height as int,
            );
        }
        match self.axis {
            Axis::X => self.width * y + (self.width - x - 1),
            Axis::Y => self.width * (self.height - y - 1) + x,
        }
    }
}

/// Applying `Mirror` twice, on either axis, is the identity on its domain.
pub proof fn lemma_mirror_involution(t: &Mirror, i: int)
    requires
        t.t_wf(),
        0 <= i < t.domain(),
    ensures
        t.map_index(t.map_index(i)) == i,
{
    let w = t.width as int;
    let h = t.height as int;
    let x = i % w;
    let y = i / w;
    lemma_row_col(i, w, h);
    match t.axis {
        Axis::X => {
            lemma_col_row_index(w - x - 1, y, w, h);
            lemma_col_row_index(x, y, w, h);
        }
        Axis::Y => {
            lemma_col_row_index(x, h - y - 1, w, h);
            lemma_col_row_index(x, y, w, h);
        }
    }
}

/// Serpentine remap of a `width` by `height` display: every other line along
/// the major axis runs backwards.
pub struct Zigzag {
    pub width: usize,
    pub height: usize,
    pub major_axis: Axis,
}

impl Transposition for Zigzag {
    open spec fn t_wf(&self) -> bool {
        &&& self.width >= 1
        &&& self.height >= 1
        &&& self.width * self.height <= usize::MAX
    }

    open spec fn domain(&self) -> int {
        self.width * self.height
    }

    open spec fn map_index(&self, i: int) -> int {
        let w = self.width as int;
        let h = self.height as int;
        match self.major_axis {
            Axis::X => {
                let x = i % w;
                let y = i / w;
                if x % 2 == 0 {
                    x * h + y
                } else {
                    x * h + (h - y - 1)
                }
            }
            Axis::Y => {
                let y = i / w;
                let x = if y % 2 == 0 {
                    i % w
                } else {
                    w - (i % w) - 1
                };
                y * w + x
            }
        }
    }

    fn transpose(&self, index: usize) -> (r: usize) {
        proof {
            lemma_row_col(index as int, self.width as int, self.height as int);
        }
        let x = index % self.width;
        let y = index / self.width;
        match self.major_axis {
            Axis::X => {
                proof {
                    lemma_col_row_index(y as int, x as int, self.height as int, self.width as int);
                    lemma_col_row_index(
                        (self.height - y - 1) as int,
                        x as int,
                        self.height as int,
                        self.width as int,
                    );
                }
                if x % 2 == 0 {
                    x * self.height + y
                } else {
                    x * self.height + (self.height - y - 1)
                }
            }
            Axis::Y => {
                proof {
                    lemma_col_row_index(x as int, y as int, self.width as int, self.height as int);
                    lemma_col_row_index(
                        (self.width - x - 1) as int,
                        y as int,
                        self.width as int,
                        self.height as int,
                    );
                }
                if y % 2 == 0 {
                    y * self.width + x
                } else {
                    y * self.width + (self.width - x - 1)
                }
            }
        }
    }
}

/// `Reverse` never sends two indices of its domain to the same place.
pub proof fn lemma_reverse_injective(t: &Reverse, i: int, j: int)
    requires
        0 <= i < t.domain(),
        0 <= j < t.domain(),
        t.map_index(i) == t.map_index(j),
    ensures
        i == j,
{
}

/// `Reverse` maps its domain into its domain.
pub proof fn lemma_reverse_in_range(t: &Reverse, i: int)
    requires
        0 <= i < t.domain(),
    ensures
        0 <= t.map_index(i) < t.domain(),
{
}

/// `Mirror` never sends two indices of its domain to the same place.
pub proof fn lemma_mirror_injective(t: &Mirror, i: int, j: int)
    requires
        t.t_wf(),
        0 <= i < t.domain(),
        0 <= j < t.domain(),
        t.map_index(i) == t.map_index(j),
    ensures
        i == j,
{
    lemma_mirror_involution(t, i);
    lemma_mirror_involution(t, j);
}

/// `Mirror` maps its domain into its domain.
pub proof fn lemma_mirror_in_range(t: &Mirror, i: int)
    requires
        t.t_wf(),
        0 <= i < t.domain(),
    ensures
        0 <= t.map_index(i) < t.domain(),
{
    let w = t.width as int;
    let h = t.height as int;
    lemma_row_col(i, w, h);
    match t.axis {
        Axis::X => {
            lemma_col_row_index(w - (i % w) - 1, i / w, w, h);
        }
        Axis::Y => {
            lemma_col_row_index(i % w, h - (i / w) - 1, w, h);
        }
    }
}

/// `Zigzag` maps its domain into its domain.
pub proof fn lemma_zigzag_in_range(t: &Zigzag, i: int)
    requires
        t.t_wf(),
        0 <= i < t.domain(),
    ensures
        0 <= t.map_index(i) < t.domain(),
{
    let w = t.width as int;
    let h = t.height as int;
    lemma_row_col(i, w, h);
    let x = i % w;
    let y = i / w;
    match t.major_axis {
        Axis::X => {
            lemma_col_row_index(y, x, h, w);
            lemma_col_row_index(h - y - 1, x, h, w);
        }
        Axis::Y => {
            lemma_col_row_index(x, y, w, h);
            lemma_col_row_index(w - x - 1, y, w, h);
        }
    }
}

/// `Zigzag` never sends two indices of its domain to the same place.
pub proof fn lemma_zigzag_injective(t: &Zigzag, i: int, j: int)
    requires
        t.t_wf(),
        0 <= i < t.domain(),
        0 <= j < t.domain(),
        t.map_index(i) == t.map_index(j),
    ensures
        i == j,
{
    let w = t.width as int;
    let h = t.height as int;
    lemma_row_col(i, w, h);
    lemma_row_col(j, w, h);
    let xi = i % w;
    let yi = i / w;
    let xj = j % w;
    let yj = j / w;
    match t.major_axis {
        Axis::X => {
            // The image splits as column-major coordinates: recovering the
            // quotient and remainder by `h` recovers `x` and the line offset.
            let oi = if xi % 2 == 0 { yi } else { h - yi - 1 };
            let oj = if xj % 2 == 0 { yj } else { h - yj - 1 };
            lemma_col_row_index(oi, xi, h, w);
            lemma_col_row_index(oj, xj, h, w);
            assert(xi == xj && oi == oj);
        }
        Axis::Y => {
            let oi = if yi % 2 == 0 { xi } else { w - xi - 1 };
            let oj = if yj % 2 == 0 { xj } else { w - xj - 1 };
            lemma_col_row_index(oi, yi, w, h);
            lemma_col_row_index(oj, yj, w, h);
            assert(yi == yj && oi == oj);
        }
    }
}

/// A list of transpositions over one domain, applied first to last.
impl<T: Transposition> Transposition for Vec<T> {
    open spec fn t_wf(&self) -> bool {
        forall|k: int|
            0 <= k < self@.len() ==> (#[trigger] self@[k].t_wf() && self@[k].domain()
                == self.domain())
    }

    open spec fn domain(&self) -> int {
        if self@.len() == 0 {
            usize::MAX as int + 1
        } else {
            self@[0].domain()
        }
    }

    open spec fn map_index(&self, i: int) -> int {
        compose_seq_map(self@, i)
    }

    fn transpose(&self, index: usize) -> (r: usize) {
        let mut idx = index;
        let mut k: usize = 0;
        let n = self.len();
        proof {
            assert(self@.subrange(0, n as int) =~= self@);
        }
        while k < n
            invariant
                self.t_wf(),
                (index as int) < self.domain(),
                n == self@.len(),
                k <= n,
                (idx as int) < self.domain(),
                compose_seq_map(self@, index as int) == compose_seq_map(
                    self@.subrange(k as int, n as int),
                    idx as int,
                ),
            decreases n - k,
        {
            proof {
                assert(self@.subrange(k as int, n as int).drop_first() =~= self@.subrange(
                    k as int + 1,
                    n as int,
                ));
                assert(self@[k as int].t_wf() && self@[k as int].domain() == self.domain());
            }
            idx = self[k].transpose(idx);
            k += 1;
        }
        proof {
            assert(self@.subrange(n as int, n as int).len() == 0);
        }
        idx
    }
}

/// Applies each transposition of a list in turn, first to last.
pub open spec fn compose_seq_map<T: Transposition>(s: Seq<T>, i: int) -> int
    decreases s.len(),
{
    if s.len() == 0 {
        i
    } else {
        compose_seq_map(s.drop_first(), s.first().map_index(i))
    }
}

/// The ASCII code of the digit zero.
pub const ASCII_ZERO: u8 = 48;

/// The ASCII code of the digit nine.
pub const ASCII_NINE: u8 = 57;

/// The ASCII code of the letter `x`, the separator of a 2D geometry.
pub const ASCII_LOWER_X: u8 = 120;

/// An ASCII decimal digit.
pub open spec fn is_digit(b: u8) -> bool {
    ASCII_ZERO <= b && b <= ASCII_NINE
}

/// A decimal number without sign, leading zeros or other characters; this is
/// how the geometry grammar writes a positive extent.
pub open spec fn is_pos_number(s: Seq<u8>) -> bool {
    &&& s.len() >= 1
    &&& s[0] != ASCII_ZERO
    &&& forall|i: int| 0 <= i < s.len() ==> is_digit(#[trigger] s[i])
}

/// The value of a sequence of decimal digits.
pub open spec fn number_value(s: Seq<u8>) -> int
    decreases s.len(),
{
    if s.len() == 0 {
        0
    } else {
        number_value(s.drop_last()) * 10 + (s.last() - ASCII_ZERO)
    }
}

/// Parse the digits of `s` between `lo` and `hi` as a positive decimal
/// number, rejecting anything the grammar does not allow and any value that
/// does not fit the machine.
fn parse_pos_number(s: &[u8], lo: usize, hi: usize) -> (r: Option<usize>)
    requires
        lo <= hi <= s@.len(),
    ensures
        r is Some <==> (is_pos_number(s@.subrange(lo as int, hi as int)) && number_value(
            s@.subrange(lo as int, hi as int),
        ) <= usize::MAX),
        r matches Some(v) ==> v == number_value(s@.subrange(lo as int, hi as int)),
{
    let ghost whole = s@.subrange(lo as int, hi as int);
    if lo == hi {
        return None;
    }
    if s[lo] == ASCII_ZERO {
        return None;
    }
    let mut acc: usize = 0;
    let mut i: usize = lo;
    while i < hi
        invariant
            lo <= i <= hi <= s@.len(),
            whole == s@.subrange(lo as int, hi as int),
            whole.len() >= 1,
            whole[0] != ASCII_ZERO,
            forall|m: int| lo <= m < i ==> is_digit(#[trigger] s@[m]),
            acc == number_value(s@.subrange(lo as int, i as int)),
        decreases hi - i,
    {
        let c = s[i];
        if c < ASCII_ZERO || c > ASCII_NINE {
            proof {
                assert(!is_digit(whole[i - lo]));
            }
            return None;
        }
        let d = (c - ASCII_ZERO) as usize;
        if acc > (usize::MAX - d) / 10 {
            proof {
                // The value read so far already exceeds the machine: if the
                // rest is digits at all, the whole value does too.
                let done = s@.subrange(lo as int, i as int + 1);
                assert(done.drop_last() =~= s@.subrange(lo as int, i as int));
                assert(done.last() == c);
                if is_pos_number(whole) {
                    assert(forall|m: int|
                        0 <= m < whole.len() ==> is_digit(#[trigger] whole[m]));
                    assert(done =~= whole.subrange(0, i - lo + 1));
                    lemma_number_prefix_le(whole, i - lo + 1);
                    assert(number_value(done) == acc * 10 + d);
                    assert(acc * 10 + d > usize::MAX) by (nonlinear_arith)
                        requires
                            acc > (usize::MAX - d) / 10,
                            0 <= d <= 9,
                            acc >= 0,
                    {}
                }
            }
            return None;
        }
        proof {
            assert(acc * 10 + d <= usize::MAX) by (nonlinear_arith)
                requires
                    acc <= (usize::MAX - d) / 10,
                    0 <= d <= 9,
                    acc >= 0,
            {}
            let done = s@.subrange(lo as int, i as int + 1);
            assert(done.drop_last() =~= s@.subrange(lo as int, i as int));
            assert(done.last() == c);
        }
        acc = acc * 10 + d;
        i += 1;
    }
    proof {
        assert(s@.subrange(lo as int, i as int) =~= whole);
        assert(forall|m: int| 0 <= m < whole.len() ==> is_digit(#[trigger] whole[m]));
    }
    Some(acc)
}

/// A positive number is worth at least one.
proof fn lemma_pos_number_value_pos(s: Seq<u8>)
    requires
        is_pos_number(s),
    ensures
        number_value(s) >= 1,
    decreases s.len(),
{
    if s.len() == 1 {
        assert(s.drop_last().len() == 0);
        assert(number_value(s.drop_last()) == 0);
        assert(s.last() == s[0]);
        assert(is_digit(s[0]));
        assert(number_value(s) == s[0] - ASCII_ZERO);
    } else {
        let t = s.drop_last();
        assert(t[0] == s[0]);
        assert(forall|i: int| 0 <= i < t.len() ==> t[i] == #[trigger] s[i]);
        assert(is_pos_number(t));
        lemma_pos_number_value_pos(t);
        assert(is_digit(s[s.len() - 1]));
        assert(number_value(s) == number_value(t) * 10 + (s.last() - ASCII_ZERO));
    }
}


/// The value of a whole digit sequence is at least the value of any prefix.
pub proof fn lemma_number_prefix_le(s: Seq<u8>, k: int)
    requires
        forall|i: int| 0 <= i < s.len() ==> is_digit(#[trigger] s[i]),
        0 <= k <= s.len(),
    ensures
        number_value(s.subrange(0, k)) <= number_value(s),
    decreases s.len(),
{
    if k == s.len() {
        assert(s.subrange(0, k) =~= s);
    } else {
        let t = s.drop_last();
        assert(s.subrange(0, k) =~= t.subrange(0, k));
        lemma_number_prefix_le(t, k);
        lemma_number_nonneg(t);
    }
}

/// Digit sequences have no negative value.
pub proof fn lemma_number_nonneg(s: Seq<u8>)
    requires
        forall|i: int| 0 <= i < s.len() ==> is_digit(#[trigger] s[i]),
    ensures
        number_value(s) >= 0,
    decreases s.len(),
{
    if s.len() > 0 {
        lemma_number_nonneg(s.drop_last());
    }
}

/// Whether the bytes form a plain positive number: the 1D geometry.
pub open spec fn dims_1d_ok(s: Seq<u8>) -> bool {
    is_pos_number(s) && number_value(s) <= usize::MAX
}

/// Whether position `k` splits the bytes into `<width>x<height>`: the 2D
/// geometry.
pub open spec fn dims_2d_at(s: Seq<u8>, k: int) -> bool {
    &&& 0 <= k < s.len()
    &&& s[k] == ASCII_LOWER_X
    &&& is_pos_number(s.subrange(0, k))
    &&& number_value(s.subrange(0, k)) <= usize::MAX
    &&& is_pos_number(s.subrange(k + 1, s.len() as int))
    &&& number_value(s.subrange(k + 1, s.len() as int)) <= usize::MAX
}

/// Whether the bytes are a well-formed geometry, in either form.
pub open spec fn dims_ok(s: Seq<u8>) -> bool {
    dims_1d_ok(s) || exists|k: int| dims_2d_at(s, k)
}

/// What dimensions a well-formed geometry denotes: a 1D geometry gives a
/// single-row strip of its value, a 2D geometry gives the two extents around
/// its separator.
pub open spec fn dims_denote(s: Seq<u8>, d: Dimensions) -> bool {
    if dims_1d_ok(s) {
        d.w == number_value(s) && d.h == 1
    } else {
        exists|k: int| dims_2d_split(s, k, d)
    }
}

/// The split of a 2D geometry at separator position `k` into `d`.
pub open spec fn dims_2d_split(s: Seq<u8>, k: int, d: Dimensions) -> bool {
    &&& #[trigger] dims_2d_at(s, k)
    &&& d.w == number_value(s.subrange(0, k))
    &&& d.h == number_value(s.subrange(k + 1, s.len() as int))
}

impl Dimensions {
    /// Parse a geometry: a positive number for a strip, or
    /// `<width>x<height>` for a matrix, rejecting signs, leading zeros and
    /// values that do not fit the machine.
    pub fn parse(s: &str) -> (r: Option<Dimensions>)
        ensures
            r is Some <==> dims_ok(s.spec_bytes()),
            r matches Some(d) ==> d.w >= 1 && d.h >= 1 && dims_denote(s.spec_bytes(), d),
    {
        let b = s.as_bytes();
        let n = b.len();
        let ghost bs = s.spec_bytes();
        // Find the separator, if any; the digits of a valid geometry never
        // contain one, so only the first candidate can succeed.
        let mut sep: usize = 0;
        while sep < n && b[sep] != ASCII_LOWER_X
            invariant
                n == bs.len(),
                b@ == bs,
                sep <= n,
                forall|m: int| 0 <= m < sep ==> bs[m] != ASCII_LOWER_X,
            decreases n - sep,
        {
            sep += 1;
        }
        if sep == n {
            // No separator anywhere: only the 1D form can match.
            match parse_pos_number(b, 0, n) {
                Some(w) => {
                    proof {
                        assert(bs.subrange(0, n as int) =~= bs);
                        assert(forall|k: int| !dims_2d_at(bs, k));
                        lemma_pos_number_value_pos(bs);
                    }
                    Some(Dimensions { w, h: 1 })
                }
                None => {
                    proof {
                        assert(bs.subrange(0, n as int) =~= bs);
                        assert(forall|k: int| !dims_2d_at(bs, k));
                    }
                    None
                }
            }
        } else {
            proof {
                assert(bs[sep as int] == ASCII_LOWER_X);
                // A 1D geometry has digits only, so it cannot hold this
                // separator; and any valid split sits exactly here, since
                // digits before an earlier split could not contain it.
                assert(!dims_1d_ok(bs));
                assert forall|k: int| dims_2d_at(bs, k) implies k == sep by {
                    if k < sep {
                        assert(bs.subrange(k + 1, bs.len() as int)[sep - k - 1] == ASCII_LOWER_X);
                        assert(!is_digit(120u8));
                    }
                    if k > sep {
                        assert(bs.subrange(0, k)[sep as int] == ASCII_LOWER_X);
                        assert(!is_digit(120u8));
                    }
                }
            }
            let w_opt = parse_pos_number(b, 0, sep);
            let h_opt = parse_pos_number(b, sep + 1, n);
            match (w_opt, h_opt) {
                (Some(w), Some(h)) => {
                    proof {
                        assert(dims_2d_at(bs, sep as int));
                        lemma_pos_number_value_pos(bs.subrange(0, sep as int));
                        lemma_pos_number_value_pos(bs.subrange(sep as int + 1, n as int));
                        assert(dims_2d_split(bs, sep as int, Dimensions { w, h }));
                    }
                    Some(Dimensions { w, h })
                }
                _ => {
                    proof {
                        assert(!dims_2d_at(bs, sep as int));
                    }
                    None
                }
            }
        }
    }
}

} // verus!
