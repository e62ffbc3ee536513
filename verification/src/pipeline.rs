//! The transform stage: turning one frame of raw bytes into pixels.
//!
//! Each frame read from the inputs is `N * 3` bytes. The transform dims every
//! channel, applies the color correction lookup, and stores the pixel at the
//! index the permutation table assigns.

use crate::color::{Correction, Pixel};
use vstd::arithmetic::div_mod::lemma_div_is_ordered;
use vstd::arithmetic::mul::lemma_mul_inequality;
use vstd::prelude::*;

verus! {

/// One channel dimmed: `c * dim / 255`, the global grayscale before color
/// correction.
pub open spec fn spec_dim_channel(c: u8, dim: u8) -> u8 {
    ((c * dim) / 255) as u8
}

/// A pixel with every channel dimmed.
pub open spec fn spec_dim_pixel(p: Pixel, dim: u8) -> Pixel {
    Pixel {
        r: spec_dim_channel(p.r, dim),
        g: spec_dim_channel(p.g, dim),
        b: spec_dim_channel(p.b, dim),
    }
}

/// The pixel at position `i` of a raw frame: three bytes in `r, g, b` order.
pub open spec fn pixel_at(bin: Seq<u8>, i: int) -> Pixel {
    Pixel { r: bin[3 * i], g: bin[3 * i + 1], b: bin[3 * i + 2] }
}

/// Dim one channel.
pub fn dim_channel(c: u8, dim: u8) -> (r: u8)
    ensures
        r == spec_dim_channel(c, dim),
{
    proof {
        lemma_mul_inequality(c as int, 255, dim as int);
        lemma_div_is_ordered(c as int * dim as int, 255 * dim as int, 255);
        assert(255 * dim as int / 255 == dim as int) by (nonlinear_arith);
    }
    ((c as u32 * dim as u32) / 255) as u8
}

/// Dimming is monotonic: a channel no brighter than another stays no
/// brighter after dimming, whatever the dim level.
pub proof fn lemma_dim_monotone(c1: u8, c2: u8, dim: u8)
    requires
        c1 <= c2,
    ensures
        spec_dim_channel(c1, dim) <= spec_dim_channel(c2, dim),
{
    lemma_mul_inequality(c1 as int, c2 as int, dim as int);
    lemma_div_is_ordered(c1 as int * dim as int, c2 as int * dim as int, 255);
    // The quotients stay within a byte, so the casts change nothing.
    lemma_mul_inequality(c2 as int, 255, dim as int);
    lemma_div_is_ordered(c2 as int * dim as int, 255 * dim as int, 255);
    assert(255 * dim as int / 255 == dim as int) by (nonlinear_arith);
}

/// Dimming followed by a monotone correction table stays monotonic: a
/// channel no brighter than another never comes out brighter.
pub proof fn lemma_dim_correct_monotone(c1: u8, c2: u8, dim: u8, table: Seq<u8>)
    requires
        c1 <= c2,
        crate::color::table_monotone(table),
        table.len() == 256,
    ensures
        table[spec_dim_channel(c1, dim) as int] <= table[spec_dim_channel(c2, dim) as int],
{
    lemma_dim_monotone(c1, c2, dim);
}

/// Full brightness changes nothing: dimming by `255 / 255` is the identity.
pub proof fn lemma_dim_full(c: u8)
    ensures
        spec_dim_channel(c, 255) == c,
{
    assert(c as int * 255 / 255 == c as int) by (nonlinear_arith);
}

/// Transform one raw frame: dim each pixel, correct it, and store it where
/// the permutation table points.
///
/// Entry `i` of the table says where source pixel `i` lands in the output.
pub fn transform_frame(
    bin: &Vec<u8>,
    transposition: &Vec<usize>,
    correction: &Correction,
    dim: u8,
) -> (out: Vec<Pixel>)
    requires
        bin@.len() == transposition@.len() * 3,
        correction.wf(),
        forall|i: int|
            0 <= i < transposition@.len() ==> #[trigger] transposition@[i]
                < transposition@.len(),
        forall|i: int, j: int|
            0 <= i < transposition@.len() && 0 <= j < transposition@.len() && i != j
                ==> transposition@[i] != transposition@[j],
    ensures
        out@.len() == transposition@.len(),
        forall|i: int|
            0 <= i < transposition@.len() ==> out@[transposition@[i] as int]
                == correction.spec_correct(spec_dim_pixel(pixel_at(bin@, i), dim)),
{
    let n = transposition.len();
    let bin_len = bin.len();
    let mut out: Vec<Pixel> = Vec::new();
    let mut k: usize = 0;
    while k < n
        invariant
            k <= n,
            out@.len() == k,
        decreases n - k,
    {
        out.push(Pixel { r: 0, g: 0, b: 0 });
        k += 1;
    }
    let mut i: usize = 0;
    while i < n
        invariant
            i <= n,
            n == transposition@.len(),
            bin@.len() == n * 3,
            bin_len == bin@.len(),
            correction.wf(),
            out@.len() == n,
            forall|m: int| 0 <= m < n ==> #[trigger] transposition@[m] < n,
            forall|m: int, j: int|
                0 <= m < n && 0 <= j < n && m != j ==> transposition@[m] != transposition@[j],
            forall|m: int|
                0 <= m < i ==> out@[transposition@[m] as int] == correction.spec_correct(
                    spec_dim_pixel(pixel_at(bin@, m), dim),
                ),
        decreases n - i,
    {
        proof {
            assert(3 * i + 2 < n * 3) by (nonlinear_arith)
                requires
                    i < n,
            {}
        }
        let pix = Pixel { r: bin[3 * i], g: bin[3 * i + 1], b: bin[3 * i + 2] };
        let pix = Pixel {
            r: dim_channel(pix.r, dim),
            g: dim_channel(pix.g, dim),
            b: dim_channel(pix.b, dim),
        };
        let pix = correction.correct(pix);
        let target = transposition[i];
        out.set(target, pix);
        i += 1;
    }
    out
}

} // verus!
