//! The WS2812 chipset driven over SPI: every data bit becomes three SPI
//! bits whose duty cycle encodes it.
//!
//! A bit is sent as a high-low period 1.25 microseconds long; a period two
//! thirds high is a one, a period one third high is a zero. At three SPI
//! bits per period that is `110` for a one and `100` for a zero. After a
//! frame the line must rest 50 microseconds to latch; the driver outside
//! this crate waits after writing the bytes.

use crate::color::{Correction, Pixel};
use crate::device::{concat_map, Device};
use crate::driver::{Config, FirstBit};
use crate::GenericError;
use vstd::prelude::*;

verus! {

/// The WS2812 codec.
pub struct Ws2812 {}

/// The 24-bit SPI word of one data byte, built from its low `i` bits: the
/// group for data bit `k` sits at SPI bits `3k + 2 .. 3k`, holding `1`, the
/// data bit, and `0` from high to low.
pub open spec fn ws2812_word(b: u8, i: int) -> u32
    decreases i,
{
    if i <= 0 {
        0u32
    } else {
        ws2812_word(b, i - 1) | ((0b100u32 | ((((b >> ((i - 1) as u8)) & 1u8) as u32) << 1u32))
            << ((3 * (i - 1)) as u32))
    }
}

/// The three SPI bytes of one data byte, highest SPI bits first.
pub open spec fn ws2812_bytes(b: u8) -> Seq<u8> {
    let w = ws2812_word(b, 8);
    seq![((w >> 16u32) & 0xffu32) as u8, ((w >> 8u32) & 0xffu32) as u8, (w & 0xffu32) as u8]
}

/// The nine SPI bytes of one pixel: its data bytes in green, red, blue
/// order, each expanded.
pub open spec fn ws2812_pixel() -> spec_fn(Pixel) -> Seq<u8> {
    |p: Pixel| ws2812_bytes(p.g) + ws2812_bytes(p.r) + ws2812_bytes(p.b)
}

/// The SPI bytes of a whole frame.
pub open spec fn ws2812_frame(frame: Seq<Pixel>) -> Seq<u8> {
    concat_map(frame, ws2812_pixel())
}

/// Expand one data byte and append its three SPI bytes.
fn push_expanded(out: &mut Vec<u8>, b: u8)
    ensures
        final(out)@ == old(out)@ + ws2812_bytes(b),
{
    let mut obits: u32 = 0;
    let mut i: usize = 0;
    while i < 8
        invariant
            i <= 8,
            obits == ws2812_word(b, i as int),
        decreases 8 - i,
    {
        let middle_bit = (b >> i) & 1;
        obits = obits | ((0b100u32 | ((middle_bit as u32) << 1)) << (i * 3));
        proof {
            assert((i * 3) as u32 == (3 * (i as int)) as u32);
            assert((b >> (i as u8)) == (b >> ((i + 1 - 1) as u8)));
        }
        i += 1;
    }
    out.push(((obits >> 16) & 0xff) as u8);
    out.push(((obits >> 8) & 0xff) as u8);
    out.push((obits & 0xff) as u8);
    proof {
        assert(out@ =~= old(out)@ + ws2812_bytes(b));
    }
}

impl Device for Ws2812 {
    fn write_frame(&self, out: &mut Vec<u8>, frame: &Vec<Pixel>) -> (r: Result<(), GenericError>)
        ensures
            r is Ok,
            final(out)@ == old(out)@ + ws2812_frame(frame@),
    {
        let n = frame.len();
        let mut k: usize = 0;
        while k < n
            invariant
                k <= n,
                n == frame@.len(),
                out@ == old(out)@ + concat_map(frame@.subrange(0, k as int), ws2812_pixel()),
            decreases n - k,
        {
            let p = frame[k];
            push_expanded(out, p.g);
            push_expanded(out, p.r);
            push_expanded(out, p.b);
            proof {
                let prefix = frame@.subrange(0, k as int + 1);
                assert(prefix.drop_last() =~= frame@.subrange(0, k as int));
                assert(prefix.last() == frame@[k as int]);
                assert(out@ =~= old(out)@ + concat_map(prefix, ws2812_pixel()));
            }
            k += 1;
        }
        proof {
            assert(frame@.subrange(0, n as int) =~= frame@);
        }
        Ok(())
    }

    fn color_correction(&self) -> (c: Correction)
        ensures
            c.wf(),
            crate::color::is_srgb_tables(&c, 255, 255, 255),
    {
        Correction::srgb(255, 255, 255)
    }

    fn latch_wait_micros(&self) -> (r: u64)
        ensures
            r == 50,
    {
        50
    }

    fn spidev_config(&self) -> (r: Option<Config>)
        ensures
            r matches Some(cfg) ==> cfg.clock_polarity == 0 && cfg.clock_phase == 0
                && cfg.first_bit is Msb && cfg.speed_hz == 2_400_000,
            r is Some,
    {
        Some(
            Config {
                // The WS2812 takes no clock; polarity and phase are moot.
                clock_polarity: 0,
                clock_phase: 0,
                first_bit: FirstBit::Msb,
                // One period is 1.25 microseconds for 3 SPI bits: 2.4 MHz.
                speed_hz: 2_400_000,
            },
        )
    }
}

} // verus!
