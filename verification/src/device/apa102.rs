//! The APA102 chipset: four-byte start frame, then one four-byte group per
//! pixel on an SPI bus.

use crate::color::{Correction, Pixel};
use crate::device::{concat_map, Device};
use crate::driver::{Config, FirstBit};
use crate::GenericError;
use vstd::prelude::*;

verus! {

/// The APA102 codec.
pub struct Apa102 {
    /// 5-bit grayscale value to apply to all pixels.
    pub grayscale: u8,
    pub spidev_clock: u32,
}

/// The four wire bytes of one pixel: a global-grayscale byte with its three
/// high bits set, then blue, green, red.
pub open spec fn apa102_pixel(gs: u8) -> spec_fn(Pixel) -> Seq<u8> {
    |p: Pixel| seq![(0xE0u8 | gs), p.b, p.g, p.r]
}

/// The wire bytes of a whole frame: four zero bytes, then each pixel.
pub open spec fn apa102_frame(gs: u8, frame: Seq<Pixel>) -> Seq<u8> {
    seq![0u8, 0u8, 0u8, 0u8] + concat_map(frame, apa102_pixel(gs))
}

/// Append each pixel's four-byte group to `out`, in frame order.
pub(crate) fn push_apa102_pixels(out: &mut Vec<u8>, gs: u8, frame: &Vec<Pixel>)
    ensures
        final(out)@ == old(out)@ + concat_map(frame@, apa102_pixel(gs)),
{
    let n = frame.len();
    let mut i: usize = 0;
    while i < n
        invariant
            i <= n,
            n == frame@.len(),
            out@ == old(out)@ + concat_map(frame@.subrange(0, i as int), apa102_pixel(gs)),
        decreases n - i,
    {
        let p = frame[i];
        out.push(0xE0 | gs);
        out.push(p.b);
        out.push(p.g);
        out.push(p.r);
        proof {
            let prefix = frame@.subrange(0, i as int + 1);
            assert(prefix.drop_last() =~= frame@.subrange(0, i as int));
            assert(prefix.last() == frame@[i as int]);
            assert(out@ =~= old(out)@ + concat_map(prefix, apa102_pixel(gs)));
        }
        i += 1;
    }
    proof {
        assert(frame@.subrange(0, n as int) =~= frame@);
    }
}

impl Device for Apa102 {
    fn write_frame(&self, out: &mut Vec<u8>, frame: &Vec<Pixel>) -> (r: Result<(), GenericError>)
        ensures
            r is Ok,
            final(out)@ == old(out)@ + apa102_frame(self.grayscale, frame@),
    {
        out.push(0x00);
        out.push(0x00);
        out.push(0x00);
        out.push(0x00);
        push_apa102_pixels(out, self.grayscale, frame);
        proof {
            assert(out@ =~= old(out)@ + apa102_frame(self.grayscale, frame@));
        }
        Ok(())
    }

    fn color_correction(&self) -> (c: Correction)
        ensures
            c.wf(),
            crate::color::is_srgb_tables(&c, 255, 255, 255),
    {
        Correction::srgb(255, 255, 255)
    }

    fn spidev_config(&self) -> (r: Option<Config>)
        ensures
            r matches Some(cfg) ==> cfg.clock_polarity == 0 && cfg.clock_phase == 0
                && cfg.first_bit is Msb && cfg.speed_hz == self.spidev_clock,
            r is Some,
    {
        Some(
            Config {
                clock_polarity: 0,
                clock_phase: 0,
                first_bit: FirstBit::Msb,
                speed_hz: self.spidev_clock,
            },
        )
    }
}

} // verus!
