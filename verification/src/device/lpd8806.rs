//! The LPD8806 chipset: ten zero bytes, the pixels in reverse order with
//! seven-bit channels, and fifty trailing zero bytes.

use crate::color::{Correction, Pixel};
use crate::device::{concat_map, push_zeros, zeros, Device};
use crate::driver::{Config, FirstBit};
use crate::GenericError;
use vstd::prelude::*;

verus! {

/// The LPD8806 codec.
pub struct Lpd8806 {
    pub spidev_clock: u32,
}

/// The three wire bytes of one pixel: each channel halved with the marker
/// bit set, in green, red, blue order.
pub open spec fn lpd8806_pixel() -> spec_fn(Pixel) -> Seq<u8> {
    |p: Pixel| seq![((p.g >> 1) | 0x80u8), ((p.r >> 1) | 0x80u8), ((p.b >> 1) | 0x80u8)]
}

/// The wire bytes of a whole frame: ten zero bytes, each pixel from last to
/// first, then fifty zero bytes.
pub open spec fn lpd8806_frame(frame: Seq<Pixel>) -> Seq<u8> {
    zeros(10) + concat_map(frame.reverse(), lpd8806_pixel()) + zeros(50)
}

impl Device for Lpd8806 {
    fn write_frame(&self, out: &mut Vec<u8>, frame: &Vec<Pixel>) -> (r: Result<(), GenericError>)
        ensures
            r is Ok,
            final(out)@ == old(out)@ + lpd8806_frame(frame@),
    {
        push_zeros(out, 10);
        let n = frame.len();
        let mut k: usize = 0;
        while k < n
            invariant
                k <= n,
                n == frame@.len(),
                out@ == old(out)@ + zeros(10) + concat_map(
                    frame@.reverse().subrange(0, k as int),
                    lpd8806_pixel(),
                ),
            decreases n - k,
        {
            let p = frame[n - 1 - k];
            out.push((p.g >> 1) | 0x80);
            out.push((p.r >> 1) | 0x80);
            out.push((p.b >> 1) | 0x80);
            proof {
                let prefix = frame@.reverse().subrange(0, k as int + 1);
                assert(prefix.drop_last() =~= frame@.reverse().subrange(0, k as int));
                assert(prefix.last() == frame@[n - 1 - k]);
                assert(out@ =~= old(out)@ + zeros(10) + concat_map(prefix, lpd8806_pixel()));
            }
            k += 1;
        }
        push_zeros(out, 50);
        proof {
            assert(frame@.reverse().subrange(0, n as int) =~= frame@.reverse());
            assert(out@ =~= old(out)@ + lpd8806_frame(frame@));
        }
        Ok(())
    }

    fn color_correction(&self) -> (c: Correction)
        ensures
            c.wf(),
            crate::color::is_srgb_tables(&c, 255, 255, 255),
    {
        Correction::srgb(255, 255, 255)
    }

    fn spidev_config(&self) -> (r: Option<Config>)
        ensures
            r matches Some(cfg) ==> cfg.clock_polarity == 0 && cfg.clock_phase == 0
                && cfg.first_bit is Msb && cfg.speed_hz == self.spidev_clock,
            r is Some,
    {
        Some(
            Config {
                clock_polarity: 0,
                clock_phase: 0,
                first_bit: FirstBit::Msb,
                speed_hz: self.spidev_clock,
            },
        )
    }
}

} // verus!
