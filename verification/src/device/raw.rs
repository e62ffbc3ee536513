//! A raw pass-through format: three bytes per pixel in green, red, blue
//! order, with the SPI settings chosen on the command line.

use crate::color::{Correction, Pixel};
use crate::device::{concat_map, Device};
use crate::driver::{Config, FirstBit};
use crate::GenericError;
use vstd::prelude::*;

verus! {

/// The raw codec.
pub struct Raw {
    pub clock_phase: u8,
    pub clock_polarity: u8,
    pub first_bit: FirstBit,
}

/// The three wire bytes of one pixel: green, red, blue.
pub open spec fn raw_pixel() -> spec_fn(Pixel) -> Seq<u8> {
    |p: Pixel| seq![p.g, p.r, p.b]
}

/// The wire bytes of a whole frame: each pixel in frame order.
pub open spec fn raw_frame(frame: Seq<Pixel>) -> Seq<u8> {
    concat_map(frame, raw_pixel())
}

impl Device for Raw {
    fn write_frame(&self, out: &mut Vec<u8>, frame: &Vec<Pixel>) -> (r: Result<(), GenericError>)
        ensures
            r is Ok,
            final(out)@ == old(out)@ + raw_frame(frame@),
    {
        let n = frame.len();
        let mut i: usize = 0;
        while i < n
            invariant
                i <= n,
                n == frame@.len(),
                out@ == old(out)@ + concat_map(frame@.subrange(0, i as int), raw_pixel()),
            decreases n - i,
        {
            let p = frame[i];
            out.push(p.g);
            out.push(p.r);
            out.push(p.b);
            proof {
                let prefix = frame@.subrange(0, i as int + 1);
                assert(prefix.drop_last() =~= frame@.subrange(0, i as int));
                assert(prefix.last() == frame@[i as int]);
                assert(out@ =~= old(out)@ + concat_map(prefix, raw_pixel()));
            }
            i += 1;
        }
        proof {
            assert(frame@.subrange(0, n as int) =~= frame@);
        }
        Ok(())
    }

    fn color_correction(&self) -> (c: Correction)
        ensures
            c.wf(),
            c.is_identity(),
    {
        Correction::none()
    }

    fn spidev_config(&self) -> (r: Option<Config>)
        ensures
            r matches Some(cfg) ==> cfg.clock_polarity == self.clock_polarity
                && cfg.clock_phase == self.clock_phase && cfg.first_bit == self.first_bit
                && cfg.speed_hz == 500_000,
            r is Some,
    {
        Some(
            Config {
                clock_polarity: self.clock_polarity,
                clock_phase: self.clock_phase,
                first_bit: self.first_bit,
                speed_hz: 500_000,
            },
        )
    }
}

} // verus!
