//! A WS2811 driver fed over a hex-oriented serial protocol: the pixels in
//! reverse order as 16-bit little-endian slots, then a fixed trailer.
//!
//! Each 8-bit channel is multiplied by 256 into its 16-bit slot with the low
//! byte first, so the low byte on the wire is always zero.

use crate::color::{Correction, Pixel};
use crate::device::{concat_map, Device};
use crate::GenericError;
use vstd::prelude::*;

verus! {

/// The HexWS2811 codec.
pub struct HexWS2811 {}

/// The six wire bytes of one pixel: for each of green, red, blue, the
/// channel shifted into the high byte of a little-endian 16-bit slot.
pub open spec fn hexws2811_pixel() -> spec_fn(Pixel) -> Seq<u8> {
    |p: Pixel| seq![0u8, p.g, 0u8, p.r, 0u8, p.b]
}

/// The wire bytes of a whole frame: each pixel from last to first, then the
/// trailer `FF FF FF F0`.
pub open spec fn hexws2811_frame(frame: Seq<Pixel>) -> Seq<u8> {
    concat_map(frame.reverse(), hexws2811_pixel()) + seq![0xFFu8, 0xFFu8, 0xFFu8, 0xF0u8]
}

/// The low byte of a channel's 16-bit slot: always zero.
fn slot_low(c: u8) -> (r: u8)
    ensures
        r == 0,
{
    proof {
        assert(((((c as u16) << 8u16) & 0xffu16) as u8) == 0) by (bit_vector);
    }
    (((c as u16) << 8u16) & 0xffu16) as u8
}

/// The high byte of a channel's 16-bit slot: the channel itself.
fn slot_high(c: u8) -> (r: u8)
    ensures
        r == c,
{
    proof {
        assert(((((c as u16) << 8u16) >> 8u16) as u8) == c) by (bit_vector);
    }
    (((c as u16) << 8u16) >> 8u16) as u8
}

impl Device for HexWS2811 {
    fn write_frame(&self, out: &mut Vec<u8>, frame: &Vec<Pixel>) -> (r: Result<(), GenericError>)
        ensures
            r is Ok,
            final(out)@ == old(out)@ + hexws2811_frame(frame@),
    {
        let n = frame.len();
        let mut k: usize = 0;
        while k < n
            invariant
                k <= n,
                n == frame@.len(),
                out@ == old(out)@ + concat_map(
                    frame@.reverse().subrange(0, k as int),
                    hexws2811_pixel(),
                ),
            decreases n - k,
        {
            let p = frame[n - 1 - k];
            out.push(slot_low(p.g));
            out.push(slot_high(p.g));
            out.push(slot_low(p.r));
            out.push(slot_high(p.r));
            out.push(slot_low(p.b));
            out.push(slot_high(p.b));
            proof {
                let prefix = frame@.reverse().subrange(0, k as int + 1);
                assert(prefix.drop_last() =~= frame@.reverse().subrange(0, k as int));
                assert(prefix.last() == frame@[n - 1 - k]);
                assert(out@ =~= old(out)@ + concat_map(prefix, hexws2811_pixel()));
            }
            k += 1;
        }
        out.push(0xFF);
        out.push(0xFF);
        out.push(0xFF);
        out.push(0xF0);
        proof {
            assert(frame@.reverse().subrange(0, n as int) =~= frame@.reverse());
            assert(out@ =~= old(out)@ + hexws2811_frame(frame@));
        }
        Ok(())
    }

    fn color_correction(&self) -> (c: Correction)
        ensures
            c.wf(),
            crate::color::is_srgb_tables(&c, 255, 255, 255),
    {
        Correction::srgb(255, 255, 255)
    }
}

} // verus!
