//! The SK9822 chipset: the APA102 framing with an added four-byte end frame.

use crate::color::{Correction, Pixel};
use crate::device::apa102::{apa102_pixel, push_apa102_pixels};
use crate::device::{concat_map, Device};
use crate::driver::{Config, FirstBit};
use crate::geometry::{is_digit, lemma_number_prefix_le, number_value};
use crate::GenericError;
use vstd::prelude::*;
use vstd::string::StringSliceAdditionalSpecFns;

verus! {

/// The SK9822 codec.
pub struct Sk9822 {
    /// 5-bit grayscale value to apply to all pixels.
    pub grayscale: u8,
    pub spidev_clock: u32,
}

/// The wire bytes of a whole frame: four zero bytes, each pixel as on the
/// APA102, then four `0xFF` bytes.
pub open spec fn sk9822_frame(gs: u8, frame: Seq<Pixel>) -> Seq<u8> {
    seq![0u8, 0u8, 0u8, 0u8] + concat_map(frame, apa102_pixel(gs)) + seq![
        0xFFu8,
        0xFFu8,
        0xFFu8,
        0xFFu8,
    ]
}

impl Device for Sk9822 {
    fn write_frame(&self, out: &mut Vec<u8>, frame: &Vec<Pixel>) -> (r: Result<(), GenericError>)
        ensures
            r is Ok,
            final(out)@ == old(out)@ + sk9822_frame(self.grayscale, frame@),
    {
        out.push(0x00);
        out.push(0x00);
        out.push(0x00);
        out.push(0x00);
        push_apa102_pixels(out, self.grayscale, frame);
        out.push(0xFF);
        out.push(0xFF);
        out.push(0xFF);
        out.push(0xFF);
        proof {
            assert(out@ =~= old(out)@ + sk9822_frame(self.grayscale, frame@));
        }
        Ok(())
    }

    fn color_correction(&self) -> (c: Correction)
        ensures
            c.wf(),
            crate::color::is_srgb_tables(&c, 255, 255, 255),
    {
        Correction::srgb(255, 255, 255)
    }

    fn spidev_config(&self) -> (r: Option<Config>)
        ensures
            r matches Some(cfg) ==> cfg.clock_polarity == 0 && cfg.clock_phase == 0
                && cfg.first_bit is Msb && cfg.speed_hz == self.spidev_clock,
            r is Some,
    {
        Some(
            Config {
                clock_polarity: 0,
                clock_phase: 0,
                first_bit: FirstBit::Msb,
                speed_hz: self.spidev_clock,
            },
        )
    }
}

/// A nonempty run of decimal digits.
pub open spec fn all_decimal(s: Seq<u8>) -> bool {
    s.len() >= 1 && forall|i: int| 0 <= i < s.len() ==> is_digit(#[trigger] s[i])
}

/// Check that a textual grayscale setting is a number within the 5-bit
/// range, as the command line demands of `--grayscale`.
pub fn validate_grayscale(v: &str) -> (r: Result<(), GenericError>)
    ensures
        r is Ok <==> (all_decimal(v.spec_bytes()) && number_value(v.spec_bytes()) <= 31),
{
    let b = v.as_bytes();
    match parse_u8_digits(b) {
        Some(i) => {
            if i <= 31 {
                Ok(())
            } else {
                Err(GenericError::new("Grayscale value out of range"))
            }
        }
        None => Err(GenericError::new("Grayscale value is not a number")),
    }
}

/// Parse a decimal byte: a nonempty digit run worth at most 255.
fn parse_u8_digits(b: &[u8]) -> (r: Option<u8>)
    ensures
        r is Some <==> (all_decimal(b@) && number_value(b@) <= 255),
        r matches Some(v) ==> v == number_value(b@),
{
    let n = b.len();
    if n == 0 {
        return None;
    }
    let mut acc: u32 = 0;
    let mut i: usize = 0;
    while i < n
        invariant
            i <= n,
            n == b@.len(),
            n >= 1,
            forall|m: int| 0 <= m < i ==> is_digit(#[trigger] b@[m]),
            acc == number_value(b@.subrange(0, i as int)),
            acc <= 255,
        decreases n - i,
    {
        let c = b[i];
        if c < 48 || c > 57 {
            return None;
        }
        let d = (c - 48) as u32;
        let next = acc * 10 + d;
        proof {
            let done = b@.subrange(0, i as int + 1);
            assert(done.drop_last() =~= b@.subrange(0, i as int));
            assert(done.last() == c);
        }
        if next > 255 {
            proof {
                if all_decimal(b@) && number_value(b@) <= 255 {
                    lemma_number_prefix_le(b@, i as int + 1);
                }
            }
            return None;
        }
        acc = next;
        i += 1;
    }
    proof {
        assert(b@.subrange(0, n as int) =~= b@);
    }
    Some(acc as u8)
}

} // verus!
