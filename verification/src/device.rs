//! The device abstractions: codecs that serialize frames into wire bytes,
//! and sinks that own their own transport.

pub mod apa102;
pub mod artnet;
pub mod fluxled;
pub mod generic;
pub mod hexws2811;
pub mod hub75;
pub mod lpd8806;
pub mod raw;
pub mod ws2812;
pub mod simulator;
pub mod sk9822;

use crate::color::{Correction, Pixel};
use crate::driver::Config;
use crate::geometry::Dimensions;
use crate::GenericError;
use vstd::prelude::*;

verus! {

/// A device codec: the wire format of a physical device.
///
/// `write_frame` appends the device's exact wire bytes for one frame to a
/// byte buffer; a driver outside this crate carries the buffer to the
/// hardware.
pub trait Device {
    /// Serialize one frame, appending its wire bytes to `out`.
    fn write_frame(&self, out: &mut Vec<u8>, frame: &Vec<Pixel>) -> Result<(), GenericError>;

    /// The color correction this device wants by default.
    fn color_correction(&self) -> Correction;

    /// The SPI settings this device wants, when it is driven over SPI.
    fn spidev_config(&self) -> Option<Config> {
        None
    }

    /// How long the line must rest after a frame before the device latches
    /// it, in microseconds; zero for devices that latch on their own.
    fn latch_wait_micros(&self) -> u64 {
        0
    }
}

/// An output: a device that consumes whole frames, owning whatever state it
/// needs between frames.
pub trait Output {
    /// Consume one frame.
    fn output_frame(&mut self, frame: &Vec<Pixel>) -> Result<(), GenericError>;

    /// The color correction this output wants by default.
    fn color_correction(&self) -> Correction {
        Correction::none()
    }
}

/// The options shared by every device: where output goes, and the display
/// geometry when one was given.
pub struct GlobalArgs {
    pub output_file: String,
    pub dimensions: Option<Dimensions>,
}

impl GlobalArgs {
    /// The display geometry, required: without one, a configuration error.
    pub fn dimensions(&self) -> (r: Result<Dimensions, GenericError>)
        ensures
            self.dimensions matches Some(d) ==> r == Ok::<Dimensions, GenericError>(d),
            self.dimensions is None ==> (r matches Err(e) && e.spec_msg()
                == "Please set the frame size with --geometry"@),
    {
        match self.dimensions {
            Some(d) => Ok(d),
            None => Err(GenericError::new("Please set the frame size with --geometry")),
        }
    }
}

/// A run of zero bytes, as some wire formats use for framing.
pub open spec fn zeros(n: int) -> Seq<u8> {
    Seq::new(n as nat, |i: int| 0u8)
}

/// Append `count` zero bytes to `out`.
pub(crate) fn push_zeros(out: &mut Vec<u8>, count: usize)
    ensures
        final(out)@ == old(out)@ + zeros(count as int),
{
    let mut i: usize = 0;
    while i < count
        invariant
            i <= count,
            out@ == old(out)@ + zeros(i as int),
        decreases count - i,
    {
        out.push(0x00);
        proof {
            assert(out@ =~= old(out)@ + zeros(i + 1));
        }
        i += 1;
    }
}

/// Concatenation of a byte group for every pixel of a frame, in frame order.
pub open spec fn concat_map(frame: Seq<Pixel>, f: spec_fn(Pixel) -> Seq<u8>) -> Seq<u8>
    decreases frame.len(),
{
    if frame.len() == 0 {
        Seq::empty()
    } else {
        concat_map(frame.drop_last(), f) + f(frame.last())
    }
}

/// The length of a pixelwise concatenation: `per` bytes for each pixel.
pub proof fn lemma_concat_map_len(frame: Seq<Pixel>, f: spec_fn(Pixel) -> Seq<u8>, per: int)
    requires
        forall|p: Pixel| (#[trigger] f(p)).len() == per,
    ensures
        concat_map(frame, f).len() == frame.len() * per,
    decreases frame.len(),
{
    if frame.len() > 0 {
        lemma_concat_map_len(frame.drop_last(), f, per);
        assert((frame.len() - 1) * per + per == frame.len() * per) by (nonlinear_arith);
    }
}

/// Each byte of a pixelwise concatenation comes from the group of the pixel
/// it belongs to.
pub proof fn lemma_concat_map_index(
    frame: Seq<Pixel>,
    f: spec_fn(Pixel) -> Seq<u8>,
    per: int,
    i: int,
    j: int,
)
    requires
        forall|p: Pixel| (#[trigger] f(p)).len() == per,
        per > 0,
        0 <= i < frame.len(),
        0 <= j < per,
    ensures
        concat_map(frame, f)[i * per + j] == f(frame[i])[j],
    decreases frame.len(),
{
    lemma_concat_map_len(frame, f, per);
    if i == frame.len() - 1 {
        lemma_concat_map_len(frame.drop_last(), f, per);
        assert(concat_map(frame, f)[i * per + j] == f(frame.last())[j]) by {
            assert(i * per + j - concat_map(frame.drop_last(), f).len() == j) by (nonlinear_arith)
                requires
                    concat_map(frame.drop_last(), f).len() == (frame.len() - 1) * per,
                    i == frame.len() - 1,
            {}
        }
    } else {
        lemma_concat_map_index(frame.drop_last(), f, per, i, j);
        lemma_concat_map_len(frame.drop_last(), f, per);
        assert(i * per + j < (frame.len() - 1) * per) by (nonlinear_arith)
            requires
                0 <= i < frame.len() - 1,
                0 <= j < per,
                per > 0,
        {}
    }
}

} // verus!
