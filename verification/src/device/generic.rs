//! The generic codec: plain pixel formats from 24 bits down to 1 bit per
//! pixel.

use crate::color::{Correction, Pixel};
use crate::device::{concat_map, lemma_concat_map_index, lemma_concat_map_len, Device};
use crate::pipeline::pixel_at;
use crate::GenericError;
use vstd::prelude::*;

verus! {

/// The pixel formats the generic codec can emit.
pub enum Format {
    RGB24,
    RGB16,
    RGB12,
    RGB8,
    GS1,
}

/// The generic codec.
pub struct Generic {
    pub format: Format,
}

/// The three wire bytes of one RGB24 pixel: red, green, blue.
pub open spec fn rgb24_pixel() -> spec_fn(Pixel) -> Seq<u8> {
    |p: Pixel| seq![p.r, p.g, p.b]
}

/// The wire bytes of an RGB24 frame.
pub open spec fn rgb24_frame(frame: Seq<Pixel>) -> Seq<u8> {
    concat_map(frame, rgb24_pixel())
}

/// The two wire bytes of one RGB16 pixel. In the low byte the green bit is
/// shifted out of the 8-bit value, so only blue survives there; the wire
/// format is defined with exactly these bytes.
pub open spec fn rgb16_pixel() -> spec_fn(Pixel) -> Seq<u8> {
    |p: Pixel| seq![((p.r & 0xf8u8) | (p.g >> 5u8)), (((p.g & 0x08u8) << 5u8) | (p.b >> 3u8))]
}

/// The wire bytes of an RGB16 frame.
pub open spec fn rgb16_frame(frame: Seq<Pixel>) -> Seq<u8> {
    concat_map(frame, rgb16_pixel())
}

/// The one wire byte of an RGB8 pixel: two bits of blue, four of green, two
/// of red.
pub open spec fn rgb8_pixel() -> spec_fn(Pixel) -> Seq<u8> {
    |p: Pixel| seq![((p.b & 0xc0u8) | ((p.g >> 2u8) & 0x3cu8) | (p.r & 0x3u8))]
}

/// The wire bytes of an RGB8 frame.
pub open spec fn rgb8_frame(frame: Seq<Pixel>) -> Seq<u8> {
    concat_map(frame, rgb8_pixel())
}

/// The three wire bytes packing two RGB12 pixels: the high nibbles of the
/// six channels in order.
pub open spec fn rgb12_pair(a: Pixel, b: Pixel) -> Seq<u8> {
    seq![
        ((a.r & 0xf0u8) | (a.g >> 4u8)),
        ((a.b & 0xf0u8) | (b.r >> 4u8)),
        ((b.g & 0xf0u8) | (b.b >> 4u8)),
    ]
}

/// The wire bytes of an RGB12 frame: pixels in pairs, an odd tail paired
/// with a black pixel.
pub open spec fn rgb12_frame(frame: Seq<Pixel>) -> Seq<u8>
    decreases frame.len(),
{
    if frame.len() == 0 {
        Seq::empty()
    } else if frame.len() == 1 {
        rgb12_pair(frame[0], Pixel { r: 0, g: 0, b: 0 })
    } else {
        rgb12_pair(frame[0], frame[1]) + rgb12_frame(frame.skip(2))
    }
}

/// The luma of a pixel: the Rec. 601-weighted sum
/// `0.2125 r + 0.7154 g + 0.0721 b`, rounded to nearest.
pub open spec fn spec_grayscale(p: Pixel) -> int {
    (2125 * p.r + 7154 * p.g + 721 * p.b + 5000) / 10000
}

/// Compute the luma of a pixel.
pub fn grayscale(p: Pixel) -> (g: u8)
    ensures
        g == spec_grayscale(p),
{
    let wide: u32 = 2125 * (p.r as u32) + 7154 * (p.g as u32) + 721 * (p.b as u32) + 5000;
    (wide / 10000) as u8
}

/// Whether a pixel counts as lit in the 1-bit format: luma above 127.
pub open spec fn gs1_bit(p: Pixel) -> int {
    if spec_grayscale(p) > 127 {
        1
    } else {
        0
    }
}

/// The wire byte of eight pixels in the 1-bit format: one threshold bit per
/// pixel, first pixel in the lowest bit.
pub open spec fn gs1_byte(c: Seq<Pixel>) -> u8
    recommends
        c.len() == 8,
{
    (gs1_bit(c[0]) + 2 * gs1_bit(c[1]) + 4 * gs1_bit(c[2]) + 8 * gs1_bit(c[3]) + 16 * gs1_bit(
        c[4],
    ) + 32 * gs1_bit(c[5]) + 64 * gs1_bit(c[6]) + 128 * gs1_bit(c[7])) as u8
}

/// The wire bytes of a 1-bit frame: one byte for every eight pixels.
pub open spec fn gs1_frame(frame: Seq<Pixel>) -> Seq<u8>
    recommends
        frame.len() % 8 == 0,
    decreases frame.len(),
{
    if frame.len() < 8 {
        Seq::empty()
    } else {
        seq![gs1_byte(frame.subrange(0, 8))] + gs1_frame(frame.skip(8))
    }
}

/// The wire bytes of a frame in each format.
pub open spec fn generic_frame(format: Format, frame: Seq<Pixel>) -> Seq<u8> {
    match format {
        Format::RGB24 => rgb24_frame(frame),
        Format::RGB16 => rgb16_frame(frame),
        Format::RGB12 => rgb12_frame(frame),
        Format::RGB8 => rgb8_frame(frame),
        Format::GS1 => gs1_frame(frame),
    }
}

impl Device for Generic {
    /// Serialize a frame. The 1-bit format packs eight pixels per byte and
    /// rejects a frame whose pixel count is not a multiple of eight; every
    /// other format accepts every frame.
    #[verifier::rlimit(60)]
    fn write_frame(&self, out: &mut Vec<u8>, frame: &Vec<Pixel>) -> (r: Result<(), GenericError>)
        ensures
            r is Ok <==> !(self.format is GS1 && frame@.len() % 8 != 0),
            r is Ok ==> final(out)@ == old(out)@ + generic_frame(self.format, frame@),
            r is Err ==> final(out)@ == old(out)@,
    {
        let n = frame.len();
        match self.format {
            Format::RGB24 => {
                let mut i: usize = 0;
                while i < n
                    invariant
                        i <= n,
                        n == frame@.len(),
                        out@ == old(out)@ + concat_map(frame@.subrange(0, i as int), rgb24_pixel()),
                    decreases n - i,
                {
                    let p = frame[i];
                    out.push(p.r);
                    out.push(p.g);
                    out.push(p.b);
                    proof {
                        let prefix = frame@.subrange(0, i as int + 1);
                        assert(prefix.drop_last() =~= frame@.subrange(0, i as int));
                        assert(out@ =~= old(out)@ + concat_map(prefix, rgb24_pixel()));
                    }
                    i += 1;
                }
                proof {
                    assert(frame@.subrange(0, n as int) =~= frame@);
                }
                Ok(())
            }
            Format::RGB16 => {
                let mut i: usize = 0;
                while i < n
                    invariant
                        i <= n,
                        n == frame@.len(),
                        out@ == old(out)@ + concat_map(frame@.subrange(0, i as int), rgb16_pixel()),
                    decreases n - i,
                {
                    let p = frame[i];
                    out.push((p.r & 0xf8) | (p.g >> 5));
                    out.push(((p.g & 0x08) << 5) | (p.b >> 3));
                    proof {
                        let prefix = frame@.subrange(0, i as int + 1);
                        assert(prefix.drop_last() =~= frame@.subrange(0, i as int));
                        assert(out@ =~= old(out)@ + concat_map(prefix, rgb16_pixel()));
                    }
                    i += 1;
                }
                proof {
                    assert(frame@.subrange(0, n as int) =~= frame@);
                }
                Ok(())
            }
            Format::RGB12 => {
                proof {
                    assert(frame@.subrange(0, n as int) =~= frame@);
                }
                let mut i: usize = 0;
                while i < n
                    invariant
                        i <= n,
                        n == frame@.len(),
                        old(out)@ + rgb12_frame(frame@) == out@ + rgb12_frame(
                            frame@.subrange(i as int, n as int),
                        ),
                    decreases n - i,
                {
                    let a = frame[i];
                    let two = n - i >= 2;
                    let b = if two {
                        frame[i + 1]
                    } else {
                        Pixel { r: 0, g: 0, b: 0 }
                    };
                    out.push((a.r & 0xf0) | (a.g >> 4));
                    out.push((a.b & 0xf0) | (b.r >> 4));
                    out.push((b.g & 0xf0) | (b.b >> 4));
                    proof {
                        let rest = frame@.subrange(i as int, n as int);
                        if i + 2 <= n {
                            assert(rest.skip(2) =~= frame@.subrange(i as int + 2, n as int));
                            assert(rest[0] == frame@[i as int] && rest[1] == frame@[i as int + 1]);
                        } else {
                            assert(rest.len() == 1);
                            assert(rest[0] == frame@[i as int]);
                            assert(frame@.subrange(n as int, n as int).len() == 0);
                        }
                        assert(old(out)@ + rgb12_frame(frame@) =~= out@ + rgb12_frame(
                            frame@.subrange(if i + 2 <= n {
                                i as int + 2
                            } else {
                                n as int
                            }, n as int),
                        ));
                    }
                    i = if two {
                        i + 2
                    } else {
                        n
                    };
                }
                proof {
                    assert(frame@.subrange(n as int, n as int).len() == 0);
                    assert(out@ =~= old(out)@ + rgb12_frame(frame@));
                }
                Ok(())
            }
            Format::RGB8 => {
                let mut i: usize = 0;
                while i < n
                    invariant
                        i <= n,
                        n == frame@.len(),
                        out@ == old(out)@ + concat_map(frame@.subrange(0, i as int), rgb8_pixel()),
                    decreases n - i,
                {
                    let p = frame[i];
                    out.push((p.b & 0xc0) | ((p.g >> 2) & 0x3c) | (p.r & 0x3));
                    proof {
                        let prefix = frame@.subrange(0, i as int + 1);
                        assert(prefix.drop_last() =~= frame@.subrange(0, i as int));
                        assert(out@ =~= old(out)@ + concat_map(prefix, rgb8_pixel()));
                    }
                    i += 1;
                }
                proof {
                    assert(frame@.subrange(0, n as int) =~= frame@);
                }
                Ok(())
            }
            Format::GS1 => {
                if n % 8 != 0 {
                    return Err(
                        GenericError::new("the 1-bit format needs a multiple of 8 pixels"),
                    );
                }
                write_gs1(out, frame);
                Ok(())
            }
        }
    }

    fn color_correction(&self) -> (c: Correction)
        ensures
            c.wf(),
            c.is_identity(),
    {
        Correction::none()
    }
}



/// Taking one whole chunk off the front of a 1-bit frame splits one byte
/// off its wire bytes.
proof fn lemma_gs1_step(frame: Seq<Pixel>, i: int, n: int)
    requires
        0 <= i,
        i + 8 <= n,
        n == frame.len(),
    ensures
        gs1_frame(frame.subrange(i, n)) == seq![gs1_byte(frame.subrange(i, i + 8))] + gs1_frame(
            frame.subrange(i + 8, n),
        ),
{
    let rest = frame.subrange(i, n);
    assert(rest.subrange(0, 8) =~= frame.subrange(i, i + 8));
    assert(rest.skip(8) =~= frame.subrange(i + 8, n));
}

/// Serialize a frame in the 1-bit format: one byte per eight pixels.
#[verifier::rlimit(100)]
#[verifier::spinoff_prover]
fn write_gs1(out: &mut Vec<u8>, frame: &Vec<Pixel>)
    requires
        frame@.len() % 8 == 0,
    ensures
        final(out)@ == old(out)@ + gs1_frame(frame@),
{
    let n = frame.len();
    proof {
        assert(frame@.subrange(0, n as int) =~= frame@);
    }
    let mut i: usize = 0;
    while i < n
        invariant
            i <= n,
            i % 8 == 0,
            n % 8 == 0,
            n == frame@.len(),
            old(out)@ + gs1_frame(frame@) == out@ + gs1_frame(
                frame@.subrange(i as int, n as int),
            ),
        decreases n - i,
    {
        proof {
            assert(n - i >= 8);
        }
        let ghost prev_out = out@;
        let packed = gs1_chunk(frame, i);
        out.push(packed);
        proof {
            lemma_gs1_step(frame@, i as int, n as int);
            let tail = gs1_frame(frame@.subrange(i as int + 8, n as int));
            assert(out@ =~= prev_out + seq![packed]);
            assert((prev_out + seq![packed]) + tail =~= prev_out + (seq![packed] + tail));
        }
        i += 8;
    }
    proof {
        assert(frame@.subrange(n as int, n as int).len() == 0);
        assert(out@ =~= old(out)@ + gs1_frame(frame@));
    }
}

/// Pack eight pixels starting at `i` into one threshold byte, the first
/// pixel in the lowest bit.
fn gs1_chunk(frame: &Vec<Pixel>, i: usize) -> (b: u8)
    requires
        i + 8 <= frame@.len(),
    ensures
        b == gs1_byte(frame@.subrange(i as int, i as int + 8)),
{
    let n = frame.len();
    proof {
        assert(i + 8 <= n);
    }
    let t0: u8 = if grayscale(frame[i]) > 127 {
        1
    } else {
        0
    };
    let t1: u8 = if grayscale(frame[i + 1]) > 127 {
        1
    } else {
        0
    };
    let t2: u8 = if grayscale(frame[i + 2]) > 127 {
        1
    } else {
        0
    };
    let t3: u8 = if grayscale(frame[i + 3]) > 127 {
        1
    } else {
        0
    };
    let t4: u8 = if grayscale(frame[i + 4]) > 127 {
        1
    } else {
        0
    };
    let t5: u8 = if grayscale(frame[i + 5]) > 127 {
        1
    } else {
        0
    };
    let t6: u8 = if grayscale(frame[i + 6]) > 127 {
        1
    } else {
        0
    };
    let t7: u8 = if grayscale(frame[i + 7]) > 127 {
        1
    } else {
        0
    };
    let packed = t0 | (t1 << 1) | (t2 << 2) | (t3 << 3) | (t4 << 4) | (t5 << 5) | (t6 << 6) | (t7
        << 7);
    proof {
        assert(t0 | (t1 << 1u8) | (t2 << 2u8) | (t3 << 3u8) | (t4 << 4u8) | (t5 << 5u8) | (t6
            << 6u8) | (t7 << 7u8) == (t0 + 2 * t1 + 4 * t2 + 8 * t3 + 16 * t4 + 32 * t5 + 64 * t6
            + 128 * t7) as u8) by (bit_vector)
            requires
                t0 <= 1 && t1 <= 1 && t2 <= 1 && t3 <= 1 && t4 <= 1 && t5 <= 1 && t6 <= 1 && t7
                    <= 1,
        ;
        let chunk = frame@.subrange(i as int, i as int + 8);
        assert(forall|m: int| 0 <= m < 8 ==> chunk[m] == frame@[i + m]);
    }
    packed
}

/// Read an RGB24 byte stream back into pixels.
pub fn parse_rgb24(bytes: &Vec<u8>) -> (out: Vec<Pixel>)
    requires
        bytes@.len() % 3 == 0,
    ensures
        out@.len() * 3 == bytes@.len(),
        forall|i: int| 0 <= i < out@.len() ==> #[trigger] out@[i] == pixel_at(bytes@, i),
{
    let total = bytes.len();
    let n = total / 3;
    let mut out: Vec<Pixel> = Vec::new();
    let mut i: usize = 0;
    while i < n
        invariant
            i <= n,
            n * 3 == bytes@.len(),
            total == bytes@.len(),
            out@.len() == i,
            forall|m: int| 0 <= m < i ==> #[trigger] out@[m] == pixel_at(bytes@, m),
        decreases n - i,
    {
        proof {
            assert(3 * i + 2 < n * 3) by (nonlinear_arith)
                requires
                    i < n,
            {}
        }
        out.push(Pixel { r: bytes[3 * i], g: bytes[3 * i + 1], b: bytes[3 * i + 2] });
        i += 1;
    }
    out
}

/// Writing a frame as RGB24 and reading the bytes back recovers every
/// pixel: the codec round-trips.
pub proof fn lemma_rgb24_roundtrip(frame: Seq<Pixel>, i: int)
    requires
        0 <= i < frame.len(),
    ensures
        pixel_at(rgb24_frame(frame), i) == frame[i],
{
    lemma_concat_map_len(frame, rgb24_pixel(), 3);
    lemma_concat_map_index(frame, rgb24_pixel(), 3, i, 0);
    lemma_concat_map_index(frame, rgb24_pixel(), 3, i, 1);
    lemma_concat_map_index(frame, rgb24_pixel(), 3, i, 2);
    assert(3 * i == i * 3 + 0);
    assert(3 * i + 1 == i * 3 + 1);
    assert(3 * i + 2 == i * 3 + 2);
}

} // verus!
