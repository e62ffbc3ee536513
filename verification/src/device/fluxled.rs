//! Flux-LED bulbs: one TCP command per bulb and frame.
//!
//! Each bulb takes a seven-byte set-color command followed by a checksum
//! byte. The sink buffers incoming frame bytes until every bulb has a
//! pixel, then emits one command per bulb; the TCP connections live outside
//! this crate.

use crate::color::Pixel;
use crate::pipeline::pixel_at;
use vstd::prelude::*;

verus! {

/// The TCP port a bulb listens on.
pub const PORT: u16 = 5577;

/// The command that sets one bulb to a constant color: opcode `0x31`, the
/// three channels, two zero bytes, the terminator `0x0F`, and a checksum:
/// the sum of the seven bytes modulo 256.
pub open spec fn color_command_bytes(pix: Pixel) -> Seq<u8> {
    seq![
        0x31u8,
        pix.r,
        pix.g,
        pix.b,
        0x00u8,
        0x00u8,
        0x0Fu8,
        ((0x31 + pix.r + pix.g + pix.b + 0x0F) % 256) as u8,
    ]
}

/// Build the set-color command for one bulb.
pub fn color_command(pix: Pixel) -> (cmd: Vec<u8>)
    ensures
        cmd@ == color_command_bytes(pix),
{
    let checksum = ((0x31u32 + pix.r as u32 + pix.g as u32 + pix.b as u32 + 0x0Fu32) % 256) as u8;
    let mut cmd: Vec<u8> = Vec::new();
    cmd.push(0x31);
    cmd.push(pix.r);
    cmd.push(pix.g);
    cmd.push(pix.b);
    cmd.push(0x00);
    cmd.push(0x00);
    cmd.push(0x0F);
    cmd.push(checksum);
    proof {
        assert(cmd@ =~= color_command_bytes(pix));
    }
    cmd
}

/// The sink's buffering state: incoming bytes accumulate until three per
/// bulb have arrived.
pub struct Display {
    num_bulbs: usize,
    buf: Vec<u8>,
}

impl Display {
    /// How many bulbs the sink feeds.
    pub closed spec fn spec_num_bulbs(&self) -> int {
        self.num_bulbs as int
    }

    /// The bytes waiting for the rest of their frame.
    pub closed spec fn spec_buffered(&self) -> Seq<u8> {
        self.buf@
    }

    /// A sink for `num_bulbs` bulbs.
    pub fn new(num_bulbs: usize) -> (d: Display)
        ensures
            d.spec_num_bulbs() == num_bulbs,
            d.spec_buffered().len() == 0,
    {
        Display { num_bulbs, buf: Vec::new() }
    }

    /// Take in frame bytes. Once three bytes per bulb are buffered, hand
    /// back one set-color command per bulb and start the next frame empty;
    /// otherwise keep buffering.
    pub fn write(&mut self, bytes: &Vec<u8>) -> (r: Option<Vec<Vec<u8>>>)
        requires
            old(self).spec_buffered().len() + bytes@.len() <= usize::MAX,
            old(self).spec_num_bulbs() * 3 <= usize::MAX,
        ensures
            final(self).spec_num_bulbs() == old(self).spec_num_bulbs(),
            old(self).spec_buffered().len() + bytes@.len() < old(self).spec_num_bulbs() * 3
                ==> (r is None && final(self).spec_buffered() == old(self).spec_buffered()
                + bytes@),
            old(self).spec_buffered().len() + bytes@.len() >= old(self).spec_num_bulbs() * 3
                ==> {
                &&& final(self).spec_buffered().len() == 0
                &&& r matches Some(cmds)
                &&& (r matches Some(cmds) ==> cmds@.len() == old(self).spec_num_bulbs())
                &&& (r matches Some(cmds) ==> forall|i: int|
                    0 <= i < cmds@.len() ==> (#[trigger] cmds@[i])@ == color_command_bytes(
                        pixel_at(old(self).spec_buffered() + bytes@, i),
                    ))
            },
    {
        let mut k: usize = 0;
        let add = bytes.len();
        while k < add
            invariant
                k <= add,
                add == bytes@.len(),
                self.buf@ == old(self).spec_buffered() + bytes@.subrange(0, k as int),
                old(self).spec_buffered().len() + add <= usize::MAX,
                self.num_bulbs == old(self).num_bulbs,
            decreases add - k,
        {
            self.buf.push(bytes[k]);
            proof {
                assert(self.buf@ =~= old(self).spec_buffered() + bytes@.subrange(
                    0,
                    k as int + 1,
                ));
            }
            k += 1;
        }
        proof {
            assert(bytes@.subrange(0, add as int) =~= bytes@);
        }
        let need = self.num_bulbs * 3;
        if self.buf.len() < need {
            return None;
        }
        let mut cmds: Vec<Vec<u8>> = Vec::new();
        let mut i: usize = 0;
        while i < self.num_bulbs
            invariant
                i <= self.num_bulbs,
                need == self.num_bulbs * 3,
                need <= self.buf@.len(),
                cmds@.len() == i,
                forall|m: int|
                    0 <= m < i ==> (#[trigger] cmds@[m])@ == color_command_bytes(
                        pixel_at(self.buf@, m),
                    ),
                self.buf@ == old(self).spec_buffered() + bytes@,
                self.num_bulbs == old(self).num_bulbs,
            decreases self.num_bulbs - i,
        {
            proof {
                assert(3 * i + 2 < self.num_bulbs * 3) by (nonlinear_arith)
                    requires
                        i < self.num_bulbs,
                {}
            }
            let pix = Pixel { r: self.buf[3 * i], g: self.buf[3 * i + 1], b: self.buf[3 * i + 2] };
            cmds.push(color_command(pix));
            i += 1;
        }
        self.buf.clear();
        Some(cmds)
    }
}

} // verus!
