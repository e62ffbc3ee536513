//! The Art-Net protocol: DMX frames over UDP.
//!
//! This module builds and reads the exact packet bytes; the sockets that
//! carry them live outside the crate.

use crate::GenericError;
use vstd::string::StringSliceAdditionalSpecFns;
use vstd::prelude::*;

verus! {

/// The UDP port Art-Net uses.
pub const PORT: u16 = 6454;

/// The eight header bytes every Art-Net packet starts with: `"Art-Net"`
/// and a trailing zero.
pub open spec fn artnet_header() -> Seq<u8> {
    seq![0x41u8, 0x72u8, 0x74u8, 0x2Du8, 0x4Eu8, 0x65u8, 0x74u8, 0x00u8]
}

/// One destination for DMX packets: an IPv4 address and a port.
#[derive(Copy, Clone, Debug, PartialEq, Eq, Structural)]
pub struct NetAddr {
    /// The four address octets, highest first.
    pub a: u8,
    pub b: u8,
    pub c: u8,
    pub d: u8,
    pub port: u16,
}

/// The set of targets a sender enumerates each frame: everything on the
/// local network.
pub struct Broadcast {}

impl Broadcast {
    /// The one address broadcast sends to: `255.255.255.255` on the
    /// Art-Net port.
    pub fn addresses(&self) -> (r: Vec<NetAddr>)
        ensures
            r@.len() == 1,
            r@[0] == (NetAddr { a: 255, b: 255, c: 255, d: 255, port: PORT }),
    {
        let mut v: Vec<NetAddr> = Vec::new();
        v.push(NetAddr { a: 255, b: 255, c: 255, d: 255, port: PORT });
        v
    }
}

/// The bytes of an `ArtDmx` packet: the header, the opcode `0x5000` little
/// endian, protocol version 4.14, zero sequence and physical port, the
/// universe split into its low and high bytes, the payload length big
/// endian, then the payload.
pub open spec fn art_dmx_bytes(universe: u16, data: Seq<u8>) -> Seq<u8> {
    artnet_header() + seq![
        0x00u8,
        0x50u8,
        4u8,
        14u8,
        0u8,
        0u8,
        (universe & 0xFFu16) as u8,
        (universe >> 8u16) as u8,
        ((data.len() as u16) >> 8u16) as u8,
        ((data.len() as u16) & 0xFFu16) as u8,
    ] + data
}

/// Build an `ArtDmx` packet carrying `data` for `universe`.
///
/// A DMX packet cannot carry 0xFFFF bytes or more; such a payload is
/// rejected.
pub fn art_dmx_packet(universe: u16, data: &Vec<u8>) -> (r: Result<Vec<u8>, GenericError>)
    ensures
        r is Ok <==> data@.len() < 0xFFFF,
        r matches Ok(p) ==> p@ == art_dmx_bytes(universe, data@),
        r matches Err(e) ==> e.spec_msg() == "data exceeds max dmx packet length"@,
{
    let len = data.len();
    if len >= 0xFFFF {
        return Err(GenericError::new("data exceeds max dmx packet length"));
    }
    let mut p: Vec<u8> = Vec::new();
    p.push(0x41);  // 'A'
    p.push(0x72);  // 'r'
    p.push(0x74);  // 't'
    p.push(0x2D);  // '-'
    p.push(0x4E);  // 'N'
    p.push(0x65);  // 'e'
    p.push(0x74);  // 't'
    p.push(0x00);
    p.push(0x00);  // OpCode low
    p.push(0x50);  // OpCode high
    p.push(4);  // ProtVerHi
    p.push(14);  // ProtVerLo
    p.push(0);  // Sequence
    p.push(0);  // Physical
    p.push((universe & 0xFF) as u8);  // SubUni
    p.push((universe >> 8) as u8);  // Net
    let len16 = len as u16;
    p.push((len16 >> 8) as u8);  // Length high
    p.push((len16 & 0xFF) as u8);  // Length low
    let mut i: usize = 0;
    while i < len
        invariant
            i <= len,
            len == data@.len(),
            p@ == art_dmx_bytes(universe, data@).subrange(0, 18 + i as int),
        decreases len - i,
    {
        p.push(data[i]);
        proof {
            assert(p@ =~= art_dmx_bytes(universe, data@).subrange(0, 18 + i as int + 1));
        }
        i += 1;
    }
    proof {
        assert(p@ =~= art_dmx_bytes(universe, data@));
    }
    Ok(p)
}

/// The bytes of an `ArtPoll` packet: the header, the opcode `0x2000`
/// little endian, protocol version 4.14, a zero talk-to-me field and
/// priority `0x80`.
pub open spec fn art_poll_bytes() -> Seq<u8> {
    artnet_header() + seq![0x00u8, 0x20u8, 4u8, 14u8, 0u8, 0x80u8]
}

/// Build an `ArtPoll` packet, which asks every node to reply.
pub fn art_poll_packet() -> (p: Vec<u8>)
    ensures
        p@ == art_poll_bytes(),
{
    let mut p: Vec<u8> = Vec::new();
    p.push(0x41);  // 'A'
    p.push(0x72);  // 'r'
    p.push(0x74);  // 't'
    p.push(0x2D);  // '-'
    p.push(0x4E);  // 'N'
    p.push(0x65);  // 'e'
    p.push(0x74);  // 't'
    p.push(0x00);
    p.push(0x00);  // OpCode low
    p.push(0x20);  // OpCode high
    p.push(4);  // ProtVerHi
    p.push(14);  // ProtVerLo
    p.push(0);  // TalkToMe
    p.push(0x80);  // Priority
    proof {
        assert(p@ =~= art_poll_bytes());
    }
    p
}

/// Whether a received datagram is an `ArtPollReply`: long enough to carry
/// a short name, opening with the Art-Net header, and holding the reply
/// opcode `0x2100` little endian.
pub open spec fn is_poll_reply(buf: Seq<u8>) -> bool {
    &&& buf.len() >= 38
    &&& buf.subrange(0, 8) == artnet_header()
    &&& buf[8] == 0x00u8
    &&& buf[9] == 0x21u8
}

/// Read a discovery reply: when the datagram is an `ArtPollReply`, its
/// short-name window, the 19 bytes starting at offset 19; anything else is
/// ignored.
pub fn parse_poll_reply(buf: &Vec<u8>) -> (r: Option<Vec<u8>>)
    ensures
        r is Some <==> is_poll_reply(buf@),
        r matches Some(name) ==> name@ == buf@.subrange(19, 38),
{
    let n = buf.len();
    if n < 38 {
        return None;
    }
    let header_ok = buf[0] == 0x41 && buf[1] == 0x72 && buf[2] == 0x74 && buf[3] == 0x2D && buf[4]
        == 0x4E && buf[5] == 0x65 && buf[6] == 0x74 && buf[7] == 0x00;
    if !header_ok {
        proof {
            if buf@.subrange(0, 8) == artnet_header() {
                assert(buf@[0] == 0x41 && buf@[1] == 0x72 && buf@[2] == 0x74 && buf@[3] == 0x2D
                    && buf@[4] == 0x4E && buf@[5] == 0x65 && buf@[6] == 0x74 && buf@[7] == 0x00);
            }
        }
        return None;
    }
    if !(buf[8] == 0x00 && buf[9] == 0x21) {
        return None;
    }
    let mut name: Vec<u8> = Vec::new();
    let mut i: usize = 19;
    while i < 38
        invariant
            19 <= i <= 38,
            buf@.len() >= 38,
            name@ == buf@.subrange(19, i as int),
        decreases 38 - i,
    {
        name.push(buf[i]);
        proof {
            assert(name@ =~= buf@.subrange(19, i as int + 1));
        }
        i += 1;
    }
    proof {
        assert(buf@.subrange(0, 8) =~= artnet_header());
    }
    Some(name)
}

/// The DMX sender's frame state: bytes accumulate until a whole frame is
/// buffered, and each whole frame leaves as one packet.
pub struct Unicast {
    frame_size: usize,
    frame_buffer: Vec<u8>,
    universe: u16,
}

impl Unicast {
    /// How many bytes make one frame.
    pub closed spec fn spec_frame_size(&self) -> int {
        self.frame_size as int
    }

    /// The bytes waiting for the rest of their frame.
    pub closed spec fn spec_buffered(&self) -> Seq<u8> {
        self.frame_buffer@
    }

    /// The universe every packet is addressed to.
    pub closed spec fn spec_universe(&self) -> u16 {
        self.universe
    }

    /// A sender for frames of `frame_size` bytes to one universe.
    pub fn to(frame_size: usize, universe: u16) -> (u: Unicast)
        ensures
            u.spec_frame_size() == frame_size,
            u.spec_buffered().len() == 0,
            u.spec_universe() == universe,
    {
        Unicast { frame_size, frame_buffer: Vec::new(), universe }
    }

    /// Take in bytes and hand back the packet for the frame they complete,
    /// if they complete one; overflow stays buffered for the next frame.
    ///
    /// A frame too large for one DMX packet is an error.
    pub fn write(&mut self, buf: &Vec<u8>) -> (r: Result<Option<Vec<u8>>, GenericError>)
        requires
            old(self).spec_buffered().len() + buf@.len() <= usize::MAX,
        ensures
            final(self).spec_frame_size() == old(self).spec_frame_size(),
            final(self).spec_universe() == old(self).spec_universe(),
            old(self).spec_buffered().len() + buf@.len() < old(self).spec_frame_size() ==> (
            r matches Ok(p) && p is None && final(self).spec_buffered() == old(
                self,
            ).spec_buffered() + buf@),
            old(self).spec_buffered().len() + buf@.len() >= old(self).spec_frame_size() && old(
                self,
            ).spec_frame_size() < 0xFFFF ==> (r matches Ok(p) && p matches Some(packet)
                && packet@ == art_dmx_bytes(
                old(self).spec_universe(),
                (old(self).spec_buffered() + buf@).subrange(0, old(self).spec_frame_size()),
            ) && final(self).spec_buffered() == (old(self).spec_buffered() + buf@).skip(
                old(self).spec_frame_size(),
            )),
            old(self).spec_buffered().len() + buf@.len() >= old(self).spec_frame_size() && old(
                self,
            ).spec_frame_size() >= 0xFFFF ==> r is Err,
    {
        let mut i: usize = 0;
        let add = buf.len();
        while i < add
            invariant
                i <= add,
                add == buf@.len(),
                self.frame_buffer@ == old(self).spec_buffered() + buf@.subrange(0, i as int),
                old(self).spec_buffered().len() + buf@.len() <= usize::MAX,
                self.frame_size == old(self).spec_frame_size(),
                self.universe == old(self).spec_universe(),
            decreases add - i,
        {
            self.frame_buffer.push(buf[i]);
            proof {
                assert(self.frame_buffer@ =~= old(self).spec_buffered() + buf@.subrange(
                    0,
                    i as int + 1,
                ));
            }
            i += 1;
        }
        proof {
            assert(buf@.subrange(0, add as int) =~= buf@);
        }
        if self.frame_buffer.len() < self.frame_size {
            return Ok(None);
        }
        let tail = self.frame_buffer.split_off(self.frame_size);
        match art_dmx_packet(self.universe, &self.frame_buffer) {
            Ok(packet) => {
                self.frame_buffer = tail;
                Ok(Some(packet))
            }
            Err(e) => Err(e),
        }
    }
}

/// A run of digits covering `[lo, hi)` of `s`, read as a decimal number
/// worth at most `cap`.
pub open spec fn field_ok(s: Seq<u8>, lo: int, hi: int, cap: int) -> bool {
    &&& 0 <= lo < hi <= s.len()
    &&& forall|i: int| lo <= i < hi ==> crate::geometry::is_digit(#[trigger] s[i])
    &&& crate::geometry::number_value(s.subrange(lo, hi)) <= cap
}

/// The ASCII code of the dot separating address octets.
pub const DOT: u8 = 46;

/// The ASCII code of the colon separating an address from a port.
pub const COLON: u8 = 58;

/// An address octet filling `[lo, hi)` of `s`: a digit run worth at most
/// 255, without a leading zero unless it is the single digit zero.
pub open spec fn octet_at(s: Seq<u8>, lo: int, hi: int) -> bool {
    &&& field_ok(s, lo, hi, 255)
    &&& (hi - lo == 1 || s[lo] != 48)
}

/// An IPv4 address filling `[lo, hi)` of `s`: four octets separated by
/// dots at `x`, `y` and `z`.
pub open spec fn ipv4_at(s: Seq<u8>, lo: int, hi: int, x: int, y: int, z: int) -> bool {
    &&& hi <= s.len()
    &&& s[x] == DOT
    &&& s[y] == DOT
    &&& s[z] == DOT
    &&& octet_at(s, lo, x)
    &&& octet_at(s, x + 1, y)
    &&& octet_at(s, y + 1, z)
    &&& octet_at(s, z + 1, hi)
}

/// Parse the digit run filling `[lo, hi)` of `b` as a number of at most
/// `cap`, rejecting anything else.
fn parse_field(b: &[u8], lo: usize, hi: usize, cap: u32) -> (r: Option<u32>)
    requires
        lo <= hi <= b@.len(),
        cap <= 0xFFFF,
    ensures
        r is Some <==> field_ok(b@, lo as int, hi as int, cap as int),
        r matches Some(v) ==> v == crate::geometry::number_value(
            b@.subrange(lo as int, hi as int),
        ),
{
    if lo == hi {
        return None;
    }
    let mut acc: u32 = 0;
    let mut i: usize = lo;
    while i < hi
        invariant
            lo <= i <= hi <= b@.len(),
            lo < hi,
            cap <= 0xFFFF,
            forall|m: int| lo <= m < i ==> crate::geometry::is_digit(#[trigger] b@[m]),
            acc == crate::geometry::number_value(b@.subrange(lo as int, i as int)),
            acc <= cap,
        decreases hi - i,
    {
        let c = b[i];
        if c < 48 || c > 57 {
            return None;
        }
        let d = (c - 48) as u32;
        let next = acc * 10 + d;
        proof {
            let done = b@.subrange(lo as int, i as int + 1);
            assert(done.drop_last() =~= b@.subrange(lo as int, i as int));
            assert(done.last() == c);
        }
        if next > cap {
            proof {
                let whole = b@.subrange(lo as int, hi as int);
                if field_ok(b@, lo as int, hi as int, cap as int) {
                    assert(forall|m: int|
                        0 <= m < whole.len() ==> crate::geometry::is_digit(#[trigger] whole[m]));
                    assert(b@.subrange(lo as int, i as int + 1) =~= whole.subrange(
                        0,
                        i + 1 - lo,
                    ));
                    crate::geometry::lemma_number_prefix_le(whole, i + 1 - lo);
                }
            }
            return None;
        }
        acc = next;
        i += 1;
    }
    Some(acc)
}

/// Find the first occurrence of `sep` at or after `from`, or the end.
fn find_byte(b: &[u8], from: usize, sep: u8) -> (r: usize)
    requires
        from <= b@.len(),
    ensures
        from <= r <= b@.len(),
        forall|m: int| from <= m < r ==> b@[m] != sep,
        r < b@.len() ==> b@[r as int] == sep,
{
    let n = b.len();
    let mut i: usize = from;
    while i < n && b[i] != sep
        invariant
            from <= i <= n,
            n == b@.len(),
            forall|m: int| from <= m < i ==> b@[m] != sep,
        decreases n - i,
    {
        i += 1;
    }
    i
}

/// In a valid address the dots stand exactly at the first dot after each
/// field: a dot cannot hide inside a digit run.
proof fn lemma_forced_dot(s: Seq<u8>, lo: int, d: int, x: int, hi2: int)
    requires
        lo <= d <= s.len(),
        forall|m: int| lo <= m < d ==> s[m] != DOT,
        d < s.len() ==> s[d] == DOT,
        x < hi2 <= s.len(),
        s[x] == DOT,
        field_ok(s, lo, x, 255),
    ensures
        x == d,
{
    assert(field_ok(s, lo, x, 255));
    assert(0 <= lo < x);
    assert(forall|i: int| lo <= i < x ==> crate::geometry::is_digit(#[trigger] s[i]));
    assert(!crate::geometry::is_digit(DOT));
    if x < d {
        assert(lo <= x < d);
        assert(s[x] != DOT);
        assert(false);
    }
    if x > d {
        assert(lo <= d < x);
        assert(crate::geometry::is_digit(s[d]));
        assert(s[d] != DOT);
        assert(false);
    }
}

/// The octets of `addr` are the four fields of the address filling
/// `[lo, hi)` of `s`.
pub open spec fn ipv4_denotes(s: Seq<u8>, lo: int, hi: int, addr: NetAddr) -> bool {
    exists|x: int, y: int, z: int|
        {
            &&& #[trigger] ipv4_at(s, lo, hi, x, y, z)
            &&& addr.a == crate::geometry::number_value(s.subrange(lo, x))
            &&& addr.b == crate::geometry::number_value(s.subrange(x + 1, y))
            &&& addr.c == crate::geometry::number_value(s.subrange(y + 1, z))
            &&& addr.d == crate::geometry::number_value(s.subrange(z + 1, hi))
        }
}

/// Parse an IPv4 address filling `[lo, hi)` of `b`.
pub fn parse_ipv4(b: &[u8], lo: usize, hi: usize) -> (r: Option<NetAddr>)
    requires
        lo <= hi <= b@.len(),
    ensures
        r is Some <==> exists|x: int, y: int, z: int| ipv4_at(b@, lo as int, hi as int, x, y, z),
        r matches Some(addr) ==> addr.port == PORT && ipv4_denotes(
            b@,
            lo as int,
            hi as int,
            addr,
        ),
{
    let d1 = find_byte(b, lo, DOT);
    let ghost s = b@;
    if d1 >= hi {
        proof {
            assert forall|x: int, y: int, z: int|
                !ipv4_at(s, lo as int, hi as int, x, y, z) by {
                if ipv4_at(s, lo as int, hi as int, x, y, z) {
                    assert(x < hi);
                    lemma_forced_dot(s, lo as int, d1 as int, x, hi as int);
                }
            }
        }
        return None;
    }
    let d2 = find_byte(b, d1 + 1, DOT);
    if d2 >= hi {
        proof {
            assert forall|x: int, y: int, z: int|
                !ipv4_at(s, lo as int, hi as int, x, y, z) by {
                if ipv4_at(s, lo as int, hi as int, x, y, z) {
                    lemma_forced_dot(s, lo as int, d1 as int, x, hi as int);
                    lemma_forced_dot(s, x + 1, d2 as int, y, hi as int);
                }
            }
        }
        return None;
    }
    let d3 = find_byte(b, d2 + 1, DOT);
    if d3 >= hi {
        proof {
            assert forall|x: int, y: int, z: int|
                !ipv4_at(s, lo as int, hi as int, x, y, z) by {
                if ipv4_at(s, lo as int, hi as int, x, y, z) {
                    lemma_forced_dot(s, lo as int, d1 as int, x, hi as int);
                    lemma_forced_dot(s, x + 1, d2 as int, y, hi as int);
                    lemma_forced_dot(s, y + 1, d3 as int, z, hi as int);
                }
            }
        }
        return None;
    }
    let o1 = parse_field(b, lo, d1, 255);
    let o2 = parse_field(b, d1 + 1, d2, 255);
    let o3 = parse_field(b, d2 + 1, d3, 255);
    let o4 = parse_field(b, d3 + 1, hi, 255);
    match (o1, o2, o3, o4) {
        (Some(a), Some(bb), Some(c), Some(d)) => {
            // A multi-digit octet must not start with a zero.
            let no_lead = (d1 - lo == 1 || b[lo] != 48) && (d2 - d1 == 2 || b[d1 + 1] != 48) && (d3
                - d2 == 2 || b[d2 + 1] != 48) && (hi - d3 == 2 || b[d3 + 1] != 48);
            if !no_lead {
                proof {
                    assert forall|x: int, y: int, z: int|
                        !ipv4_at(s, lo as int, hi as int, x, y, z) by {
                        if ipv4_at(s, lo as int, hi as int, x, y, z) {
                            lemma_forced_dot(s, lo as int, d1 as int, x, hi as int);
                            lemma_forced_dot(s, x + 1, d2 as int, y, hi as int);
                            lemma_forced_dot(s, y + 1, d3 as int, z, hi as int);
                        }
                    }
                }
                return None;
            }
            proof {
                assert(ipv4_at(s, lo as int, hi as int, d1 as int, d2 as int, d3 as int));
            }
            Some(
                NetAddr {
                    a: a as u8,
                    b: bb as u8,
                    c: c as u8,
                    d: d as u8,
                    port: PORT,
                },
            )
        }
        _ => {
            proof {
                assert forall|x: int, y: int, z: int|
                    !ipv4_at(s, lo as int, hi as int, x, y, z) by {
                    if ipv4_at(s, lo as int, hi as int, x, y, z) {
                        lemma_forced_dot(s, lo as int, d1 as int, x, hi as int);
                        lemma_forced_dot(s, x + 1, d2 as int, y, hi as int);
                        lemma_forced_dot(s, y + 1, d3 as int, z, hi as int);
                    }
                }
            }
            None
        }
    }
}

/// A target-list line naming an address with an explicit port: the address
/// before the colon at `c`, a port of at most 65535 after it.
pub open spec fn line_with_port_at(s: Seq<u8>, c: int) -> bool {
    &&& 0 <= c < s.len()
    &&& s[c] == COLON
    &&& exists|x: int, y: int, z: int| ipv4_at(s, 0, c, x, y, z)
    &&& field_ok(s, c + 1, s.len() as int, 0xFFFF)
}

/// A target-list line naming a bare address, which takes the default port.
pub open spec fn line_bare(s: Seq<u8>) -> bool {
    exists|x: int, y: int, z: int| ipv4_at(s, 0, s.len() as int, x, y, z)
}

/// Read one line of a target list: `address:port`, or a bare address that
/// takes the Art-Net port. Anything else is skipped.
pub fn parse_target_line(line: &str) -> (r: Option<NetAddr>)
    ensures
        r is Some <==> (line_bare(line.spec_bytes()) || exists|c: int|
            line_with_port_at(line.spec_bytes(), c)),
        line_bare(line.spec_bytes()) ==> (r matches Some(addr) && addr.port == PORT
            && ipv4_denotes(
            line.spec_bytes(),
            0,
            line.spec_bytes().len() as int,
            addr,
        )),
        forall|cp: int|
            line_with_port_at(line.spec_bytes(), cp) ==> (r matches Some(addr) && ipv4_denotes(
                line.spec_bytes(),
                0,
                cp,
                addr,
            ) && addr.port == crate::geometry::number_value(
                line.spec_bytes().subrange(cp + 1, line.spec_bytes().len() as int),
            )),
{
    let b = line.as_bytes();
    let n = b.len();
    let ghost s = line.spec_bytes();
    let c = find_byte(b, 0, COLON);
    if c >= n {
        // No colon: only the bare form can match.
        proof {
            assert forall|cc: int| !line_with_port_at(s, cc) by {
                if line_with_port_at(s, cc) {
                    assert(s[cc] == COLON);
                }
            }
        }
        match parse_ipv4(b, 0, n) {
            Some(addr) => Some(addr),
            None => None,
        }
    } else {
        // A colon: the bare form cannot match, and the split is forced to
        // the first colon, since neither side of a valid line holds one.
        proof {
            assert forall|cc: int| line_with_port_at(s, cc) implies cc == c by {
                if cc < c {
                    assert(s[cc] != COLON);
                }
                if cc > c {
                    assert(crate::geometry::is_digit(s[c as int]) || s[c as int] == DOT || !(
                    exists|x: int, y: int, z: int| ipv4_at(s, 0, cc, x, y, z))) by {
                        if exists|x: int, y: int, z: int| ipv4_at(s, 0, cc, x, y, z) {
                            let (x, y, z) = choose|x: int, y: int, z: int|
                                ipv4_at(s, 0, cc, x, y, z);
                            if c < x {
                                assert(crate::geometry::is_digit(s[c as int]));
                            } else if c == x || c == y || c == z {
                                assert(s[c as int] == DOT);
                            } else if c < y {
                                assert(crate::geometry::is_digit(s[c as int]));
                            } else if c < z {
                                assert(crate::geometry::is_digit(s[c as int]));
                            } else {
                                assert(crate::geometry::is_digit(s[c as int]));
                            }
                        }
                    }
                    assert(!crate::geometry::is_digit(COLON));
                    assert(COLON != DOT);
                }
            }
            if line_bare(s) {
                let (x, y, z) = choose|x: int, y: int, z: int| ipv4_at(s, 0, s.len() as int, x, y, z);
                if c < x {
                    assert(crate::geometry::is_digit(s[c as int]));
                } else if c == x || c == y || c == z {
                    assert(s[c as int] == DOT);
                } else if c < y {
                    assert(crate::geometry::is_digit(s[c as int]));
                } else if c < z {
                    assert(crate::geometry::is_digit(s[c as int]));
                } else {
                    assert(crate::geometry::is_digit(s[c as int]));
                }
                assert(false);
            }
        }
        let addr = parse_ipv4(b, 0, c);
        let port = parse_field(b, c + 1, n, 0xFFFF);
        match (addr, port) {
            (Some(a), Some(p)) => {
                let result = NetAddr { a: a.a, b: a.b, c: a.c, d: a.d, port: p as u16 };
                proof {
                    assert(line_with_port_at(s, c as int));
                    // The denotation ignores the port, so it carries over
                    // from the parsed address to the result.
                    let (x, y, z) = choose|x: int, y: int, z: int|
                        {
                            &&& #[trigger] ipv4_at(s, 0, c as int, x, y, z)
                            &&& a.a == crate::geometry::number_value(s.subrange(0, x))
                            &&& a.b == crate::geometry::number_value(s.subrange(x + 1, y))
                            &&& a.c == crate::geometry::number_value(s.subrange(y + 1, z))
                            &&& a.d == crate::geometry::number_value(
                                s.subrange(z + 1, c as int),
                            )
                        };
                    assert(ipv4_at(s, 0, c as int, x, y, z));
                    assert(ipv4_denotes(s, 0, c as int, result));
                }
                Some(result)
            }
            _ => None,
        }
    }
}

/// Drop each address that repeats its immediate predecessor, as a target
/// list is cleaned after parsing.
pub open spec fn spec_dedup(s: Seq<NetAddr>) -> Seq<NetAddr>
    decreases s.len(),
{
    if s.len() <= 1 {
        s
    } else if s.last() == s[s.len() - 2] {
        spec_dedup(s.drop_last())
    } else {
        spec_dedup(s.drop_last()).push(s.last())
    }
}

/// Remove consecutive duplicate addresses.
pub fn dedup_addresses(addrs: &Vec<NetAddr>) -> (r: Vec<NetAddr>)
    ensures
        r@ == spec_dedup(addrs@),
{
    let n = addrs.len();
    let mut out: Vec<NetAddr> = Vec::new();
    let mut i: usize = 0;
    while i < n
        invariant
            i <= n,
            n == addrs@.len(),
            out@ == spec_dedup(addrs@.subrange(0, i as int)),
        decreases n - i,
    {
        proof {
            let prefix = addrs@.subrange(0, i as int + 1);
            assert(prefix.drop_last() =~= addrs@.subrange(0, i as int));
            assert(prefix.last() == addrs@[i as int]);
        }
        if i == 0 {
            out.push(addrs[0]);
        } else if addrs[i] == addrs[i - 1] {
            proof {
                let prefix = addrs@.subrange(0, i as int + 1);
                assert(prefix[prefix.len() - 2] == addrs@[i as int - 1]);
            }
        } else {
            proof {
                let prefix = addrs@.subrange(0, i as int + 1);
                assert(prefix[prefix.len() - 2] == addrs@[i as int - 1]);
            }
            out.push(addrs[i]);
        }
        i += 1;
    }
    proof {
        assert(addrs@.subrange(0, n as int) =~= addrs@);
    }
    out
}

} // verus!
