//! Transport drivers as the library sees them: which driver a device path
//! selects, and the settings handed to the host's SPI and serial layers.

use vstd::prelude::*;
use vstd::string::StringSliceAdditionalSpecFns;

verus! {

/// Which bit of each byte leaves the wire first.
#[derive(Copy, Clone, Debug)]
pub enum FirstBit {
    Lsb,
    Msb,
}

/// The SPI settings a device asks of the host.
#[derive(Copy, Clone, Debug)]
pub struct Config {
    pub clock_polarity: u8,
    pub clock_phase: u8,
    pub first_bit: FirstBit,
    pub speed_hz: u32,
}

/// The ASCII code of the dot.
pub const ASCII_DOT: u8 = 46;

/// A serial device: a path under `/dev/tty`.
pub open spec fn is_serial_path(s: Seq<u8>) -> bool {
    // The bytes of "/dev/tty".
    &&& s.len() >= 8
    &&& s[0] == 47
    &&& s[1] == 100
    &&& s[2] == 101
    &&& s[3] == 118
    &&& s[4] == 47
    &&& s[5] == 116
    &&& s[6] == 116
    &&& s[7] == 121
}

/// Whether a device path selects the serial driver.
pub fn is_serial(path: &str) -> (r: bool)
    ensures
        r == is_serial_path(path.spec_bytes()),
{
    let b = path.as_bytes();
    b.len() >= 8 && b[0] == 47  // '/'
     && b[1] == 100  // 'd'
     && b[2] == 101  // 'e'
     && b[3] == 118  // 'v'
     && b[4] == 47  // '/'
     && b[5] == 116  // 't'
     && b[6] == 116  // 't'
     && b[7] == 121  // 'y'
}

/// An ASCII decimal digit.
pub open spec fn is_digit_byte(b: u8) -> bool {
    48 <= b && b <= 57
}

/// A run of one or more digits covering `[lo, hi)` of `s`.
pub open spec fn all_digits(s: Seq<u8>, lo: int, hi: int) -> bool {
    &&& lo < hi <= s.len()
    &&& forall|i: int| lo <= i < hi ==> is_digit_byte(#[trigger] s[i])
}

/// A primary SPI device node: `/dev/spidev<bus>.<cs>` with decimal bus and
/// chip-select numbers.
pub open spec fn is_spidev_node(s: Seq<u8>) -> bool {
    // The bytes of "/dev/spidev".
    &&& s.len() >= 11
    &&& s[0] == 47
    &&& s[1] == 100
    &&& s[2] == 101
    &&& s[3] == 118
    &&& s[4] == 47
    &&& s[5] == 115
    &&& s[6] == 112
    &&& s[7] == 105
    &&& s[8] == 100
    &&& s[9] == 101
    &&& s[10] == 118
    &&& exists|k: int|
        #![trigger s[k]]
        {
            &&& all_digits(s, 11, k)
            &&& k < s.len()
            &&& s[k] == ASCII_DOT
            &&& all_digits(s, k + 1, s.len() as int)
        }
}

/// A sysfs SPI device: a path below `/sys/devices/` or `/sys/class/devices/`
/// ending in `/spi<d>.<d>` with single-digit numbers.
pub open spec fn is_spidev_sysfs(s: Seq<u8>) -> bool {
    let n = s.len() as int;
    &&& (spidev_sysfs_prefix_devices(s) || spidev_sysfs_prefix_class(s))
    &&& s[n - 7] == 47
    &&& s[n - 6] == 115
    &&& s[n - 5] == 112
    &&& s[n - 4] == 105
    &&& is_digit_byte(s[n - 3])
    &&& s[n - 2] == ASCII_DOT
    &&& is_digit_byte(s[n - 1])
}

/// The bytes of "/sys/devices/" followed by at least one byte before the
/// trailing SPI component.
pub open spec fn spidev_sysfs_prefix_devices(s: Seq<u8>) -> bool {
    &&& s.len() >= 13 + 1 + 7
    &&& s[0] == 47
    &&& s[1] == 115
    &&& s[2] == 121
    &&& s[3] == 115
    &&& s[4] == 47
    &&& s[5] == 100
    &&& s[6] == 101
    &&& s[7] == 118
    &&& s[8] == 105
    &&& s[9] == 99
    &&& s[10] == 101
    &&& s[11] == 115
    &&& s[12] == 47
}

/// The bytes of "/sys/class/devices/" followed by at least one byte before
/// the trailing SPI component.
pub open spec fn spidev_sysfs_prefix_class(s: Seq<u8>) -> bool {
    &&& s.len() >= 19 + 1 + 7
    &&& s[0] == 47
    &&& s[1] == 115
    &&& s[2] == 121
    &&& s[3] == 115
    &&& s[4] == 47
    &&& s[5] == 99
    &&& s[6] == 108
    &&& s[7] == 97
    &&& s[8] == 115
    &&& s[9] == 115
    &&& s[10] == 47
    &&& s[11] == 100
    &&& s[12] == 101
    &&& s[13] == 118
    &&& s[14] == 105
    &&& s[15] == 99
    &&& s[16] == 101
    &&& s[17] == 115
    &&& s[18] == 47
}

/// Whether a device path selects the SPI driver.
pub fn is_spidev(path: &str) -> (r: bool)
    ensures
        r == (is_spidev_node(path.spec_bytes()) || is_spidev_sysfs(path.spec_bytes())),
{
    let b = path.as_bytes();
    is_spidev_node_bytes(b) || is_spidev_sysfs_bytes(b)
}

/// Match the `/dev/spidev<bus>.<cs>` form.
fn is_spidev_node_bytes(b: &[u8]) -> (r: bool)
    ensures
        r == is_spidev_node(b@),
{
    let n = b.len();
    if n < 13 {
        // Shortest match is "/dev/spidev" plus one digit, a dot and a digit.
        proof {
            if is_spidev_node(b@) {
                let k = choose|k: int|
                    #![trigger b@[k]]
                    all_digits(b@, 11, k) && k < b@.len() && b@[k] == ASCII_DOT && all_digits(
                        b@,
                        k + 1,
                        b@.len() as int,
                    );
                assert(11 < k && k + 1 < n);
            }
        }
        return false;
    }
    let prefix_ok = b[0] == 47 && b[1] == 100 && b[2] == 101 && b[3] == 118 && b[4] == 47 && b[5]
        == 115 && b[6] == 112 && b[7] == 105 && b[8] == 100 && b[9] == 101 && b[10] == 118;
    if !prefix_ok {
        return false;
    }
    // Scan the bus number.
    let mut k: usize = 11;
    while k < n && b[k] >= 48 && b[k] <= 57
        invariant
            11 <= k <= n,
            n == b@.len(),
            forall|i: int| 11 <= i < k ==> is_digit_byte(#[trigger] b@[i]),
        decreases n - k,
    {
        k += 1;
    }
    if k == 11 || k == n || b[k] != 46 {
        // No digits, or no dot after them: the only candidate separator
        // failed, and a dot cannot hide inside a digit run.
        proof {
            if is_spidev_node(b@) {
                let m = choose|m: int|
                    #![trigger b@[m]]
                    all_digits(b@, 11, m) && m < b@.len() && b@[m] == ASCII_DOT && all_digits(
                        b@,
                        m + 1,
                        b@.len() as int,
                    );
                assert(!is_digit_byte(46));
                if m < k {
                    assert(is_digit_byte(b@[m]));
                } else if m > k {
                    assert(k < b@.len() && is_digit_byte(b@[k as int]));
                }
            }
        }
        return false;
    }
    // Scan the chip-select number, which must reach the end.
    let dot = k;
    let mut m: usize = k + 1;
    while m < n && b[m] >= 48 && b[m] <= 57
        invariant
            dot + 1 <= m <= n,
            n == b@.len(),
            forall|i: int| dot + 1 <= i < m ==> is_digit_byte(#[trigger] b@[i]),
        decreases n - m,
    {
        m += 1;
    }
    let ok = m == n && m > dot + 1;
    proof {
        if ok {
            assert(all_digits(b@, 11, dot as int));
            assert(all_digits(b@, dot as int + 1, n as int));
            assert(b@[dot as int] == ASCII_DOT);
        } else {
            if is_spidev_node(b@) {
                let c = choose|c: int|
                    #![trigger b@[c]]
                    all_digits(b@, 11, c) && c < b@.len() && b@[c] == ASCII_DOT && all_digits(
                        b@,
                        c + 1,
                        b@.len() as int,
                    );
                assert(!is_digit_byte(46));
                if c < dot {
                    assert(is_digit_byte(b@[c]));
                } else if c > dot {
                    assert(is_digit_byte(b@[dot as int]));
                }
                // So the separator is exactly our dot; its digits run to the
                // end, contradicting the failed scan.
                assert(m < n ==> is_digit_byte(b@[m as int]));
            }
        }
    }
    ok
}

/// Match the sysfs forms.
fn is_spidev_sysfs_bytes(b: &[u8]) -> (r: bool)
    ensures
        r == is_spidev_sysfs(b@),
{
    let n = b.len();
    let devices_ok = n >= 21 && b[0] == 47 && b[1] == 115 && b[2] == 121 && b[3] == 115 && b[4]
        == 47 && b[5] == 100 && b[6] == 101 && b[7] == 118 && b[8] == 105 && b[9] == 99 && b[10]
        == 101 && b[11] == 115 && b[12] == 47;
    let class_ok = n >= 27 && b[0] == 47 && b[1] == 115 && b[2] == 121 && b[3] == 115 && b[4] == 47
        && b[5] == 99 && b[6] == 108 && b[7] == 97 && b[8] == 115 && b[9] == 115 && b[10] == 47
        && b[11] == 100 && b[12] == 101 && b[13] == 118 && b[14] == 105 && b[15] == 99 && b[16]
        == 101 && b[17] == 115 && b[18] == 47;
    if !devices_ok && !class_ok {
        return false;
    }
    b[n - 7] == 47 && b[n - 6] == 115 && b[n - 5] == 112 && b[n - 4] == 105 && b[n - 3] >= 48
        && b[n - 3] <= 57 && b[n - 2] == 46 && b[n - 1] >= 48 && b[n - 1] <= 57
}

/// Which driver a resolved device path selects, serial taking precedence;
/// `None` when neither pattern matches.
pub fn detect(file: &str) -> (r: Option<String>)
    ensures
        is_serial_path(file.spec_bytes()) ==> (r matches Some(s) && s@ == "serial"@),
        !is_serial_path(file.spec_bytes()) && (is_spidev_node(file.spec_bytes())
            || is_spidev_sysfs(file.spec_bytes())) ==> (r matches Some(s) && s@ == "spidev"@),
        r is None <==> (!is_serial_path(file.spec_bytes()) && !is_spidev_node(file.spec_bytes())
            && !is_spidev_sysfs(file.spec_bytes())),
{
    if is_serial(file) {
        Some("serial".to_owned())
    } else if is_spidev(file) {
        Some("spidev".to_owned())
    } else {
        None
    }
}

/// A standard serial baudrate of the host platform.
pub open spec fn is_std_baudrate(r: u32) -> bool {
    ||| r == 4_000_000
    ||| r == 3_500_000
    ||| r == 3_000_000
    ||| r == 2_500_000
    ||| r == 2_000_000
    ||| r == 1_500_000
    ||| r == 1_152_000
    ||| r == 1_000_000
    ||| r == 921_600
    ||| r == 576_000
    ||| r == 500_000
    ||| r == 460_800
    ||| r == 230_400
    ||| r == 115_200
    ||| r == 57_600
    ||| r == 38_400
    ||| r == 19_200
    ||| r == 9_600
    ||| r == 4_800
    ||| r == 2_400
    ||| r == 1_800
    ||| r == 1_200
    ||| r == 600
    ||| r == 300
    ||| r == 200
    ||| r == 150
    ||| r == 134
    ||| r == 110
    ||| r == 75
    ||| r == 50
}

/// Map a requested baudrate to the nearest standard rate that does not
/// exceed it, or to zero when even the slowest is too fast.
pub fn map_baudrate(b: u32) -> (r: u32)
    ensures
        b >= 50 ==> is_std_baudrate(r) && r <= b,
        b >= 50 ==> forall|r2: u32| is_std_baudrate(r2) && r2 <= b ==> r2 <= r,
        b < 50 ==> r == 0,
{
    if b >= 4_000_000 {
        4_000_000
    } else if b >= 3_500_000 {
        3_500_000
    } else if b >= 3_000_000 {
        3_000_000
    } else if b >= 2_500_000 {
        2_500_000
    } else if b >= 2_000_000 {
        2_000_000
    } else if b >= 1_500_000 {
        1_500_000
    } else if b >= 1_152_000 {
        1_152_000
    } else if b >= 1_000_000 {
        1_000_000
    } else if b >= 921_600 {
        921_600
    } else if b >= 576_000 {
        576_000
    } else if b >= 500_000 {
        500_000
    } else if b >= 460_800 {
        460_800
    } else if b >= 230_400 {
        230_400
    } else if b >= 115_200 {
        115_200
    } else if b >= 57_600 {
        57_600
    } else if b >= 38_400 {
        38_400
    } else if b >= 19_200 {
        19_200
    } else if b >= 9_600 {
        9_600
    } else if b >= 4_800 {
        4_800
    } else if b >= 2_400 {
        2_400
    } else if b >= 1_800 {
        1_800
    } else if b >= 1_200 {
        1_200
    } else if b >= 600 {
        600
    } else if b >= 300 {
        300
    } else if b >= 200 {
        200
    } else if b >= 150 {
        150
    } else if b >= 134 {
        134
    } else if b >= 110 {
        110
    } else if b >= 75 {
        75
    } else if b >= 50 {
        50
    } else {
        0
    }
}

} // verus!
