use ledcat::color::{Correction, Pixel};
use ledcat::device::apa102::Apa102;
use ledcat::device::generic::{grayscale, parse_rgb24, Format, Generic};
use ledcat::device::hexws2811::HexWS2811;
use ledcat::device::lpd8806::Lpd8806;
use ledcat::device::raw::Raw;
use ledcat::device::sk9822::Sk9822;
use ledcat::device::ws2812::Ws2812;
use ledcat::device::Device;
use ledcat::driver::FirstBit;
use ledcat::pipeline::transform_frame;
use ledcat::transpose::{transposition_table, TransposeKind};
use ledcat::geometry::Dimensions;

fn px(r: u8, g: u8, b: u8) -> Pixel {
    Pixel { r, g, b }
}

fn write(dev: &impl Device, frame: &Vec<Pixel>) -> Vec<u8> {
    let mut out = Vec::new();
    dev.write_frame(&mut out, frame).unwrap();
    out
}

#[test]
fn generic_rgb24_pass_through() {
    // Three pixels, no transposition, no correction, full brightness: the
    // wire bytes equal the input bytes.
    let dims = Dimensions { w: 3, h: 1 };
    let input: Vec<u8> = vec![0x00, 0x01, 0x02, 0x03, 0x04, 0x05, 0x06, 0x07, 0x08];
    let table = transposition_table(&dims, &vec![]).unwrap();
    let frame = transform_frame(&input, &table, &Correction::none(), 255);
    let dev = Generic { format: Format::RGB24 };
    assert_eq!(input, write(&dev, &frame));
}

#[test]
fn generic_rgb24_reverse() {
    let dims = Dimensions { w: 3, h: 1 };
    let input: Vec<u8> = vec![0xAA, 0xBB, 0xCC, 0x11, 0x22, 0x33, 0x44, 0x55, 0x66];
    let table = transposition_table(&dims, &vec![TransposeKind::Reverse]).unwrap();
    let frame = transform_frame(&input, &table, &Correction::none(), 255);
    let dev = Generic { format: Format::RGB24 };
    assert_eq!(
        vec![0x44, 0x55, 0x66, 0x11, 0x22, 0x33, 0xAA, 0xBB, 0xCC],
        write(&dev, &frame)
    );
}

#[test]
fn dim_to_half() {
    let dims = Dimensions { w: 1, h: 1 };
    let input: Vec<u8> = vec![200, 100, 50];
    let table = transposition_table(&dims, &vec![]).unwrap();
    let frame = transform_frame(&input, &table, &Correction::none(), 128);
    assert_eq!(vec![px(100, 50, 25)], frame);
}

#[test]
fn apa102_wire() {
    let dev = Apa102 { grayscale: 31, spidev_clock: 500_000 };
    let frame = vec![px(10, 20, 30), px(40, 50, 60)];
    assert_eq!(
        vec![0, 0, 0, 0, 0xFF, 30, 20, 10, 0xFF, 60, 50, 40],
        write(&dev, &frame)
    );
}

#[test]
fn sk9822_wire() {
    let dev = Sk9822 { grayscale: 31, spidev_clock: 500_000 };
    let frame = vec![px(10, 20, 30)];
    assert_eq!(
        vec![0, 0, 0, 0, 0xFF, 30, 20, 10, 0xFF, 0xFF, 0xFF, 0xFF],
        write(&dev, &frame)
    );
}

#[test]
fn lpd8806_wire() {
    let dev = Lpd8806 { spidev_clock: 500_000 };
    let frame = vec![px(2, 4, 6), px(8, 10, 12)];
    let mut expected = vec![0u8; 10];
    // Pixels leave in reverse order, each channel halved with the marker
    // bit, green first.
    expected.extend_from_slice(&[0x85, 0x84, 0x86, 0x82, 0x81, 0x83]);
    expected.extend_from_slice(&[0u8; 50]);
    assert_eq!(expected, write(&dev, &frame));
}

#[test]
fn hexws2811_wire() {
    let dev = HexWS2811 {};
    let frame = vec![px(1, 2, 3), px(4, 5, 6)];
    assert_eq!(
        vec![0, 5, 0, 4, 0, 6, 0, 2, 0, 1, 0, 3, 0xFF, 0xFF, 0xFF, 0xF0],
        write(&dev, &frame)
    );
}

#[test]
fn raw_wire() {
    let dev = Raw { clock_phase: 0, clock_polarity: 0, first_bit: FirstBit::Msb };
    let frame = vec![px(1, 2, 3)];
    assert_eq!(vec![2, 1, 3], write(&dev, &frame));
}

#[test]
fn ws2812_single_bit() {
    // G = 0x80: the high data bit expands to 110, every other to 100; the
    // 24 SPI bits of the green byte pack to D2 49 24, and the zero red and
    // blue bytes to 92 49 24 each.
    let dev = Ws2812 {};
    let frame = vec![px(0, 0x80, 0)];
    assert_eq!(
        vec![0xD2, 0x49, 0x24, 0x92, 0x49, 0x24, 0x92, 0x49, 0x24],
        write(&dev, &frame)
    );
}

#[test]
fn ws2812_all_byte_values() {
    // Every byte value expands bit by bit: 110 for a one, 100 for a zero,
    // most significant data bit first.
    let dev = Ws2812 {};
    for v in 0..=255u8 {
        let frame = vec![px(0, v, 0)];
        let out = write(&dev, &frame);
        let mut bits: Vec<bool> = Vec::new();
        for i in (0..8).rev() {
            let data = (v >> i) & 1 == 1;
            bits.push(true);
            bits.push(data);
            bits.push(false);
        }
        let mut expected: Vec<u8> = Vec::new();
        for chunk in bits.chunks(8) {
            let mut byte = 0u8;
            for (j, &bit) in chunk.iter().enumerate() {
                if bit {
                    byte |= 0x80 >> j;
                }
            }
            expected.push(byte);
        }
        assert_eq!(expected, out[0..3].to_vec(), "value {}", v);
    }
}

#[test]
fn generic_rgb16_wire() {
    let dev = Generic { format: Format::RGB16 };
    let frame = vec![px(0xFF, 0xFF, 0xFF)];
    // High byte: five bits of red and three of green; low byte keeps only
    // blue, the green bit having been shifted out of the byte.
    assert_eq!(vec![0xFF, 0x1F], write(&dev, &frame));
}

#[test]
fn generic_rgb12_wire() {
    let dev = Generic { format: Format::RGB12 };
    let frame = vec![px(0x12, 0x34, 0x56), px(0x78, 0x9A, 0xBC), px(0xDE, 0xF0, 0x12)];
    // Two pixels per three bytes; the odd tail pairs with black.
    assert_eq!(
        vec![0x13, 0x57, 0x9B, 0xDF, 0x10, 0x00],
        write(&dev, &frame)
    );
}

#[test]
fn generic_rgb8_wire() {
    let dev = Generic { format: Format::RGB8 };
    let frame = vec![px(0x03, 0xF0, 0xC0)];
    assert_eq!(vec![0xC0 | 0x3C | 0x03], write(&dev, &frame));
}

#[test]
fn generic_gs1_wire() {
    let dev = Generic { format: Format::GS1 };
    let mut frame = vec![px(0, 0, 0); 8];
    frame[0] = px(255, 255, 255);
    frame[7] = px(255, 255, 255);
    assert_eq!(vec![0x81], write(&dev, &frame));
}

#[test]
fn generic_gs1_rejects_odd_count() {
    let dev = Generic { format: Format::GS1 };
    let frame = vec![px(0, 0, 0); 7];
    let mut out = Vec::new();
    assert!(dev.write_frame(&mut out, &frame).is_err());
    assert!(out.is_empty());
}

#[test]
fn rgb24_round_trip() {
    let dev = Generic { format: Format::RGB24 };
    let frame = vec![px(1, 2, 3), px(4, 5, 6), px(250, 150, 50)];
    let bytes = write(&dev, &frame);
    assert_eq!(frame, parse_rgb24(&bytes));
}

#[test]
fn grayscale_values() {
    assert_eq!(0, grayscale(px(0, 0, 0)));
    assert_eq!(255, grayscale(px(255, 255, 255)));
    assert_eq!(100, grayscale(px(100, 100, 100)));
    assert_eq!(118, grayscale(px(200, 100, 50)));
}

#[test]
fn devices_report_corrections() {
    assert!(Apa102 { grayscale: 31, spidev_clock: 1 }.spidev_config().is_some());
    assert!(Generic { format: Format::RGB24 }.spidev_config().is_none());
    let c = Generic { format: Format::RGB24 }.color_correction();
    assert_eq!(px(10, 20, 30), c.correct(px(10, 20, 30)));
}
