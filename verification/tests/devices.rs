use ledcat::color::{Correction, Pixel};
use ledcat::device::fluxled::{color_command, Display};
use ledcat::device::hub75::{pwm_min_val, scan_interleave, Hub75};
use ledcat::device::simulator::AnsiDisplay;
use ledcat::device::sk9822::validate_grayscale;
use ledcat::device::GlobalArgs;
use ledcat::driver::{detect, is_serial, is_spidev, map_baudrate};
use ledcat::geometry::Dimensions;
use ledcat::gpio::{GpioOut, GpioOutBuffer, GpioValue};
use ledcat::pipeline::dim_channel;
use ledcat::GenericError;

fn px(r: u8, g: u8, b: u8) -> Pixel {
    Pixel { r, g, b }
}

#[test]
fn correction_none_is_identity() {
    let c = Correction::none();
    for v in [0u8, 1, 127, 254, 255] {
        assert_eq!(px(v, v, v), c.correct(px(v, v, v)));
    }
    assert_eq!(px(12, 200, 3), c.correct(px(12, 200, 3)));
}

#[test]
fn srgb_correction_values() {
    let c = Correction::srgb(255, 255, 255);
    assert_eq!(px(0, 0, 0), c.correct(px(0, 0, 0)));
    assert_eq!(px(255, 255, 255), c.correct(px(255, 255, 255)));
    assert_eq!(px(13, 55, 147), c.correct(px(64, 128, 200)));
    let c = Correction::srgb(31, 31, 31);
    assert_eq!(px(7, 7, 7), c.correct(px(128, 128, 128)));
    assert_eq!(px(31, 31, 31), c.correct(px(255, 255, 255)));
}

#[test]
fn srgb_is_monotone_and_bounded() {
    let c = Correction::srgb(200, 100, 50);
    let mut prev = px(0, 0, 0);
    for v in 0..=255u8 {
        let out = c.correct(px(v, v, v));
        assert!(out.r >= prev.r && out.g >= prev.g && out.b >= prev.b);
        assert!(out.r <= 200 && out.g <= 100 && out.b <= 50);
        prev = out;
    }
}

#[test]
fn dimming_is_monotone() {
    for dim in [0u8, 1, 127, 128, 255] {
        let mut prev = 0u8;
        for v in 0..=255u8 {
            let out = dim_channel(v, dim);
            assert!(out >= prev);
            prev = out;
        }
    }
    assert_eq!(0, dim_channel(200, 0));
    assert_eq!(200, dim_channel(200, 255));
}

#[test]
fn fluxled_command_bytes() {
    assert_eq!(
        vec![0x31, 1, 2, 3, 0x00, 0x00, 0x0F, 0x46],
        color_command(px(1, 2, 3))
    );
    // The checksum wraps modulo 256.
    assert_eq!(
        vec![0x31, 255, 255, 255, 0x00, 0x00, 0x0F, 0x3D],
        color_command(px(255, 255, 255))
    );
}

#[test]
fn fluxled_display_buffers_frames() {
    let mut d = Display::new(2);
    assert!(d.write(&vec![1, 2, 3]).is_none());
    let cmds = d.write(&vec![4, 5, 6]).unwrap();
    assert_eq!(2, cmds.len());
    assert_eq!(color_command(px(1, 2, 3)), cmds[0]);
    assert_eq!(color_command(px(4, 5, 6)), cmds[1]);
}

struct NullPin;

impl GpioOut for NullPin {
    fn set_low(&mut self) -> Result<(), GenericError> {
        Ok(())
    }

    fn set_high(&mut self) -> Result<(), GenericError> {
        Ok(())
    }
}

fn pins(n: usize) -> Vec<GpioOutBuffer<NullPin>> {
    (0..n).map(|_| GpioOutBuffer::new(NullPin)).collect()
}

#[test]
fn hub75_accepts_matching_geometry() {
    // Four level-select pins address sixteen rows; one scan line of
    // sixteen rows covers a sixteen-row panel.
    let d = Hub75::new(
        32,
        16,
        3,
        pins(4),
        pins(1),
        pins(1),
        pins(1),
        GpioOutBuffer::new(NullPin),
        GpioOutBuffer::new(NullPin),
        GpioOutBuffer::new(NullPin),
    );
    assert!(d.is_ok());
    let mut d = d.unwrap();
    d.replace_frame(vec![px(200, 0, 0); 32 * 16]);
    let min_val = pwm_min_val(0, d.pwm_cycles());
    assert!(d.refresh_display(min_val).is_ok());
}

#[test]
fn hub75_rejects_unaligned_height() {
    let d = Hub75::new(
        32,
        17,
        3,
        pins(4),
        pins(2),
        pins(2),
        pins(2),
        GpioOutBuffer::new(NullPin),
        GpioOutBuffer::new(NullPin),
        GpioOutBuffer::new(NullPin),
    );
    let err = match d {
        Err(e) => e,
        Ok(_) => panic!("unaligned height accepted"),
    };
    assert!(err.message().contains("multiple"));
}

#[test]
fn hub75_rejects_unequal_pin_counts() {
    let d = Hub75::new(
        32,
        32,
        3,
        pins(4),
        pins(2),
        pins(1),
        pins(2),
        GpioOutBuffer::new(NullPin),
        GpioOutBuffer::new(NullPin),
        GpioOutBuffer::new(NullPin),
    );
    let err = match d {
        Err(e) => e,
        Ok(_) => panic!("unequal pin counts accepted"),
    };
    assert!(err.message().contains("equal"));
}

#[test]
fn hub75_rejects_uncovered_height() {
    // Sixteen-row scan blocks with one scan line cover sixteen rows, not
    // thirty-two.
    let d = Hub75::new(
        32,
        32,
        3,
        pins(4),
        pins(1),
        pins(1),
        pins(1),
        GpioOutBuffer::new(NullPin),
        GpioOutBuffer::new(NullPin),
        GpioOutBuffer::new(NullPin),
    );
    let err = match d {
        Err(e) => e,
        Ok(_) => panic!("uncovered height accepted"),
    };
    assert!(err.message().contains("cover"));
}

#[test]
fn hub75_column_levels_threshold() {
    // A 2x2 panel with one level-select pin: two scan blocks of one row.
    let d = Hub75::new(
        2,
        2,
        3,
        pins(1),
        pins(1),
        pins(1),
        pins(1),
        GpioOutBuffer::new(NullPin),
        GpioOutBuffer::new(NullPin),
        GpioOutBuffer::new(NullPin),
    );
    let mut d = match d {
        Ok(d) => d,
        Err(_) => panic!("valid geometry rejected"),
    };
    d.replace_frame(vec![
        px(200, 100, 50),
        px(0, 0, 0),
        px(255, 101, 100),
        px(1, 2, 3),
    ]);
    // A channel lights only when it exceeds the threshold, strictly.
    let levels = d.column_levels(0, 0, 100);
    assert_eq!(1, levels.len());
    assert!(levels[0].red && !levels[0].green && !levels[0].blue);
    let levels = d.column_levels(0, 1, 100);
    assert!(levels[0].red && levels[0].green && !levels[0].blue);
}

#[test]
fn hub75_scan_order_and_thresholds() {
    // Rotate-left order over eight rows.
    let order: Vec<usize> = (0..8).map(|i| scan_interleave(i, 3, 8)).collect();
    assert_eq!(vec![0, 2, 4, 6, 1, 3, 5, 7], order);
    // Three sub-passes with default cycles: thresholds fall by 255/4.
    assert_eq!(192, pwm_min_val(0, 3));
    assert_eq!(129, pwm_min_val(1, 3));
    assert_eq!(66, pwm_min_val(2, 3));
}

#[test]
fn gpio_buffer_remembers_level() {
    let mut pin = GpioOutBuffer::new(NullPin);
    assert!(pin.set_high().is_ok());
    assert!(pin.set_high().is_ok());
    assert!(pin.set_low().is_ok());
    assert!(pin.set_value(GpioValue::High).is_ok());
}

#[test]
fn ansi_display_renders_cells() {
    let mut d = AnsiDisplay::new(2, 2);
    let frame = vec![px(1, 2, 3), px(4, 5, 6), px(7, 8, 9), px(10, 11, 12)];
    let out = d.render_frame(&frame);
    let expected = "\x1b[3J\x1b[H\x1b[2J\x1b[1;1H\
                    \x1b[48;2;7;8;9m\x1b[38;2;1;2;3m\u{2580}\
                    \x1b[48;2;10;11;12m\x1b[38;2;4;5;6m\u{2580}\
                    \x1b[0m\n";
    assert_eq!(expected.as_bytes().to_vec(), out);
    // The second frame skips the clear.
    let out = d.render_frame(&frame);
    assert!(out.starts_with("\x1b[1;1H".as_bytes()));
}

#[test]
fn ansi_display_odd_height_uses_default_background() {
    let mut d = AnsiDisplay::new(1, 1);
    let out = d.render_frame(&vec![px(100, 150, 200)]);
    let expected = "\x1b[3J\x1b[H\x1b[2J\x1b[1;1H\
                    \x1b[48;2;0m\x1b[38;2;100;150;200m\u{2580}\x1b[0m\n";
    assert_eq!(expected.as_bytes().to_vec(), out);
}

#[test]
fn validate_grayscale_range() {
    assert!(validate_grayscale("0").is_ok());
    assert!(validate_grayscale("31").is_ok());
    assert!(validate_grayscale("32").is_err());
    assert!(validate_grayscale("300").is_err());
    assert!(validate_grayscale("abc").is_err());
    assert!(validate_grayscale("").is_err());
}

#[test]
fn driver_detection() {
    assert!(is_serial("/dev/ttyUSB0"));
    assert!(!is_serial("/dev/spidev0.0"));
    assert!(is_spidev("/dev/spidev0.0"));
    assert!(is_spidev("/dev/spidev12.3"));
    assert!(!is_spidev("/dev/spidev0"));
    assert!(is_spidev("/sys/devices/platform/soc/spi0/spi0.0"));
    assert_eq!(Some("serial".to_string()), detect("/dev/ttyS0"));
    assert_eq!(Some("spidev".to_string()), detect("/dev/spidev0.1"));
    assert_eq!(None, detect("/dev/null"));
}

#[test]
fn baudrate_maps_to_nearest_lower() {
    assert_eq!(1_152_000, map_baudrate(1_152_000));
    assert_eq!(1_000_000, map_baudrate(1_151_999));
    assert_eq!(115_200, map_baudrate(200_000));
    assert_eq!(50, map_baudrate(74));
    assert_eq!(0, map_baudrate(49));
    assert_eq!(4_000_000, map_baudrate(u32::MAX));
}

#[test]
fn global_args_require_geometry() {
    let args = GlobalArgs { output_file: "/dev/stdout".to_string(), dimensions: None };
    assert!(args.dimensions().is_err());
    let args = GlobalArgs {
        output_file: "-".to_string(),
        dimensions: Some(Dimensions { w: 8, h: 8 }),
    };
    assert_eq!(Dimensions { w: 8, h: 8 }, args.dimensions().unwrap());
}
