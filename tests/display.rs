use displayhatmini::error::DisplayError;
use displayhatmini::peripherals::{
    buttons_from_levels, led_drive, may_write, observe, start_wait, LedDrive, Pins, TearWait,
    PWM_FREQUENCY_HZ,
};
use displayhatmini::pixels::{convert, rgb_to_rgb565};
use displayhatmini::st7789::{
    init_display, send_buffer, send_command, send_data, set_window, BusScript, Commands, Signal,
    CHUNK,
};
use displayhatmini::{frame_script, setup_script, PIXEL_COUNT};

fn writes(script: &BusScript) -> Vec<Vec<u8>> {
    let mut out = Vec::new();
    for s in script.signals.iter() {
        if let Signal::Write(b) = s {
            out.push(b.clone());
        }
    }
    out
}

/// The data bytes that follow the command `cmd` in `script`, up to the next command.
fn params_of(script: &BusScript, cmd: u8) -> Vec<u8> {
    let sig = &script.signals;
    let mut i = 0;
    while i + 1 < sig.len() {
        if sig[i] == Signal::CommandLine && sig[i + 1] == Signal::Write(vec![cmd]) {
            let mut params = Vec::new();
            let mut j = i + 2;
            while j + 1 < sig.len() && sig[j] == Signal::DataLine {
                if let Signal::Write(b) = &sig[j + 1] {
                    params.extend_from_slice(b);
                }
                j += 2;
            }
            return params;
        }
        i += 1;
    }
    panic!("command {:#04x} not found", cmd);
}

#[test]
fn convert_primary_colours() {
    assert_eq!(convert(255, 0, 0), (0xF8, 0x00));
    assert_eq!(convert(0, 255, 0), (0x07, 0xE0));
    assert_eq!(convert(0, 0, 255), (0x00, 0x1F));
    assert_eq!(convert(255, 255, 255), (0xFF, 0xFF));
    assert_eq!(convert(0, 0, 0), (0x00, 0x00));
}

#[test]
fn convert_truncates_low_bits() {
    // r = 0b1010_1111, g = 0b1101_0110, b = 0b0011_1001
    assert_eq!(convert(0xAF, 0xD6, 0x39), (0xAE, 0xA7));
    assert_eq!(convert(0xAF, 0xD6, 0x39), convert(0xAF, 0xD6, 0x39));
}

#[test]
fn conversion_output_is_two_thirds() {
    for k in [0usize, 1, 2, 7, 100] {
        let rgb = vec![0x55u8; 3 * k];
        let out = rgb_to_rgb565(&rgb, k).unwrap();
        assert_eq!(out.len(), 2 * k);
    }
}

#[test]
fn conversion_packs_each_pixel() {
    let rgb = [255u8, 0, 0, 0, 255, 0, 0, 0, 255];
    let out = rgb_to_rgb565(&rgb, 3).unwrap();
    assert_eq!(out, vec![0xF8, 0x00, 0x07, 0xE0, 0x00, 0x1F]);
}

#[test]
fn conversion_rejects_bad_lengths() {
    assert_eq!(rgb_to_rgb565(&[1, 2, 3, 4], 1), Err(DisplayError::SizeMismatch));
    assert_eq!(rgb_to_rgb565(&[1, 2], 1), Err(DisplayError::SizeMismatch));
    assert_eq!(rgb_to_rgb565(&[1, 2, 3], 2), Err(DisplayError::SizeMismatch));
    assert_eq!(rgb_to_rgb565(&[], 1), Err(DisplayError::SizeMismatch));
    assert_eq!(rgb_to_rgb565(&[1, 2, 3], usize::MAX), Err(DisplayError::SizeMismatch));
}

#[test]
fn frame_requires_full_panel() {
    assert!(matches!(frame_script(&vec![0u8; 3 * PIXEL_COUNT - 1]), Err(DisplayError::SizeMismatch)));
    assert!(matches!(frame_script(&vec![0u8; 3 * PIXEL_COUNT + 3]), Err(DisplayError::SizeMismatch)));
    assert!(matches!(frame_script(&[]), Err(DisplayError::SizeMismatch)));
}

#[test]
fn frame_is_converted_and_chunked() {
    let mut rgb = vec![0u8; 3 * PIXEL_COUNT];
    rgb[0] = 255;
    rgb[3 * PIXEL_COUNT - 1] = 255;
    let script = frame_script(&rgb).unwrap();
    assert_eq!(script.signals[0], Signal::DataLine);
    let w = writes(&script);
    assert_eq!(w.len(), 38);
    assert!(w[..37].iter().all(|c| c.len() == CHUNK));
    assert_eq!(w[37].len(), 2 * PIXEL_COUNT - 37 * CHUNK);
    assert_eq!(&w[0][..2], &[0xF8, 0x00]);
    assert_eq!(&w[37][w[37].len() - 2..], &[0x00, 0x1F]);
}

#[test]
fn command_sets_line_low_before_write() {
    let mut s = BusScript::new();
    send_command(&mut s, 0x2A);
    assert_eq!(s.signals, vec![Signal::CommandLine, Signal::Write(vec![0x2A])]);
}

#[test]
fn data_sets_line_high_before_write() {
    let mut s = BusScript::new();
    send_data(&mut s, 0x7F);
    send_buffer(&mut s, &[1, 2, 3]);
    assert_eq!(
        s.signals,
        vec![
            Signal::DataLine,
            Signal::Write(vec![0x7F]),
            Signal::DataLine,
            Signal::Write(vec![1, 2, 3]),
        ]
    );
}

#[test]
fn buffer_of_ten_thousand_is_three_writes() {
    let buf: Vec<u8> = (0..10_000u32).map(|i| (i % 251) as u8).collect();
    let mut s = BusScript::new();
    send_buffer(&mut s, &buf);
    assert_eq!(s.signals[0], Signal::DataLine);
    let w = writes(&s);
    let sizes: Vec<usize> = w.iter().map(|c| c.len()).collect();
    assert_eq!(sizes, vec![4096, 4096, 1808]);
    assert_eq!(w.concat(), buf);
    assert_eq!(s.signals.len(), 4);
}

#[test]
fn buffer_of_one_chunk_is_one_write() {
    let buf = vec![9u8; CHUNK];
    let mut s = BusScript::new();
    send_buffer(&mut s, &buf);
    assert_eq!(s.signals, vec![Signal::DataLine, Signal::Write(buf)]);
}

#[test]
fn empty_buffer_writes_nothing() {
    let mut s = BusScript::new();
    send_buffer(&mut s, &[]);
    assert_eq!(s.signals, vec![Signal::DataLine]);
}

#[test]
fn window_for_full_panel() {
    let mut s = BusScript::new();
    set_window(&mut s, 320, 240);
    assert_eq!(params_of(&s, 0x2A), vec![0x00, 0x00, 0x01, 0x3F]);
    assert_eq!(params_of(&s, 0x2B), vec![0x00, 0x00, 0x00, 0xEF]);
    let n = s.signals.len();
    assert_eq!(s.signals[n - 2..], [Signal::CommandLine, Signal::Write(vec![0x2C])]);
    assert_eq!(n, 2 * 11);
}

#[test]
fn window_of_largest_extent() {
    let mut s = BusScript::new();
    set_window(&mut s, 0x10000, 1);
    assert_eq!(params_of(&s, 0x2A), vec![0x00, 0x00, 0xFF, 0xFF]);
    assert_eq!(params_of(&s, 0x2B), vec![0x00, 0x00, 0x00, 0x00]);
}

#[test]
fn init_sequence_order_and_pauses() {
    let mut s = BusScript::new();
    init_display(&mut s, true);
    let sig = &s.signals;
    assert_eq!(sig[0], Signal::CommandLine);
    assert_eq!(sig[1], Signal::Write(vec![0x01]));
    assert_eq!(sig[2], Signal::Settle(150));
    let n = sig.len();
    assert_eq!(sig[n - 3..], [Signal::CommandLine, Signal::Write(vec![0x29]), Signal::Settle(100)]);
    assert_eq!(params_of(&s, 0x36), vec![0xB0]);
    assert_eq!(params_of(&s, 0xB2), vec![0x0C, 0x0C, 0x00, 0x33, 0x33]);
    assert_eq!(params_of(&s, 0x3A), vec![0x05]);
    assert_eq!(params_of(&s, 0xD0), vec![0xA4, 0xA1]);
    assert_eq!(params_of(&s, 0xC6), vec![0x0F]);
    assert_eq!(
        params_of(&s, 0xE0),
        vec![0xD0, 0x04, 0x0D, 0x11, 0x13, 0x2B, 0x3F, 0x54, 0x4C, 0x18, 0x0D, 0x0B, 0x1F, 0x23]
    );
    assert_eq!(
        params_of(&s, 0xE1),
        vec![0xD0, 0x04, 0x0C, 0x11, 0x13, 0x2C, 0x3F, 0x44, 0x51, 0x2F, 0x1F, 0x1F, 0x20, 0x23]
    );
    assert_eq!(params_of(&s, 0x21), Vec::<u8>::new());
    let commands = sig.iter().filter(|x| **x == Signal::CommandLine).count();
    assert_eq!(commands, 18);
}

#[test]
fn init_without_inversion() {
    let mut s = BusScript::new();
    init_display(&mut s, false);
    assert!(s.signals.contains(&Signal::Write(vec![0x20])));
    assert!(!s.signals.contains(&Signal::Write(vec![0x21])));
}

#[test]
fn setup_is_init_then_window() {
    let s = setup_script();
    let n = s.signals.len();
    assert_eq!(s.signals[1], Signal::Write(vec![0x01]));
    assert!(s.signals.contains(&Signal::Write(vec![0x21])));
    assert_eq!(s.signals[n - 1], Signal::Write(vec![0x2C]));
    assert_eq!(params_of(&s, 0x2A), vec![0x00, 0x00, 0x01, 0x3F]);
}

#[test]
fn command_codes() {
    assert_eq!(Commands::SWRESET.u8(), 0x01);
    assert_eq!(Commands::CASET.u8(), 0x2A);
    assert_eq!(Commands::RASET.u8(), 0x2B);
    assert_eq!(Commands::RAMWR.u8(), 0x2C);
    assert_eq!(Commands::PWCTRL1.u8(), 0xD0);
}

#[test]
fn pin_numbers() {
    assert_eq!(Pins::SpiDc.u8(), 9);
    assert_eq!(Pins::TearEfect.u8(), 25);
    assert_eq!(Pins::ButtonY.u8(), 24);
    assert_eq!(Pins::LEDBlue.u8(), 22);
}

#[test]
fn buttons_a_and_x_pressed() {
    assert_eq!(buttons_from_levels(false, true, false, true), 0b0101);
    assert_eq!(buttons_from_levels(true, true, true, true), 0);
    assert_eq!(buttons_from_levels(false, false, false, false), 0b1111);
    assert_eq!(buttons_from_levels(true, true, true, false), 0b1000);
}

#[test]
fn led_brightness_levels() {
    assert_eq!(led_drive(0), LedDrive::Off);
    assert_eq!(led_drive(255), LedDrive::On);
    match led_drive(128) {
        LedDrive::Pwm { frequency_hz, duty_num } => {
            assert_eq!(frequency_hz, 2000);
            assert_eq!(frequency_hz, PWM_FREQUENCY_HZ);
            let duty = duty_num as f64 / 255.0;
            assert!((duty - (1.0 - 128.0 / 255.0)).abs() < 1e-12);
            assert!((duty - 0.498).abs() < 0.001);
        }
        other => panic!("expected PWM, got {:?}", other),
    }
    assert_eq!(led_drive(1), LedDrive::Pwm { frequency_hz: 2000, duty_num: 254 });
    assert_eq!(led_drive(254), LedDrive::Pwm { frequency_hz: 2000, duty_num: 1 });
}

#[test]
fn vsync_waits_for_tear_line() {
    let mut w = start_wait(true, 100);
    for _ in 0..50 {
        assert!(!may_write(w));
        w = observe(w, false);
    }
    assert!(!may_write(w));
    w = observe(w, true);
    assert!(may_write(w));
    assert_eq!(observe(w, false), TearWait::Ready);
}

#[test]
fn vsync_times_out() {
    let mut w = start_wait(true, 3);
    w = observe(w, false);
    w = observe(w, false);
    assert_eq!(w, TearWait::Waiting { polls_left: 1 });
    w = observe(w, false);
    assert_eq!(w, TearWait::TimedOut);
    assert!(!may_write(observe(w, true)));
    assert_eq!(start_wait(true, 0), TearWait::TimedOut);
}

#[test]
fn no_vsync_writes_at_once() {
    assert!(may_write(start_wait(false, 0)));
}
