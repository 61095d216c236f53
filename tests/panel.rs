use epaper42::busy::{wait_busy_step, BusyStep};
use epaper42::driver::{EPaper42Driver, SpiSettings};
use epaper42::encoder::{encode_plane, encode_row, filled_row};
use epaper42::protocol::{PanelError, PanelOp};
use epaper42::raster::{is_black, GrayRaster};

fn raster(width: u32, height: u32, f: impl Fn(u32, u32) -> u8) -> GrayRaster {
    let mut pixels = Vec::new();
    for y in 0..height {
        for x in 0..width {
            pixels.push(f(x, y));
        }
    }
    GrayRaster::new(width, height, pixels).unwrap()
}

fn pattern(x: u32, y: u32) -> u8 {
    ((x * 7 + y * 13) % 256) as u8
}

fn driver() -> EPaper42Driver {
    EPaper42Driver::new(24, 17, 25, "/dev/spidev0.0")
}

fn data_rows(ops: &[PanelOp]) -> Vec<&Vec<u8>> {
    ops.iter()
        .map(|op| match op {
            PanelOp::Data(v) => v,
            other => panic!("expected a data write, found {:?}", other),
        })
        .collect()
}

#[test]
fn raster_rejects_wrong_sample_count() {
    assert!(GrayRaster::new(8, 2, vec![0; 15]).is_none());
    assert!(GrayRaster::new(8, 2, vec![0; 17]).is_none());
    let g = GrayRaster::new(8, 2, vec![0; 16]).unwrap();
    assert_eq!(g.width(), 8);
    assert_eq!(g.height(), 2);
}

#[test]
fn threshold_is_strict_below_128() {
    let g = GrayRaster::new(4, 1, vec![0, 127, 128, 255]).unwrap();
    assert!(is_black(&g, 0, 0));
    assert!(is_black(&g, 1, 0));
    assert!(!is_black(&g, 2, 0));
    assert!(!is_black(&g, 3, 0));
}

#[test]
fn byte_is_packed_most_significant_bit_first() {
    let g = GrayRaster::new(8, 1, vec![0, 255, 255, 255, 255, 255, 255, 127]).unwrap();
    assert_eq!(encode_row(&g, 0), vec![0b0111_1110]);
    let g = GrayRaster::new(16, 1, vec![
        200, 10, 128, 127, 255, 255, 0, 0, 255, 255, 255, 255, 255, 255, 255, 255,
    ])
    .unwrap();
    assert_eq!(encode_row(&g, 0), vec![0b1010_1100, 0xff]);
}

#[test]
fn packed_plane_recovers_every_pixel() {
    let g = raster(400, 300, pattern);
    let plane = encode_plane(&g);
    assert_eq!(plane.len(), 300);
    for y in 0..300u32 {
        assert_eq!(plane[y as usize].len(), 50);
        for x in 0..400u32 {
            let bit = (plane[y as usize][(x / 8) as usize] >> (7 - x % 8)) & 1;
            assert_eq!(bit == 0, pattern(x, y) < 128, "pixel ({}, {})", x, y);
        }
    }
}

#[test]
fn encoding_twice_gives_the_same_plane() {
    let g = raster(400, 300, pattern);
    let before: Vec<u8> = (0..300u32).flat_map(|y| (0..400u32).map(move |x| pattern(x, y))).collect();
    let first = encode_plane(&g);
    let second = encode_plane(&g);
    assert_eq!(first, second);
    for y in 0..300u32 {
        for x in 0..400u32 {
            assert_eq!(g.get_pixel(x, y), before[(y * 400 + x) as usize]);
        }
    }
}

#[test]
fn filled_row_repeats_its_byte() {
    assert_eq!(filled_row(0xff, 3), vec![0xff, 0xff, 0xff]);
    assert!(filled_row(0x00, 0).is_empty());
}

#[test]
fn print_image_of_wrong_size_sends_nothing() {
    let mut d = driver();
    let small = raster(8, 8, pattern);
    let good = raster(400, 300, pattern);
    assert_eq!(d.print_image(&small, None), Err(PanelError::SizeMismatch));
    assert!(d.take_pending().is_empty());
    assert_eq!(d.print_image(&good, Some(&small)), Err(PanelError::SizeMismatch));
    assert!(d.take_pending().is_empty());
    let tall = raster(400, 301, pattern);
    assert_eq!(d.print_image(&tall, None), Err(PanelError::SizeMismatch));
    assert!(d.take_pending().is_empty());
}

#[test]
fn print_image_sends_packed_planes() {
    let mut d = driver();
    let black = raster(400, 300, pattern);
    let red = raster(400, 300, |x, y| if x < 200 && y < 150 { 0 } else { 255 });
    assert_eq!(d.print_image(&black, Some(&red)), Ok(()));
    let ops = d.take_pending();
    assert_eq!(ops.len(), 604);
    assert_eq!(ops[0], PanelOp::Command(0x10));
    assert_eq!(ops[301], PanelOp::Command(0x13));
    assert_eq!(ops[602], PanelOp::Command(0x12));
    assert_eq!(ops[603], PanelOp::WaitBusy);
    let black_rows = data_rows(&ops[1..301]);
    let red_rows = data_rows(&ops[302..602]);
    for y in 0..300u32 {
        assert_eq!(*black_rows[y as usize], encode_row(&black, y));
    }
    assert_eq!(red_rows[0][0], 0x00);
    assert_eq!(red_rows[0][24], 0x00);
    assert_eq!(red_rows[0][25], 0xff);
    assert_eq!(*red_rows[150], vec![0xff; 50]);
}

#[test]
fn print_image_without_red_sends_white_red_plane() {
    let mut d = driver();
    let black = raster(400, 300, |_, _| 0);
    assert_eq!(d.print_image(&black, None), Ok(()));
    let ops = d.take_pending();
    assert_eq!(ops.len(), 604);
    for row in data_rows(&ops[1..301]) {
        assert_eq!(*row, vec![0x00; 50]);
    }
    for row in data_rows(&ops[302..602]) {
        assert_eq!(*row, vec![0xff; 50]);
    }
}

#[test]
fn clear_display_sends_white_lines_to_both_planes() {
    let mut d = driver();
    d.clear_display();
    let ops = d.take_pending();
    assert_eq!(ops.len(), 604);
    assert_eq!(ops[0], PanelOp::Command(0x10));
    for row in data_rows(&ops[1..301]) {
        assert_eq!(*row, vec![0xff; 50]);
    }
    assert_eq!(ops[301], PanelOp::Command(0x13));
    for row in data_rows(&ops[302..602]) {
        assert_eq!(*row, vec![0xff; 50]);
    }
    assert_eq!(ops[602], PanelOp::Command(0x12));
    assert_eq!(ops[603], PanelOp::WaitBusy);
}

#[test]
fn tricolor_bands() {
    let mut d = driver();
    d.print_tricolor();
    let ops = d.take_pending();
    assert_eq!(ops.len(), 604);
    assert_eq!(ops[0], PanelOp::Command(0x10));
    let black = data_rows(&ops[1..301]);
    for y in 0..300 {
        let expected = if y < 100 { 0xff } else { 0x00 };
        assert_eq!(*black[y], vec![expected; 50], "black line {}", y);
    }
    assert_eq!(ops[301], PanelOp::Command(0x13));
    let red = data_rows(&ops[302..602]);
    for y in 0..300 {
        let expected = if y < 200 { 0xff } else { 0x00 };
        assert_eq!(*red[y], vec![expected; 50], "red line {}", y);
    }
    assert_eq!(ops[602], PanelOp::Command(0x12));
    assert_eq!(ops[603], PanelOp::WaitBusy);
}

#[test]
fn busy_line_values() {
    assert_eq!(EPaper42Driver::is_busy(0), Ok(true));
    assert_eq!(EPaper42Driver::is_busy(1), Ok(false));
    assert_eq!(EPaper42Driver::is_busy(2), Err(PanelError::UnexpectedSignal));
    assert_eq!(EPaper42Driver::is_busy(255), Err(PanelError::UnexpectedSignal));
}

#[test]
fn wait_busy_polls_once_per_busy_sample() {
    let samples: Vec<u8> = vec![0, 0, 0, 1, 0, 0];
    let mut polls = 0;
    let mut sleeps = Vec::new();
    for &s in &samples {
        polls += 1;
        match wait_busy_step(s) {
            Ok(BusyStep::Ready) => break,
            Ok(BusyStep::PollAgain(ms)) => sleeps.push(ms),
            Err(e) => panic!("unexpected {:?}", e),
        }
    }
    assert_eq!(polls, 4);
    assert_eq!(sleeps, vec![200, 200, 200]);
    assert_eq!(wait_busy_step(1), Ok(BusyStep::Ready));
    assert_eq!(wait_busy_step(3), Err(PanelError::UnexpectedSignal));
}

#[test]
fn close_powers_off_then_sleeps() {
    let mut d = driver();
    d.close();
    assert_eq!(
        d.take_pending(),
        vec![PanelOp::Command(0x02), PanelOp::WaitBusy, PanelOp::Command(0x07), PanelOp::DataByte(0xa5)]
    );
    assert!(d.take_pending().is_empty());
}

#[test]
fn first_sequence_and_reset() {
    let mut d = driver();
    d.reset();
    d.first_sequence();
    assert_eq!(
        d.take_pending(),
        vec![
            PanelOp::SetReset(1),
            PanelOp::Pause(200),
            PanelOp::SetReset(0),
            PanelOp::Pause(200),
            PanelOp::SetReset(1),
            PanelOp::Pause(200),
            PanelOp::Command(0x06),
            PanelOp::DataByte(0x17),
            PanelOp::DataByte(0x17),
            PanelOp::DataByte(0x17),
            PanelOp::Command(0x04),
            PanelOp::WaitBusy,
            PanelOp::Command(0x00),
            PanelOp::DataByte(0x0f),
        ]
    );
}

#[test]
fn primitives_queue_in_order() {
    let mut d = driver();
    d.send_command_byte(0x10);
    d.send_data(&[1, 2, 3]);
    d.send_data_byte(9);
    d.wait_busy();
    assert_eq!(
        d.take_pending(),
        vec![PanelOp::Command(0x10), PanelOp::Data(vec![1, 2, 3]), PanelOp::DataByte(9), PanelOp::WaitBusy]
    );
}

#[test]
fn driver_keeps_its_wiring() {
    let d = driver();
    assert_eq!(d.busy_port(), 24);
    assert_eq!(d.rst_port(), 17);
    assert_eq!(d.dc_port(), 25);
    assert_eq!(d.spi_devname(), "/dev/spidev0.0");
    assert_eq!(
        EPaper42Driver::spi_settings(),
        SpiSettings { bits_per_word: 8, max_speed_hz: 4_000_000, mode: 0, lsb_first: false }
    );
}
