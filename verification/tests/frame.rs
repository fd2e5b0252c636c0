use kotoa_display::display_driver::{DisplayColor, DisplayDriver, BUFFER_LEN, HEIGHT, MID, WIDTH};
use kotoa_display::panel::PanelOp;

/// The two colour planes as the refresh sequence sends them.
fn planes(driver: &DisplayDriver) -> (Vec<u8>, Vec<u8>) {
    let ops = driver.display();
    let bw = match &ops[7] {
        PanelOp::Write(bytes) => bytes.clone(),
        other => panic!("unexpected {:?}", other),
    };
    let red = match &ops[16] {
        PanelOp::Write(bytes) => bytes.clone(),
        other => panic!("unexpected {:?}", other),
    };
    (bw, red)
}

fn frame(driver: &DisplayDriver) -> Vec<u8> {
    let (mut bw, red) = planes(driver);
    bw.extend(red);
    bw
}

#[test]
fn new_frame_is_blank() {
    let driver = DisplayDriver::new();
    let f = frame(&driver);
    assert_eq!(f.len(), BUFFER_LEN);
    assert!(f.iter().all(|b| *b == 0xFF));
}

#[test]
fn size_is_landscape() {
    let driver = DisplayDriver::new();
    assert_eq!(driver.size(), (212, 104));
    assert_eq!(driver.size(), (HEIGHT as u32, WIDTH as u32));
}

#[test]
fn black_pixel_clears_black_white_bit() {
    let mut driver = DisplayDriver::new();
    driver.write_pixel_internal(0, 0, 1);
    let f = frame(&driver);
    assert_eq!(f[12], 0xFE);
    assert_eq!(f[12 + MID], 0xFF);
    assert_eq!(f.iter().filter(|b| **b != 0xFF).count(), 1);
}

#[test]
fn red_pixel_clears_red_bit() {
    let mut driver = DisplayDriver::new();
    driver.write_pixel_internal(0, 0, 2);
    let f = frame(&driver);
    assert_eq!(f[12], 0xFF);
    assert_eq!(f[12 + MID], 0xFE);
    assert_eq!(f.iter().filter(|b| **b != 0xFF).count(), 1);
}

#[test]
fn any_code_above_one_is_red() {
    let mut a = DisplayDriver::new();
    let mut b = DisplayDriver::new();
    a.write_pixel_internal(5, 7, 2);
    b.write_pixel_internal(5, 7, 200);
    assert_eq!(frame(&a), frame(&b));
}

#[test]
fn white_pixel_restores_blank() {
    let mut driver = DisplayDriver::new();
    driver.write_pixel_internal(10, 20, 1);
    driver.write_pixel_internal(10, 20, 0);
    assert!(frame(&driver).iter().all(|b| *b == 0xFF));
    driver.write_pixel_internal(10, 20, 2);
    driver.write_pixel_internal(10, 20, 0);
    assert!(frame(&driver).iter().all(|b| *b == 0xFF));
}

#[test]
fn far_corner_uses_last_row_top_bit() {
    // x = 211, y = 103: row 211, byte 0 of the row, most significant bit
    let mut driver = DisplayDriver::new();
    driver.write_pixel_internal(211, 103, 1);
    let f = frame(&driver);
    assert_eq!(f[13 * 211], 0x7F);
    assert_eq!(f.iter().filter(|b| **b != 0xFF).count(), 1);
}

#[test]
fn neighbouring_pixels_share_a_byte() {
    // y = 0 and y = 1 land in bits 0 and 1 of byte 12 of row 3
    let mut driver = DisplayDriver::new();
    driver.write_pixel_internal(3, 0, 1);
    driver.write_pixel_internal(3, 1, 1);
    let f = frame(&driver);
    assert_eq!(f[13 * 3 + 12], 0xFC);
    driver.write_pixel_internal(3, 8, 2);
    let f = frame(&driver);
    assert_eq!(f[MID + 13 * 3 + 11], 0xFE);
}

#[test]
fn off_panel_pixels_are_ignored() {
    let mut driver = DisplayDriver::new();
    driver.write_pixel_internal(212, 0, 1);
    driver.write_pixel_internal(0, 104, 1);
    driver.write_pixel_internal(u16::MAX, u16::MAX, 2);
    assert!(frame(&driver).iter().all(|b| *b == 0xFF));
}

#[test]
fn last_write_wins() {
    let mut once = DisplayDriver::new();
    let mut twice = DisplayDriver::new();
    once.write_pixel_internal(100, 50, 2);
    twice.write_pixel_internal(100, 50, 1);
    twice.write_pixel_internal(100, 50, 2);
    assert_eq!(frame(&once), frame(&twice));
}

#[test]
fn distinct_pixels_commute() {
    let mut a = DisplayDriver::new();
    let mut b = DisplayDriver::new();
    a.write_pixel_internal(7, 9, 1);
    a.write_pixel_internal(7, 10, 2);
    b.write_pixel_internal(7, 10, 2);
    b.write_pixel_internal(7, 9, 1);
    assert_eq!(frame(&a), frame(&b));
}

#[test]
fn draw_maps_colors_to_codes() {
    let mut drawn = DisplayDriver::new();
    drawn.draw_iter(&[
        (1, 2, DisplayColor::Black),
        (3, 4, DisplayColor::Red),
        (5, 6, DisplayColor::White),
    ]);
    let mut written = DisplayDriver::new();
    written.write_pixel_internal(1, 2, 1);
    written.write_pixel_internal(3, 4, 2);
    written.write_pixel_internal(5, 6, 0);
    assert_eq!(frame(&drawn), frame(&written));
}

#[test]
fn draw_last_request_wins() {
    let mut driver = DisplayDriver::new();
    driver.draw_iter(&[(0, 0, DisplayColor::Black), (0, 0, DisplayColor::Red)]);
    let f = frame(&driver);
    assert_eq!(f[12], 0xFF);
    assert_eq!(f[12 + MID], 0xFE);
}

#[test]
fn draw_cuts_coordinates_to_sixteen_bits() {
    // 65536 + 2 is cut to 2; -1 becomes 65535, which is off the panel
    let mut driver = DisplayDriver::new();
    driver.draw_iter(&[(65538, 0, DisplayColor::Black), (-1, 0, DisplayColor::Red)]);
    let mut expected = DisplayDriver::new();
    expected.write_pixel_internal(2, 0, 1);
    assert_eq!(frame(&driver), frame(&expected));
}

#[test]
fn draw_nothing_changes_nothing() {
    let mut driver = DisplayDriver::new();
    driver.draw_iter(&[]);
    assert!(frame(&driver).iter().all(|b| *b == 0xFF));
}

#[test]
fn no_pixel_ever_has_both_bits_cleared() {
    let mut driver = DisplayDriver::new();
    let mut code: u8 = 0;
    for x in (0..230u16).step_by(7) {
        for y in (0..110u16).step_by(3) {
            driver.write_pixel_internal(x, y, code % 4);
            code = code.wrapping_add(1);
        }
    }
    let f = frame(&driver);
    assert!((0..MID).all(|i| f[i] | f[i + MID] == 0xFF));
    assert!(f.iter().any(|b| *b != 0xFF));
}
