use ak820_ctl::lcd::LcdFramebuffer;
use ak820_ctl::protocol::LCD_DATA_SIZE;

#[test]
fn new_framebuffer_is_black() {
    let fb = LcdFramebuffer::new();
    let bytes = fb.as_rgb565_bytes();
    assert_eq!(bytes.len(), LCD_DATA_SIZE);
    assert!(bytes.iter().all(|b| *b == 0));
}

#[test]
fn set_pixel_shows_little_endian() {
    let mut fb = LcdFramebuffer::new();
    fb.set_pixel(1, 0, 0xF81F);
    fb.set_pixel(127, 127, 0x1234);
    let bytes = fb.as_rgb565_bytes();
    assert_eq!(bytes[2], 0x1F);
    assert_eq!(bytes[3], 0xF8);
    assert_eq!(bytes[LCD_DATA_SIZE - 2], 0x34);
    assert_eq!(bytes[LCD_DATA_SIZE - 1], 0x12);
    assert_eq!(bytes.iter().filter(|b| **b != 0).count(), 4);
}

#[test]
fn set_pixel_off_screen_is_ignored() {
    let mut fb = LcdFramebuffer::new();
    fb.set_pixel(128, 0, 0xFFFF);
    fb.set_pixel(0, 128, 0xFFFF);
    fb.set_pixel(-1, 5, 0xFFFF);
    fb.set_pixel(5, -1, 0xFFFF);
    assert!(fb.as_rgb565_bytes().iter().all(|b| *b == 0));
}

#[test]
fn draw_pixels_in_order_then_clear() {
    let mut fb = LcdFramebuffer::new();
    fb.draw_pixels(&vec![(0, 1, 0x0001), (0, 1, 0x0002), (200, 1, 0xFFFF)]);
    let bytes = fb.as_rgb565_bytes();
    assert_eq!(bytes[256], 0x02);
    assert_eq!(bytes[257], 0x00);
    fb.clear_black();
    assert!(fb.as_rgb565_bytes().iter().all(|b| *b == 0));
}
