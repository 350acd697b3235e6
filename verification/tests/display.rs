use remu::chip8::configs::DisplayConfig;
use remu::chip8::display::Display;

#[test]
fn display_starts_clear_and_dirty() {
    let d = Display::new(&DisplayConfig::default());
    assert_eq!(d.get_width(), 64);
    assert_eq!(d.get_height(), 32);
    assert!(d.get_flag());
    for y in 0..32 {
        for x in 0..64 {
            assert!(!d.get_pixel(x, y));
        }
    }
}

#[test]
fn set_pixel_xor_and_collision() {
    let mut d = Display::new(&DisplayConfig::default());
    assert!(!d.set_pixel(3, 4, true));
    assert!(d.get_pixel(3, 4));
    assert!(!d.get_pixel(4, 4));
    // Toggling the same pixel again reports the collision and clears it.
    assert!(d.set_pixel(3, 4, true));
    assert!(!d.get_pixel(3, 4));
}

#[test]
fn set_pixel_with_clear_source_bit_is_a_no_op() {
    let mut d = Display::new(&DisplayConfig::default());
    d.set_pixel(5, 5, true);
    assert!(!d.set_pixel(5, 5, false));
    assert!(d.get_pixel(5, 5));
}

#[test]
fn set_pixel_out_of_range_is_a_no_op() {
    let mut d = Display::new(&DisplayConfig::default());
    assert!(!d.set_pixel(64, 0, true));
    assert!(!d.set_pixel(0, 32, true));
    assert!(!d.get_pixel(64, 0));
    assert!(!d.get_pixel(0, 32));
}

#[test]
fn clear_zeroes_the_grid() {
    let mut d = Display::new(&DisplayConfig::default());
    d.set_pixel(1, 2, true);
    d.set_pixel(63, 31, true);
    d.clear();
    assert!(!d.get_pixel(1, 2));
    assert!(!d.get_pixel(63, 31));
}

#[test]
fn dirty_flag_set_and_reset() {
    let mut d = Display::new(&DisplayConfig::default());
    d.reset_flag();
    assert!(!d.get_flag());
    d.set_flag();
    assert!(d.get_flag());
}
