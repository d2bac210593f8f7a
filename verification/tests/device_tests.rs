use rpi_control::gpio::{led_status, GPIO_ONBOARD_LED};
use rpi_control::test_patterns::{red_pixel_pattern, ramp_buffer, step_pattern, white_pixel_bytes};

#[test]
fn led_status_codes() {
    assert_eq!(led_status(false, false), 1);
    assert_eq!(led_status(false, true), 1);
    assert_eq!(led_status(true, false), 2);
    assert_eq!(led_status(true, true), 0);
    assert_eq!(GPIO_ONBOARD_LED, 23);
}

#[test]
fn bring_up_patterns() {
    assert_eq!(ramp_buffer(600), [100, 200, 300, 400, 500, 600]);
    assert_eq!(ramp_buffer(11), [1, 2, 3, 4, 5, 6]);
    assert_eq!(step_pattern(80), [0, 0, 80, 80, 0, 10, 10, 40, 40, 0]);
    let red = red_pixel_pattern(125);
    assert_eq!(&red[0..8], &[45; 8]);
    assert_eq!(&red[8..16], &[80; 8]);
    assert_eq!(&red[16..24], &[45; 8]);
    let white = white_pixel_bytes(1000);
    assert!(white[0..24].iter().all(|b| *b == 640u32 as u8));
    assert_eq!(white[24], 0);
}
