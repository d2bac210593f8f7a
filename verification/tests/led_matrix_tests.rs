use rpi_control::led_matrix::Color::{Blue, Cyan, White};
use rpi_control::led_matrix::{
    create_buffer_from_colors, create_buffer_from_values, get_binary_on_8bit, Color,
};

fn colors_of(pattern: &[Color; 64]) -> [Color; 64] {
    *pattern
}

#[test]
fn binary_of_small_and_full_bytes() {
    assert_eq!(get_binary_on_8bit(5), [0, 0, 0, 0, 0, 1, 0, 1]);
    assert_eq!(get_binary_on_8bit(255), [1; 8]);
    assert_eq!(get_binary_on_8bit(0), [0; 8]);
    assert_eq!(get_binary_on_8bit(0b1000_0001), [1, 0, 0, 0, 0, 0, 0, 1]);
}

#[test]
fn binary_round_trip_for_every_byte() {
    for v in 0..=255u8 {
        let bits = get_binary_on_8bit(v);
        let mut back: u32 = 0;
        for b in bits.iter() {
            assert!(*b == 0 || *b == 1);
            back = back * 2 + *b as u32;
        }
        assert_eq!(back, v as u32);
    }
}

#[test]
fn color_buffer_slots() {
    let mut pattern = [Color::Black; 64];
    pattern[0] = Color::White;
    pattern[1] = Color::Green;
    pattern[2] = Color::Red;
    pattern[3] = Color::Blue;
    pattern[4] = Color::Yellow;
    pattern[5] = Color::Cyan;
    let buffer = create_buffer_from_colors(100, colors_of(&pattern));
    let one = 72;
    let zero = 28;
    let expect = |pixel: usize, g: bool, r: bool, b: bool| {
        for k in 0..24 {
            let on = if k < 8 { g } else if k < 16 { r } else { b };
            assert_eq!(buffer[pixel * 24 + k], if on { one } else { zero }, "pixel {} slot {}", pixel, k);
        }
    };
    expect(0, true, true, true);
    expect(1, true, false, false);
    expect(2, false, true, false);
    expect(3, false, false, true);
    expect(4, true, true, false);
    expect(5, true, false, true);
    for p in 6..64 {
        expect(p, false, false, false);
    }
    for j in 1536..1586 {
        assert_eq!(buffer[j], 0);
    }
}

#[test]
fn value_buffer_slots() {
    let mut values = [0u8; 192];
    values[0] = 0b1010_0000;
    values[191] = 0xff;
    let buffer = create_buffer_from_values(125, values);
    assert_eq!(&buffer[0..8], &[90, 35, 90, 35, 35, 35, 35, 35]);
    for j in 8..1528 {
        assert_eq!(buffer[j], 35);
    }
    for j in 1528..1536 {
        assert_eq!(buffer[j], 90);
    }
    for j in 1536..1586 {
        assert_eq!(buffer[j], 0);
    }
}

#[test]
fn duties_round_down() {
    let buffer = create_buffer_from_values(10, [0x80; 192]);
    assert_eq!(buffer[0], 7);
    assert_eq!(buffer[1], 2);
    let zero_scale = create_buffer_from_values(0, [0xff; 192]);
    assert!(zero_scale.iter().all(|d| *d == 0));
}

#[test]
fn color_frame_is_value_frame_of_channels() {
    let all = [
        Color::Black,
        Color::White,
        Color::Red,
        Color::Blue,
        Color::Green,
        Color::Yellow,
        Color::Cyan,
    ];
    let mut pattern = [Color::Black; 64];
    for i in 0..64 {
        pattern[i] = all[(i * 5 + 3) % 7];
    }
    let mut values = [0u8; 192];
    for i in 0..64 {
        let (g, r, b) = match pattern[i] {
            Color::Black => (0, 0, 0),
            Color::White => (255, 255, 255),
            Color::Red => (0, 255, 0),
            Color::Blue => (0, 0, 255),
            Color::Green => (255, 0, 0),
            Color::Yellow => (255, 255, 0),
            Color::Cyan => (255, 0, 255),
        };
        values[i * 3] = g;
        values[i * 3 + 1] = r;
        values[i * 3 + 2] = b;
    }
    let from_colors = create_buffer_from_colors(1000, pattern);
    let from_values = create_buffer_from_values(1000, values);
    assert_eq!(from_colors.to_vec(), from_values.to_vec());
}

#[test]
fn demcon_logo_frame() {
    let logo = [
        Blue, Blue, Blue, Blue, Blue, Blue, Blue, Blue,
        Blue, Cyan, White, White, White, White, Cyan, Blue,
        Cyan, Cyan, Cyan, Cyan, Cyan, Cyan, White, Cyan,
        Cyan, Cyan, Cyan, White, White, White, Cyan, White,
        Cyan, Cyan, Cyan, Cyan, Cyan, Cyan, Cyan, White,
        Cyan, Cyan, Cyan, Cyan, Cyan, Cyan, Cyan, Cyan,
        Blue, Cyan, Cyan, Cyan, Cyan, Cyan, Cyan, Blue,
        Blue, Blue, Blue, Blue, Blue, Blue, Blue, Blue,
    ];
    let buffer = create_buffer_from_colors(100, logo);
    // pixel 9 is cyan: green and blue on, red off
    assert!(buffer[9 * 24..9 * 24 + 8].iter().all(|d| *d == 72));
    assert!(buffer[9 * 24 + 8..9 * 24 + 16].iter().all(|d| *d == 28));
    assert!(buffer[9 * 24 + 16..10 * 24].iter().all(|d| *d == 72));
}
