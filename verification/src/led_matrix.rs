//! Encoding of pixel data into the PWM duty-cycle buffer that a DMA channel
//! streams to a WS2812-style LED matrix of 8 x 8 pixels.
//!
//! Each pixel takes 24 duty-cycle slots, in the order green, red, blue, each
//! channel eight bits, most significant bit first. A `1` bit is sent as a
//! long high pulse (90/125 of the PWM period), a `0` bit as a short one
//! (35/125). The slots after the 64 pixels stay at duty 0, which holds the
//! line low and latches the frame.

use vstd::prelude::*;

verus! {

/// Number of duty-cycle slots handed to the DMA channel.
pub const BUFFER_LEN: usize = 1586;

/// Number of pixels of the matrix.
pub const PIXEL_COUNT: usize = 64;

/// Number of duty-cycle slots (bits) per pixel.
pub const SLOTS_PER_PIXEL: usize = 24;

/// Number of bytes of a raw frame: one byte per channel per pixel.
pub const VALUE_COUNT: usize = 192;

/// Number of slots that carry pixel bits; the rest of the buffer stays 0.
pub const DATA_SLOTS: usize = 1536;

/// The colors a pixel can take in a color frame.
#[derive(PartialEq, Eq, Structural, Clone, Copy, Debug)]
pub enum Color {
    Black,
    White,
    Red,
    Blue,
    Green,
    Yellow,
    Cyan,
}

/// Whether a color lights a channel: 0 is green, 1 is red, 2 is blue.
pub open spec fn channel_on(color: Color, channel: int) -> bool {
    match color {
        Color::Black => false,
        Color::White => true,
        Color::Green => channel == 0,
        Color::Red => channel == 1,
        Color::Blue => channel == 2,
        Color::Yellow => channel == 0 || channel == 1,
        Color::Cyan => channel == 0 || channel == 2,
    }
}

/// Duty cycle that encodes a `1` bit for a PWM whose full scale is `max`.
pub open spec fn one_duty(max: u32) -> u32 {
    (max * 90 / 125) as u32
}

/// Duty cycle that encodes a `0` bit for a PWM whose full scale is `max`.
pub open spec fn zero_duty(max: u32) -> u32 {
    (max * 35 / 125) as u32
}

/// Duty cycle of one bit.
pub open spec fn bit_duty(max: u32, bit: bool) -> u32 {
    if bit { one_duty(max) } else { zero_duty(max) }
}

/// Slot `k` (0..24) of a pixel of the given color.
pub open spec fn color_slot(max: u32, color: Color, k: int) -> u32 {
    bit_duty(max, channel_on(color, k / 8))
}

/// The integer `v` shifted right by `t` bits.
pub open spec fn shifted(v: int, t: nat) -> int
    decreases t,
{
    if t == 0 {
        v
    } else {
        shifted(v, (t - 1) as nat) / 2
    }
}

/// Bit `k` of a byte counted from the most significant one (k in 0..8).
pub open spec fn msb_bit(v: u8, k: int) -> u8 {
    (shifted(v as int, (7 - k) as nat) % 2) as u8
}

/// The eight bits of a byte, most significant first.
pub open spec fn bits_of(v: u8) -> Seq<u8> {
    Seq::new(8, |k: int| msb_bit(v, k))
}

/// The number written by a sequence of bits, most significant first.
pub open spec fn from_bits(bits: Seq<u8>) -> int
    decreases bits.len(),
{
    if bits.len() == 0 {
        0
    } else {
        from_bits(bits.drop_last()) * 2 + bits.last()
    }
}

/// The full scale for which the duty computations do not overflow.
pub open spec fn valid_max(max: u32) -> bool {
    max * 90 <= u32::MAX
}

/// Computes the duty cycles `(one, zero)` of the two bit values.
fn duties(max: u32) -> (r: (u32, u32))
    requires
        valid_max(max),
    ensures
        r.0 == one_duty(max),
        r.1 == zero_duty(max),
{
    (max * 90 / 125, max * 35 / 125)
}

/// Builds the DMA buffer that shows the 64 given colors.
pub fn create_buffer_from_colors(max: u32, input: [Color; 64]) -> (buffer: [u32; 1586])
    requires
        valid_max(max),
    ensures
        forall|i: int, k: int|
            0 <= i < 64 && 0 <= k < 24 ==> #[trigger] buffer@[i * 24 + k] == color_slot(
                max,
                input@[i],
                k,
            ),
        forall|j: int| 1536 <= j < 1586 ==> #[trigger] buffer@[j] == 0,
{
    let (one, zero) = duties(max);
    let mut buffer = [0u32; 1586];
    for i in 0..64
        invariant
            one == one_duty(max),
            zero == zero_duty(max),
            forall|i2: int, k: int|
                0 <= i2 < i && 0 <= k < 24 ==> #[trigger] buffer@[i2 * 24 + k] == color_slot(
                    max,
                    input@[i2],
                    k,
                ),
            forall|j: int| i * 24 <= j < 1586 ==> #[trigger] buffer@[j] == 0,
    {
        let color = input[i];
        let (green, red, blue) = match color {
            Color::White => (true, true, true),
            Color::Black => (false, false, false),
            Color::Green => (true, false, false),
            Color::Red => (false, true, false),
            Color::Blue => (false, false, true),
            Color::Yellow => (true, true, false),
            Color::Cyan => (true, false, true),
        };
        for k in 0..24
            invariant
                0 <= i < 64,
                color == input@[i as int],
                green == channel_on(color, 0),
                red == channel_on(color, 1),
                blue == channel_on(color, 2),
                one == one_duty(max),
                zero == zero_duty(max),
                forall|i2: int, k2: int|
                    0 <= i2 < i && 0 <= k2 < 24 ==> #[trigger] buffer@[i2 * 24 + k2] == color_slot(
                        max,
                        input@[i2],
                        k2,
                    ),
                forall|k2: int|
                    0 <= k2 < k ==> #[trigger] buffer@[i * 24 + k2] == color_slot(
                        max,
                        color,
                        k2,
                    ),
                forall|j: int| i * 24 + k <= j < 1586 ==> #[trigger] buffer@[j] == 0,
        {
            let on = if k < 8 {
                green
            } else if k < 16 {
                red
            } else {
                blue
            };
            buffer[i * 24 + k] = if on { one } else { zero };
        }
    }
    buffer
}


/// The eight bits of `input`, most significant first, each 0 or 1.
pub fn get_binary_on_8bit(input: u8) -> (binary: [u8; 8])
    ensures
        binary@ == bits_of(input),
        forall|k: int| 0 <= k < 8 ==> #[trigger] binary@[k] == 0 || binary@[k] == 1,
{
    let mut value = input;
    let mut binary = [0u8; 8];
    let mut i: usize = 8;
    while i > 0
        invariant
            0 <= i <= 8,
            value as int == shifted(input as int, (8 - i) as nat),
            forall|k: int| i <= k < 8 ==> #[trigger] binary@[k] == msb_bit(input, k),
        decreases i,
    {
        binary[i - 1] = value % 2;
        value = value / 2;
        i -= 1;
    }
    assert(binary@ =~= bits_of(input));
    binary
}

/// Builds the DMA buffer of a raw frame: 192 bytes, three per pixel in the
/// order green, red, blue.
pub fn create_buffer_from_values(max: u32, value: [u8; 192]) -> (buffer: [u32; 1586])
    requires
        valid_max(max),
    ensures
        forall|i: int, j: int|
            0 <= i < 192 && 0 <= j < 8 ==> #[trigger] buffer@[i * 8 + j] == bit_duty(
                max,
                msb_bit(value@[i], j) == 1,
            ),
        forall|j: int| 1536 <= j < 1586 ==> #[trigger] buffer@[j] == 0,
{
    let (one, zero) = duties(max);
    let mut buffer = [0u32; 1586];
    let mut index: usize = 0;
    for i in 0..192
        invariant
            index == i * 8,
            one == one_duty(max),
            zero == zero_duty(max),
            forall|i2: int, j: int|
                0 <= i2 < i && 0 <= j < 8 ==> #[trigger] buffer@[i2 * 8 + j] == bit_duty(
                    max,
                    msb_bit(value@[i2], j) == 1,
                ),
            forall|j: int| i * 8 <= j < 1586 ==> #[trigger] buffer@[j] == 0,
    {
        let binary = get_binary_on_8bit(value[i]);
        for j in 0..8
            invariant
                0 <= i < 192,
                index == i * 8 + j,
                binary@ == bits_of(value@[i as int]),
                one == one_duty(max),
                zero == zero_duty(max),
                forall|i2: int, j2: int|
                    0 <= i2 < i && 0 <= j2 < 8 ==> #[trigger] buffer@[i2 * 8 + j2] == bit_duty(
                        max,
                        msb_bit(value@[i2], j2) == 1,
                    ),
                forall|j2: int|
                    0 <= j2 < j ==> #[trigger] buffer@[i * 8 + j2] == bit_duty(
                        max,
                        msb_bit(value@[i as int], j2) == 1,
                    ),
                forall|j2: int| i * 8 + j <= j2 < 1586 ==> #[trigger] buffer@[j2] == 0,
        {
            buffer[index] = match binary[j] {
                1 => one,
                0 => zero,
                _ => 0,
            };
            index += 1;
        }
    }
    buffer
}


/// The raw frame that shows the given colors: per pixel the green, red and
/// blue bytes, each fully on (255) or off (0).
pub open spec fn color_values(colors: Seq<Color>) -> Seq<u8> {
    Seq::new(192, |n: int| if channel_on(colors[n / 3], n % 3) { 255u8 } else { 0u8 })
}

proof fn lemma_shifted_byte_bounds(v: u8, t: nat)
    ensures
        0 <= shifted(v as int, t) <= v,
    decreases t,
{
    if t > 0 {
        lemma_shifted_byte_bounds(v, (t - 1) as nat);
    }
}

proof fn lemma_full_and_empty_bytes(t: nat)
    requires
        t < 8,
    ensures
        shifted(255, t) % 2 == 1,
        shifted(0, t) == 0,
{
    reveal_with_fuel(shifted, 9);
}

/// Reading the bits of a byte back, most significant first, gives the byte.
pub proof fn lemma_bits_round_trip(v: u8)
    ensures
        from_bits(bits_of(v)) == v as int,
{
    let bits = bits_of(v);
    assert forall|m: int| 0 <= m <= 8 implies #[trigger] from_bits(bits.take(m)) == shifted(
        v as int,
        (8 - m) as nat,
    ) by {
        lemma_prefix_value(v, m);
    }
    assert(bits.take(8) =~= bits);
}

proof fn lemma_prefix_value(v: u8, m: int)
    requires
        0 <= m <= 8,
    ensures
        from_bits(bits_of(v).take(m)) == shifted(v as int, (8 - m) as nat),
    decreases m,
{
    let bits = bits_of(v);
    if m == 0 {
        reveal_with_fuel(shifted, 9);
        lemma_shifted_byte_bounds(v, 8);
        assert(bits.take(0) =~= Seq::<u8>::empty());
    } else {
        lemma_prefix_value(v, m - 1);
        assert(bits.take(m).drop_last() =~= bits.take(m - 1));
        assert(shifted(v as int, (9 - m) as nat) == shifted(v as int, (8 - m) as nat) / 2);
    }
}

/// A zero bit never takes a longer pulse than a one bit.
pub proof fn lemma_zero_duty_not_above_one(max: u32)
    requires
        valid_max(max),
    ensures
        zero_duty(max) <= one_duty(max),
{
    assert(max * 35 <= max * 90) by (nonlinear_arith);
    assert(max * 35 / 125 <= max * 90 / 125) by (nonlinear_arith)
        requires
            max * 35 <= max * 90,
    ;
}

/// A color frame is the raw frame of its fully-on and fully-off channels:
/// slot `k` of pixel `i` in the color buffer equals the slot at the same
/// position in the buffer of `color_values(colors)`.
pub proof fn lemma_colors_are_values(max: u32, colors: Seq<Color>, i: int, k: int)
    requires
        colors.len() == 64,
        0 <= i < 64,
        0 <= k < 24,
    ensures
        i * 24 + k == (i * 3 + k / 8) * 8 + k % 8,
        color_slot(max, colors[i], k) == bit_duty(
            max,
            msb_bit(color_values(colors)[i * 3 + k / 8], k % 8) == 1,
        ),
{
    let n = i * 3 + k / 8;
    assert(n / 3 == i && n % 3 == k / 8);
    lemma_full_and_empty_bytes((7 - k % 8) as nat);
}

} // verus!
