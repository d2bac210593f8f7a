//! Fixed duty-cycle patterns of the bring-up firmwares that exercised the
//! PWM and DMA path before the LED-matrix driver.

use vstd::prelude::*;

verus! {

/// Six steps of a ramp up to (at most) the full scale: `k * (max_duty / 6)`
/// for `k` in 1..=6.
pub fn ramp_buffer(max_duty: u32) -> (buffer: [u32; 6])
    ensures
        ({
            let d = max_duty / 6;
            buffer@.map_values(|x: u32| x as int) == seq![d as int, 2 * d, 3 * d, 4 * d, 5 * d, 6 * d]
        }),
{
    let delta = max_duty / 6;
    let buffer = [delta, delta * 2, delta * 3, delta * 4, delta * 5, delta * 6];
    assert(buffer@.map_values(|x: u32| x as int) =~= seq![delta as int, 2 * delta, 3 * delta, 4 * delta, 5 * delta, 6 * delta]);
    buffer
}

/// The ten-step test pattern `0, 0, max, max, 0, max/8, max/8, max/2, max/2, 0`.
pub fn step_pattern(max: u32) -> (buffer: [u32; 10])
    ensures
        buffer@ == seq![0u32, 0, max, max, 0, max / 8, max / 8, max / 2, max / 2, 0],
{
    let buffer = [0, 0, max, max, 0, max / 8, max / 8, max / 2, max / 2, 0];
    assert(buffer@ =~= seq![0u32, 0, max, max, 0, max / 8, max / 8, max / 2, max / 2, 0]);
    buffer
}

/// One red pixel for a PWM of full scale `max`: eight short pulses (45/125),
/// eight long ones (80/125), eight short ones.
pub fn red_pixel_pattern(max: u32) -> (buffer: [u32; 24])
    requires
        max * 80 <= u32::MAX,
    ensures
        forall|k: int|
            0 <= k < 24 ==> #[trigger] buffer@[k] == if 8 <= k < 16 {
                max * 80 / 125
            } else {
                max * 45 / 125
            },
{
    let one_duty = max * 80 / 125;
    let zero_duty = max * 45 / 125;
    let mut buffer = [zero_duty; 24];
    for k in 8..16
        invariant
            one_duty == max * 80 / 125,
            zero_duty == max * 45 / 125,
            forall|j: int|
                0 <= j < 24 ==> #[trigger] buffer@[j] == if 8 <= j < k {
                    one_duty
                } else {
                    zero_duty
                },
    {
        buffer[k] = one_duty;
    }
    buffer
}

/// The byte-wide white-pixel pattern: 24 long pulses of `(max * 16 / 25)`
/// truncated to a byte, then a 0.
pub fn white_pixel_bytes(max: u32) -> (buffer: [u8; 25])
    requires
        max * 16 <= u32::MAX,
    ensures
        forall|k: int|
            0 <= k < 24 ==> #[trigger] buffer@[k] == ((max * 16 / 25) % 256) as u8,
        buffer@[24] == 0,
{
    let wide = max * 16 / 25;
    let one_duty = (wide % 256) as u8;
    let mut buffer = [one_duty; 25];
    buffer[24] = 0;
    buffer
}

} // verus!
