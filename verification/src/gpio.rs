//! Status codes of the LED helpers of the Python extension module: the
//! helpers report 0 when the LED task was started, 1 when the GPIO
//! controller cannot be opened and 2 when the pin cannot be taken.

use vstd::prelude::*;

verus! {

/// GPIO pin of the onboard LED.
pub const GPIO_ONBOARD_LED: u8 = 23;

/// Status code after opening the GPIO controller and, if that worked,
/// taking the pin.
pub fn led_status(gpio_opened: bool, pin_taken: bool) -> (code: u8)
    ensures
        code == (if !gpio_opened {
            1u8
        } else if !pin_taken {
            2u8
        } else {
            0u8
        }),
{
    if !gpio_opened {
        1
    } else if !pin_taken {
        2
    } else {
        0
    }
}

} // verus!
