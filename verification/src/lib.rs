//! Verified core of a Raspberry Pi / STM32 hardware-control project: the
//! LED-matrix frame encoding, the serial frame receiver of the firmware, and
//! the decisions of the web front end that drives a Python script controller.

pub mod led_matrix;
pub mod frame_receiver;
pub mod text;
pub mod protocol;
pub mod controller;
pub mod pages;
pub mod gpio;
pub mod test_patterns;
