//! Verified control logic for the ESP32-S3 starter-kit circuits: colour fades,
//! ADC-to-PWM scaling, WS2812 pulse encoding, the LED-bar chase, the blinker's
//! colour cycle and single-reading sensor decisions.

pub mod fade;
pub mod palette;
pub mod scale;
pub mod sensors;
pub mod sweep;
pub mod ws2812;
