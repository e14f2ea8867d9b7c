//! Decisions taken on single sensor readings: the joystick's offset from its
//! resting position, the thermistor's rail check and the buzzer button.

use vstd::prelude::*;

verus! {

/// Joystick readings taken at power-up with the stick at rest.
pub struct JoystickCenter {
    pub x: u16,
    pub y: u16,
}

impl JoystickCenter {
    /// Records the resting readings.
    pub fn new(x: u16, y: u16) -> (c: JoystickCenter)
        ensures
            c.x == x,
            c.y == y,
    {
        JoystickCenter { x, y }
    }

    /// Offset of a reading from the resting position, per axis; the stick at
    /// rest reads `(0, 0)`.
    pub fn offset(&self, x_raw: u16, y_raw: u16) -> (o: (i32, i32))
        ensures
            o.0 == x_raw - self.x,
            o.1 == y_raw - self.y,
            x_raw == self.x && y_raw == self.y ==> o == (0i32, 0i32),
    {
        (x_raw as i32 - self.x as i32, y_raw as i32 - self.y as i32)
    }
}

/// Whether a thermistor reading sits on a rail (0 or full scale): the divider
/// is open or saturated and the reading is no temperature.
pub fn is_railed(adc_value: u16) -> (railed: bool)
    ensures
        railed == (adc_value == 0 || adc_value >= 4095),
{
    adc_value == 0 || adc_value >= 4095
}

/// Duty, in percent, that drives the passive buzzer: a 50% square wave while
/// the button (pulled up, active low) is pressed, silence otherwise.
pub fn buzzer_duty_pct(button_low: bool) -> (pct: u8)
    ensures
        pct == (if button_low { 50u8 } else { 0u8 }),
{
    if button_low {
        50
    } else {
        0
    }
}

} // verus!
