//! Colour fading for the common-anode RGB LED: every channel eases toward a
//! randomly drawn target level, and a fresh target is drawn once all three
//! channels have arrived.

use vstd::prelude::*;

verus! {

/// Duty counts a channel moves per tick (out of 0..=1023).
pub const FADE_STEP: i32 = 4;

/// Largest level of a 10-bit LEDC channel.
pub const LEVEL_MAX: i32 = 1023;

/// Number of distinct levels a random draw is reduced to (`0..=1023`).
pub const LEVEL_COUNT: u32 = 1024;

/// Ticks after which any fade between two levels in `0..=1023` has arrived:
/// `256 * FADE_STEP >= 1023`.
pub const ARRIVAL_TICKS: u32 = 256;

/// Where `step_toward(current, target, step)` lands: `step` closer to `target`,
/// or exactly on `target` once it is at most `step` away.
pub open spec fn spec_step_toward(current: int, target: int, step: int) -> int {
    if current < target {
        if current + step < target { current + step } else { target }
    } else {
        if current - step > target { current - step } else { target }
    }
}

/// Distance between two levels.
pub open spec fn distance(a: int, b: int) -> int {
    if a < b { b - a } else { a - b }
}

/// Move `current` toward `target` by at most `step` duty-counts.
/// Returns `target` once the remaining distance is within one step.
pub fn step_toward(current: i32, target: i32, step: i32) -> (r: i32)
    requires
        i32::MIN <= spec_step_toward(current as int, target as int, step as int) <= i32::MAX,
    ensures
        r == spec_step_toward(current as int, target as int, step as int),
        // Moving up: `step` closer, or onto the target once it is within reach.
        current < target ==> r == (if target - current > step { current + step } else { target as int }),
        // Moving down: the mirror image.
        current >= target ==> r == (if current - target > step { current - step } else { target as int }),
        // With a non-negative step the result lies between `current` and
        // `target`, and the distance left is the old one less `step`, or zero.
        step >= 0 ==> {
            &&& (current <= target ==> current <= r <= target)
            &&& (target <= current ==> target <= r <= current)
            &&& (if r <= target { target - r } else { r - target }) == (if (if current <= target {
                target - current
            } else {
                current - target
            }) <= step {
                0
            } else {
                (if current <= target { target - current } else { current - target }) - step
            })
        },
{
    let c: i64 = current as i64;
    let t: i64 = target as i64;
    let s: i64 = step as i64;
    if c < t {
        let next: i64 = c + s;
        if next < t {
            next as i32
        } else {
            target
        }
    } else {
        let next: i64 = c - s;
        if next > t {
            next as i32
        } else {
            target
        }
    }
}

/// With a non-negative step, `step_toward` never leaves the closed interval
/// between `current` and `target`, and it cuts the remaining distance by exactly
/// `step`, or to zero once that distance is at most `step`.
pub proof fn lemma_step_toward_approaches(current: int, target: int, step: int)
    requires
        step >= 0,
    ensures
        ({
            let r = spec_step_toward(current, target, step);
            &&& (current <= target ==> current <= r <= target)
            &&& (target <= current ==> target <= r <= current)
            &&& distance(r, target) == (if distance(current, target) <= step { 0 } else { distance(current, target) - step })
            &&& distance(current, target) <= step ==> r == target
        }),
{
}

/// A channel level after `n` ticks of easing toward `target`.
pub open spec fn level_after(current: int, target: int, n: nat) -> int
    decreases n,
{
    if n == 0 {
        current
    } else {
        level_after(spec_step_toward(current, target, FADE_STEP as int), target, (n - 1) as nat)
    }
}

/// A fade reaches its target once `n` steps cover the distance, and stays there.
pub proof fn lemma_level_after_arrives(current: int, target: int, n: nat)
    requires
        n * FADE_STEP >= distance(current, target),
    ensures
        level_after(current, target, n) == target,
    decreases n,
{
    if n > 0 {
        let next = spec_step_toward(current, target, FADE_STEP as int);
        lemma_step_toward_approaches(current, target, FADE_STEP as int);
        assert((n - 1) * FADE_STEP >= distance(next, target)) by (nonlinear_arith)
            requires
                n * FADE_STEP >= distance(current, target),
                distance(next, target) == (if distance(current, target) <= FADE_STEP { 0 } else {
                    distance(current, target) - FADE_STEP }),
                n >= 1,
        ;
        lemma_level_after_arrives(next, target, (n - 1) as nat);
    }
}

/// A random draw reduced to a level: `raw % 1024`.
pub fn random_level(raw: u32) -> (r: i32)
    ensures
        r == raw % 1024,
        0 <= r <= LEVEL_MAX,
{
    (raw % LEVEL_COUNT) as i32
}

/// Duty for a common-anode LED: the channel is lit when the pin is low, so the
/// level is inverted (`1023 - level`).
pub fn inverted_duty(level: i32) -> (r: u32)
    requires
        0 <= level <= LEVEL_MAX,
    ensures
        r == LEVEL_MAX - level,
        r <= LEVEL_MAX,
{
    (LEVEL_MAX - level) as u32
}

/// The three channels of the RGB LED with the levels they are easing toward.
pub struct RgbFade {
    pub red: i32,
    pub green: i32,
    pub blue: i32,
    pub target_red: i32,
    pub target_green: i32,
    pub target_blue: i32,
}

/// What one tick hands to the hardware: the three inverted duties, and whether
/// every channel has reached its target (so that a new target must be drawn).
pub struct FadeFrame {
    pub red_duty: u32,
    pub green_duty: u32,
    pub blue_duty: u32,
    pub arrived: bool,
}

/// Whether a level lies in `0..=1023`.
pub open spec fn is_level(x: int) -> bool {
    0 <= x <= LEVEL_MAX
}

impl RgbFade {
    /// Every level and every target is a valid 10-bit level.
    pub open spec fn wf(&self) -> bool {
        &&& is_level(self.red as int)
        &&& is_level(self.green as int)
        &&& is_level(self.blue as int)
        &&& is_level(self.target_red as int)
        &&& is_level(self.target_green as int)
        &&& is_level(self.target_blue as int)
    }

    /// All three channels sit on their targets.
    pub open spec fn arrived(&self) -> bool {
        &&& self.red == self.target_red
        &&& self.green == self.target_green
        &&& self.blue == self.target_blue
    }

    /// The state after one tick: every channel moved `FADE_STEP` toward its target.
    pub open spec fn ticked(self) -> RgbFade {
        RgbFade {
            red: spec_step_toward(self.red as int, self.target_red as int, FADE_STEP as int) as i32,
            green: spec_step_toward(self.green as int, self.target_green as int, FADE_STEP as int) as i32,
            blue: spec_step_toward(self.blue as int, self.target_blue as int, FADE_STEP as int) as i32,
            target_red: self.target_red,
            target_green: self.target_green,
            target_blue: self.target_blue,
        }
    }

    /// The state after `n` ticks without a new target.
    pub open spec fn ticked_n(self, n: nat) -> RgbFade
        decreases n,
    {
        if n == 0 {
            self
        } else {
            self.ticked().ticked_n((n - 1) as nat)
        }
    }

    /// Starts a fade from one random colour toward another; each raw draw is
    /// reduced with `% 1024`.
    pub fn new(start: (u32, u32, u32), target: (u32, u32, u32)) -> (s: RgbFade)
        ensures
            s.wf(),
            s.red == start.0 % 1024,
            s.green == start.1 % 1024,
            s.blue == start.2 % 1024,
            s.target_red == target.0 % 1024,
            s.target_green == target.1 % 1024,
            s.target_blue == target.2 % 1024,
    {
        RgbFade {
            red: random_level(start.0),
            green: random_level(start.1),
            blue: random_level(start.2),
            target_red: random_level(target.0),
            target_green: random_level(target.1),
            target_blue: random_level(target.2),
        }
    }

    /// Eases every channel one step toward its target and reports the duties to
    /// write and whether the colour has arrived.
    pub fn tick(&mut self) -> (frame: FadeFrame)
        requires
            old(self).wf(),
        ensures
            *final(self) == old(self).ticked(),
            final(self).wf(),
            final(self).target_red == old(self).target_red,
            final(self).target_green == old(self).target_green,
            final(self).target_blue == old(self).target_blue,
            // Each channel moves `FADE_STEP` toward its target, or onto it once
            // it is within one step.
            final(self).red == (if old(self).red < old(self).target_red {
                if old(self).target_red - old(self).red > 4 { old(self).red + 4 } else { old(self).target_red as int }
            } else {
                if old(self).red - old(self).target_red > 4 { old(self).red - 4 } else { old(self).target_red as int }
            }),
            final(self).green == (if old(self).green < old(self).target_green {
                if old(self).target_green - old(self).green > 4 { old(self).green + 4 } else { old(self).target_green as int }
            } else {
                if old(self).green - old(self).target_green > 4 { old(self).green - 4 } else { old(self).target_green as int }
            }),
            final(self).blue == (if old(self).blue < old(self).target_blue {
                if old(self).target_blue - old(self).blue > 4 { old(self).blue + 4 } else { old(self).target_blue as int }
            } else {
                if old(self).blue - old(self).target_blue > 4 { old(self).blue - 4 } else { old(self).target_blue as int }
            }),
            frame.red_duty == 1023 - final(self).red,
            frame.green_duty == 1023 - final(self).green,
            frame.blue_duty == 1023 - final(self).blue,
            frame.arrived == (final(self).red == final(self).target_red && final(self).green
                == final(self).target_green && final(self).blue == final(self).target_blue),
            frame.red_duty == LEVEL_MAX - final(self).red,
            frame.green_duty == LEVEL_MAX - final(self).green,
            frame.blue_duty == LEVEL_MAX - final(self).blue,
            frame.arrived == final(self).arrived(),
    {
        proof {
            lemma_step_toward_approaches(self.red as int, self.target_red as int, FADE_STEP as int);
            lemma_step_toward_approaches(self.green as int, self.target_green as int, FADE_STEP as int);
            lemma_step_toward_approaches(self.blue as int, self.target_blue as int, FADE_STEP as int);
        }
        self.red = step_toward(self.red, self.target_red, FADE_STEP);
        self.green = step_toward(self.green, self.target_green, FADE_STEP);
        self.blue = step_toward(self.blue, self.target_blue, FADE_STEP);
        FadeFrame {
            red_duty: inverted_duty(self.red),
            green_duty: inverted_duty(self.green),
            blue_duty: inverted_duty(self.blue),
            arrived: self.red == self.target_red && self.green == self.target_green && self.blue
                == self.target_blue,
        }
    }

    /// Replaces the targets with three fresh random draws, each reduced with
    /// `% 1024`; the current levels stay where they are.
    pub fn retarget(&mut self, target: (u32, u32, u32))
        requires
            old(self).wf(),
        ensures
            final(self).wf(),
            final(self).red == old(self).red,
            final(self).green == old(self).green,
            final(self).blue == old(self).blue,
            final(self).target_red == target.0 % 1024,
            final(self).target_green == target.1 % 1024,
            final(self).target_blue == target.2 % 1024,
    {
        self.target_red = random_level(target.0);
        self.target_green = random_level(target.1);
        self.target_blue = random_level(target.2);
    }
}

/// `n` ticks move each channel as `level_after` says and leave the targets alone.
pub proof fn lemma_ticked_n_channels(s: RgbFade, n: nat)
    requires
        s.wf(),
    ensures
        s.ticked_n(n).wf(),
        s.ticked_n(n).red == level_after(s.red as int, s.target_red as int, n),
        s.ticked_n(n).green == level_after(s.green as int, s.target_green as int, n),
        s.ticked_n(n).blue == level_after(s.blue as int, s.target_blue as int, n),
        s.ticked_n(n).target_red == s.target_red,
        s.ticked_n(n).target_green == s.target_green,
        s.ticked_n(n).target_blue == s.target_blue,
    decreases n,
{
    if n > 0 {
        lemma_step_toward_approaches(s.red as int, s.target_red as int, FADE_STEP as int);
        lemma_step_toward_approaches(s.green as int, s.target_green as int, FADE_STEP as int);
        lemma_step_toward_approaches(s.blue as int, s.target_blue as int, FADE_STEP as int);
        lemma_ticked_n_channels(s.ticked(), (n - 1) as nat);
    }
}

/// Every fade arrives: from any valid state, `ARRIVAL_TICKS` ticks without a
/// new target bring all three channels onto their targets, and a fade that has
/// arrived stays put.
pub proof fn lemma_fade_arrives(s: RgbFade)
    requires
        s.wf(),
    ensures
        s.ticked_n(ARRIVAL_TICKS as nat).arrived(),
        s.arrived() ==> s.ticked() == s,
{
    lemma_ticked_n_channels(s, ARRIVAL_TICKS as nat);
    lemma_level_after_arrives(s.red as int, s.target_red as int, ARRIVAL_TICKS as nat);
    lemma_level_after_arrives(s.green as int, s.target_green as int, ARRIVAL_TICKS as nat);
    lemma_level_after_arrives(s.blue as int, s.target_blue as int, ARRIVAL_TICKS as nat);
}

} // verus!
