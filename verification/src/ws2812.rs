//! Encoding of one WS2812 colour into the RMT pulse train that drives it:
//! 24 data bits, green then red then blue, most significant bit first, each bit
//! a high pulse followed by a low pulse, and a closing end marker.

use vstd::prelude::*;

verus! {

/// High time of a 0 bit, in 12.5 ns RMT ticks (0.40 us).
pub const T0H: u16 = 32;

/// Low time of a 0 bit, in ticks (0.85 us).
pub const T0L: u16 = 68;

/// High time of a 1 bit, in ticks (0.80 us).
pub const T1H: u16 = 64;

/// Low time of a 1 bit, in ticks (0.45 us).
pub const T1L: u16 = 36;

/// Data bits per colour.
pub const DATA_BITS: usize = 24;

/// Pulses per colour: the data bits plus the end marker.
pub const PULSE_COUNT: usize = 25;

/// Ticks every data bit lasts in total (1.25 us).
pub const BIT_PERIOD: u16 = 100;

/// One RMT pulse code: the signal sent first (`level1` for `length1` ticks),
/// then the second (`level2` for `length2` ticks). A zero length ends the
/// transmission. `true` stands for a high level.
#[derive(Clone, Copy, PartialEq, Eq, Structural, Debug)]
pub struct Pulse {
    pub level1: bool,
    pub length1: u16,
    pub level2: bool,
    pub length2: u16,
}

/// The all-zero pulse code that ends a transmission.
pub open spec fn end_marker() -> Pulse {
    Pulse { level1: false, length1: 0, level2: false, length2: 0 }
}

/// The pulse that sends one data bit: high, then low, with the WS2812 timing.
pub open spec fn bit_pulse(bit: bool) -> Pulse {
    if bit {
        Pulse { level1: true, length1: T1H, level2: false, length2: T1L }
    } else {
        Pulse { level1: true, length1: T0H, level2: false, length2: T0L }
    }
}

/// Bit `k` (0 = least significant) of a byte.
pub open spec fn byte_bit(x: u8, k: u8) -> bool {
    (x >> k) & 1u8 == 1u8
}

/// The `i`-th bit on the wire for colour `(r, g, b)`: the WS2812 reads green,
/// then red, then blue, each most significant bit first.
pub open spec fn wire_bit(r: u8, g: u8, b: u8, i: int) -> bool {
    if i < 8 {
        byte_bit(g, (7 - i) as u8)
    } else if i < 16 {
        byte_bit(r, (15 - i) as u8)
    } else {
        byte_bit(b, (23 - i) as u8)
    }
}

impl Pulse {
    /// The end-marker pulse code.
    pub fn end_marker() -> (p: Pulse)
        ensures
            p == end_marker(),
            p == (Pulse { level1: false, length1: 0, level2: false, length2: 0 }),
    {
        Pulse { level1: false, length1: 0, level2: false, length2: 0 }
    }

    /// The pulse code that sends `bit`.
    pub fn for_bit(bit: bool) -> (p: Pulse)
        ensures
            p == bit_pulse(bit),
            p.level1 && !p.level2,
            p.length1 == (if bit { 64u16 } else { 32u16 }),
            p.length2 == (if bit { 36u16 } else { 68u16 }),
    {
        if bit {
            Pulse { level1: true, length1: T1H, level2: false, length2: T1L }
        } else {
            Pulse { level1: true, length1: T0H, level2: false, length2: T0L }
        }
    }
}

/// The 24-bit word sent for a colour, in green-red-blue byte order.
pub fn grb_word(r: u8, g: u8, b: u8) -> (w: u32)
    ensures
        w == g * 65536 + r * 256 + b,
        w == ((g as u32) << 16) | ((r as u32) << 8) | (b as u32),
{
    let w: u32 = ((g as u32) << 16) | ((r as u32) << 8) | (b as u32);
    assert(((g as u32) << 16) | ((r as u32) << 8) | (b as u32) == (g as u32) * 65536 + (r as u32) * 256
        + (b as u32)) by (bit_vector);
    w
}

/// Bit `23 - i` of the green-red-blue word is the `i`-th bit on the wire.
proof fn lemma_word_bit(r: u8, g: u8, b: u8, i: u32)
    requires
        i < 24,
    ensures
        ((((g as u32) << 16) | ((r as u32) << 8) | (b as u32)) >> ((23 - i) as u32)) & 1 == 1 <==> wire_bit(
            r,
            g,
            b,
            i as int,
        ),
{
    if i < 8 {
        assert(((((g as u32) << 16) | ((r as u32) << 8) | (b as u32)) >> ((23 - i) as u32)) & 1 == 1 <==> (g
            >> ((7 - i) as u8)) & 1u8 == 1u8) by (bit_vector)
            requires
                i < 8,
        ;
    } else if i < 16 {
        assert(((((g as u32) << 16) | ((r as u32) << 8) | (b as u32)) >> ((23 - i) as u32)) & 1 == 1 <==> (r
            >> ((15 - i) as u8)) & 1u8 == 1u8) by (bit_vector)
            requires
                8 <= i < 16,
        ;
    } else {
        assert(((((g as u32) << 16) | ((r as u32) << 8) | (b as u32)) >> ((23 - i) as u32)) & 1 == 1 <==> (b
            >> ((23 - i) as u8)) & 1u8 == 1u8) by (bit_vector)
            requires
                16 <= i < 24,
        ;
    }
}

/// Encodes one colour as the 25 RMT pulse codes that drive a WS2812: for each
/// of the 24 bits of the green-red-blue word, most significant first, a 1-bit
/// or 0-bit pulse, then the end marker.
pub fn encode_rgb(r: u8, g: u8, b: u8) -> (pulses: [Pulse; 25])
    ensures
        forall|i: int| 0 <= i < 24 ==> #[trigger] pulses[i] == bit_pulse(wire_bit(r, g, b, i)),
        pulses[24] == end_marker(),
        // Pulse `i` carries bit `23 - i` of the word `g << 16 | r << 8 | b`: high
        // for 64 ticks then low for 36 for a 1, high 32 then low 68 for a 0.
        forall|i: int|
            0 <= i < 24 ==> {
                let one = ((((g as u32) << 16) | ((r as u32) << 8) | (b as u32)) >> ((23 - i) as u32))
                    & 1 == 1;
                &&& (#[trigger] pulses[i]).level1
                &&& !pulses[i].level2
                &&& pulses[i].length1 == (if one { 64u16 } else { 32u16 })
                &&& pulses[i].length2 == (if one { 36u16 } else { 68u16 })
            },
        pulses[24] == (Pulse { level1: false, length1: 0, level2: false, length2: 0 }),
{
    let mut pulses = [Pulse::end_marker();25];
    let data: u32 = grb_word(r, g, b);
    let mut i: u32 = 0;
    while i < 24
        invariant
            i <= 24,
            data == ((g as u32) << 16) | ((r as u32) << 8) | (b as u32),
            forall|j: int| 0 <= j < i ==> #[trigger] pulses[j] == bit_pulse(wire_bit(r, g, b, j)),
            forall|j: int|
                0 <= j < i ==> {
                    let one = ((((g as u32) << 16) | ((r as u32) << 8) | (b as u32)) >> ((23 - j) as u32))
                        & 1 == 1;
                    &&& (#[trigger] pulses[j]).level1
                    &&& !pulses[j].level2
                    &&& pulses[j].length1 == (if one { 64u16 } else { 32u16 })
                    &&& pulses[j].length2 == (if one { 36u16 } else { 68u16 })
                },
            forall|j: int| i <= j < 25 ==> #[trigger] pulses[j] == end_marker(),
        decreases 24 - i,
    {
        let bit = (data >> (23 - i)) & 1;
        proof {
            lemma_word_bit(r, g, b, i);
        }
        pulses[i as usize] = Pulse::for_bit(bit == 1);
        i = i + 1;
    }
    pulses
}

/// Every data pulse goes high, then low, and lasts one bit period in total;
/// a 1 bit stays high longer than a 0 bit.
pub proof fn lemma_bit_pulse_timing(bit: bool)
    ensures
        bit_pulse(bit).level1 && !bit_pulse(bit).level2,
        bit_pulse(bit).length1 + bit_pulse(bit).length2 == BIT_PERIOD,
        bit_pulse(bit).length1 > 0 && bit_pulse(bit).length2 > 0,
        bit_pulse(true).length1 > bit_pulse(false).length1,
{
}

/// A byte is determined by its eight bits.
proof fn lemma_byte_bits_determine(x: u8, y: u8)
    requires
        forall|k: u8| k < 8 ==> #[trigger] byte_bit(x, k) == byte_bit(y, k),
    ensures
        x == y,
{
    assert(byte_bit(x, 0) == byte_bit(y, 0));
    assert(byte_bit(x, 1) == byte_bit(y, 1));
    assert(byte_bit(x, 2) == byte_bit(y, 2));
    assert(byte_bit(x, 3) == byte_bit(y, 3));
    assert(byte_bit(x, 4) == byte_bit(y, 4));
    assert(byte_bit(x, 5) == byte_bit(y, 5));
    assert(byte_bit(x, 6) == byte_bit(y, 6));
    assert(byte_bit(x, 7) == byte_bit(y, 7));
    assert(x == y) by (bit_vector)
        requires
            ((x >> 0u8) & 1u8 == 1u8) == ((y >> 0u8) & 1u8 == 1u8),
            ((x >> 1u8) & 1u8 == 1u8) == ((y >> 1u8) & 1u8 == 1u8),
            ((x >> 2u8) & 1u8 == 1u8) == ((y >> 2u8) & 1u8 == 1u8),
            ((x >> 3u8) & 1u8 == 1u8) == ((y >> 3u8) & 1u8 == 1u8),
            ((x >> 4u8) & 1u8 == 1u8) == ((y >> 4u8) & 1u8 == 1u8),
            ((x >> 5u8) & 1u8 == 1u8) == ((y >> 5u8) & 1u8 == 1u8),
            ((x >> 6u8) & 1u8 == 1u8) == ((y >> 6u8) & 1u8 == 1u8),
            ((x >> 7u8) & 1u8 == 1u8) == ((y >> 7u8) & 1u8 == 1u8),
    ;
}

/// The pulse train determines the colour: two colours whose 24 data pulses
/// agree are the same colour, so the LED receives exactly the colour asked for.
pub proof fn lemma_pulses_determine_color(r1: u8, g1: u8, b1: u8, r2: u8, g2: u8, b2: u8)
    requires
        forall|i: int| 0 <= i < 24 ==> bit_pulse(#[trigger] wire_bit(r1, g1, b1, i)) == bit_pulse(
            wire_bit(r2, g2, b2, i),
        ),
    ensures
        r1 == r2,
        g1 == g2,
        b1 == b2,
{
    assert forall|k: u8| k < 8 implies #[trigger] byte_bit(g1, k) == byte_bit(g2, k) by {
        let i = 7 - k as int;
        assert(bit_pulse(wire_bit(r1, g1, b1, i)) == bit_pulse(wire_bit(r2, g2, b2, i)));
        assert((7 - i) as u8 == k);
    }
    assert forall|k: u8| k < 8 implies #[trigger] byte_bit(r1, k) == byte_bit(r2, k) by {
        let i = 15 - k as int;
        assert(bit_pulse(wire_bit(r1, g1, b1, i)) == bit_pulse(wire_bit(r2, g2, b2, i)));
        assert((15 - i) as u8 == k);
    }
    assert forall|k: u8| k < 8 implies #[trigger] byte_bit(b1, k) == byte_bit(b2, k) by {
        let i = 23 - k as int;
        assert(bit_pulse(wire_bit(r1, g1, b1, i)) == bit_pulse(wire_bit(r2, g2, b2, i)));
        assert((23 - i) as u8 == k);
    }
    lemma_byte_bits_determine(g1, g2);
    lemma_byte_bits_determine(r1, r2);
    lemma_byte_bits_determine(b1, b2);
}

} // verus!
