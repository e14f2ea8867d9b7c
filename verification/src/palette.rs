//! The colour cycle of the on-board WS2812 blinker.

use vstd::prelude::*;

verus! {

/// Colours in the cycle.
pub const PALETTE_LEN: usize = 6;

/// The cycle: red, green, blue, yellow, cyan, magenta.
pub open spec fn palette(idx: int) -> (u8, u8, u8) {
    if idx == 0 {
        (255, 0, 0)
    } else if idx == 1 {
        (0, 255, 0)
    } else if idx == 2 {
        (0, 0, 255)
    } else if idx == 3 {
        (255, 255, 0)
    } else if idx == 4 {
        (0, 255, 255)
    } else {
        (255, 0, 255)
    }
}

/// The colour at position `idx` of the cycle.
pub fn palette_color(idx: usize) -> (c: (u8, u8, u8))
    requires
        idx < PALETTE_LEN,
    ensures
        c == palette(idx as int),
        idx == 0 ==> c == (255u8, 0u8, 0u8),
        idx == 1 ==> c == (0u8, 255u8, 0u8),
        idx == 2 ==> c == (0u8, 0u8, 255u8),
        idx == 3 ==> c == (255u8, 255u8, 0u8),
        idx == 4 ==> c == (0u8, 255u8, 255u8),
        idx == 5 ==> c == (255u8, 0u8, 255u8),
{
    match idx {
        0 => (255, 0, 0),
        1 => (0, 255, 0),
        2 => (0, 0, 255),
        3 => (255, 255, 0),
        4 => (0, 255, 255),
        _ => (255, 0, 255),
    }
}

/// The position that follows `idx`, wrapping after the last colour.
pub fn next_color_index(idx: usize) -> (next: usize)
    requires
        idx < usize::MAX,
    ensures
        next == (idx + 1) % (PALETTE_LEN as int),
        next < PALETTE_LEN,
{
    (idx + 1) % PALETTE_LEN
}

/// The position after `n` advances from `idx`.
pub open spec fn index_after(idx: int, n: nat) -> int
    decreases n,
{
    if n == 0 {
        idx
    } else {
        (index_after(idx, (n - 1) as nat) + 1) % (PALETTE_LEN as int)
    }
}

/// Advancing `n` times from a position of the cycle lands on `(idx + n) % 6`,
/// so the blinker shows every colour in turn and repeats after six steps.
pub proof fn lemma_cycle_period(idx: int, n: nat)
    requires
        0 <= idx < PALETTE_LEN,
    ensures
        index_after(idx, n) == (idx + n) % (PALETTE_LEN as int),
        index_after(idx, PALETTE_LEN as nat) == idx,
    decreases n,
{
    if n > 0 {
        lemma_cycle_period(idx, (n - 1) as nat);
    }
    assert(index_after(idx, 6) == idx) by {
        reveal_with_fuel(index_after, 7);
    }
}

} // verus!
