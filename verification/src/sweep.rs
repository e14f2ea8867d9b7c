//! The LED-bar chase: light each LED in turn from the first to the last, then
//! from the last back to the first.

use vstd::prelude::*;

verus! {

/// LEDs on the bar.
pub const LED_BAR_LEN: usize = 10;

/// The LED lit at position `k` of one sweep over `n` LEDs: forward for the
/// first `n` positions, then backward.
pub open spec fn sweep_index(n: int, k: int) -> int {
    if k < n { k } else { 2 * n - 1 - k }
}

/// The order in which one sweep lights the `n` LEDs: `0, 1, .., n-1` followed by
/// `n-1, .., 1, 0`.
pub fn sweep_order(n: usize) -> (order: Vec<usize>)
    requires
        n <= usize::MAX / 2,
    ensures
        order.len() == 2 * n,
        forall|k: int| 0 <= k < 2 * n ==> #[trigger] order[k] == sweep_index(n as int, k),
        // Out along the bar, then back: position `k` and position `2n - 1 - k`
        // light the same LED, which is `k` on the way out.
        forall|k: int| 0 <= k < n ==> #[trigger] order[k] == k,
        forall|k: int| 0 <= k < n ==> #[trigger] order[2 * n - 1 - k] == k,
{
    let mut order: Vec<usize> = Vec::new();
    let mut i: usize = 0;
    while i < n
        invariant
            i <= n,
            order.len() == i,
            forall|k: int| 0 <= k < i ==> #[trigger] order[k] == sweep_index(n as int, k),
        decreases n - i,
    {
        order.push(i);
        i = i + 1;
    }
    let mut j: usize = 0;
    while j < n
        invariant
            j <= n,
            n <= usize::MAX / 2,
            order.len() == n + j,
            forall|k: int| 0 <= k < n + j ==> #[trigger] order[k] == sweep_index(n as int, k),
        decreases n - j,
    {
        order.push(n - 1 - j);
        j = j + 1;
    }
    order
}

/// A sweep is a palindrome that lights only LEDs of the bar, and lights each
/// LED exactly twice: once on the way out and once on the way back.
/// (`k` is a position of the sweep, `led` an LED of the bar.)
pub proof fn lemma_sweep_shape(n: int, k: int, led: int)
    requires
        0 <= k < 2 * n,
        0 <= led < n,
    ensures
        0 <= sweep_index(n, k) < n,
        sweep_index(n, k) == sweep_index(n, 2 * n - 1 - k),
        sweep_index(n, k) == led <==> (k == led || k == 2 * n - 1 - led),
{
}

} // verus!
