use vstd::prelude::*;

verus! {

/// The cursor index after a `next` command over `n` positions: one step
/// forward, saturating at the last position, a no-op when there are none.
pub open spec fn sp_next(i: nat, n: nat) -> nat {
    if n == 0 {
        0
    } else if i + 1 < n {
        i + 1
    } else {
        (n - 1) as nat
    }
}

/// The cursor index after a `prev` command: one step back, saturating at the
/// first position.
pub open spec fn sp_prev(i: nat) -> nat {
    if i == 0 {
        0
    } else {
        (i - 1) as nat
    }
}

/// The cursor stays clamped, saturates at both ends instead of wrapping, and
/// `next` then `prev` — or `prev` then `next` — from an interior index comes
/// back to it.
pub proof fn lemma_cursor_laws(i: nat, n: nat)
    requires
        0 < n,
        i < n,
    ensures
        sp_next(i, n) < n,
        sp_prev(i) < n,
        i + 1 < n ==> sp_prev(sp_next(i, n)) == i,
        0 < i ==> sp_next(sp_prev(i), n) == i,
        sp_next((n - 1) as nat, n) == (n - 1) as nat,
        sp_prev(0) == 0,
{
}

/// The vertical scroll offset that keeps the cursor's row visible in a
/// viewport of `viewport` rows over `total` rendered rows: zero while the
/// cursor fits, else the offset that makes its row the last visible one,
/// clamped so the viewport never scrolls past the content.
pub open spec fn sp_scroll(cursor_row: nat, viewport: nat, total: nat) -> nat {
    if cursor_row < viewport {
        0
    } else {
        let desired = (cursor_row + 1 - viewport) as nat;
        let max_off = if total > viewport {
            (total - viewport) as nat
        } else {
            0
        };
        if desired <= max_off {
            desired
        } else {
            max_off
        }
    }
}

/// Compute the scroll offset; a pure function of its three arguments.
pub fn scroll_offset(cursor_row: usize, viewport: usize, total: usize) -> (r: usize)
    ensures
        r as nat == sp_scroll(cursor_row as nat, viewport as nat, total as nat),
{
    if cursor_row < viewport {
        0
    } else {
        let max_off = if total > viewport {
            total - viewport
        } else {
            0
        };
        if cursor_row - viewport >= max_off {
            max_off
        } else {
            cursor_row - viewport + 1
        }
    }
}

} // verus!
