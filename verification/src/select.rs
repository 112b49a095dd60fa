//! Selection manager: keeps the cursor index inside the currently
//! displayed row list.

use vstd::prelude::*;

verus! {

/// Where the cursor lands after moving `delta` rows from `current` in a
/// list of `len` rows: `None` on an empty list, otherwise the moved
/// index clamped into `[0, len - 1]`.
pub open spec fn clamp_spec(current: Option<usize>, delta: int, len: usize) -> Option<usize> {
    if len == 0 {
        None
    } else {
        let base = (match current {
            Some(i) => i as int,
            None => 0int,
        }) + delta;
        if base < 0 {
            Some(0usize)
        } else if base > len - 1 {
            Some((len - 1) as usize)
        } else {
            Some(base as usize)
        }
    }
}

/// Moves the selection cursor by `delta` and clamps it against the
/// displayed list length. Total: returns `None` exactly on an empty
/// list, and otherwise an in-range index.
pub fn clamp_selection(current: Option<usize>, delta: i64, list_len: usize) -> (r: Option<usize>)
    ensures
        r == clamp_spec(current, delta as int, list_len),
        r is None <==> list_len == 0,
        r is Some ==> r.unwrap() < list_len,
{
    if list_len == 0 {
        return None;
    }
    let cur: usize = match current {
        Some(i) => i,
        None => 0,
    };
    let base: i128 = cur as i128 + delta as i128;
    let max: i128 = (list_len - 1) as i128;
    let clamped: i128 = if base < 0 {
        0
    } else if base > max {
        max
    } else {
        base
    };
    Some(clamped as usize)
}

} // verus!
