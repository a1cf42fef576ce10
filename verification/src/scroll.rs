//! Selection and scrolling in lists.

use vstd::prelude::*;

verus! {

/// The first index that a list of `len` items shows when it has room for `room` of them and keeps
/// the selected one near the middle.
pub open spec fn window_start(selected: int, len: int, room: int) -> int {
    let centered = selected - room / 2;
    let start = if centered < len - room {
        centered
    } else {
        len - room
    };
    if start > 0 {
        start
    } else {
        0
    }
}

/// The end of what such a list shows.
pub open spec fn window_end(selected: int, len: int, room: int) -> int {
    let end = window_start(selected, len, room) + room;
    if end < len {
        end
    } else {
        len
    }
}

/// The range of indices that a list shows.
pub fn visible_range(selected: usize, len: usize, room: usize) -> (r: (usize, usize))
    ensures
        r.0 == window_start(selected as int, len as int, room as int),
        r.1 == window_end(selected as int, len as int, room as int),
        r.1 <= len,
{
    let half: usize = room / 2;
    let start: usize = if len <= room || selected <= half {
        0
    } else if selected - half < len - room {
        selected - half
    } else {
        len - room
    };
    let end: usize = if start >= len {
        len
    } else if len - start <= room {
        len
    } else {
        start + room
    };
    (start, end)
}

/// The window shows as many items as fit, and the selected one is among them.
pub proof fn window_shows_selection(selected: int, len: int, room: int)
    requires
        0 <= selected < len,
        0 < room,
    ensures
        window_start(selected, len, room) <= selected < window_end(selected, len, room),
        window_end(selected, len, room) - window_start(selected, len, room) == if len < room {
            len
        } else {
            room
        },
{
}

/// Whether the index is a valid selection in a list of `len` items.
pub open spec fn valid_selection(selected: int, len: int) -> bool {
    0 <= selected < len || (selected == 0 && len == 0)
}

/// The selection nearest to `selected` in a list of `len` items.
pub open spec fn clamped(selected: int, len: int) -> int {
    if selected < len {
        selected
    } else if len > 0 {
        len - 1
    } else {
        0
    }
}

/// The selection nearest to `selected` in a list of `len` items.
pub fn clamp_selection(selected: usize, len: usize) -> (r: usize)
    ensures
        r == clamped(selected as int, len as int),
        valid_selection(r as int, len as int),
{
    if selected < len {
        selected
    } else if len > 0 {
        len - 1
    } else {
        0
    }
}

/// The selection `step` items up, stopping at the first.
pub open spec fn moved_up(selected: int, step: int) -> int {
    if selected < step {
        0
    } else {
        selected - step
    }
}

/// The selection `step` items down, stopping at the last.
pub open spec fn moved_down(selected: int, len: int, step: int) -> int {
    clamped(selected + step, len)
}

/// The selection `step` items up, stopping at the first.
pub fn move_up(selected: usize, step: usize) -> (r: usize)
    ensures
        r == moved_up(selected as int, step as int),
{
    if selected < step {
        0
    } else {
        selected - step
    }
}

/// The selection `step` items down, stopping at the last.
pub fn move_down(selected: usize, len: usize, step: usize) -> (r: usize)
    ensures
        r == moved_down(selected as int, len as int, step as int),
        valid_selection(r as int, len as int),
{
    if selected < len && step < len - selected {
        selected + step
    } else if len > 0 {
        len - 1
    } else {
        0
    }
}

/// The selection one item up, from the first to the last.
pub open spec fn wrapped_up(selected: int, len: int) -> int {
    if selected == 0 {
        if len > 0 {
            len - 1
        } else {
            0
        }
    } else {
        selected - 1
    }
}

/// The selection one item down, from the last to the first.
pub open spec fn wrapped_down(selected: int, len: int) -> int {
    if selected + 1 < len {
        selected + 1
    } else {
        0
    }
}

/// The selection one item up, from the first to the last.
pub fn wrap_up(selected: usize, len: usize) -> (r: usize)
    ensures
        r == wrapped_up(selected as int, len as int),
        valid_selection(selected as int, len as int) ==> valid_selection(r as int, len as int),
{
    if selected == 0 {
        if len > 0 {
            len - 1
        } else {
            0
        }
    } else {
        selected - 1
    }
}

/// The selection one item down, from the last to the first.
pub fn wrap_down(selected: usize, len: usize) -> (r: usize)
    ensures
        r == wrapped_down(selected as int, len as int),
        valid_selection(selected as int, len as int) ==> valid_selection(r as int, len as int),
{
    if selected < len && len - selected > 1 {
        selected + 1
    } else {
        0
    }
}

/// With wrapping, a step up undoes a step down and a step down undoes a step up.
pub proof fn wrapping_steps_undo_each_other(selected: int, len: int)
    requires
        valid_selection(selected, len),
    ensures
        wrapped_up(wrapped_down(selected, len), len) == selected,
        wrapped_down(wrapped_up(selected, len), len) == selected,
{
}

/// Without wrapping, a step down followed by a step up comes back, except at the end of the list.
pub proof fn step_up_undoes_step_down(selected: int, len: int, step: int)
    requires
        0 <= step,
        0 <= selected,
        selected + step < len,
    ensures
        moved_up(moved_down(selected, len, step), step) == selected,
{
}

} // verus!
