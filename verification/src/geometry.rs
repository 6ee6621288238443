//! Where the overlay sits on the screens, in physical pixels.
use vstd::prelude::*;
use crate::config::WindowPos;

verus! {

/// A rectangle in physical pixels.
#[derive(Debug, Clone, Copy, PartialEq, Eq, Structural)]
pub struct Rect {
    pub x: i32,
    pub y: i32,
    pub w: u32,
    pub h: u32,
}

/// `x as i32`.
pub open spec fn as_i32(x: u32) -> int {
    if x <= i32::MAX {
        x as int
    } else {
        x as int - 0x1_0000_0000
    }
}

/// Division by 2 rounded toward zero, as `/ 2` on an `i32`.
pub open spec fn half(a: int) -> int {
    if a >= 0 {
        a / 2
    } else {
        -((-a) / 2)
    }
}

fn to_i32(x: u32) -> (r: i32)
    ensures
        r == as_i32(x),
{
    if x <= i32::MAX as u32 {
        x as i32
    } else {
        ((x - 0x8000_0000u32) as i32) + i32::MIN
    }
}

fn half_i32(a: i32) -> (r: i32)
    ensures
        r == half(a as int),
{
    if a >= 0 {
        a / 2
    } else if a == i32::MIN {
        -1_073_741_824
    } else {
        -((-a) / 2)
    }
}

pub open spec fn fits_i32(v: int) -> bool {
    i32::MIN <= v <= i32::MAX
}

/// The position on one axis that keeps the center when the size goes from `old` to `new`.
pub open spec fn keep_axis(p: i32, old: u32, new: u32) -> int {
    p + half(as_i32(old) - as_i32(new))
}

/// The position that keeps the center of a window of size `old` at `pos` when it is
/// resized to `new`.
pub fn keep_center(pos: (i32, i32), old: (u32, u32), new: (u32, u32)) -> (r: (i32, i32))
    requires
        fits_i32(as_i32(old.0) - as_i32(new.0)),
        fits_i32(as_i32(old.1) - as_i32(new.1)),
        fits_i32(keep_axis(pos.0, old.0, new.0)),
        fits_i32(keep_axis(pos.1, old.1, new.1)),
    ensures
        r.0 == keep_axis(pos.0, old.0, new.0),
        r.1 == keep_axis(pos.1, old.1, new.1),
{
    let dx = half_i32(to_i32(old.0) - to_i32(new.0));
    let dy = half_i32(to_i32(old.1) - to_i32(new.1));
    (pos.0 + dx, pos.1 + dy)
}

/// The center of a window at `pos` with size `size`.
pub open spec fn center(pos: (i32, i32), size: (u32, u32)) -> (int, int) {
    (pos.0 + half(as_i32(size.0)), pos.1 + half(as_i32(size.1)))
}

/// The point lies on the monitor (left and top edges included).
pub open spec fn on_monitor(m: Rect, c: (int, int)) -> bool {
    &&& c.0 >= m.x
    &&& c.0 < m.x + as_i32(m.w)
    &&& c.1 >= m.y
    &&& c.1 < m.y + as_i32(m.h)
}

/// The edges of the monitor that the check reaches fit in an `i32`.
pub open spec fn monitor_fits(m: Rect, c: (int, int)) -> bool {
    &&& c.0 >= m.x ==> fits_i32(m.x + as_i32(m.w))
    &&& (c.0 >= m.x && c.0 < m.x + as_i32(m.w) && c.1 >= m.y) ==> fits_i32(m.y + as_i32(m.h))
}

/// The arithmetic of `center_on_any` stays within `i32`: the center, and the edges of each
/// monitor that is tested before one holds the center.
pub open spec fn center_fits(pos: (i32, i32), size: (u32, u32), monitors: Seq<Rect>) -> bool {
    &&& fits_i32(center(pos, size).0)
    &&& fits_i32(center(pos, size).1)
    &&& forall|i: int|
        0 <= i < monitors.len() && (forall|j: int|
            0 <= j < i ==> !on_monitor(#[trigger] monitors[j], center(pos, size)))
            ==> monitor_fits(#[trigger] monitors[i], center(pos, size))
}

/// The center of the window at `pos` lies on one of the monitors.
pub open spec fn visible_on(pos: (i32, i32), size: (u32, u32), monitors: Seq<Rect>) -> bool {
    exists|i: int| 0 <= i < monitors.len() && on_monitor(#[trigger] monitors[i], center(pos, size))
}

/// The center of the window lies on one of the monitors (else the saved position is
/// abandoned for the default one).
pub fn center_on_any(pos: (i32, i32), size: (u32, u32), monitors: &[Rect]) -> (r: bool)
    requires
        center_fits(pos, size, monitors@),
    ensures
        r == visible_on(pos, size, monitors@),
{
    let cx = pos.0 + half_i32(to_i32(size.0));
    let cy = pos.1 + half_i32(to_i32(size.1));
    let ghost c = center(pos, size);
    let mut i: usize = 0;
    while i < monitors.len()
        invariant
            i <= monitors@.len(),
            cx == c.0,
            cy == c.1,
            c == center(pos, size),
            forall|j: int| 0 <= j < i ==> !on_monitor(#[trigger] monitors@[j], c),
            forall|k: int|
                0 <= k < monitors@.len() && (forall|j: int|
                    0 <= j < k ==> !on_monitor(#[trigger] monitors@[j], c))
                    ==> monitor_fits(#[trigger] monitors@[k], c),
        decreases monitors@.len() - i,
    {
        let m = monitors[i];
        assert(monitor_fits(monitors@[i as int], c));
        if cx >= m.x && cx < m.x + to_i32(m.w) && cy >= m.y && cy < m.y + to_i32(m.h) {
            assert(on_monitor(monitors@[i as int], c));
            return true;
        }
        i = i + 1;
    }
    false
}

/// Where a saved position is kept at start: where the window was left, if its center
/// still lies on a monitor; `None` sends the window to its default place.
pub fn restored_position(saved: Option<WindowPos>, size: (u32, u32), monitors: &[Rect]) -> (r:
    Option<(i32, i32)>)
    requires
        saved matches Some(p) ==> center_fits((p.x, p.y), size, monitors@),
    ensures
        r == match saved {
            Some(p) => if visible_on((p.x, p.y), size, monitors@) {
                Some((p.x, p.y))
            } else {
                None
            },
            None => None,
        },
{
    match saved {
        Some(p) => if center_on_any((p.x, p.y), size, monitors) {
            Some((p.x, p.y))
        } else {
            None
        },
        None => None,
    }
}

/// The default place of the window: centered across the monitor, its bottom edge `margin`
/// pixels above the monitor's bottom edge.
pub open spec fn bottom_center_spec(m: Rect, size: (u32, u32), margin: i32) -> (int, int) {
    (m.x + half(as_i32(m.w) - as_i32(size.0)), m.y + as_i32(m.h) - as_i32(size.1) - margin)
}

/// Each step of `bottom_center` stays within `i32`.
pub open spec fn bottom_center_fits(m: Rect, size: (u32, u32), margin: i32) -> bool {
    &&& fits_i32(as_i32(m.w) - as_i32(size.0))
    &&& fits_i32(bottom_center_spec(m, size, margin).0)
    &&& fits_i32(m.y + as_i32(m.h))
    &&& fits_i32(m.y + as_i32(m.h) - as_i32(size.1))
    &&& fits_i32(bottom_center_spec(m, size, margin).1)
}

/// The default position of a window of `size` on monitor `m`, with the bottom margin in
/// physical pixels (the margin scaled to the monitor is computed by the caller).
pub fn bottom_center(m: Rect, size: (u32, u32), margin: i32) -> (r: (i32, i32))
    requires
        bottom_center_fits(m, size, margin),
    ensures
        r.0 == bottom_center_spec(m, size, margin).0,
        r.1 == bottom_center_spec(m, size, margin).1,
{
    let x = m.x + half_i32(to_i32(m.w) - to_i32(size.0));
    let y = m.y + to_i32(m.h) - to_i32(size.1) - margin;
    (x, y)
}

/// Resizing around the center keeps the center: for even sizes the center after the
/// resize is the center before it.
pub proof fn law_keep_center_keeps_center(p: i32, old: u32, new: u32)
    requires
        old <= i32::MAX,
        new <= i32::MAX,
        old % 2 == 0,
        new % 2 == 0,
    ensures
        keep_axis(p, old, new) + half(as_i32(new)) == p + half(as_i32(old)),
{
}

} // verus!
