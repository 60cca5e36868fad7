//! Where windows are put on the screen, in physical pixels.
use vstd::prelude::*;

verus! {

/// The part of a monitor that windows may cover.
#[derive(Debug, PartialEq, Eq, Clone, Copy)]
pub struct Area {
    pub left: i32,
    pub top: i32,
    pub right: i32,
    pub bottom: i32,
}

/// The gap between a window and the point or edge that it is put next to.
pub const GAP: i32 = 8;

/// One coordinate of a window of length `length` near `point`: a gap behind the point, but with
/// its end a gap before `high` and, above all, its start no nearer to `low` than a gap.
pub open spec fn near(point: int, length: int, low: int, high: int) -> int {
    let start = if point + GAP <= high - length - GAP {
        point + GAP
    } else {
        high - length - GAP
    };
    if start < low + GAP {
        low + GAP
    } else {
        start
    }
}

/// The sums that put a window next to a point stay within the range of coordinates.
pub open spec fn near_in_range(point: i32, length: i32, low: i32, high: i32) -> bool {
    &&& point + GAP <= i32::MAX
    &&& low + GAP <= i32::MAX
    &&& i32::MIN + GAP <= high - length <= i32::MAX
}

/// Half of `n`, rounded towards zero.
pub open spec fn half(n: int) -> int {
    if n >= 0 {
        n / 2
    } else {
        -((-n) / 2)
    }
}

/// One coordinate of a window of length `length` in the middle between `low` and `high`.
pub open spec fn middle(length: int, low: int, high: int) -> int {
    low + half(high - low - length)
}

/// The differences that centre a window stay within the range of coordinates.
pub open spec fn middle_in_range(length: i32, low: i32, high: i32) -> bool {
    &&& i32::MIN <= high - low <= i32::MAX
    &&& i32::MIN <= high - low - length <= i32::MAX
    &&& i32::MIN <= middle(length as int, low as int, high as int) <= i32::MAX
}

fn near_coordinate(point: i32, length: i32, low: i32, high: i32) -> (r: i32)
    requires
        near_in_range(point, length, low, high),
    ensures
        r == near(point as int, length as int, low as int, high as int),
{
    let wanted: i32 = point + GAP;
    let last: i32 = high - length - GAP;
    let start: i32 = if wanted <= last {
        wanted
    } else {
        last
    };
    if start < low + GAP {
        low + GAP
    } else {
        start
    }
}

/// The position of a window of `w` by `h` that is shown near the point (`x`, `y`), clamped to the
/// work area of the monitor where there is one.
pub fn show_at(x: i32, y: i32, w: i32, h: i32, area: Option<Area>) -> (r: (i32, i32))
    requires
        x + GAP <= i32::MAX,
        y + GAP <= i32::MAX,
        area matches Some(a) ==> near_in_range(x, w, a.left, a.right) && near_in_range(
            y,
            h,
            a.top,
            a.bottom,
        ),
    ensures
        match area {
            Some(a) => r.0 == near(x as int, w as int, a.left as int, a.right as int) && r.1
                == near(y as int, h as int, a.top as int, a.bottom as int),
            None => r.0 == x + GAP && r.1 == y + GAP,
        },
{
    match area {
        Some(a) => (
            near_coordinate(x, w, a.left, a.right),
            near_coordinate(y, h, a.top, a.bottom),
        ),
        None => (x + GAP, y + GAP),
    }
}

fn half_of(n: i32) -> (r: i32)
    ensures
        r == half(n as int),
{
    if n >= 0 {
        n / 2
    } else if n == i32::MIN {
        -0x4000_0000
    } else {
        -((-n) / 2)
    }
}

/// The position of a window of `w` by `h` in the middle of the work area; a fixed one where there
/// is no work area.
pub fn show_centered(w: i32, h: i32, area: Option<Area>) -> (r: (i32, i32))
    requires
        area matches Some(a) ==> middle_in_range(w, a.left, a.right) && middle_in_range(
            h,
            a.top,
            a.bottom,
        ),
    ensures
        match area {
            Some(a) => r.0 == middle(w as int, a.left as int, a.right as int) && r.1 == middle(
                h as int,
                a.top as int,
                a.bottom as int,
            ),
            None => r == (200i32, 150i32),
        },
{
    match area {
        Some(a) => (
            a.left + half_of(a.right - a.left - w),
            a.top + half_of(a.bottom - a.top - h),
        ),
        None => (200, 150),
    }
}

/// A window that fits into the work area with a gap on each side is put inside, a gap from each
/// edge; one that does not fit starts a gap behind the first edge.
pub proof fn law_shown_within_the_work_area(point: int, length: int, low: int, high: int)
    ensures
        low + GAP + length + GAP <= high ==> low + GAP <= near(point, length, low, high) && near(
            point,
            length,
            low,
            high,
        ) + length + GAP <= high,
        low + GAP + length + GAP > high ==> near(point, length, low, high) == low + GAP,
{
}

/// A centred window has the same room on both sides, but for one odd pixel, and lies within the
/// work area where it fits.
pub proof fn law_centred_in_the_work_area(length: int, low: int, high: int)
    ensures
        ({
            let before = middle(length, low, high) - low;
            let after = high - (middle(length, low, high) + length);
            &&& -1 <= after - before <= 1
            &&& length <= high - low ==> before >= 0 && after >= 0
        }),
{
}

/// A window is put a gap behind the point wherever it then ends a gap before the edge; else it is
/// pushed back just as far as needed, but never nearer to the other edge than a gap.
pub proof fn law_a_window_is_pushed_back_only_as_needed(point: int, length: int, low: int, high: int)
    ensures
        low <= point && point + 8 + length + 8 <= high ==> near(point, length, low, high) == point
            + 8,
        low <= point && point + 8 + length + 8 > high && low + 8 + length + 8 <= high ==> near(
            point,
            length,
            low,
            high,
        ) + length + 8 == high,
        low + 8 + length + 8 > high ==> near(point, length, low, high) == low + 8,
        point < low && low + 8 + length + 8 <= high ==> near(point, length, low, high) == low + 8,
{
}

} // verus!
