//! Geometry shared by the preview managers: drag to position, snap to dock,
//! and the distance that tells a drag from a click.
use vstd::prelude::*;

verus! {

/// Axis-aligned rectangle in screen coordinates. `right` and `bottom` are
/// exclusive.
#[derive(Debug, Clone, Copy, PartialEq, Eq, Structural)]
pub struct DragRect {
    pub left: i32,
    pub top: i32,
    pub right: i32,
    pub bottom: i32,
}

/// Press, drag and release bookkeeping for a draggable window. `active` is
/// true between press and release. `dragged` tells at the release that the
/// window was moved, so that the new position is kept and nothing activated.
#[derive(Debug, Clone, Copy, PartialEq, Eq)]
pub struct DragState {
    pub active: bool,
    pub dragged: bool,
    pub origin_screen: (i32, i32),
    pub origin_window: (i32, i32),
}

impl Default for DragState {
    fn default() -> (r: Self)
        ensures
            !r.active,
            !r.dragged,
            r.origin_screen == (0i32, 0i32),
            r.origin_window == (0i32, 0i32),
    {
        DragState { active: false, dragged: false, origin_screen: (0, 0), origin_window: (0, 0) }
    }
}

/// The pointer must move more than this many reference pixels between press
/// and release for the gesture to count as a drag.
pub const DRAG_THRESHOLD_PX: i32 = 4;

/// Edges within this distance during a drag snap to the matching edge of
/// another window.
pub const SNAP_THRESHOLD_PX: i32 = 12;

pub open spec fn distance(a: int, b: int) -> int {
    if a >= b {
        a - b
    } else {
        b - a
    }
}

/// Where an interval of length `size` proposed at `p` snaps to the interval
/// from `lo` to `hi`: its end to the other's start or its start to the
/// other's end before its start to the other's start or its end to the
/// other's end.
pub open spec fn snap_to(p: int, size: int, lo: int, hi: int, snap: int) -> Option<int> {
    if distance(p + size, lo) <= snap {
        Some(lo - size)
    } else if distance(p, hi) <= snap {
        Some(hi)
    } else if distance(p, lo) <= snap {
        Some(lo)
    } else if distance(p + size, hi) <= snap {
        Some(hi - size)
    } else {
        None
    }
}

/// The sides of a rectangle on one axis.
pub open spec fn span(r: DragRect, horizontal: bool) -> (int, int) {
    if horizontal {
        (r.left as int, r.right as int)
    } else {
        (r.top as int, r.bottom as int)
    }
}

/// The snap to the first of `others` that there is a snap to.
pub open spec fn first_snap(
    p: int,
    size: int,
    others: Seq<DragRect>,
    snap: int,
    horizontal: bool,
) -> Option<int>
    decreases others.len(),
{
    if others.len() == 0 {
        None
    } else {
        match first_snap(p, size, others.drop_last(), snap, horizontal) {
            Some(x) => Some(x),
            None => {
                let s = span(others.last(), horizontal);
                snap_to(p, size, s.0, s.1, snap)
            },
        }
    }
}

/// Where on one axis a window proposed at `p` ends up.
pub open spec fn snapped(
    p: int,
    size: int,
    others: Seq<DragRect>,
    snap: int,
    horizontal: bool,
) -> int {
    match first_snap(p, size, others, snap, horizontal) {
        Some(x) => x,
        None => p,
    }
}

pub open spec fn fits_i32(v: int) -> bool {
    i32::MIN <= v <= i32::MAX
}

fn far(a: i64, b: i64) -> (r: i64)
    requires
        -0x2_0000_0000 <= a <= 0x2_0000_0000,
        -0x2_0000_0000 <= b <= 0x2_0000_0000,
    ensures
        r == distance(a as int, b as int),
{
    if a >= b {
        a - b
    } else {
        b - a
    }
}

fn snap_axis(p: i32, size: i32, others: &[DragRect], snap: i32, horizontal: bool) -> (r: i32)
    requires
        fits_i32(snapped(p as int, size as int, others@, snap as int, horizontal)),
    ensures
        r == snapped(p as int, size as int, others@, snap as int, horizontal),
{
    let mut i: usize = 0;
    let at: i64 = p as i64;
    let len: i64 = size as i64;
    let near: i64 = snap as i64;
    assert(others@.take(0) == Seq::<DragRect>::empty());
    while i < others.len()
        invariant
            i <= others.len(),
            at == p,
            len == size,
            near == snap,
            fits_i32(snapped(p as int, size as int, others@, snap as int, horizontal)),
            first_snap(p as int, size as int, others@.take(i as int), snap as int, horizontal)
                is None,
        decreases others.len() - i,
    {
        let o: DragRect = others[i];
        let lo: i64 = if horizontal {
            o.left as i64
        } else {
            o.top as i64
        };
        let hi: i64 = if horizontal {
            o.right as i64
        } else {
            o.bottom as i64
        };
        proof {
            assert(others@.take(i + 1).drop_last() == others@.take(i as int));
            assert(others@.take(i + 1).last() == o);
            lemma_first_snap_stays(
                p as int,
                size as int,
                others@,
                snap as int,
                horizontal,
                i + 1,
            );
        }
        if far(at + len, lo) <= near {
            return (lo - len) as i32;
        }
        if far(at, hi) <= near {
            return hi as i32;
        }
        if far(at, lo) <= near {
            return lo as i32;
        }
        if far(at + len, hi) <= near {
            return (hi - len) as i32;
        }
        i = i + 1;
    }
    assert(others@.take(i as int) == others@);
    p
}

/// Windows after the first that there is a snap to change nothing.
proof fn lemma_first_snap_stays(
    p: int,
    size: int,
    others: Seq<DragRect>,
    snap: int,
    horizontal: bool,
    k: int,
)
    requires
        0 <= k <= others.len(),
    ensures
        first_snap(p, size, others.take(k), snap, horizontal) is Some ==> first_snap(
            p,
            size,
            others,
            snap,
            horizontal,
        ) == first_snap(p, size, others.take(k), snap, horizontal),
    decreases others.len() - k,
{
    if k == others.len() {
        assert(others.take(k) == others);
    } else {
        lemma_first_snap_stays(p, size, others, snap, horizontal, k + 1);
        assert(others.take(k + 1).drop_last() == others.take(k));
    }
}

/// Adjusts a proposed position so that the dragged window's edges snap to
/// nearby windows' edges within `snap_threshold` pixels. Each axis snaps
/// independently; the first match per axis wins.
pub fn snap_position(
    proposed_x: i32,
    proposed_y: i32,
    width: i32,
    height: i32,
    others: &[DragRect],
    snap_threshold: i32,
) -> (r: (i32, i32))
    requires
        fits_i32(
            snapped(proposed_x as int, width as int, others@, snap_threshold as int, true),
        ),
        fits_i32(
            snapped(proposed_y as int, height as int, others@, snap_threshold as int, false),
        ),
    ensures
        r.0 == snapped(proposed_x as int, width as int, others@, snap_threshold as int, true),
        r.1 == snapped(proposed_y as int, height as int, others@, snap_threshold as int, false),
{
    let x: i32 = snap_axis(proposed_x, width, others, snap_threshold, true);
    let y: i32 = snap_axis(proposed_y, height, others, snap_threshold, false);
    (x, y)
}

/// Snapping moves a window by no more than the threshold.
pub proof fn law_snap_moves_little(
    p: int,
    size: int,
    others: Seq<DragRect>,
    snap: int,
    horizontal: bool,
)
    requires
        snap >= 0,
    ensures
        distance(snapped(p, size, others, snap, horizontal), p) <= snap,
    decreases others.len(),
{
    if others.len() > 0 {
        law_snap_moves_little(p, size, others.drop_last(), snap, horizontal);
    }
}

/// A threshold of zero or less disables snapping.
pub proof fn law_no_threshold_no_snap(
    p: int,
    size: int,
    others: Seq<DragRect>,
    snap: int,
    horizontal: bool,
)
    requires
        snap <= 0,
    ensures
        snapped(p, size, others, snap, horizontal) == p,
    decreases others.len(),
{
    if others.len() > 0 {
        law_no_threshold_no_snap(p, size, others.drop_last(), snap, horizontal);
    }
}

/// The position proposed by the pointer: the window follows it from where
/// both were at the press.
pub open spec fn proposed(drag: DragState, pointer: (i32, i32)) -> (int, int) {
    (
        drag.origin_window.0 + (pointer.0 - drag.origin_screen.0),
        drag.origin_window.1 + (pointer.1 - drag.origin_screen.1),
    )
}

/// The pointer is farther than `threshold` from where it was at the press.
pub open spec fn crossed(drag: DragState, pointer: (i32, i32), threshold: int) -> bool {
    distance(pointer.0 as int, drag.origin_screen.0 as int) > threshold || distance(
        pointer.1 as int,
        drag.origin_screen.1 as int,
    ) > threshold
}

impl DragState {
    /// The press that begins a gesture.
    pub fn press(origin_screen: (i32, i32), origin_window: (i32, i32)) -> (r: Self)
        ensures
            r == (DragState { active: true, dragged: false, origin_screen, origin_window }),
    {
        DragState { active: true, dragged: false, origin_screen, origin_window }
    }

    /// The state after the gesture ended.
    pub fn released(&self) -> (r: Self)
        ensures
            r == (DragState { active: false, dragged: false, ..*self }),
    {
        DragState {
            active: false,
            dragged: false,
            origin_screen: self.origin_screen,
            origin_window: self.origin_window,
        }
    }

    pub fn has_crossed(&self, pointer: (i32, i32), threshold: i32) -> (r: bool)
        ensures
            r == crossed(*self, pointer, threshold as int),
    {
        far(pointer.0 as i64, self.origin_screen.0 as i64) > threshold as i64 || far(
            pointer.1 as i64,
            self.origin_screen.1 as i64,
        ) > threshold as i64
    }

    /// Where the dragged window goes.
    pub fn target(
        &self,
        pointer: (i32, i32),
        width: i32,
        height: i32,
        others: &[DragRect],
        snap_threshold: i32,
    ) -> (r: (i32, i32))
        requires
            fits_i32(proposed(*self, pointer).0),
            fits_i32(proposed(*self, pointer).1),
            fits_i32(
                snapped(
                    proposed(*self, pointer).0,
                    width as int,
                    others@,
                    snap_threshold as int,
                    true,
                ),
            ),
            fits_i32(
                snapped(
                    proposed(*self, pointer).1,
                    height as int,
                    others@,
                    snap_threshold as int,
                    false,
                ),
            ),
        ensures
            r.0 == snapped(
                proposed(*self, pointer).0,
                width as int,
                others@,
                snap_threshold as int,
                true,
            ),
            r.1 == snapped(
                proposed(*self, pointer).1,
                height as int,
                others@,
                snap_threshold as int,
                false,
            ),
    {
        let x: i64 = self.origin_window.0 as i64 + (pointer.0 as i64 - self.origin_screen.0 as i64);
        let y: i64 = self.origin_window.1 as i64 + (pointer.1 as i64 - self.origin_screen.1 as i64);
        snap_position(x as i32, y as i32, width, height, others, snap_threshold)
    }
}

/// What a preview manager does next to bring its windows in line.
#[derive(Debug, Clone, Copy, PartialEq, Eq, Structural)]
pub enum Reconcile {
    /// Nothing is shown.
    Hidden,
    Previews,
    List,
}

/// Whether a preview is hidden: the active client's, where the setting says
/// so.
pub fn preview_should_hide(hide_active: bool, is_active: bool) -> (r: bool)
    ensures
        r == (hide_active && is_active),
{
    hide_active && is_active
}

/// Whether a position lies in the screen whose top left corner and size are
/// given. Used to discard saved positions of a monitor that is gone.
pub fn position_on_screen(x: i32, y: i32, screen: (i32, i32, u32, u32)) -> (r: bool)
    ensures
        r == (screen.0 <= x < screen.0 + screen.2 && screen.1 <= y < screen.1 + screen.3),
{
    screen.0 <= x && (x as i64) < screen.0 as i64 + screen.2 as i64 && screen.1 <= y && (y as i64)
        < screen.1 as i64 + screen.3 as i64
}

/// The step along the diagonal on which windows without a saved position
/// appear.
pub const OFFSET_STEP: i32 = 32;

pub const OFFSET_LIMIT: i32 = 320;

/// The offset after `offset`.
pub open spec fn next_offset_after(offset: int) -> int {
    (offset + OFFSET_STEP) % (OFFSET_LIMIT as int)
}

/// Where a new window goes: to its saved position if that is on screen, else
/// to the next place on the diagonal, `base` pixels in.
pub fn initial_position(
    saved: Option<(i32, i32)>,
    saved_on_screen: bool,
    base: i32,
    next_offset: &mut i32,
) -> (r: (i32, i32))
    requires
        0 <= base <= 0x1_0000,
        0 <= *old(next_offset) < OFFSET_LIMIT,
    ensures
        saved is Some && saved_on_screen ==> Some(r) == saved && *final(next_offset) == *old(
            next_offset,
        ),
        !(saved is Some && saved_on_screen) ==> r == ((base + *old(next_offset)) as i32, (base
            + *old(next_offset)) as i32) && *final(next_offset) == next_offset_after(
            *old(next_offset) as int,
        ),
        0 <= *final(next_offset) < OFFSET_LIMIT,
{
    if saved_on_screen {
        if let Some(p) = saved {
            return p;
        }
    }
    let off: i32 = *next_offset;
    *next_offset = (off + OFFSET_STEP) % OFFSET_LIMIT;
    (base + off, base + off)
}

/// A snap lines an edge of the window up with an edge of one of the others, on
/// the axis that it is about; where no edge is within the threshold, nothing
/// snaps.
pub proof fn law_snap_lines_edges_up(
    p: int,
    size: int,
    others: Seq<DragRect>,
    snap: int,
    horizontal: bool,
)
    ensures
        ({
            let to = snapped(p, size, others, snap, horizontal);
            to == p || exists|i: int|
                0 <= i < others.len() && ({
                    let r = #[trigger] others[i];
                    let lo = if horizontal {
                        r.left as int
                    } else {
                        r.top as int
                    };
                    let hi = if horizontal {
                        r.right as int
                    } else {
                        r.bottom as int
                    };
                    to + size == lo || to == hi || to == lo || to + size == hi
                })
        }),
        (forall|i: int|
            0 <= i < others.len() ==> ({
                let r = #[trigger] others[i];
                let lo = if horizontal {
                    r.left as int
                } else {
                    r.top as int
                };
                let hi = if horizontal {
                    r.right as int
                } else {
                    r.bottom as int
                };
                &&& (p + size - lo > snap || lo - (p + size) > snap)
                &&& (p - hi > snap || hi - p > snap)
                &&& (p - lo > snap || lo - p > snap)
                &&& (p + size - hi > snap || hi - (p + size) > snap)
            })) ==> snapped(p, size, others, snap, horizontal) == p,
    decreases others.len(),
{
    if others.len() > 0 {
        let front = others.drop_last();
        law_snap_lines_edges_up(p, size, front, snap, horizontal);
        assert(others[others.len() - 1] == others.last());
        let to = snapped(p, size, others, snap, horizontal);
        assert(forall|i: int| 0 <= i < front.len() ==> #[trigger] front[i] == others[i]);
        if first_snap(p, size, front, snap, horizontal) is Some && to != p {
            let i = choose|i: int|
                0 <= i < front.len() && ({
                    let r = #[trigger] front[i];
                    let lo = if horizontal {
                        r.left as int
                    } else {
                        r.top as int
                    };
                    let hi = if horizontal {
                        r.right as int
                    } else {
                        r.bottom as int
                    };
                    to + size == lo || to == hi || to == lo || to + size == hi
                });
            assert(others[i] == front[i]);
        }
        if first_snap(p, size, front, snap, horizontal) is Some {
            lemma_some_edge_is_near(p, size, front, snap, horizontal);
        }
    }
}

proof fn lemma_some_edge_is_near(
    p: int,
    size: int,
    others: Seq<DragRect>,
    snap: int,
    horizontal: bool,
)
    requires
        first_snap(p, size, others, snap, horizontal) is Some,
    ensures
        exists|i: int|
            0 <= i < others.len() && ({
                let s = span(#[trigger] others[i], horizontal);
                snap_to(p, size, s.0, s.1, snap) is Some
            }),
    decreases others.len(),
{
    let front = others.drop_last();
    if first_snap(p, size, front, snap, horizontal) is Some {
        lemma_some_edge_is_near(p, size, front, snap, horizontal);
        let i = choose|i: int|
            0 <= i < front.len() && ({
                let s = span(#[trigger] front[i], horizontal);
                snap_to(p, size, s.0, s.1, snap) is Some
            });
        assert(others[i] == front[i]);
    } else {
        assert(others[others.len() - 1] == others.last());
    }
}

/// A window beside one other docks to it: its far edge to the other's near
/// one, or its near edge to the other's far one.
pub proof fn law_windows_dock(p: int, size: int, other: DragRect, snap: int)
    requires
        snap >= 0,
    ensures
        -snap <= p + size - other.left <= snap ==> snapped(p, size, seq![other], snap, true) + size
            == other.left,
        -snap <= p + size - other.top <= snap ==> snapped(p, size, seq![other], snap, false) + size
            == other.top,
        -snap <= p - other.right <= snap && !(-snap <= p + size - other.left <= snap) ==> snapped(
            p,
            size,
            seq![other],
            snap,
            true,
        ) == other.right,
        -snap <= p - other.bottom <= snap && !(-snap <= p + size - other.top <= snap) ==> snapped(
            p,
            size,
            seq![other],
            snap,
            false,
        ) == other.bottom,
{
    let others = seq![other];
    assert(others.drop_last() == Seq::<DragRect>::empty());
    assert(others.last() == other);
    assert(first_snap(p, size, others.drop_last(), snap, true) is None);
    assert(first_snap(p, size, others.drop_last(), snap, false) is None);
}

/// The window goes as far as the pointer went since the press, and the
/// gesture is a drag once the pointer is further than the threshold from
/// where it was pressed, on either axis.
pub proof fn law_window_goes_with_the_pointer(drag: DragState, pointer: (i32, i32), threshold: int)
    ensures
        proposed(drag, pointer).0 - drag.origin_window.0 == pointer.0 - drag.origin_screen.0,
        proposed(drag, pointer).1 - drag.origin_window.1 == pointer.1 - drag.origin_screen.1,
        crossed(drag, pointer, threshold) == (pointer.0 - drag.origin_screen.0 > threshold
            || drag.origin_screen.0 - pointer.0 > threshold || pointer.1 - drag.origin_screen.1
            > threshold || drag.origin_screen.1 - pointer.1 > threshold),
{
}

/// The places of new windows go down the diagonal in steps and begin anew at
/// the end.
pub proof fn law_diagonal_begins_anew(offset: int)
    requires
        0 <= offset < 320,
        offset % 32 == 0,
    ensures
        offset + 32 < 320 ==> next_offset_after(offset) == offset + 32,
        offset + 32 == 320 ==> next_offset_after(offset) == 0,
        0 <= next_offset_after(offset) < 320,
        next_offset_after(offset) % 32 == 0,
{
}

/// Where no edge docks, the near edges line up, and where those do not, the
/// far ones do; the threshold itself still counts.
pub proof fn law_windows_line_up(p: int, size: int, other: DragRect, snap: int)
    requires
        snap >= 0,
    ensures
        !(-snap <= p + size - other.left <= snap) && !(-snap <= p - other.right <= snap) ==> {
            &&& -snap <= p - other.left <= snap ==> snapped(p, size, seq![other], snap, true)
                == other.left
            &&& !(-snap <= p - other.left <= snap) && -snap <= p + size - other.right <= snap
                ==> snapped(p, size, seq![other], snap, true) + size == other.right
        },
        !(-snap <= p + size - other.top <= snap) && !(-snap <= p - other.bottom <= snap) ==> {
            &&& -snap <= p - other.top <= snap ==> snapped(p, size, seq![other], snap, false)
                == other.top
            &&& !(-snap <= p - other.top <= snap) && -snap <= p + size - other.bottom <= snap
                ==> snapped(p, size, seq![other], snap, false) + size == other.bottom
        },
{
    let others = seq![other];
    assert(others.drop_last() == Seq::<DragRect>::empty());
    assert(others.last() == other);
    assert(first_snap(p, size, others.drop_last(), snap, true) is None);
    assert(first_snap(p, size, others.drop_last(), snap, false) is None);
}

/// Where the window was moved by a snap, a window further back on the list
/// does not change that.
pub proof fn law_later_windows_do_not_matter(
    p: int,
    size: int,
    others: Seq<DragRect>,
    more: DragRect,
    snap: int,
    horizontal: bool,
)
    ensures
        snapped(p, size, others, snap, horizontal) != p ==> snapped(
            p,
            size,
            others.push(more),
            snap,
            horizontal,
        ) == snapped(p, size, others, snap, horizontal),
{
    assert(others.push(more).drop_last() =~= others);
}

} // verus!
