//! The preview manager of Windows sessions: which preview windows there are,
//! how they are dragged, and where things go in them.
use vstd::prelude::*;
use std::time::Instant;
use crate::clock;
use crate::config::{DisplayMode, LiveSettings};
use crate::cycle_state;
use crate::cycle_state::CycleState;
use crate::name_map;
use crate::name_map::NameMap;
use crate::preview_common;
use crate::preview_common::{DragState, Reconcile, OFFSET_LIMIT, OFFSET_STEP};
use crate::text;
use crate::window_manager::WindowId;

verus! {

/// The lower 16 bits of a word, as a signed number.
pub open spec fn signed_low(raw: u32) -> int {
    (raw as u16) as i16 as int
}

/// The upper 16 bits of a word, as a signed number.
pub open spec fn signed_high(raw: u32) -> int {
    ((raw >> 16u32) as u16) as i16 as int
}

/// The two coordinates in one message parameter: x in the lowest 16 bits and
/// y in the next, each signed. Higher bits do not count.
pub fn unpack_xy(lparam: isize) -> (r: (i32, i32))
    ensures
        r.0 == signed_low(lparam as u32),
        r.1 == signed_high(lparam as u32),
{
    let raw: u32 = #[verifier::truncate]
    (lparam as u32);
    let low: u16 = #[verifier::truncate]
    (raw as u16);
    let x: i16 = #[verifier::truncate]
    (low as i16);
    let high: u16 = #[verifier::truncate]
    ((raw >> 16u32) as u16);
    let y: i16 = #[verifier::truncate]
    (high as i16);
    (x as i32, y as i32)
}

/// Coordinates that are packed into a word, x below y, are unpacked from it,
/// negative ones included.
pub proof fn law_packed_coordinates_are_unpacked(x: i16, y: i16)
    ensures
        signed_low((((y as u16) as u32) << 16u32) | ((x as u16) as u32)) == x,
        signed_high((((y as u16) as u32) << 16u32) | ((x as u16) as u32)) == y,
{
    let raw = (((y as u16) as u32) << 16u32) | ((x as u16) as u32);
    assert((((((y as u16) as u32) << 16u32) | ((x as u16) as u32)) as u16) as i16 == x)
        by (bit_vector);
    assert((((((((y as u16) as u32) << 16u32) | ((x as u16) as u32)) >> 16u32) as u16) as i16)
        == y) by (bit_vector);
}

/// Maps an opacity percentage to the byte that layered windows take.
pub fn opacity_to_byte(percent: u32) -> (r: u8)
    ensures
        r == (if percent <= 100 {
            percent as int
        } else {
            100
        }) * 255 / 100,
{
    let p: u32 = if percent <= 100 {
        percent
    } else {
        100
    };
    (p * 255 / 100) as u8
}

/// The height of the list: the title, a row for each client or one where
/// there are none, and the padding.
pub open spec fn list_height(num_clients: usize, title: int, row: int, padding: int) -> int {
    title + (if num_clients == 0 {
        1
    } else {
        num_clients as int
    }) * row + padding
}

pub fn list_window_height(num_clients: usize, title: i32, row: i32, padding: i32) -> (r: i32)
    requires
        num_clients <= i32::MAX,
        0 <= title,
        0 <= row,
        0 <= padding,
        list_height(num_clients, title as int, row as int, padding as int) <= i32::MAX,
    ensures
        r == list_height(num_clients, title as int, row as int, padding as int),
{
    let rows: i32 = if num_clients == 0 {
        1
    } else {
        num_clients as i32
    };
    proof {
        assert(0 <= rows * row) by (nonlinear_arith)
            requires
                0 <= rows,
                0 <= row,
        ;
    }
    title + rows * row + padding
}

/// A rectangle within a window.
#[derive(Debug, Clone, Copy, PartialEq, Eq, Structural)]
pub struct Rect {
    pub left: i32,
    pub top: i32,
    pub right: i32,
    pub bottom: i32,
}

/// Where the thumbnail goes: below the title, inside the border on the other
/// sides. Without borders it goes to the edges.
pub fn thumbnail_rect(width: i32, height: i32, title: i32, border: i32, borderless: bool) -> (r:
    Rect)
    requires
        borderless || i32::MIN <= width - border <= i32::MAX,
        borderless || i32::MIN <= height - border <= i32::MAX,
    ensures
        r == (if borderless {
            Rect { left: 0, top: title, right: width, bottom: height }
        } else {
            Rect {
                left: border,
                top: title,
                right: (width - border) as i32,
                bottom: (height - border) as i32,
            }
        }),
{
    if borderless {
        return Rect { left: 0, top: title, right: width, bottom: height };
    }
    Rect { left: border, top: title, right: width - border, bottom: height - border }
}

/// The chrome of a preview: the title over the whole width, and the left,
/// right and bottom borders, where there are any.
pub fn chrome_rects(width: i32, height: i32, title: i32, border: i32, borderless: bool) -> (r: Vec<
    Rect,
>)
    requires
        borderless || i32::MIN <= width - border <= i32::MAX,
        borderless || i32::MIN <= height - border <= i32::MAX,
    ensures
        r@ == (if borderless {
            seq![Rect { left: 0, top: 0, right: width, bottom: title }]
        } else {
            seq![
                Rect { left: 0, top: 0, right: width, bottom: title },
                Rect { left: 0, top: title, right: border, bottom: height },
                Rect { left: (width - border) as i32, top: title, right: width, bottom: height },
                Rect { left: 0, top: (height - border) as i32, right: width, bottom: height },
            ]
        }),
{
    let mut out: Vec<Rect> = Vec::new();
    out.push(Rect { left: 0, top: 0, right: width, bottom: title });
    if borderless {
        return out;
    }
    out.push(Rect { left: 0, top: title, right: border, bottom: height });
    out.push(Rect { left: width - border, top: title, right: width, bottom: height });
    out.push(Rect { left: 0, top: height - border, right: width, bottom: height });
    out
}

/// Where the text of row `k` of the list goes. The first row begins `gap`
/// below the title.
pub fn row_rect(k: usize, width: i32, title: i32, gap: i32, row: i32, pads: (i32, i32)) -> (r: Rect)
    requires
        k < i32::MAX,
        0 <= title,
        0 <= gap,
        0 <= row,
        title + gap + (k + 1) * row <= i32::MAX,
        i32::MIN <= width - pads.1 <= i32::MAX,
    ensures
        r == (Rect {
            left: pads.0,
            top: (title + gap + k * row) as i32,
            right: (width - pads.1) as i32,
            bottom: (title + gap + (k + 1) * row) as i32,
        }),
{
    proof {
        assert((k + 1) * row == k * row + row) by (nonlinear_arith);
        assert(0 <= k * row) by (nonlinear_arith)
            requires
                0 <= k,
                0 <= row,
        ;
    }
    let top: i32 = title + gap + k as i32 * row;
    Rect { left: pads.0, top, right: width - pads.1, bottom: top + row }
}

/// The text of a client's row.
pub fn row_text(title: &str, is_active: bool) -> (r: String)
    ensures
        r@ == (if is_active {
            "🚬 "@
        } else {
            "     "@
        }) + title@,
{
    if is_active {
        text::joined("🚬 ", title)
    } else {
        text::joined("     ", title)
    }
}

/// The gesture after a motion of the pointer: it is a drag from the moment
/// the pointer went farther than the threshold.
pub open spec fn after_motion(
    drag: DragState,
    pointer: (i32, i32),
    locked: bool,
    threshold: int,
) -> DragState {
    if drag.active && !locked {
        DragState {
            dragged: drag.dragged || preview_common::crossed(drag, pointer, threshold),
            ..drag
        }
    } else {
        drag
    }
}

/// Takes a motion of the pointer over. Whether the window follows it: not
/// while positions are locked, so that a click still is one.
pub fn follow(drag: &mut DragState, pointer: (i32, i32), locked: bool, threshold: i32) -> (r: bool)
    ensures
        *final(drag) == after_motion(*old(drag), pointer, locked, threshold as int),
        r == (old(drag).active && !locked && final(drag).dragged),
{
    if !drag.active || locked {
        return false;
    }
    if drag.has_crossed(pointer, threshold) {
        drag.dragged = true;
    }
    drag.dragged
}

/// How a gesture ended.
#[derive(Debug, Clone, Copy, PartialEq, Eq, Structural)]
pub enum GestureEnd {
    /// There was none.
    Nothing,
    Click,
    /// The window stays where it is.
    Drop,
}

/// Ends a gesture.
pub fn finish(drag: &mut DragState) -> (r: GestureEnd)
    ensures
        r == (if !old(drag).active {
            GestureEnd::Nothing
        } else if old(drag).dragged {
            GestureEnd::Drop
        } else {
            GestureEnd::Click
        }),
        *final(drag) == (if old(drag).active {
            DragState { active: false, dragged: false, ..*old(drag) }
        } else {
            *old(drag)
        }),
{
    if !drag.active {
        return GestureEnd::Nothing;
    }
    let end: GestureEnd = if drag.dragged {
        GestureEnd::Drop
    } else {
        GestureEnd::Click
    };
    *drag = drag.released();
    end
}

/// A drag that went far and came back is still a drag.
pub proof fn law_drag_stays_a_drag(
    drag: DragState,
    there: (i32, i32),
    back: (i32, i32),
    threshold: int,
)
    requires
        drag.active,
        preview_common::crossed(drag, there, threshold),
    ensures
        after_motion(after_motion(drag, there, false, threshold), back, false, threshold).dragged,
{
}

/// While positions are locked no motion makes a drag.
pub proof fn law_locked_positions_stay(drag: DragState, pointer: (i32, i32), threshold: int)
    ensures
        after_motion(drag, pointer, true, threshold) == drag,
{
}

/// The preview of one client.
#[derive(Debug, Clone, Copy, PartialEq, Eq, Structural)]
pub struct Preview {
    pub window: u64,
    pub source_id: WindowId,
    pub is_active: bool,
    pub hidden: bool,
}

/// A preview that is to be shown or hidden.
#[derive(Debug, Clone, Copy, PartialEq, Eq, Structural)]
pub struct Visibility {
    pub window: u64,
    pub hidden: bool,
}

/// Where a new preview goes.
#[derive(Debug, Clone, Copy, PartialEq, Eq)]
pub enum Placement {
    /// To the saved position.
    At(i32, i32),
    /// To this many reference pixels from the corner on both axes.
    Diagonal(i32),
}

/// How far from the screen's corner the diagonal of new previews begins, in
/// reference pixels.
pub const PREVIEW_BASE: i32 = 10;

/// Where the list appears when it has no saved position.
pub const LIST_DEFAULT: i32 = 20;

/// The preview manager's state.
#[derive(Debug)]
pub struct PreviewManager {
    /// The previews by character.
    pub previews: NameMap<Preview>,
    /// Whether the list is shown.
    pub list: bool,
    pub list_last_names: Vec<String>,
    pub next_default_offset: i32,
    pub preview_width: u32,
    pub preview_height: u32,
    pub preview_opacity: u32,
    pub current_mode: DisplayMode,
    pub active_id: WindowId,
}

pub open spec fn with_active(p: Preview, active: WindowId) -> Preview {
    Preview { is_active: p.source_id == active, ..p }
}

pub open spec fn with_visibility(p: Preview, hide_active: bool) -> Preview {
    Preview { hidden: hide_active && p.is_active, ..p }
}

pub open spec fn all_active(items: Seq<(Seq<char>, Preview)>, active: WindowId) -> Seq<
    (Seq<char>, Preview),
> {
    Seq::new(items.len(), |i: int| (items[i].0, with_active(items[i].1, active)))
}

pub open spec fn all_visibility(items: Seq<(Seq<char>, Preview)>, hide_active: bool) -> Seq<
    (Seq<char>, Preview),
> {
    Seq::new(items.len(), |i: int| (items[i].0, with_visibility(items[i].1, hide_active)))
}

/// The previews that are shown or hidden for the setting.
pub open spec fn visibility_changes(items: Seq<(Seq<char>, Preview)>, hide_active: bool) -> Seq<
    Visibility,
>
    decreases items.len(),
{
    if items.len() == 0 {
        Seq::empty()
    } else {
        let front = visibility_changes(items.drop_last(), hide_active);
        let p = items.last().1;
        let want = hide_active && p.is_active;
        if want == p.hidden {
            front
        } else {
            front.push(Visibility { window: p.window, hidden: want })
        }
    }
}

/// The windows of the previews that are told otherwise than before.
pub open spec fn active_changes(items: Seq<(Seq<char>, Preview)>, active: WindowId) -> Seq<u64>
    decreases items.len(),
{
    if items.len() == 0 {
        Seq::empty()
    } else {
        let front = active_changes(items.drop_last(), active);
        let p = items.last().1;
        if p.is_active == (p.source_id == active) {
            front
        } else {
            front.push(p.window)
        }
    }
}

/// The windows of the previews but one.
pub open spec fn windows_but(items: Seq<(Seq<char>, Preview)>, exclude: u64) -> Seq<u64>
    decreases items.len(),
{
    if items.len() == 0 {
        Seq::empty()
    } else {
        let front = windows_but(items.drop_last(), exclude);
        if items.last().1.window == exclude {
            front
        } else {
            front.push(items.last().1.window)
        }
    }
}

/// What changed with the foreground window.
#[derive(Debug)]
pub struct ActiveChange {
    /// The preview windows whose chrome changed.
    pub repaint: Vec<u64>,
    pub visibility: Vec<Visibility>,
    pub repaint_list: bool,
}

impl PreviewManager {
    pub open spec fn wf(&self) -> bool {
        0 <= self.next_default_offset < OFFSET_LIMIT
    }

    /// A manager without windows.
    pub fn new(mode: DisplayMode, width: u32, height: u32, opacity: u32) -> (r: Self)
        ensures
            r.wf(),
            r.previews.items() == Seq::<(Seq<char>, Preview)>::empty(),
            !r.list,
            r.list_last_names@.len() == 0,
            r.next_default_offset == 0,
            r.preview_width == width,
            r.preview_height == height,
            r.preview_opacity == opacity,
            r.current_mode == mode,
            r.active_id == 0,
    {
        PreviewManager {
            previews: NameMap::new(),
            list: false,
            list_last_names: Vec::new(),
            next_default_offset: 0,
            preview_width: width,
            preview_height: height,
            preview_opacity: opacity,
            current_mode: mode,
            active_id: 0,
        }
    }

    /// The windows after the settings were read: none while they are not
    /// shown, else those of the chosen mode.
    pub open spec fn reconciled(&self, live: LiveSettings, after: PreviewManager) -> bool {
        let empty = Seq::<(Seq<char>, Preview)>::empty();
        if !live.show_previews {
            &&& after.previews.items() == empty
            &&& if self.list {
                after.list_last_names@.len() == 0
            } else {
                after.list_last_names == self.list_last_names
            }
            &&& after == PreviewManager {
                previews: after.previews,
                list: false,
                list_last_names: after.list_last_names,
                ..*self
            }
        } else {
            let switched = live.display_mode != self.current_mode;
            &&& after.previews.items() == (if switched && live.display_mode == DisplayMode::List {
                empty
            } else {
                self.previews.items()
            })
            &&& after == PreviewManager {
                previews: after.previews,
                list: self.list && !(switched && live.display_mode == DisplayMode::Previews),
                current_mode: live.display_mode,
                ..*self
            }
        }
    }

    /// Tears down the windows that are not wanted any more and says which
    /// mode's windows come next.
    pub fn reconcile(&mut self, live: &LiveSettings) -> (r: Reconcile)
        requires
            old(self).wf(),
        ensures
            final(self).wf(),
            old(self).reconciled(*live, *final(self)),
            r == (if !live.show_previews {
                Reconcile::Hidden
            } else {
                match live.display_mode {
                    DisplayMode::Previews => Reconcile::Previews,
                    DisplayMode::List => Reconcile::List,
                }
            }),
    {
        if !live.show_previews {
            self.previews = NameMap::new();
            if self.list {
                self.list = false;
                self.list_last_names = Vec::new();
            }
            return Reconcile::Hidden;
        }
        if live.display_mode != self.current_mode {
            match live.display_mode {
                DisplayMode::Previews => {
                    self.list = false;
                },
                DisplayMode::List => {
                    self.previews = NameMap::new();
                },
            }
            self.current_mode = live.display_mode;
        }
        match live.display_mode {
            DisplayMode::Previews => Reconcile::Previews,
            DisplayMode::List => Reconcile::List,
        }
    }

    /// Whether the previews are to be resized, because the setting changed.
    pub fn apply_live_size(&mut self, width: u32, height: u32) -> (r: bool)
        ensures
            r == (width != old(self).preview_width || height != old(self).preview_height),
            *final(self) == (PreviewManager {
                preview_width: width,
                preview_height: height,
                ..*old(self)
            }),
    {
        if width == self.preview_width && height == self.preview_height {
            return false;
        }
        self.preview_width = width;
        self.preview_height = height;
        true
    }

    /// The alpha to give all previews, where the setting changed.
    pub fn apply_live_opacity(&mut self, want: u32) -> (r: Option<u8>)
        ensures
            r is Some == (want != old(self).preview_opacity),
            r matches Some(b) ==> b == (if want <= 100 {
                want as int
            } else {
                100
            }) * 255 / 100,
            *final(self) == (PreviewManager { preview_opacity: want, ..*old(self) }),
    {
        if want == self.preview_opacity {
            return None;
        }
        self.preview_opacity = want;
        Some(opacity_to_byte(want))
    }

    /// Hides the preview of the active client, where the setting says so, and
    /// shows the others. Says which windows change.
    pub fn apply_active_visibility(&mut self, hide_active: bool) -> (r: Vec<Visibility>)
        ensures
            r@ == visibility_changes(old(self).previews.items(), hide_active),
            final(self).previews.items() == all_visibility(
                old(self).previews.items(),
                hide_active,
            ),
            *final(self) == (PreviewManager { previews: final(self).previews, ..*old(self) }),
    {
        let ghost items = self.previews.items();
        let n: usize = self.previews.len();
        let mut out: Vec<Visibility> = Vec::new();
        let mut i: usize = 0;
        assert(items.take(0) == Seq::<(Seq<char>, Preview)>::empty());
        while i < n
            invariant
                i <= n == items.len(),
                items == old(self).previews.items(),
                self.previews.items() == all_visibility(items, hide_active).take(i as int)
                    + items.skip(i as int),
                out@ == visibility_changes(items.take(i as int), hide_active),
                *self == (PreviewManager { previews: self.previews, ..*old(self) }),
            decreases n - i,
        {
            proof {
                assert(items.take(i + 1).drop_last() == items.take(i as int));
                assert(items.take(i + 1).last() == items[i as int]);
                assert(self.previews.items()[i as int] == items[i as int]);
            }
            let mut p: Preview = *self.previews.value_at(i);
            let want: bool = preview_common::preview_should_hide(hide_active, p.is_active);
            if want != p.hidden {
                p.hidden = want;
                out.push(Visibility { window: p.window, hidden: want });
            }
            self.previews.set_value_at(i, p);
            assert(self.previews.items() =~= all_visibility(items, hide_active).take(i + 1)
                + items.skip(i + 1));
            i = i + 1;
        }
        assert(items.take(i as int) == items);
        assert(self.previews.items() =~= all_visibility(items, hide_active));
        out
    }

    fn flip_active(&mut self, active: WindowId) -> (r: Vec<u64>)
        ensures
            r@ == active_changes(old(self).previews.items(), active),
            final(self).previews.items() == all_active(old(self).previews.items(), active),
            *final(self) == (PreviewManager { previews: final(self).previews, ..*old(self) }),
    {
        let ghost items = self.previews.items();
        let n: usize = self.previews.len();
        let mut out: Vec<u64> = Vec::new();
        let mut i: usize = 0;
        assert(items.take(0) == Seq::<(Seq<char>, Preview)>::empty());
        while i < n
            invariant
                i <= n == items.len(),
                items == old(self).previews.items(),
                self.previews.items() == all_active(items, active).take(i as int) + items.skip(
                    i as int,
                ),
                out@ == active_changes(items.take(i as int), active),
                *self == (PreviewManager { previews: self.previews, ..*old(self) }),
            decreases n - i,
        {
            proof {
                assert(items.take(i + 1).drop_last() == items.take(i as int));
                assert(items.take(i + 1).last() == items[i as int]);
                assert(self.previews.items()[i as int] == items[i as int]);
            }
            let mut p: Preview = *self.previews.value_at(i);
            let now: bool = p.source_id == active;
            if now != p.is_active {
                p.is_active = now;
                out.push(p.window);
            }
            self.previews.set_value_at(i, p);
            assert(self.previews.items() =~= all_active(items, active).take(i + 1) + items.skip(
                i + 1,
            ));
            i = i + 1;
        }
        assert(items.take(i as int) == items);
        assert(self.previews.items() =~= all_active(items, active));
        out
    }

    /// The windows after the foreground window was taken over.
    pub open spec fn activated(
        &self,
        active: WindowId,
        hide_active: bool,
        r: ActiveChange,
        after: PreviewManager,
    ) -> bool {
        let items = all_active(self.previews.items(), active);
        &&& r.repaint@ == active_changes(self.previews.items(), active)
        &&& r.visibility@ == visibility_changes(items, hide_active)
        &&& r.repaint_list == (self.list && active != self.active_id)
        &&& after.previews.items() == all_visibility(items, hide_active)
        &&& after == PreviewManager { previews: after.previews, active_id: active, ..*self }
    }

    /// Takes over the foreground window. The cycle goes on from its client,
    /// unless an activation of our own is so recent that the report may be
    /// stale, and what changed is painted, shown and hidden.
    pub fn update_active(&mut self, active: WindowId, hide_active: bool, state: &mut CycleState) -> (r:
        ActiveChange)
        requires
            old(state).wf(),
        ensures
            final(state).wf(),
            final(state).same_clients(old(state)),
            final(state).same_record(old(state)),
            exists|now: Instant|
                final(state).index() == (if cycle_state::in_grace(
                    #[trigger] clock::millis_to(old(state).activated(), now),
                ) {
                    old(state).index()
                } else {
                    cycle_state::reported(old(state).clients(), old(state).index(), active)
                }),
            old(self).activated(active, hide_active, r, *final(self)),
    {
        let since: Option<u128> = clock::millis_since(state.last_activated());
        self.update_active_after(active, hide_active, state, since)
    }

    /// Takes over the foreground window, `since` milliseconds after the last
    /// activation of our own.
    pub fn update_active_after(
        &mut self,
        active: WindowId,
        hide_active: bool,
        state: &mut CycleState,
        since: Option<u128>,
    ) -> (r: ActiveChange)
        requires
            old(state).wf(),
        ensures
            final(state).wf(),
            final(state).same_clients(old(state)),
            final(state).same_record(old(state)),
            final(state).index() == (if cycle_state::in_grace(since) {
                old(state).index()
            } else {
                cycle_state::reported(old(state).clients(), old(state).index(), active)
            }),
            old(self).activated(active, hide_active, r, *final(self)),
    {
        state.sync_after(active, since);
        let repaint: Vec<u64> = self.flip_active(active);
        let visibility: Vec<Visibility> = self.apply_active_visibility(hide_active);
        let repaint_list: bool = self.list && active != self.active_id;
        self.active_id = active;
        ActiveChange { repaint, visibility, repaint_list }
    }

    /// Drops the previews of characters without a client.
    pub fn retain_live(&mut self, characters: &Vec<String>)
        ensures
            final(self).previews.items() == name_map::kept(
                old(self).previews.items(),
                text::views(characters@),
            ),
            *final(self) == (PreviewManager { previews: final(self).previews, ..*old(self) }),
    {
        self.previews.retain_names(characters);
    }

    /// Whether a preview of the client's window is to be made. One of
    /// another window of the same character is dropped first.
    pub fn offer(&mut self, source_id: WindowId, character: &str) -> (r: bool)
        ensures
            r == !(old(self).previews@.contains_key(character@)
                && old(self).previews@[character@].source_id == source_id),
            r ==> final(self).previews@ == old(self).previews@.remove(character@),
            !r ==> final(self).previews.items() == old(self).previews.items(),
            *final(self) == (PreviewManager { previews: final(self).previews, ..*old(self) }),
    {
        match self.previews.get(character) {
            Some(p) => {
                if p.source_id == source_id {
                    return false;
                }
            },
            None => {
                proof {
                    assert(self.previews@.remove(character@) =~= self.previews@);
                }
                return true;
            },
        }
        self.previews.remove(character);
        true
    }

    /// Where a new preview goes: to its saved position if that is on screen,
    /// else to the next place on the diagonal.
    pub fn place(&mut self, saved: Option<(i32, i32)>, saved_on_screen: bool) -> (r: Placement)
        requires
            old(self).wf(),
        ensures
            final(self).wf(),
            match saved {
                Some(p) => if saved_on_screen {
                    r == Placement::At(p.0, p.1) && *final(self) == *old(self)
                } else {
                    old(self).placed_next(r, *final(self))
                },
                None => old(self).placed_next(r, *final(self)),
            },
    {
        if saved_on_screen {
            if let Some(p) = saved {
                return Placement::At(p.0, p.1);
            }
        }
        let off: i32 = self.next_default_offset;
        self.next_default_offset = (off + OFFSET_STEP) % OFFSET_LIMIT;
        Placement::Diagonal(PREVIEW_BASE + off)
    }

    /// The next place on the diagonal is taken.
    pub open spec fn placed_next(&self, r: Placement, after: PreviewManager) -> bool {
        &&& r == Placement::Diagonal((PREVIEW_BASE + self.next_default_offset) as i32)
        &&& after == PreviewManager {
            next_default_offset: preview_common::next_offset_after(
                self.next_default_offset as int,
            ) as i32,
            ..*self
        }
    }

    /// Adds a preview that was just made: shown, and not yet known to be
    /// active.
    pub fn insert(&mut self, character: String, window: u64, source_id: WindowId)
        ensures
            final(self).previews@ == old(self).previews@.insert(
                character@,
                Preview { window, source_id, is_active: false, hidden: false },
            ),
            *final(self) == (PreviewManager { previews: final(self).previews, ..*old(self) }),
    {
        self.previews.insert(
            character,
            Preview { window, source_id, is_active: false, hidden: false },
        );
    }

    /// The windows that a dragged preview can snap to: all but its own.
    pub fn collect_other_rects(&self, exclude: u64) -> (r: Vec<u64>)
        ensures
            r@ == windows_but(self.previews.items(), exclude),
    {
        let ghost items = self.previews.items();
        let n: usize = self.previews.len();
        let mut out: Vec<u64> = Vec::new();
        let mut i: usize = 0;
        assert(items.take(0) == Seq::<(Seq<char>, Preview)>::empty());
        while i < n
            invariant
                i <= n == items.len(),
                items == self.previews.items(),
                out@ == windows_but(items.take(i as int), exclude),
            decreases n - i,
        {
            proof {
                assert(items.take(i + 1).drop_last() == items.take(i as int));
                assert(items.take(i + 1).last() == items[i as int]);
            }
            let w: u64 = self.previews.value_at(i).window;
            if w != exclude {
                out.push(w);
            }
            i = i + 1;
        }
        assert(items.take(i as int) == items);
        out
    }

    /// Takes over the characters that the list shows. Whether it is painted
    /// again, because they changed.
    pub fn update_list_names(&mut self, names: &Vec<String>) -> (r: bool)
        ensures
            r == (text::views(names@) != text::views(old(self).list_last_names@)),
            text::views(final(self).list_last_names@) == text::views(names@),
            *final(self) == (PreviewManager {
                list_last_names: final(self).list_last_names,
                ..*old(self)
            }),
    {
        let changed: bool = !text::same_all(names, &self.list_last_names);
        self.list_last_names = text::copy_all(names);
        changed
    }
}

/// Where the list appears: at its saved position if that is on screen.
pub fn list_position(saved: Option<(i32, i32)>, saved_on_screen: bool) -> (r: (i32, i32))
    ensures
        saved is Some && saved_on_screen ==> Some(r) == saved,
        !(saved is Some && saved_on_screen) ==> r == (LIST_DEFAULT, LIST_DEFAULT),
{
    match saved {
        Some(p) => if saved_on_screen {
            p
        } else {
            (LIST_DEFAULT, LIST_DEFAULT)
        },
        None => (LIST_DEFAULT, LIST_DEFAULT),
    }
}

// ---------------------------------------------------------------------
// What the windows show
// ---------------------------------------------------------------------

/// After a reconcile only the windows of the chosen mode remain: a change to
/// previews closes the list, a change to the list closes the previews, and
/// where nothing is shown, neither remains. Without a change both stay.
pub proof fn law_only_the_chosen_mode_remains(
    m: PreviewManager,
    live: LiveSettings,
    after: PreviewManager,
)
    requires
        m.reconciled(live, after),
    ensures
        !live.show_previews ==> after.previews.items().len() == 0 && !after.list
            && after.current_mode == m.current_mode,
        !live.show_previews && m.list ==> after.list_last_names@.len() == 0,
        live.show_previews ==> after.current_mode == live.display_mode,
        live.show_previews && live.display_mode != m.current_mode && live.display_mode
            == DisplayMode::Previews ==> !after.list && after.previews.items()
            == m.previews.items(),
        live.show_previews && live.display_mode != m.current_mode && live.display_mode
            == DisplayMode::List ==> after.previews.items().len() == 0 && after.list == m.list,
        live.show_previews && live.display_mode == m.current_mode ==> after.previews.items()
            == m.previews.items() && after.list == m.list,
        after.active_id == m.active_id,
        after.next_default_offset == m.next_default_offset,
        after.preview_width == m.preview_width,
        after.preview_height == m.preview_height,
        after.preview_opacity == m.preview_opacity,
{
}

/// A held window becomes a drag once the pointer is further than the threshold
/// from where it was pressed; a motion without a press is none.
pub proof fn law_drag_starts_beyond_the_threshold(
    drag: DragState,
    pointer: (i32, i32),
    locked: bool,
    threshold: int,
)
    ensures
        ({
            let a = after_motion(drag, pointer, locked, threshold);
            &&& a.active == drag.active
            &&& a.origin_screen == drag.origin_screen
            &&& a.origin_window == drag.origin_window
            &&& a.dragged == (drag.dragged || (drag.active && !locked && (pointer.0
                - drag.origin_screen.0 > threshold || drag.origin_screen.0 - pointer.0 > threshold
                || pointer.1 - drag.origin_screen.1 > threshold || drag.origin_screen.1
                - pointer.1 > threshold)))
        }),
{
}

/// The preview of the focused client is the active one, and no other, and it
/// is hidden exactly where the setting says so. Nothing else changes.
pub proof fn law_active_preview_is_the_focused_one(
    items: Seq<(Seq<char>, Preview)>,
    active: WindowId,
    hide_active: bool,
    i: int,
)
    requires
        0 <= i < items.len(),
    ensures
        ({
            let p = items[i].1;
            let v = all_visibility(all_active(items, active), hide_active)[i];
            &&& all_visibility(all_active(items, active), hide_active).len() == items.len()
            &&& v.0 == items[i].0
            &&& v.1.is_active == (p.source_id == active)
            &&& v.1.hidden == (hide_active && p.source_id == active)
            &&& v.1.window == p.window && v.1.source_id == p.source_id
        }),
{
}

/// What is shown or hidden is exactly what changes.
pub proof fn law_visibility_changes_are_the_changes(
    items: Seq<(Seq<char>, Preview)>,
    hide_active: bool,
    v: Visibility,
)
    ensures
        visibility_changes(items, hide_active).contains(v) == (exists|i: int|
            0 <= i < items.len() && (#[trigger] items[i]).1.window == v.window && v.hidden == (
            hide_active && items[i].1.is_active) && items[i].1.hidden != v.hidden),
    decreases items.len(),
{
    if items.len() > 0 {
        let front = items.drop_last();
        law_visibility_changes_are_the_changes(front, hide_active, v);
        let a = visibility_changes(front, hide_active);
        let b = visibility_changes(items, hide_active);
        assert forall|i: int| 0 <= i < front.len() implies front[i] == items[i] by {}
        if b.contains(v) {
            let k = choose|k: int| 0 <= k < b.len() && b[k] == v;
            if k < a.len() {
                assert(a[k] == v);
                let i = choose|i: int|
                    0 <= i < front.len() && (#[trigger] front[i]).1.window == v.window && v.hidden
                        == (hide_active && front[i].1.is_active) && front[i].1.hidden != v.hidden;
                assert(items[i] == front[i]);
            } else {
                assert(items[items.len() - 1] == items.last());
            }
        }
        if exists|i: int|
            0 <= i < items.len() && (#[trigger] items[i]).1.window == v.window && v.hidden == (
            hide_active && items[i].1.is_active) && items[i].1.hidden != v.hidden {
            let i = choose|i: int|
                0 <= i < items.len() && (#[trigger] items[i]).1.window == v.window && v.hidden
                    == (hide_active && items[i].1.is_active) && items[i].1.hidden != v.hidden;
            if i < front.len() {
                assert(front[i] == items[i]);
                let k = choose|k: int| 0 <= k < a.len() && a[k] == v;
                assert(b[k] == v);
            } else {
                assert(b[b.len() - 1] == v);
            }
        }
    }
}

/// The windows to paint after a change of focus are exactly those whose
/// preview was active and is no longer, or is now and was not.
pub proof fn law_focus_change_repaints_the_changed(
    items: Seq<(Seq<char>, Preview)>,
    active: WindowId,
    window: u64,
)
    ensures
        active_changes(items, active).contains(window) == (exists|i: int|
            0 <= i < items.len() && (#[trigger] items[i]).1.window == window
                && items[i].1.is_active != (items[i].1.source_id == active)),
    decreases items.len(),
{
    if items.len() > 0 {
        let front = items.drop_last();
        law_focus_change_repaints_the_changed(front, active, window);
        let a = active_changes(front, active);
        let b = active_changes(items, active);
        assert forall|i: int| 0 <= i < front.len() implies front[i] == items[i] by {}
        if b.contains(window) {
            let k = choose|k: int| 0 <= k < b.len() && b[k] == window;
            if k < a.len() {
                assert(a[k] == window);
                let i = choose|i: int|
                    0 <= i < front.len() && (#[trigger] front[i]).1.window == window
                        && front[i].1.is_active != (front[i].1.source_id == active);
                assert(items[i] == front[i]);
            } else {
                assert(items[items.len() - 1] == items.last());
            }
        }
        if exists|i: int|
            0 <= i < items.len() && (#[trigger] items[i]).1.window == window
                && items[i].1.is_active != (items[i].1.source_id == active) {
            let i = choose|i: int|
                0 <= i < items.len() && (#[trigger] items[i]).1.window == window
                    && items[i].1.is_active != (items[i].1.source_id == active);
            if i < front.len() {
                assert(front[i] == items[i]);
                let k = choose|k: int| 0 <= k < a.len() && a[k] == window;
                assert(b[k] == window);
            } else {
                assert(b[b.len() - 1] == window);
            }
        }
    }
}

/// A change of the foreground window reaches previews and list: the list is
/// painted anew where it is shown and the window is another one.
pub proof fn law_focus_reaches_the_list(
    m: PreviewManager,
    active: WindowId,
    hide_active: bool,
    r: ActiveChange,
    after: PreviewManager,
)
    requires
        m.activated(active, hide_active, r, after),
    ensures
        after.active_id == active,
        r.repaint_list == (m.list && active != m.active_id),
        after.list == m.list,
        after.current_mode == m.current_mode,
        after.next_default_offset == m.next_default_offset,
        after.previews.items().len() == m.previews.items().len(),
{
}

/// A window snaps to every other preview and not to itself.
pub proof fn law_others_are_all_but_the_dragged_one(
    items: Seq<(Seq<char>, Preview)>,
    exclude: u64,
    window: u64,
)
    ensures
        windows_but(items, exclude).contains(window) == (window != exclude && exists|i: int|
            0 <= i < items.len() && (#[trigger] items[i]).1.window == window),
    decreases items.len(),
{
    if items.len() > 0 {
        let front = items.drop_last();
        law_others_are_all_but_the_dragged_one(front, exclude, window);
        let a = windows_but(front, exclude);
        let b = windows_but(items, exclude);
        assert forall|i: int| 0 <= i < front.len() implies front[i] == items[i] by {}
        if b.contains(window) {
            let k = choose|k: int| 0 <= k < b.len() && b[k] == window;
            if k < a.len() {
                assert(a[k] == window);
                let i = choose|i: int|
                    0 <= i < front.len() && (#[trigger] front[i]).1.window == window;
                assert(items[i] == front[i]);
            } else {
                assert(items[items.len() - 1] == items.last());
            }
        }
        if window != exclude && exists|i: int|
            0 <= i < items.len() && (#[trigger] items[i]).1.window == window {
            let i = choose|i: int|
                0 <= i < items.len() && (#[trigger] items[i]).1.window == window;
            if i < front.len() {
                assert(front[i] == items[i]);
                let k = choose|k: int| 0 <= k < a.len() && a[k] == window;
                assert(b[k] == window);
            } else {
                assert(b[b.len() - 1] == window);
            }
        }
    }
}

/// New previews without a place go down the diagonal from ten pixels off the
/// corner, each 32 pixels further, and begin anew at the end.
pub proof fn law_new_previews_go_down_the_diagonal(
    m: PreviewManager,
    r: Placement,
    after: PreviewManager,
)
    requires
        m.wf(),
        m.placed_next(r, after),
    ensures
        r matches Placement::Diagonal(d) && d == 10 + m.next_default_offset,
        m.next_default_offset + 32 < 320 ==> after.next_default_offset == m.next_default_offset
            + 32,
        m.next_default_offset + 32 >= 320 ==> after.next_default_offset == m.next_default_offset
            + 32 - 320,
        after.previews == m.previews,
        after.active_id == m.active_id,
{
}

/// The list has room for the title, a row for each client and the padding, and
/// for one row where there is no client.
pub proof fn law_list_has_a_row_for_each(n: usize, title: int, row: int, padding: int)
    ensures
        n >= 1 && n < usize::MAX ==> list_height((n + 1) as usize, title, row, padding)
            == list_height(n, title, row, padding) + row,
        list_height(0, title, row, padding) == title + row + padding,
        list_height(1, title, row, padding) == title + row + padding,
{
    assert((n + 1) * row == n * row + row) by (nonlinear_arith);
}

} // verus!
