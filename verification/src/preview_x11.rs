//! The preview manager of X11 sessions: which preview windows there are, how
//! they are dragged, and what is painted when.
use vstd::prelude::*;
use crate::config::{DisplayMode, LiveSettings};
use crate::name_map;
use crate::name_map::NameMap;
use crate::preview_common;
use crate::preview_common::{
    DragRect, DragState, Reconcile, DRAG_THRESHOLD_PX, OFFSET_LIMIT, SNAP_THRESHOLD_PX,
};
use crate::render;
use crate::render::LIST_WIDTH;
use crate::text;
use crate::window_manager;

verus! {

/// How often the manager brings its windows in line with the settings.
pub const RECONCILE_INTERVAL_MS: u128 = 100;

/// The clients are looked up again when the last look is this long ago, for
/// those whose title names a character only after the login.
pub const WINDOW_SCAN_BACKSTOP_MS: u128 = 2000;

/// A frame that was handed over this long ago without a notification counts
/// as shown.
pub const STALE_PRESENT_MS: u128 = 200;

/// Size of a preview where the settings give none.
pub const PREVIEW_WIDTH: u16 = 480;

pub const PREVIEW_HEIGHT: u16 = 270;

/// How far from the screen's corner the diagonal of new previews begins.
pub const PREVIEW_BASE: i32 = 64;

/// Where the list appears when it has no saved position.
pub const LIST_DEFAULT: i32 = 100;

pub const NICOTINE_RED: (u8, u8, u8) = (196, 30, 58);

pub const CHROME_DARK: (u8, u8, u8) = (30, 30, 30);

pub const NICOTINE_CREAM: (u8, u8, u8) = (252, 250, 242);

pub const LIST_TEXT_BLACK: (u8, u8, u8) = (30, 30, 30);

pub const NICOTINE_GOLD: (u8, u8, u8) = (180, 155, 105);

/// A window of the manager's own on the screen.
#[derive(Debug, Clone, Copy)]
pub struct Surface {
    pub window: u32,
    pub x: i16,
    pub y: i16,
    pub width: u16,
    pub height: u16,
    pub drag: DragState,
    /// Whether the pointer is grabbed for the current drag.
    pub grabbed: bool,
}

/// The preview of one client.
#[derive(Debug, Clone, Copy)]
pub struct Preview {
    pub surface: Surface,
    /// The client's window.
    pub source_id: u32,
    /// The subscription to what the client draws.
    pub damage_id: u32,
    pub source_w: u16,
    pub source_h: u16,
    /// The client has drawn since the last frame.
    pub dirty: bool,
    pub is_active: bool,
    pub hidden: bool,
    /// A frame was handed over and is not yet known to be shown.
    pub present_in_flight: bool,
}

/// The window that lists the clients.
#[derive(Debug)]
pub struct ListWindow {
    pub surface: Surface,
    pub last_names: Vec<String>,
}

/// The preview manager's state.
#[derive(Debug)]
pub struct PreviewManager {
    /// The previews by character.
    pub previews: NameMap<Preview>,
    pub list_window: Option<ListWindow>,
    pub next_offset: i32,
    /// The foreground window, whosever it is.
    pub active_id: u32,
    /// The character of the foreground client.
    pub active_character: Option<String>,
    pub last_applied_size: (u16, u16),
    pub last_applied_opacity: u32,
    pub current_mode: DisplayMode,
    pub needs_window_scan: bool,
}

/// How a surface is looked up.
#[derive(Debug, Clone, Copy, PartialEq, Eq, Structural)]
pub enum Pick {
    Window(u32),
    Dragging,
    DraggingWindow(u32),
}

pub open spec fn picks(s: Surface, pick: Pick) -> bool {
    match pick {
        Pick::Window(w) => s.window == w,
        Pick::Dragging => s.drag.active,
        Pick::DraggingWindow(w) => s.window == w && s.drag.active,
    }
}

/// The first preview that is picked.
pub open spec fn first_picked(items: Seq<(Seq<char>, Preview)>, pick: Pick) -> Option<int>
    decreases items.len(),
{
    if items.len() == 0 {
        None
    } else {
        match first_picked(items.drop_last(), pick) {
            Some(i) => Some(i),
            None => if picks(items.last().1.surface, pick) {
                Some(items.len() - 1)
            } else {
                None
            },
        }
    }
}

/// Which surface an event is about.
#[derive(Debug, Clone, Copy, PartialEq, Eq, Structural)]
pub enum DragTarget {
    Preview(usize),
    List,
}

/// A position is one that the display server can hold.
pub open spec fn fits_i16(v: int) -> bool {
    i16::MIN <= v <= i16::MAX
}

/// Where a drag began is on the screen.
pub open spec fn drag_on_screen(s: Surface) -> bool {
    &&& fits_i16(s.drag.origin_screen.0 as int)
    &&& fits_i16(s.drag.origin_screen.1 as int)
    &&& fits_i16(s.drag.origin_window.0 as int)
    &&& fits_i16(s.drag.origin_window.1 as int)
}

/// The rectangle that a surface covers.
pub open spec fn rect_of(s: Surface) -> DragRect {
    DragRect {
        left: s.x as i32,
        top: s.y as i32,
        right: (s.x + s.width) as i32,
        bottom: (s.y + s.height) as i32,
    }
}

/// The rectangles of the previews, without the one at `skip`.
pub open spec fn preview_rects(items: Seq<(Seq<char>, Preview)>, skip: Option<int>) -> Seq<DragRect>
    decreases items.len(),
{
    if items.len() == 0 {
        Seq::empty()
    } else {
        let front = preview_rects(items.drop_last(), skip);
        if skip == Some(items.len() - 1) {
            front
        } else {
            front.push(rect_of(items.last().1.surface))
        }
    }
}

pub open spec fn clamped(v: int) -> i16 {
    if v < i16::MIN {
        i16::MIN
    } else if v > i16::MAX {
        i16::MAX
    } else {
        v as i16
    }
}

/// A window's new place.
#[derive(Debug, Clone, Copy, PartialEq, Eq, Structural)]
pub struct WindowMove {
    pub window: u32,
    pub x: i16,
    pub y: i16,
}

/// Where a surface goes when the pointer is at `pointer`: it follows the
/// pointer and snaps to the rectangles around it.
pub open spec fn dragged_to(s: Surface, pointer: (i32, i32), others: Seq<DragRect>) -> WindowMove {
    let p = preview_common::proposed(s.drag, pointer);
    WindowMove {
        window: s.window,
        x: clamped(
            preview_common::snapped(p.0, s.width as int, others, SNAP_THRESHOLD_PX as int, true),
        ),
        y: clamped(
            preview_common::snapped(p.1, s.height as int, others, SNAP_THRESHOLD_PX as int, false),
        ),
    }
}

/// The surface after a motion of the pointer that moved it.
pub open spec fn after_motion(s: Surface, to: WindowMove) -> Surface {
    Surface { x: to.x, y: to.y, drag: DragState { dragged: true, ..s.drag }, ..s }
}

/// The surface after a press on it.
pub open spec fn after_press(s: Surface, root: (i32, i32), grabbed: bool) -> Surface {
    Surface {
        drag: DragState {
            active: true,
            dragged: false,
            origin_screen: root,
            origin_window: (s.x as i32, s.y as i32),
        },
        grabbed,
        ..s
    }
}

/// The surface after the button was let go.
pub open spec fn after_release(s: Surface) -> Surface {
    Surface { drag: DragState { active: false, dragged: false, ..s.drag }, grabbed: false, ..s }
}

/// What is to be done when the button was let go.
#[derive(Debug, PartialEq, Eq)]
pub enum ReleaseAction {
    /// The character's preview was moved there.
    SavePosition(String, i32, i32),
    /// The list was moved there.
    SaveListPosition(i32, i32),
    /// The preview was clicked: this client comes to the foreground.
    Activate(u32),
    Nothing,
}

/// The end of a gesture.
#[derive(Debug, PartialEq, Eq)]
pub struct Release {
    pub ungrab: bool,
    pub action: ReleaseAction,
}

/// A preview that is to be mapped or unmapped.
#[derive(Debug, Clone, Copy, PartialEq, Eq, Structural)]
pub struct Visibility {
    pub window: u32,
    pub hidden: bool,
}

/// What changed with the foreground window.
#[derive(Debug)]
pub struct ActiveChange {
    /// The previews whose chrome changed.
    pub repaint: Vec<String>,
    pub visibility: Vec<Visibility>,
    pub repaint_list: bool,
}

/// A preview after its client became the foreground one, or is not any more.
pub open spec fn with_active(p: Preview, active: u32) -> Preview {
    Preview { is_active: p.source_id == active, ..p }
}

/// A preview after the setting was applied to it. Its content is lost when
/// it is shown again.
pub open spec fn with_visibility(p: Preview, hide_active: bool) -> Preview {
    let want = hide_active && p.is_active;
    Preview { hidden: want, dirty: p.dirty || (p.hidden && !want), ..p }
}

/// The items with each preview changed by `hide_active`.
pub open spec fn all_visibility(
    items: Seq<(Seq<char>, Preview)>,
    hide_active: bool,
) -> Seq<(Seq<char>, Preview)> {
    Seq::new(items.len(), |i: int| (items[i].0, with_visibility(items[i].1, hide_active)))
}

/// The items with each preview told the foreground window.
pub open spec fn all_active(items: Seq<(Seq<char>, Preview)>, active: u32) -> Seq<
    (Seq<char>, Preview),
> {
    Seq::new(items.len(), |i: int| (items[i].0, with_active(items[i].1, active)))
}

/// The previews that are mapped or unmapped for the setting.
pub open spec fn visibility_changes(items: Seq<(Seq<char>, Preview)>, hide_active: bool) -> Seq<
    Visibility,
>
    decreases items.len(),
{
    if items.len() == 0 {
        Seq::empty()
    } else {
        let front = visibility_changes(items.drop_last(), hide_active);
        let p = items.last().1;
        let want = hide_active && p.is_active;
        if want == p.hidden {
            front
        } else {
            front.push(Visibility { window: p.surface.window, hidden: want })
        }
    }
}

/// The characters whose preview is told otherwise than before.
pub open spec fn active_changes(items: Seq<(Seq<char>, Preview)>, active: u32) -> Seq<Seq<char>>
    decreases items.len(),
{
    if items.len() == 0 {
        Seq::empty()
    } else {
        let front = active_changes(items.drop_last(), active);
        if items.last().1.is_active == (items.last().1.source_id == active) {
            front
        } else {
            front.push(items.last().0)
        }
    }
}

/// The characters whose preview does not have the size.
pub open spec fn size_changes(items: Seq<(Seq<char>, Preview)>, w: u16, h: u16) -> Seq<Seq<char>>
    decreases items.len(),
{
    if items.len() == 0 {
        Seq::empty()
    } else {
        let front = size_changes(items.drop_last(), w, h);
        let s = items.last().1.surface;
        if s.width == w && s.height == h {
            front
        } else {
            front.push(items.last().0)
        }
    }
}

pub open spec fn with_size(p: Preview, w: u16, h: u16) -> Preview {
    Preview { surface: Surface { width: w, height: h, ..p.surface }, ..p }
}

pub open spec fn all_size(items: Seq<(Seq<char>, Preview)>, w: u16, h: u16) -> Seq<
    (Seq<char>, Preview),
> {
    Seq::new(items.len(), |i: int| (items[i].0, with_size(items[i].1, w, h)))
}

/// Whether a frame may be handed over: none is under way, or the last one's
/// notification is overdue.
pub open spec fn may_present(in_flight: bool, waited: Option<u128>) -> bool {
    !in_flight || match waited {
        Some(ms) => ms > STALE_PRESENT_MS,
        None => true,
    }
}

/// How long ago the last frame of a preview was handed over.
pub open spec fn waited_for(waited: Map<Seq<char>, u128>, name: Seq<char>) -> Option<u128> {
    if waited.contains_key(name) {
        Some(waited[name])
    } else {
        None
    }
}

/// The characters whose preview is to be painted by the frame clock.
pub open spec fn due(items: Seq<(Seq<char>, Preview)>, waited: Map<Seq<char>, u128>) -> Seq<
    Seq<char>,
>
    decreases items.len(),
{
    if items.len() == 0 {
        Seq::empty()
    } else {
        let front = due(items.drop_last(), waited);
        let p = items.last().1;
        if p.dirty && may_present(p.present_in_flight, waited_for(waited, items.last().0)) {
            front.push(items.last().0)
        } else {
            front
        }
    }
}

/// The first preview with the subscription.
pub open spec fn damaged(items: Seq<(Seq<char>, Preview)>, damage: u32) -> Option<int>
    decreases items.len(),
{
    if items.len() == 0 {
        None
    } else {
        match damaged(items.drop_last(), damage) {
            Some(i) => Some(i),
            None => if items.last().1.damage_id == damage {
                Some(items.len() - 1)
            } else {
                None
            },
        }
    }
}

proof fn lemma_damaged_stays(items: Seq<(Seq<char>, Preview)>, damage: u32, k: int)
    requires
        0 <= k <= items.len(),
    ensures
        damaged(items.take(k), damage) is Some ==> damaged(items, damage) == damaged(
            items.take(k),
            damage,
        ),
    decreases items.len() - k,
{
    if k == items.len() {
        assert(items.take(k) == items);
    } else {
        lemma_damaged_stays(items, damage, k + 1);
        assert(items.take(k + 1).drop_last() == items.take(k));
    }
}

/// The preview that has a frame to paint, and then whether it may be painted
/// now.
pub open spec fn marked_dirty(before: PreviewManager, i: int, after: PreviewManager) -> bool {
    let item = before.previews.items()[i];
    &&& after.previews.items() == before.previews.items().update(
        i,
        (item.0, Preview { dirty: true, ..item.1 }),
    )
    &&& after == PreviewManager { previews: after.previews, ..before }
}

/// What an exposed window asks for.
#[derive(Debug, PartialEq, Eq)]
pub enum Exposed {
    /// The character's preview is to be painted.
    Paint(String),
    /// The list is to be painted.
    PaintList,
    /// Nothing is to be painted now.
    Nothing,
}

proof fn lemma_first_picked_stays(items: Seq<(Seq<char>, Preview)>, pick: Pick, k: int)
    requires
        0 <= k <= items.len(),
    ensures
        first_picked(items.take(k), pick) is Some ==> first_picked(items, pick) == first_picked(
            items.take(k),
            pick,
        ),
    decreases items.len() - k,
{
    if k == items.len() {
        assert(items.take(k) == items);
    } else {
        lemma_first_picked_stays(items, pick, k + 1);
        assert(items.take(k + 1).drop_last() == items.take(k));
    }
}

/// What is picked is one of the previews, and picked.
pub proof fn lemma_first_picked(items: Seq<(Seq<char>, Preview)>, pick: Pick)
    ensures
        first_picked(items, pick) matches Some(i) ==> 0 <= i < items.len() && picks(
            items[i].1.surface,
            pick,
        ),
        first_picked(items, pick) is None ==> forall|k: int|
            0 <= k < items.len() ==> !picks((#[trigger] items[k]).1.surface, pick),
    decreases items.len(),
{
    if items.len() > 0 {
        lemma_first_picked(items.drop_last(), pick);
        if first_picked(items, pick) is None {
            assert forall|k: int| 0 <= k < items.len() implies !picks(
                (#[trigger] items[k]).1.surface,
                pick,
            ) by {
                if k < items.len() - 1 {
                    assert(items.drop_last()[k] == items[k]);
                }
            }
        }
    }
}

impl Surface {
    fn is_picked(&self, pick: Pick) -> (r: bool)
        ensures
            r == picks(*self, pick),
    {
        match pick {
            Pick::Window(w) => self.window == w,
            Pick::Dragging => self.drag.active,
            Pick::DraggingWindow(w) => self.window == w && self.drag.active,
        }
    }

    fn rect(&self) -> (r: DragRect)
        ensures
            r == rect_of(*self),
    {
        DragRect {
            left: self.x as i32,
            top: self.y as i32,
            right: self.x as i32 + self.width as i32,
            bottom: self.y as i32 + self.height as i32,
        }
    }
}

fn clamp(v: i32) -> (r: i16)
    ensures
        r == clamped(v as int),
{
    if v < i16::MIN as i32 {
        i16::MIN
    } else if v > i16::MAX as i32 {
        i16::MAX
    } else {
        v as i16
    }
}

impl PreviewManager {
    pub open spec fn wf(&self) -> bool {
        &&& 0 <= self.next_offset < OFFSET_LIMIT
        &&& forall|i: int|
            0 <= i < self.previews.items().len() ==> drag_on_screen(
                (#[trigger] self.previews.items()[i]).1.surface,
            )
        &&& self.list_window matches Some(l) ==> drag_on_screen(l.surface)
    }

    /// The surface that is picked: a preview before the list.
    pub open spec fn picked(&self, pick: Pick) -> Option<DragTarget> {
        match first_picked(self.previews.items(), pick) {
            Some(i) => Some(DragTarget::Preview(i as usize)),
            None => match self.list_window {
                Some(l) => if picks(l.surface, pick) {
                    Some(DragTarget::List)
                } else {
                    None
                },
                None => None,
            },
        }
    }

    /// The target is there.
    pub open spec fn has_target(&self, target: DragTarget) -> bool {
        match target {
            DragTarget::Preview(i) => i < self.previews.items().len(),
            DragTarget::List => self.list_window is Some,
        }
    }

    pub open spec fn surface(&self, target: DragTarget) -> Surface
        recommends
            self.has_target(target),
    {
        match target {
            DragTarget::Preview(i) => self.previews.items()[i as int].1.surface,
            DragTarget::List => self.list_window->Some_0.surface,
        }
    }

    /// The rectangles of the other surfaces.
    pub open spec fn other_rects(&self, target: DragTarget) -> Seq<DragRect> {
        match target {
            DragTarget::Preview(i) => {
                let rects = preview_rects(self.previews.items(), Some(i as int));
                match self.list_window {
                    Some(l) => rects.push(rect_of(l.surface)),
                    None => rects,
                }
            },
            DragTarget::List => preview_rects(self.previews.items(), None),
        }
    }

    /// `after` is `self` with the target's surface replaced.
    pub open spec fn replaced(&self, target: DragTarget, s: Surface, after: PreviewManager) -> bool {
        match target {
            DragTarget::Preview(i) => {
                let item = self.previews.items()[i as int];
                &&& after.previews.items() == self.previews.items().update(
                    i as int,
                    (item.0, Preview { surface: s, ..item.1 }),
                )
                &&& after == PreviewManager { previews: after.previews, ..*self }
            },
            DragTarget::List => after == (PreviewManager {
                list_window: Some(ListWindow { surface: s, ..self.list_window->Some_0 }),
                ..*self
            }),
        }
    }

    /// A manager without windows that has yet to look for clients.
    pub fn new(active_id: u32, mode: DisplayMode) -> (r: Self)
        ensures
            r.wf(),
            r.previews.items() == Seq::<(Seq<char>, Preview)>::empty(),
            r.list_window is None,
            r.next_offset == 0,
            r.active_id == active_id,
            r.active_character is None,
            r.last_applied_size == (0u16, 0u16),
            r.last_applied_opacity == 0,
            r.current_mode == mode,
            r.needs_window_scan,
    {
        PreviewManager {
            previews: NameMap::new(),
            list_window: None,
            next_offset: 0,
            active_id,
            active_character: None,
            last_applied_size: (0, 0),
            last_applied_opacity: 0,
            current_mode: mode,
            needs_window_scan: true,
        }
    }

    fn find_preview(&self, pick: Pick) -> (r: Option<usize>)
        ensures
            r matches Some(i) ==> i < self.previews.items().len() && first_picked(
                self.previews.items(),
                pick,
            ) == Some(i as int),
            r is None ==> first_picked(self.previews.items(), pick) is None,
    {
        let ghost items = self.previews.items();
        let n: usize = self.previews.len();
        let mut i: usize = 0;
        assert(items.take(0) == Seq::<(Seq<char>, Preview)>::empty());
        while i < n
            invariant
                i <= n == items.len(),
                items == self.previews.items(),
                first_picked(items.take(i as int), pick) is None,
            decreases n - i,
        {
            proof {
                assert(items.take(i + 1).drop_last() == items.take(i as int));
                assert(items.take(i + 1).last() == items[i as int]);
                lemma_first_picked_stays(items, pick, i + 1);
            }
            if self.previews.value_at(i).surface.is_picked(pick) {
                return Some(i);
            }
            i = i + 1;
        }
        assert(items.take(i as int) == items);
        None
    }

    fn find_target(&self, pick: Pick) -> (r: Option<DragTarget>)
        ensures
            r == self.picked(pick),
            r matches Some(t) ==> self.has_target(t) && picks(self.surface(t), pick),
    {
        proof {
            lemma_first_picked(self.previews.items(), pick);
        }
        match self.find_preview(pick) {
            Some(i) => Some(DragTarget::Preview(i)),
            None => match &self.list_window {
                Some(l) => if l.surface.is_picked(pick) {
                    Some(DragTarget::List)
                } else {
                    None
                },
                None => None,
            },
        }
    }

    fn surface_of(&self, target: DragTarget) -> (r: Surface)
        requires
            self.has_target(target),
        ensures
            r == self.surface(target),
    {
        match target {
            DragTarget::Preview(i) => self.previews.value_at(i).surface,
            DragTarget::List => match &self.list_window {
                Some(l) => l.surface,
                None => Surface {
                    window: 0,
                    x: 0,
                    y: 0,
                    width: 0,
                    height: 0,
                    drag: DragState::default(),
                    grabbed: false,
                },
            },
        }
    }

    fn replace_surface(&mut self, target: DragTarget, s: Surface)
        requires
            old(self).has_target(target),
        ensures
            old(self).replaced(target, s, *final(self)),
            old(self).wf() && drag_on_screen(s) ==> final(self).wf(),
    {
        match target {
            DragTarget::Preview(i) => {
                let mut p: Preview = *self.previews.value_at(i);
                p.surface = s;
                self.previews.set_value_at(i, p);
            },
            DragTarget::List => {
                if let Some(l) = self.list_window.take() {
                    self.list_window = Some(ListWindow { surface: s, last_names: l.last_names });
                }
            },
        }
    }

    /// The rectangles of the windows that a dragged one can snap to: all but
    /// its own.
    pub fn collect_other_rects(&self, dragged: DragTarget) -> (r: Vec<DragRect>)
        requires
            self.has_target(dragged),
        ensures
            r@ == self.other_rects(dragged),
    {
        let ghost items = self.previews.items();
        let ghost skip: Option<int> = match dragged {
            DragTarget::Preview(k) => Some(k as int),
            DragTarget::List => None,
        };
        let mut rects: Vec<DragRect> = Vec::new();
        let n: usize = self.previews.len();
        let mut i: usize = 0;
        assert(items.take(0) == Seq::<(Seq<char>, Preview)>::empty());
        while i < n
            invariant
                i <= n == items.len(),
                items == self.previews.items(),
                skip == (match dragged {
                    DragTarget::Preview(k) => Some(k as int),
                    DragTarget::List => None::<int>,
                }),
                rects@ == preview_rects(items.take(i as int), skip),
            decreases n - i,
        {
            proof {
                assert(items.take(i + 1).drop_last() == items.take(i as int));
                assert(items.take(i + 1).last() == items[i as int]);
            }
            let own: bool = match dragged {
                DragTarget::Preview(k) => k == i,
                DragTarget::List => false,
            };
            if !own {
                rects.push(self.previews.value_at(i).surface.rect());
            }
            i = i + 1;
        }
        assert(items.take(i as int) == items);
        if let DragTarget::Preview(_) = dragged {
            if let Some(l) = &self.list_window {
                rects.push(l.surface.rect());
            }
        }
        rects
    }

    /// Whether a press begins a gesture, and then whether the pointer is to
    /// be grabbed for it. Only the left button on a window of the manager's
    /// counts, and nothing is grabbed while positions are locked.
    pub fn press(&self, detail: u8, window: u32, positions_locked: bool) -> (r: Option<bool>)
        ensures
            r == (if detail == 1 && self.picked(Pick::Window(window)) is Some {
                Some(!positions_locked)
            } else {
                None
            }),
    {
        if detail != 1 {
            return None;
        }
        match self.find_target(Pick::Window(window)) {
            Some(_) => Some(!positions_locked),
            None => None,
        }
    }

    /// Begins a gesture on a window of the manager's with the pointer at the
    /// given place.
    pub fn begin_drag(&mut self, window: u32, root_x: i16, root_y: i16, grabbed: bool)
        requires
            old(self).wf(),
        ensures
            final(self).wf(),
            match old(self).picked(Pick::Window(window)) {
                Some(t) => old(self).replaced(
                    t,
                    after_press(old(self).surface(t), (root_x as i32, root_y as i32), grabbed),
                    *final(self),
                ),
                None => *final(self) == *old(self),
            },
    {
        if let Some(t) = self.find_target(Pick::Window(window)) {
            let mut s: Surface = self.surface_of(t);
            s.drag = DragState::press(
                (root_x as i32, root_y as i32),
                (s.x as i32, s.y as i32),
            );
            s.grabbed = grabbed;
            self.replace_surface(t, s);
        }
    }

    /// The surface that a motion of the pointer moves, and where to: the one
    /// that is dragged, unless positions are locked or the pointer is still
    /// near where it was pressed.
    pub open spec fn moved(&self, pointer: (i32, i32), locked: bool) -> Option<
        (DragTarget, WindowMove),
    > {
        match self.picked(Pick::Dragging) {
            Some(t) => if !locked && preview_common::crossed(
                self.surface(t).drag,
                pointer,
                DRAG_THRESHOLD_PX as int,
            ) {
                Some((t, dragged_to(self.surface(t), pointer, self.other_rects(t))))
            } else {
                None
            },
            None => None,
        }
    }

    /// Moves the dragged window after the pointer.
    pub fn motion(&mut self, root_x: i16, root_y: i16, positions_locked: bool) -> (r: Option<
        WindowMove,
    >)
        requires
            old(self).wf(),
        ensures
            final(self).wf(),
            match old(self).moved((root_x as i32, root_y as i32), positions_locked) {
                Some(m) => r == Some(m.1) && old(self).replaced(
                    m.0,
                    after_motion(old(self).surface(m.0), m.1),
                    *final(self),
                ),
                None => r is None && *final(self) == *old(self),
            },
    {
        if positions_locked {
            return None;
        }
        let pointer: (i32, i32) = (root_x as i32, root_y as i32);
        match self.find_target(Pick::Dragging) {
            Some(t) => {
                let mut s: Surface = self.surface_of(t);
                assert(drag_on_screen(s));
                if !s.drag.has_crossed(pointer, DRAG_THRESHOLD_PX) {
                    return None;
                }
                let others: Vec<DragRect> = self.collect_other_rects(t);
                let ghost p = preview_common::proposed(s.drag, pointer);
                proof {
                    preview_common::law_snap_moves_little(
                        p.0,
                        s.width as int,
                        others@,
                        SNAP_THRESHOLD_PX as int,
                        true,
                    );
                    preview_common::law_snap_moves_little(
                        p.1,
                        s.height as int,
                        others@,
                        SNAP_THRESHOLD_PX as int,
                        false,
                    );
                }
                let (x, y): (i32, i32) = s.drag.target(
                    pointer,
                    s.width as i32,
                    s.height as i32,
                    others.as_slice(),
                    SNAP_THRESHOLD_PX,
                );
                let to: WindowMove = WindowMove { window: s.window, x: clamp(x), y: clamp(y) };
                s.x = to.x;
                s.y = to.y;
                s.drag.dragged = true;
                self.replace_surface(t, s);
                Some(to)
            },
            None => None,
        }
    }

    /// What the end of a gesture on a surface asks for.
    pub open spec fn release_of(&self, target: DragTarget, r: Release) -> bool {
        let s = self.surface(target);
        &&& r.ungrab == s.grabbed
        &&& match target {
            DragTarget::Preview(i) => if s.drag.dragged {
                &&& r.action matches ReleaseAction::SavePosition(name, x, y)
                &&& name@ == self.previews.items()[i as int].0
                &&& x == s.x
                &&& y == s.y
            } else {
                r.action == ReleaseAction::Activate(self.previews.items()[i as int].1.source_id)
            },
            DragTarget::List => if s.drag.dragged {
                r.action == ReleaseAction::SaveListPosition(s.x as i32, s.y as i32)
            } else {
                r.action == ReleaseAction::Nothing
            },
        }
    }

    /// Ends the gesture on a window: a drag keeps the new position, a click
    /// on a preview brings its client to the foreground, and a click on the
    /// list does nothing.
    pub fn release(&mut self, detail: u8, window: u32) -> (r: Option<Release>)
        requires
            old(self).wf(),
        ensures
            final(self).wf(),
            match old(self).picked(Pick::DraggingWindow(window)) {
                Some(t) => if detail == 1 {
                    (r matches Some(e) && old(self).release_of(t, e)) && old(self).replaced(
                        t,
                        after_release(old(self).surface(t)),
                        *final(self),
                    )
                } else {
                    r is None && *final(self) == *old(self)
                },
                None => r is None && *final(self) == *old(self),
            },
    {
        if detail != 1 {
            return None;
        }
        match self.find_target(Pick::DraggingWindow(window)) {
            Some(t) => {
                let s: Surface = self.surface_of(t);
                assert(drag_on_screen(s));
                let action: ReleaseAction = match t {
                    DragTarget::Preview(i) => if s.drag.dragged {
                        ReleaseAction::SavePosition(
                            self.previews.name_at(i).clone(),
                            s.x as i32,
                            s.y as i32,
                        )
                    } else {
                        ReleaseAction::Activate(self.previews.value_at(i).source_id)
                    },
                    DragTarget::List => if s.drag.dragged {
                        ReleaseAction::SaveListPosition(s.x as i32, s.y as i32)
                    } else {
                        ReleaseAction::Nothing
                    },
                };
                let mut after: Surface = s;
                after.drag = s.drag.released();
                after.grabbed = false;
                self.replace_surface(t, after);
                Some(Release { ungrab: s.grabbed, action })
            },
            None => None,
        }
    }

    /// The windows after the settings were read: none while they are not
    /// shown, else those of the chosen mode.
    pub open spec fn reconciled(&self, live: LiveSettings, after: PreviewManager) -> bool {
        let empty = Seq::<(Seq<char>, Preview)>::empty();
        if !live.show_previews {
            &&& after.previews.items() == empty
            &&& after == PreviewManager { previews: after.previews, list_window: None, ..*self }
        } else {
            let scan = self.previews.items().len() == 0 && self.list_window is None;
            let switched = live.display_mode != self.current_mode;
            &&& after.previews.items() == (if switched && live.display_mode == DisplayMode::List {
                empty
            } else {
                self.previews.items()
            })
            &&& after == PreviewManager {
                previews: after.previews,
                list_window: if switched && live.display_mode == DisplayMode::Previews {
                    None
                } else {
                    self.list_window
                },
                current_mode: live.display_mode,
                needs_window_scan: self.needs_window_scan || scan,
                ..*self
            }
        }
    }

    /// Tears down the windows that are not wanted any more and says which
    /// mode's windows come next. When nothing is shown yet, clients are
    /// looked up again.
    pub fn reconcile(&mut self, live: &LiveSettings) -> (r: Reconcile)
        requires
            old(self).wf(),
        ensures
            final(self).wf(),
            old(self).reconciled(*live, *final(self)),
            r == (if !live.show_previews {
                Reconcile::Hidden
            } else {
                match live.display_mode {
                    DisplayMode::Previews => Reconcile::Previews,
                    DisplayMode::List => Reconcile::List,
                }
            }),
    {
        if !live.show_previews {
            self.previews = NameMap::new();
            self.list_window = None;
            return Reconcile::Hidden;
        }
        if self.previews.len() == 0 && self.list_window.is_none() {
            self.needs_window_scan = true;
        }
        if live.display_mode != self.current_mode {
            match live.display_mode {
                DisplayMode::Previews => {
                    self.list_window = None;
                },
                DisplayMode::List => {
                    self.previews = NameMap::new();
                },
            }
            self.current_mode = live.display_mode;
        }
        match live.display_mode {
            DisplayMode::Previews => Reconcile::Previews,
            DisplayMode::List => Reconcile::List,
        }
    }

    /// The windows of the clients changed, or one of them is gone: clients
    /// are to be looked up again.
    pub fn request_scan(&mut self)
        ensures
            *final(self) == (PreviewManager { needs_window_scan: true, ..*old(self) }),
    {
        self.needs_window_scan = true;
    }

    /// Whether clients are to be looked up now, `since_scan` milliseconds
    /// after the last time.
    pub fn begin_scan(&mut self, since_scan: u128) -> (r: bool)
        ensures
            r == (old(self).needs_window_scan || since_scan >= WINDOW_SCAN_BACKSTOP_MS),
            *final(self) == (PreviewManager { needs_window_scan: r, ..*old(self) }),
    {
        if since_scan >= WINDOW_SCAN_BACKSTOP_MS {
            self.needs_window_scan = true;
        }
        self.needs_window_scan
    }

    /// Drops the previews of characters without a client.
    pub fn retain_live(&mut self, characters: &Vec<String>)
        requires
            old(self).wf(),
        ensures
            final(self).wf(),
            final(self).previews.items() == name_map::kept(
                old(self).previews.items(),
                text::views(characters@),
            ),
            *final(self) == (PreviewManager { previews: final(self).previews, ..*old(self) }),
    {
        let ghost items = self.previews.items();
        self.previews.retain_names(characters);
        proof {
            name_map::lemma_kept(items, text::views(characters@));
            let after = self.previews.items();
            assert forall|i: int| 0 <= i < after.len() implies drag_on_screen(
                (#[trigger] after[i]).1.surface,
            ) by {
                let k = choose|k: int| 0 <= k < items.len() && items[k] == after[i];
                assert(drag_on_screen(items[k].1.surface));
            }
        }
    }

    /// Whether a preview of the client's window is to be made. One of
    /// another window of the same character is dropped first.
    pub fn offer(&mut self, source_id: u32, character: &str) -> (r: bool)
        requires
            old(self).wf(),
        ensures
            final(self).wf(),
            r == !(old(self).previews@.contains_key(character@)
                && old(self).previews@[character@].source_id == source_id),
            r ==> final(self).previews@ == old(self).previews@.remove(character@),
            !r ==> final(self).previews.items() == old(self).previews.items(),
            *final(self) == (PreviewManager { previews: final(self).previews, ..*old(self) }),
    {
        match self.previews.get(character) {
            Some(p) => {
                if p.source_id == source_id {
                    return false;
                }
            },
            None => {
                proof {
                    assert(self.previews@.remove(character@) =~= self.previews@);
                }
                return true;
            },
        }
        let ghost items = self.previews.items();
        self.previews.remove(character);
        proof {
            let after = self.previews.items();
            let at = name_map::index_of_name(items, character@);
            assert forall|i: int| 0 <= i < after.len() implies drag_on_screen(
                (#[trigger] after[i]).1.surface,
            ) by {
                let k = if i < at {
                    i
                } else {
                    i + 1
                };
                assert(after[i] == items[k]);
            }
        }
        true
    }

    /// The clients have been looked up.
    pub fn finish_scan(&mut self)
        ensures
            *final(self) == (PreviewManager { needs_window_scan: false, ..*old(self) }),
    {
        self.needs_window_scan = false;
    }

    /// Where a new preview goes: to its saved position if that is on screen,
    /// else to the next place on the diagonal.
    pub fn place(&mut self, saved: Option<(i32, i32)>, saved_on_screen: bool) -> (r: (i32, i32))
        requires
            old(self).wf(),
        ensures
            final(self).wf(),
            saved is Some && saved_on_screen ==> Some(r) == saved && *final(self) == *old(self),
            !(saved is Some && saved_on_screen) ==> r == (
                (PREVIEW_BASE + old(self).next_offset) as i32,
                (PREVIEW_BASE + old(self).next_offset) as i32,
            ) && *final(self) == (PreviewManager {
                next_offset: preview_common::next_offset_after(
                    old(self).next_offset as int,
                ) as i32,
                ..*old(self)
            }),
    {
        let mut offset: i32 = self.next_offset;
        let r: (i32, i32) = preview_common::initial_position(
            saved,
            saved_on_screen,
            PREVIEW_BASE,
            &mut offset,
        );
        self.next_offset = offset;
        r
    }

    /// Adds a preview that was just made. It has a frame to paint, and is
    /// active if its client is in the foreground.
    pub fn insert(
        &mut self,
        character: String,
        window: u32,
        source: (u32, u16, u16),
        damage_id: u32,
        at: (i32, i32),
        size: (u16, u16),
    )
        requires
            old(self).wf(),
        ensures
            final(self).wf(),
            final(self).previews@ == old(self).previews@.insert(
                character@,
                Preview {
                    surface: Surface {
                        window,
                        x: at.0 as i16,
                        y: at.1 as i16,
                        width: size.0,
                        height: size.1,
                        drag: DragState {
                            active: false,
                            dragged: false,
                            origin_screen: (0i32, 0i32),
                            origin_window: (0i32, 0i32),
                        },
                        grabbed: false,
                    },
                    source_id: source.0,
                    damage_id,
                    source_w: source.1,
                    source_h: source.2,
                    dirty: true,
                    is_active: source.0 == old(self).active_id,
                    hidden: false,
                    present_in_flight: false,
                },
            ),
            *final(self) == (PreviewManager { previews: final(self).previews, ..*old(self) }),
    {
        let preview: Preview = Preview {
            surface: Surface {
                window,
                x: #[verifier::truncate]
                (at.0 as i16),
                y: #[verifier::truncate]
                (at.1 as i16),
                width: size.0,
                height: size.1,
                drag: DragState::default(),
                grabbed: false,
            },
            source_id: source.0,
            damage_id,
            source_w: source.1,
            source_h: source.2,
            dirty: true,
            is_active: source.0 == self.active_id,
            hidden: false,
            present_in_flight: false,
        };
        self.previews.insert(character, preview);
    }

    /// The windows of the manager's own, previews before the list.
    pub open spec fn own_windows(&self) -> Seq<u32> {
        let items = self.previews.items();
        let ws = Seq::new(items.len(), |i: int| items[i].1.surface.window);
        match self.list_window {
            Some(l) => ws.push(l.surface.window),
            None => ws,
        }
    }

    /// The windows that are put above all others.
    pub fn restack_topmost(&self) -> (r: Vec<u32>)
        ensures
            r@ == self.own_windows(),
    {
        let n: usize = self.previews.len();
        let mut out: Vec<u32> = Vec::new();
        let mut i: usize = 0;
        while i < n
            invariant
                i <= n == self.previews.items().len(),
                out@.len() == i,
                forall|k: int|
                    0 <= k < i ==> out@[k] == (#[trigger] self.previews.items()[k]).1.surface.window,
            decreases n - i,
        {
            out.push(self.previews.value_at(i).surface.window);
            i = i + 1;
        }
        if let Some(l) = &self.list_window {
            out.push(l.surface.window);
        }
        out
    }

    /// Whether a window is one of the manager's own.
    pub fn is_our_window(&self, window: u32) -> (r: bool)
        ensures
            r == (self.picked(Pick::Window(window)) is Some),
    {
        self.find_target(Pick::Window(window)).is_some()
    }

    /// Hides the preview of the active client, where the setting says so, and
    /// shows the others. Says which windows are mapped or unmapped.
    pub fn apply_active_visibility(&mut self, hide_active: bool) -> (r: Vec<Visibility>)
        requires
            old(self).wf(),
        ensures
            final(self).wf(),
            r@ == visibility_changes(old(self).previews.items(), hide_active),
            final(self).previews.items() == all_visibility(
                old(self).previews.items(),
                hide_active,
            ),
            *final(self) == (PreviewManager { previews: final(self).previews, ..*old(self) }),
    {
        let ghost items = self.previews.items();
        let n: usize = self.previews.len();
        let mut out: Vec<Visibility> = Vec::new();
        let mut i: usize = 0;
        assert(items.take(0) == Seq::<(Seq<char>, Preview)>::empty());
        while i < n
            invariant
                i <= n == items.len(),
                items == old(self).previews.items(),
                self.previews.items() == all_visibility(items, hide_active).take(i as int)
                    + items.skip(i as int),
                out@ == visibility_changes(items.take(i as int), hide_active),
                *self == (PreviewManager { previews: self.previews, ..*old(self) }),
            decreases n - i,
        {
            proof {
                assert(items.take(i + 1).drop_last() == items.take(i as int));
                assert(items.take(i + 1).last() == items[i as int]);
                assert(self.previews.items()[i as int] == items[i as int]);
            }
            let mut p: Preview = *self.previews.value_at(i);
            let want: bool = preview_common::preview_should_hide(hide_active, p.is_active);
            if want != p.hidden {
                p.hidden = want;
                if !want {
                    p.dirty = true;
                }
                out.push(Visibility { window: p.surface.window, hidden: want });
            }
            let ghost before = self.previews.items();
            self.previews.set_value_at(i, p);
            proof {
                assert(self.previews.items() == before.update(i as int, (items[i as int].0, p)));
                assert(p == with_visibility(items[i as int].1, hide_active));
                assert(self.previews.items() =~= all_visibility(items, hide_active).take(i + 1)
                    + items.skip(i + 1));
            }
            i = i + 1;
        }
        assert(items.take(i as int) == items);
        assert(self.previews.items() =~= all_visibility(items, hide_active));
        assert(self.wf()) by {
            assert forall|k: int| 0 <= k < items.len() implies drag_on_screen(
                (#[trigger] self.previews.items()[k]).1.surface,
            ) by {
                assert(drag_on_screen(items[k].1.surface));
            }
        }
        out
    }

    /// The foreground client's character: none where the foreground window
    /// is no client's or there is none.
    pub open spec fn active_name(active: u32, title: Option<Seq<char>>) -> Option<Seq<char>> {
        match title {
            Some(t) => if active == 0 {
                None
            } else {
                window_manager::character_of_title(t)
            },
            None => None,
        }
    }

    /// The foreground window is told to have changed, but to another window
    /// or another character.
    pub open spec fn active_differs(&self, active: u32, title: Option<Seq<char>>) -> bool {
        &&& self.picked(Pick::Window(active)) is None
        &&& !(active == self.active_id && Self::active_name(active, title)
            == self.active_character_view())
    }

    pub open spec fn active_character_view(&self) -> Option<Seq<char>> {
        match self.active_character {
            Some(s) => Some(s@),
            None => None,
        }
    }

    /// Takes over the foreground window and its title. The manager's own
    /// windows do not count, nor does what is known already. Otherwise says
    /// what is to be painted, mapped and unmapped.
    pub fn update_active(&mut self, active: u32, title: Option<&str>, hide_active: bool) -> (r:
        Option<ActiveChange>)
        requires
            old(self).wf(),
        ensures
            final(self).wf(),
            ({
                let t = match title {
                    Some(t) => Some(t@),
                    None => None,
                };
                let items = all_active(old(self).previews.items(), active);
                if old(self).active_differs(active, t) {
                    &&& r matches Some(c)
                    &&& text::views(c.repaint@) == active_changes(
                        old(self).previews.items(),
                        active,
                    )
                    &&& c.visibility@ == visibility_changes(items, hide_active)
                    &&& c.repaint_list == (old(self).current_mode == DisplayMode::List)
                    &&& final(self).previews.items() == all_visibility(items, hide_active)
                    &&& final(self).active_id == active
                    &&& final(self).active_character_view() == Self::active_name(active, t)
                    &&& *final(self) == (PreviewManager {
                        previews: final(self).previews,
                        active_id: final(self).active_id,
                        active_character: final(self).active_character,
                        ..*old(self)
                    })
                } else {
                    r is None && *final(self) == *old(self)
                }
            }),
    {
        if self.is_our_window(active) {
            return None;
        }
        let name: Option<String> = match title {
            Some(t) => if active == 0 {
                None
            } else {
                window_manager::character_name(t)
            },
            None => None,
        };
        let same_name: bool = match (&name, &self.active_character) {
            (Some(a), Some(b)) => text::same(a.as_str(), b.as_str()),
            (None, None) => true,
            _ => false,
        };
        if active == self.active_id && same_name {
            return None;
        }
        self.active_id = active;
        self.active_character = name;
        let repaint: Vec<String> = self.flip_active(active);
        let visibility: Vec<Visibility> = self.apply_active_visibility(hide_active);
        let repaint_list: bool = match self.current_mode {
            DisplayMode::List => true,
            DisplayMode::Previews => false,
        };
        Some(ActiveChange { repaint, visibility, repaint_list })
    }

    fn flip_active(&mut self, active: u32) -> (r: Vec<String>)
        requires
            old(self).wf(),
        ensures
            final(self).wf(),
            text::views(r@) == active_changes(old(self).previews.items(), active),
            final(self).previews.items() == all_active(old(self).previews.items(), active),
            *final(self) == (PreviewManager { previews: final(self).previews, ..*old(self) }),
    {
        let ghost items = self.previews.items();
        let n: usize = self.previews.len();
        let mut out: Vec<String> = Vec::new();
        let mut i: usize = 0;
        assert(items.take(0) == Seq::<(Seq<char>, Preview)>::empty());
        assert(text::views(out@) =~= Seq::<Seq<char>>::empty());
        while i < n
            invariant
                i <= n == items.len(),
                items == old(self).previews.items(),
                self.previews.items() == all_active(items, active).take(i as int) + items.skip(
                    i as int,
                ),
                text::views(out@) == active_changes(items.take(i as int), active),
                *self == (PreviewManager { previews: self.previews, ..*old(self) }),
            decreases n - i,
        {
            proof {
                assert(items.take(i + 1).drop_last() == items.take(i as int));
                assert(items.take(i + 1).last() == items[i as int]);
                assert(self.previews.items()[i as int] == items[i as int]);
            }
            let mut p: Preview = *self.previews.value_at(i);
            let now: bool = p.source_id == active;
            if now != p.is_active {
                let ghost before = text::views(out@);
                out.push(self.previews.name_at(i).clone());
                assert(text::views(out@) =~= before.push(items[i as int].0));
                p.is_active = now;
            }
            let ghost before = self.previews.items();
            self.previews.set_value_at(i, p);
            proof {
                assert(self.previews.items() == before.update(i as int, (items[i as int].0, p)));
                assert(p == with_active(items[i as int].1, active));
                assert(self.previews.items() =~= all_active(items, active).take(i + 1)
                    + items.skip(i + 1));
            }
            i = i + 1;
        }
        assert(items.take(i as int) == items);
        assert(self.previews.items() =~= all_active(items, active));
        assert(self.wf()) by {
            assert forall|k: int| 0 <= k < items.len() implies drag_on_screen(
                (#[trigger] self.previews.items()[k]).1.surface,
            ) by {
                assert(drag_on_screen(items[k].1.surface));
            }
        }
        out
    }

    /// The opacity to give all previews, where the setting changed.
    pub fn apply_live_opacity(&mut self, want: u32) -> (r: Option<u32>)
        ensures
            r == (if want == old(self).last_applied_opacity {
                None
            } else {
                Some(render::opacity_cardinal(want) as u32)
            }),
            *final(self) == (PreviewManager { last_applied_opacity: want, ..*old(self) }),
    {
        if want == self.last_applied_opacity {
            return None;
        }
        self.last_applied_opacity = want;
        Some(render::opacity_to_cardinal(want))
    }

    /// The characters whose preview is to be resized, and the size, where
    /// the setting changed. Sizes are taken modulo 65536, and one without
    /// area does not count.
    pub fn apply_live_size(&mut self, width: u32, height: u32) -> (r: Option<
        (u16, u16, Vec<String>),
    >)
        requires
            old(self).wf(),
        ensures
            final(self).wf(),
            ({
                let w = width as u16;
                let h = height as u16;
                if w == 0 || h == 0 || (w, h) == old(self).last_applied_size {
                    r is None && *final(self) == *old(self)
                } else {
                    &&& r matches Some(c)
                    &&& c.0 == w
                    &&& c.1 == h
                    &&& text::views(c.2@) == size_changes(old(self).previews.items(), w, h)
                    &&& final(self).previews.items() == all_size(old(self).previews.items(), w, h)
                    &&& *final(self) == (PreviewManager {
                        previews: final(self).previews,
                        last_applied_size: (w, h),
                        ..*old(self)
                    })
                }
            }),
    {
        let w: u16 = #[verifier::truncate]
        (width as u16);
        let h: u16 = #[verifier::truncate]
        (height as u16);
        if w == 0 || h == 0 {
            return None;
        }
        if w == self.last_applied_size.0 && h == self.last_applied_size.1 {
            return None;
        }
        self.last_applied_size = (w, h);
        let names: Vec<String> = self.resize_all(w, h);
        Some((w, h, names))
    }

    fn resize_all(&mut self, w: u16, h: u16) -> (r: Vec<String>)
        requires
            old(self).wf(),
        ensures
            final(self).wf(),
            text::views(r@) == size_changes(old(self).previews.items(), w, h),
            final(self).previews.items() == all_size(old(self).previews.items(), w, h),
            *final(self) == (PreviewManager { previews: final(self).previews, ..*old(self) }),
    {
        let ghost items = self.previews.items();
        let n: usize = self.previews.len();
        let mut out: Vec<String> = Vec::new();
        let mut i: usize = 0;
        assert(items.take(0) == Seq::<(Seq<char>, Preview)>::empty());
        assert(text::views(out@) =~= Seq::<Seq<char>>::empty());
        while i < n
            invariant
                i <= n == items.len(),
                items == old(self).previews.items(),
                self.previews.items() == all_size(items, w, h).take(i as int) + items.skip(
                    i as int,
                ),
                text::views(out@) == size_changes(items.take(i as int), w, h),
                *self == (PreviewManager { previews: self.previews, ..*old(self) }),
            decreases n - i,
        {
            proof {
                assert(items.take(i + 1).drop_last() == items.take(i as int));
                assert(items.take(i + 1).last() == items[i as int]);
                assert(self.previews.items()[i as int] == items[i as int]);
            }
            let mut p: Preview = *self.previews.value_at(i);
            if p.surface.width != w || p.surface.height != h {
                let ghost before = text::views(out@);
                out.push(self.previews.name_at(i).clone());
                assert(text::views(out@) =~= before.push(items[i as int].0));
                p.surface.width = w;
                p.surface.height = h;
            }
            let ghost before = self.previews.items();
            self.previews.set_value_at(i, p);
            proof {
                assert(self.previews.items() == before.update(i as int, (items[i as int].0, p)));
                assert(p == with_size(items[i as int].1, w, h));
                assert(self.previews.items() =~= all_size(items, w, h).take(i + 1) + items.skip(
                    i + 1,
                ));
            }
            i = i + 1;
        }
        assert(items.take(i as int) == items);
        assert(self.previews.items() =~= all_size(items, w, h));
        assert(self.wf()) by {
            assert forall|k: int| 0 <= k < items.len() implies drag_on_screen(
                (#[trigger] self.previews.items()[k]).1.surface,
            ) by {
                assert(drag_on_screen(items[k].1.surface));
            }
        }
        out
    }

    fn mark_dirty(&mut self, i: usize)
        requires
            old(self).wf(),
            i < old(self).previews.items().len(),
        ensures
            final(self).wf(),
            marked_dirty(*old(self), i as int, *final(self)),
    {
        let ghost items = self.previews.items();
        let mut p: Preview = *self.previews.value_at(i);
        p.dirty = true;
        self.previews.set_value_at(i, p);
        assert(drag_on_screen(items[i as int].1.surface));
    }

    /// Whether a frame of a preview may be handed over now, `waited` being
    /// how long ago the last one was.
    fn can_present(&self, i: usize, waited: &NameMap<u128>) -> (r: bool)
        requires
            i < self.previews.items().len(),
        ensures
            r == may_present(
                self.previews.items()[i as int].1.present_in_flight,
                waited_for(waited@, self.previews.items()[i as int].0),
            ),
    {
        if !self.previews.value_at(i).present_in_flight {
            return true;
        }
        match waited.get(self.previews.name_at(i).as_str()) {
            Some(ms) => *ms > STALE_PRESENT_MS,
            None => true,
        }
    }

    /// The preview at `i` has a frame to paint: it is painted now if one may
    /// be handed over.
    pub open spec fn paints(&self, i: int, waited: Map<Seq<char>, u128>) -> bool {
        may_present(
            self.previews.items()[i].1.present_in_flight,
            waited_for(waited, self.previews.items()[i].0),
        )
    }

    fn find_damaged(&self, damage: u32) -> (r: Option<usize>)
        ensures
            r matches Some(i) ==> i < self.previews.items().len() && damaged(
                self.previews.items(),
                damage,
            ) == Some(i as int),
            r is None ==> damaged(self.previews.items(), damage) is None,
    {
        let ghost items = self.previews.items();
        let n: usize = self.previews.len();
        let mut i: usize = 0;
        assert(items.take(0) == Seq::<(Seq<char>, Preview)>::empty());
        while i < n
            invariant
                i <= n == items.len(),
                items == self.previews.items(),
                damaged(items.take(i as int), damage) is None,
            decreases n - i,
        {
            proof {
                assert(items.take(i + 1).drop_last() == items.take(i as int));
                assert(items.take(i + 1).last() == items[i as int]);
                lemma_damaged_stays(items, damage, i + 1);
            }
            if self.previews.value_at(i).damage_id == damage {
                return Some(i);
            }
            i = i + 1;
        }
        assert(items.take(i as int) == items);
        None
    }

    /// The client of the subscription has drawn: its preview has a frame to
    /// paint. The character, where it is painted at once; while a frame is
    /// under way it is only marked.
    pub fn on_damage(&mut self, damage: u32, waited: &NameMap<u128>) -> (r: Option<String>)
        requires
            old(self).wf(),
        ensures
            final(self).wf(),
            match damaged(old(self).previews.items(), damage) {
                Some(i) => {
                    &&& marked_dirty(*old(self), i, *final(self))
                    &&& r is Some == old(self).paints(i, waited@)
                    &&& r matches Some(name) ==> name@ == old(self).previews.items()[i].0
                },
                None => r is None && *final(self) == *old(self),
            },
    {
        match self.find_damaged(damage) {
            Some(i) => {
                let now: bool = self.can_present(i, waited);
                self.mark_dirty(i);
                if now {
                    Some(self.previews.name_at(i).clone())
                } else {
                    None
                }
            },
            None => None,
        }
    }

    /// A window's content was lost: a preview is painted as after its client
    /// drew, the list at once.
    pub fn on_expose(&mut self, window: u32, waited: &NameMap<u128>) -> (r: Exposed)
        requires
            old(self).wf(),
        ensures
            final(self).wf(),
            match old(self).picked(Pick::Window(window)) {
                Some(DragTarget::Preview(i)) => {
                    &&& marked_dirty(*old(self), i as int, *final(self))
                    &&& if old(self).paints(i as int, waited@) {
                        r matches Exposed::Paint(name) && name@
                            == old(self).previews.items()[i as int].0
                    } else {
                        r == Exposed::Nothing
                    }
                },
                Some(DragTarget::List) => r == Exposed::PaintList && *final(self) == *old(self),
                None => r == Exposed::Nothing && *final(self) == *old(self),
            },
    {
        match self.find_target(Pick::Window(window)) {
            Some(DragTarget::Preview(i)) => {
                let now: bool = self.can_present(i, waited);
                self.mark_dirty(i);
                if now {
                    Exposed::Paint(self.previews.name_at(i).clone())
                } else {
                    Exposed::Nothing
                }
            },
            Some(DragTarget::List) => Exposed::PaintList,
            None => Exposed::Nothing,
        }
    }

    /// The frame of a preview was shown. The character, where another frame
    /// is waiting to be painted.
    pub fn on_complete(&mut self, window: u32) -> (r: Option<String>)
        requires
            old(self).wf(),
        ensures
            final(self).wf(),
            match old(self).picked(Pick::Window(window)) {
                Some(DragTarget::Preview(i)) => {
                    let item = old(self).previews.items()[i as int];
                    &&& final(self).previews.items() == old(self).previews.items().update(
                        i as int,
                        (item.0, Preview { present_in_flight: false, ..item.1 }),
                    )
                    &&& *final(self) == (PreviewManager {
                        previews: final(self).previews,
                        ..*old(self)
                    })
                    &&& r is Some == item.1.dirty
                    &&& r matches Some(name) ==> name@ == item.0
                },
                _ => r is None && *final(self) == *old(self),
            },
    {
        match self.find_target(Pick::Window(window)) {
            Some(DragTarget::Preview(i)) => {
                let ghost items = self.previews.items();
                let mut p: Preview = *self.previews.value_at(i);
                p.present_in_flight = false;
                self.previews.set_value_at(i, p);
                assert(drag_on_screen(items[i as int].1.surface));
                if p.dirty {
                    Some(self.previews.name_at(i).clone())
                } else {
                    None
                }
            },
            _ => None,
        }
    }

    /// A preview's look changed: it has a frame to paint. Whether it is
    /// painted now.
    pub fn request_paint(&mut self, character: &str, waited: &NameMap<u128>) -> (r: bool)
        requires
            old(self).wf(),
        ensures
            final(self).wf(),
            name_map::has_name(old(self).previews.items(), character@) ==> ({
                let i = name_map::index_of_name(old(self).previews.items(), character@);
                marked_dirty(*old(self), i, *final(self)) && r == old(self).paints(i, waited@)
            }),
            !name_map::has_name(old(self).previews.items(), character@) ==> !r && *final(self)
                == *old(self),
    {
        match self.previews.position(character) {
            Some(i) => {
                let now: bool = self.can_present(i, waited);
                self.mark_dirty(i);
                now
            },
            None => false,
        }
    }

    /// A frame of a preview was handed over.
    pub fn painted(&mut self, character: &str)
        requires
            old(self).wf(),
        ensures
            final(self).wf(),
            name_map::has_name(old(self).previews.items(), character@) ==> ({
                let i = name_map::index_of_name(old(self).previews.items(), character@);
                let item = old(self).previews.items()[i];
                final(self).previews.items() == old(self).previews.items().update(
                    i,
                    (item.0, Preview { dirty: false, present_in_flight: true, ..item.1 }),
                )
            }),
            !name_map::has_name(old(self).previews.items(), character@)
                ==> final(self).previews.items() == old(self).previews.items(),
            *final(self) == (PreviewManager { previews: final(self).previews, ..*old(self) }),
    {
        if let Some(i) = self.previews.position(character) {
            let ghost items = self.previews.items();
            let mut p: Preview = *self.previews.value_at(i);
            p.dirty = false;
            p.present_in_flight = true;
            self.previews.set_value_at(i, p);
            assert(drag_on_screen(items[i as int].1.surface));
        }
    }

    /// The characters whose preview the frame clock paints: those with a
    /// frame to paint, where one may be handed over.
    pub fn repaint_thumbnails(&self, waited: &NameMap<u128>) -> (r: Vec<String>)
        ensures
            text::views(r@) == due(self.previews.items(), waited@),
    {
        let ghost items = self.previews.items();
        let n: usize = self.previews.len();
        let mut out: Vec<String> = Vec::new();
        let mut i: usize = 0;
        assert(items.take(0) == Seq::<(Seq<char>, Preview)>::empty());
        assert(text::views(out@) =~= Seq::<Seq<char>>::empty());
        while i < n
            invariant
                i <= n == items.len(),
                items == self.previews.items(),
                text::views(out@) == due(items.take(i as int), waited@),
            decreases n - i,
        {
            proof {
                assert(items.take(i + 1).drop_last() == items.take(i as int));
                assert(items.take(i + 1).last() == items[i as int]);
            }
            if self.previews.value_at(i).dirty && self.can_present(i, waited) {
                let ghost before = text::views(out@);
                out.push(self.previews.name_at(i).clone());
                assert(text::views(out@) =~= before.push(items[i as int].0));
            }
            i = i + 1;
        }
        assert(items.take(i as int) == items);
        out
    }

    /// Adds the list that was just made, for `count` clients.
    pub fn open_list(&mut self, window: u32, at: (i32, i32), count: usize)
        requires
            old(self).wf(),
            render::list_height(count) <= u16::MAX,
        ensures
            final(self).wf(),
            final(self).list_window matches Some(l) && l.last_names@.len() == 0 && l.surface == (
            Surface {
                window,
                x: at.0 as i16,
                y: at.1 as i16,
                width: LIST_WIDTH,
                height: render::list_height(count) as u16,
                drag: DragState {
                    active: false,
                    dragged: false,
                    origin_screen: (0i32, 0i32),
                    origin_window: (0i32, 0i32),
                },
                grabbed: false,
            }),
            *final(self) == (PreviewManager { list_window: final(self).list_window, ..*old(self) }),
    {
        self.list_window = Some(
            ListWindow {
                surface: Surface {
                    window,
                    x: #[verifier::truncate]
                    (at.0 as i16),
                    y: #[verifier::truncate]
                    (at.1 as i16),
                    width: LIST_WIDTH,
                    height: render::list_window_height(count),
                    drag: DragState::default(),
                    grabbed: false,
                },
                last_names: Vec::new(),
            },
        );
    }

    /// Takes over the characters that the list shows. None where there is no
    /// list or it shows them already; otherwise the rows are made anew, and
    /// the list gets the new height that is returned, if it changed.
    pub fn update_list_rows(&mut self, names: &Vec<String>) -> (r: Option<Option<u16>>)
        requires
            old(self).wf(),
            render::list_height(names@.len() as usize) <= u16::MAX,
        ensures
            final(self).wf(),
            match old(self).list_window {
                Some(l) => if text::views(l.last_names@) == text::views(names@) {
                    r is None && *final(self) == *old(self)
                } else {
                    let height = render::list_height(names@.len() as usize) as u16;
                    &&& r == Some(
                        if height == l.surface.height {
                            None
                        } else {
                            Some(height)
                        },
                    )
                    &&& final(self).list_window matches Some(after)
                    &&& after.surface == (Surface { height, ..l.surface })
                    &&& text::views(after.last_names@) == text::views(names@)
                    &&& *final(self) == (PreviewManager {
                        list_window: final(self).list_window,
                        ..*old(self)
                    })
                },
                None => r is None && *final(self) == *old(self),
            },
    {
        let unchanged: bool = match &self.list_window {
            Some(l) => text::same_all(&l.last_names, names),
            None => true,
        };
        if unchanged {
            return None;
        }
        let height: u16 = render::list_window_height(names.len());
        match self.list_window.take() {
            Some(l) => {
                let resize: Option<u16> = if height == l.surface.height {
                    None
                } else {
                    Some(height)
                };
                let mut s: Surface = l.surface;
                s.height = height;
                self.list_window = Some(
                    ListWindow { surface: s, last_names: text::copy_all(names) },
                );
                Some(resize)
            },
            None => None,
        }
    }

    /// Whether the row of a character is that of the foreground client.
    pub fn is_active_row(&self, name: &str) -> (r: bool)
        ensures
            r == (self.active_character_view() == Some(name@)),
    {
        match &self.active_character {
            Some(a) => text::same(a.as_str(), name),
            None => false,
        }
    }
}

/// Where the list appears: at its saved position if that is on screen.
pub fn list_position(saved: Option<(i32, i32)>, saved_on_screen: bool) -> (r: (i32, i32))
    ensures
        saved is Some && saved_on_screen ==> Some(r) == saved,
        !(saved is Some && saved_on_screen) ==> r == (LIST_DEFAULT, LIST_DEFAULT),
{
    match saved {
        Some(p) => if saved_on_screen {
            p
        } else {
            (LIST_DEFAULT, LIST_DEFAULT)
        },
        None => (LIST_DEFAULT, LIST_DEFAULT),
    }
}

/// The size of a new preview: that of the settings, each side modulo 65536,
/// and the default where a side is zero.
pub fn initial_size(width: u32, height: u32) -> (r: (u16, u16))
    ensures
        r.0 == (if width as u16 == 0 {
            PREVIEW_WIDTH
        } else {
            width as u16
        }),
        r.1 == (if height as u16 == 0 {
            PREVIEW_HEIGHT
        } else {
            height as u16
        }),
{
    let w: u16 = #[verifier::truncate]
    (width as u16);
    let h: u16 = #[verifier::truncate]
    (height as u16);
    (
        if w == 0 {
            PREVIEW_WIDTH
        } else {
            w
        },
        if h == 0 {
            PREVIEW_HEIGHT
        } else {
            h
        },
    )
}

/// Whether a client's window can be shown in a preview.
pub fn has_area(width: u16, height: u16) -> (r: bool)
    ensures
        r == (width > 0 && height > 0),
{
    width != 0 && height != 0
}

/// The texts of a character's row: as the active one, and as another.
pub fn row_texts(name: &str) -> (r: (String, String))
    ensures
        r.0@ == "▸ "@ + name@,
        r.1@ == "  "@ + name@,
{
    (text::joined("▸ ", name), text::joined("  ", name))
}

/// The color of a preview's chrome.
pub fn chrome_color(is_active: bool) -> (r: (u8, u8, u8))
    ensures
        r == (if is_active {
            NICOTINE_RED
        } else {
            CHROME_DARK
        }),
{
    if is_active {
        NICOTINE_RED
    } else {
        CHROME_DARK
    }
}

/// A window that is dragged does not snap to itself: where it is does not
/// matter for where it goes.
pub proof fn law_own_place_does_not_matter(
    m: PreviewManager,
    moved: PreviewManager,
    target: DragTarget,
    s: Surface,
)
    requires
        m.has_target(target),
        m.replaced(target, s, moved),
    ensures
        moved.other_rects(target) == m.other_rects(target),
{
    match target {
        DragTarget::Preview(i) => {
            lemma_skipped_rect(m.previews.items(), moved.previews.items(), i as int);
        },
        DragTarget::List => {},
    }
}

proof fn lemma_skipped_rect(a: Seq<(Seq<char>, Preview)>, b: Seq<(Seq<char>, Preview)>, i: int)
    requires
        a.len() == b.len(),
        forall|k: int| 0 <= k < a.len() && k != i ==> a[k] == b[k],
    ensures
        preview_rects(a, Some(i)) == preview_rects(b, Some(i)),
    decreases a.len(),
{
    if a.len() > 0 {
        lemma_skipped_rect(a.drop_last(), b.drop_last(), i);
    }
}

/// A press that is let go before the pointer went far is a click: no motion
/// in between moves the preview, and its client comes to the foreground.
pub proof fn law_small_motion_is_a_click(
    m: PreviewManager,
    pointer: (i32, i32),
    locked: bool,
    target: DragTarget,
    r: Release,
)
    requires
        m.picked(Pick::Dragging) == Some(target),
        !preview_common::crossed(m.surface(target).drag, pointer, DRAG_THRESHOLD_PX as int),
        !m.surface(target).drag.dragged,
        m.release_of(target, r),
    ensures
        m.moved(pointer, locked) is None,
        target matches DragTarget::Preview(i) ==> r.action == ReleaseAction::Activate(
            m.previews.items()[i as int].1.source_id,
        ),
        target == DragTarget::List ==> r.action == ReleaseAction::Nothing,
{
}

/// While a frame is under way and its notification not overdue, none is
/// handed over.
pub proof fn law_one_frame_at_a_time(
    items: Seq<(Seq<char>, Preview)>,
    waited: Map<Seq<char>, u128>,
    i: int,
)
    requires
        0 <= i < items.len(),
        name_map::distinct_names(items),
        items[i].1.present_in_flight,
        waited.contains_key(items[i].0),
        waited[items[i].0] <= STALE_PRESENT_MS,
    ensures
        !due(items, waited).contains(items[i].0),
        !may_present(items[i].1.present_in_flight, waited_for(waited, items[i].0)),
    decreases items.len(),
{
    let front = items.drop_last();
    if i < items.len() - 1 {
        assert(front[i] == items[i]);
        law_one_frame_at_a_time(front, waited, i);
        assert(items[i].0 != items.last().0);
        if due(items, waited).contains(items[i].0) {
            let k = choose|k: int|
                0 <= k < due(items, waited).len() && due(items, waited)[k] == items[i].0;
            if k < due(front, waited).len() {
                assert(due(front, waited)[k] == items[i].0);
            }
        }
    } else {
        lemma_due_is_named(front, waited);
        if due(items, waited).contains(items[i].0) {
            let k = choose|k: int|
                0 <= k < due(items, waited).len() && due(items, waited)[k] == items[i].0;
            assert(due(front, waited)[k] == items[i].0);
            let j = choose|j: int|
                0 <= j < front.len() && #[trigger] front[j].0 == due(front, waited)[k];
            assert(items[j].0 == items[i].0);
        }
    }
}

proof fn lemma_due_is_named(items: Seq<(Seq<char>, Preview)>, waited: Map<Seq<char>, u128>)
    ensures
        forall|k: int|
            0 <= k < due(items, waited).len() ==> exists|j: int|
                0 <= j < items.len() && #[trigger] items[j].0 == #[trigger] due(items, waited)[k],
    decreases items.len(),
{
    if items.len() > 0 {
        let front = items.drop_last();
        lemma_due_is_named(front, waited);
        assert forall|k: int| 0 <= k < due(items, waited).len() implies exists|j: int|
            0 <= j < items.len() && #[trigger] items[j].0 == #[trigger] due(items, waited)[k] by {
            if k < due(front, waited).len() {
                assert(due(items, waited)[k] == due(front, waited)[k]);
                let j = choose|j: int|
                    0 <= j < front.len() && #[trigger] front[j].0 == due(front, waited)[k];
                assert(items[j].0 == due(items, waited)[k]);
            } else {
                assert(items[items.len() - 1].0 == due(items, waited)[k]);
            }
        }
    }
}

/// After the setting was applied, the previews that are hidden are those of
/// the active client, and only where it says so.
pub proof fn law_visibility_follows_setting(
    items: Seq<(Seq<char>, Preview)>,
    hide_active: bool,
    i: int,
)
    requires
        0 <= i < items.len(),
    ensures
        all_visibility(items, hide_active)[i].1.hidden == (hide_active && items[i].1.is_active),
        visibility_changes(all_visibility(items, hide_active), hide_active).len() == 0,
{
    lemma_no_more_changes(items, hide_active);
}

proof fn lemma_no_more_changes(items: Seq<(Seq<char>, Preview)>, hide_active: bool)
    ensures
        visibility_changes(all_visibility(items, hide_active), hide_active).len() == 0,
    decreases items.len(),
{
    if items.len() > 0 {
        lemma_no_more_changes(items.drop_last(), hide_active);
        assert(all_visibility(items, hide_active).drop_last() =~= all_visibility(
            items.drop_last(),
            hide_active,
        ));
    }
}

// ---------------------------------------------------------------------
// What the windows show
// ---------------------------------------------------------------------

/// After a reconcile only the windows of the chosen mode remain: a change to
/// previews closes the list, a change to the list closes the previews, and
/// where nothing is shown, neither remains. Without a change both stay.
pub proof fn law_only_the_chosen_mode_remains(
    m: PreviewManager,
    live: LiveSettings,
    after: PreviewManager,
)
    requires
        m.reconciled(live, after),
    ensures
        !live.show_previews ==> after.previews.items().len() == 0 && after.list_window is None
            && after.current_mode == m.current_mode,
        live.show_previews ==> after.current_mode == live.display_mode,
        live.show_previews && live.display_mode != m.current_mode && live.display_mode
            == DisplayMode::Previews ==> after.list_window is None && after.previews.items()
            == m.previews.items(),
        live.show_previews && live.display_mode != m.current_mode && live.display_mode
            == DisplayMode::List ==> after.previews.items().len() == 0 && after.list_window
            == m.list_window,
        live.show_previews && live.display_mode == m.current_mode ==> after.previews.items()
            == m.previews.items() && after.list_window == m.list_window,
        live.show_previews && m.previews.items().len() == 0 && m.list_window is None
            ==> after.needs_window_scan,
        m.needs_window_scan ==> after.needs_window_scan,
        after.next_offset == m.next_offset,
        after.active_id == m.active_id,
        after.active_character == m.active_character,
        after.last_applied_size == m.last_applied_size,
        after.last_applied_opacity == m.last_applied_opacity,
{
}

/// An event on a window goes to the preview or the list that the window
/// belongs to, and to nothing where it belongs to neither. A motion goes to
/// the one that is being dragged.
pub proof fn law_event_goes_to_its_window(m: PreviewManager, window: u32)
    requires
        m.previews.items().len() <= usize::MAX,
    ensures
        match m.picked(Pick::Window(window)) {
            Some(DragTarget::Preview(i)) => i < m.previews.items().len()
                && m.previews.items()[i as int].1.surface.window == window,
            Some(DragTarget::List) => (m.list_window matches Some(l) && l.surface.window == window)
                && forall|k: int|
                0 <= k < m.previews.items().len() ==> (
                #[trigger] m.previews.items()[k]).1.surface.window != window,
            None => (m.list_window matches Some(l) ==> l.surface.window != window) && forall|k: int|
                0 <= k < m.previews.items().len() ==> (
                #[trigger] m.previews.items()[k]).1.surface.window != window,
        },
        match m.picked(Pick::Dragging) {
            Some(DragTarget::Preview(i)) => i < m.previews.items().len()
                && m.previews.items()[i as int].1.surface.drag.active,
            Some(DragTarget::List) => m.list_window matches Some(l) && l.surface.drag.active,
            None => (m.list_window matches Some(l) ==> !l.surface.drag.active) && forall|k: int|
                0 <= k < m.previews.items().len() ==> !(
                #[trigger] m.previews.items()[k]).1.surface.drag.active,
        },
        match m.picked(Pick::DraggingWindow(window)) {
            Some(DragTarget::Preview(i)) => i < m.previews.items().len()
                && m.previews.items()[i as int].1.surface.drag.active
                && m.previews.items()[i as int].1.surface.window == window,
            Some(DragTarget::List) => m.list_window matches Some(l) && l.surface.drag.active
                && l.surface.window == window,
            None => (m.list_window matches Some(l) ==> !(l.surface.drag.active && l.surface.window
                == window)) && forall|k: int|
                0 <= k < m.previews.items().len() ==> !((
                #[trigger] m.previews.items()[k]).1.surface.drag.active
                    && m.previews.items()[k].1.surface.window == window),
        },
{
    lemma_first_picked(m.previews.items(), Pick::Window(window));
    lemma_first_picked(m.previews.items(), Pick::Dragging);
    lemma_first_picked(m.previews.items(), Pick::DraggingWindow(window));
    let items = m.previews.items();
    assert(forall|k: int|
        0 <= k < items.len() ==> picks(items[k].1.surface, Pick::Window(window)) == (
        #[trigger] items[k].1.surface.window == window));
}

/// A press remembers where the pointer and the window are and moves nothing.
pub proof fn law_press_moves_nothing(s: Surface, root: (i32, i32), grabbed: bool)
    ensures
        ({
            let a = after_press(s, root, grabbed);
            &&& a.drag.active && !a.drag.dragged
            &&& a.drag.origin_screen == root
            &&& a.drag.origin_window.0 == s.x && a.drag.origin_window.1 == s.y
            &&& a.x == s.x && a.y == s.y
            &&& a.width == s.width && a.height == s.height
            &&& a.window == s.window
            &&& a.grabbed == grabbed
        }),
{
}

/// A motion drags the window that is held, unless positions are locked or the
/// pointer is within four pixels of where it was pressed on both axes.
pub proof fn law_drag_starts_beyond_four_pixels(
    m: PreviewManager,
    pointer: (i32, i32),
    locked: bool,
    target: DragTarget,
)
    requires
        m.picked(Pick::Dragging) == Some(target),
    ensures
        ({
            let origin = m.surface(target).drag.origin_screen;
            m.moved(pointer, locked) is Some == (!locked && (pointer.0 - origin.0 > 4 || origin.0
                - pointer.0 > 4 || pointer.1 - origin.1 > 4 || origin.1 - pointer.1 > 4))
        }),
        m.moved(pointer, locked) matches Some(to) ==> to.0 == target && to.1.window == m.surface(
            target,
        ).window,
{
}

/// A dragged window goes with the pointer: away from other windows exactly as
/// far, and near them at most twelve pixels off, on each axis.
pub proof fn law_dragged_window_goes_with_the_pointer(
    s: Surface,
    pointer: (i32, i32),
    others: Seq<DragRect>,
)
    ensures
        ({
            let to = dragged_to(s, pointer, others);
            let x = s.drag.origin_window.0 + (pointer.0 - s.drag.origin_screen.0);
            let y = s.drag.origin_window.1 + (pointer.1 - s.drag.origin_screen.1);
            &&& to.window == s.window
            &&& i16::MIN + 12 <= x <= i16::MAX - 12 ==> -12 <= to.x - x <= 12
            &&& i16::MIN + 12 <= y <= i16::MAX - 12 ==> -12 <= to.y - y <= 12
            &&& others.len() == 0 && i16::MIN <= x <= i16::MAX ==> to.x == x
            &&& others.len() == 0 && i16::MIN <= y <= i16::MAX ==> to.y == y
        }),
        ({
            let to = dragged_to(s, pointer, others);
            let after = after_motion(s, to);
            &&& after.x == to.x && after.y == to.y
            &&& after.drag.dragged && after.drag.active == s.drag.active
            &&& after.drag.origin_screen == s.drag.origin_screen
            &&& after.drag.origin_window == s.drag.origin_window
            &&& after.window == s.window && after.width == s.width && after.height == s.height
        }),
{
    let p = preview_common::proposed(s.drag, pointer);
    preview_common::law_snap_moves_little(p.0, s.width as int, others, 12, true);
    preview_common::law_snap_moves_little(p.1, s.height as int, others, 12, false);
}

/// A release of a window that was dragged saves where it is now, under its own
/// name; a release of one that was not is a click, which activates the
/// client. The gesture is over either way, and the window stays.
pub proof fn law_release_saves_or_activates(
    m: PreviewManager,
    target: DragTarget,
    r: Release,
)
    requires
        m.release_of(target, r),
        m.has_target(target),
    ensures
        r.ungrab == m.surface(target).grabbed,
        target matches DragTarget::Preview(i) ==> ({
            let item = m.previews.items()[i as int];
            if item.1.surface.drag.dragged {
                r.action matches ReleaseAction::SavePosition(name, x, y) && name@ == item.0 && x
                    == item.1.surface.x && y == item.1.surface.y
            } else {
                r.action == ReleaseAction::Activate(item.1.source_id)
            }
        }),
        target == DragTarget::List ==> (m.list_window matches Some(l) && if l.surface.drag.dragged {
            r.action matches ReleaseAction::SaveListPosition(x, y) && x == l.surface.x && y
                == l.surface.y
        } else {
            r.action == ReleaseAction::Nothing
        }),
        ({
            let s = m.surface(target);
            let after = after_release(s);
            &&& !after.drag.active && !after.drag.dragged && !after.grabbed
            &&& after.x == s.x && after.y == s.y && after.width == s.width && after.height
                == s.height && after.window == s.window
        }),
{
}

proof fn lemma_rects_of_the_others(items: Seq<(Seq<char>, Preview)>, skip: Option<int>, k: int)
    requires
        0 <= k < items.len(),
        skip != Some(k),
    ensures
        preview_rects(items, skip).contains(rect_of(items[k].1.surface)),
    decreases items.len(),
{
    let front = items.drop_last();
    let all = preview_rects(items, skip);
    let rs = preview_rects(front, skip);
    if k == items.len() - 1 {
        assert(all[rs.len() as int] == rect_of(items[k].1.surface));
    } else {
        lemma_rects_of_the_others(front, skip, k);
        let i = choose|i: int| 0 <= i < rs.len() && rs[i] == rect_of(front[k].1.surface);
        assert(all[i] == rs[i]);
    }
}

proof fn lemma_rect_count(items: Seq<(Seq<char>, Preview)>, skip: Option<int>)
    ensures
        preview_rects(items, skip).len() == items.len() - (if skip matches Some(i) && 0 <= i
            < items.len() {
            1int
        } else {
            0
        }),
    decreases items.len(),
{
    if items.len() > 0 {
        lemma_rect_count(items.drop_last(), skip);
    }
}

/// A window snaps to every other window of ours and not to itself: the others
/// are there with the places that they have.
pub proof fn law_others_are_all_but_the_dragged_one(m: PreviewManager, target: DragTarget, k: int)
    requires
        m.has_target(target),
        0 <= k < m.previews.items().len(),
    ensures
        target != DragTarget::Preview(k as usize) || k > usize::MAX ==> ({
            let s = m.previews.items()[k].1.surface;
            exists|i: int|
                0 <= i < m.other_rects(target).len() && ({
                    let r = #[trigger] m.other_rects(target)[i];
                    r.left == s.x && r.top == s.y && r.right == s.x + s.width && r.bottom == s.y
                        + s.height
                })
        }),
        target is Preview ==> m.other_rects(target).len() == m.previews.items().len() - 1 + (
        if m.list_window is Some {
            1int
        } else {
            0
        }),
        target is List ==> m.other_rects(target).len() == m.previews.items().len(),
        target is Preview && m.list_window is Some ==> ({
            let r = m.other_rects(target).last();
            let s = m.list_window->Some_0.surface;
            r.left == s.x && r.top == s.y && r.right == s.x + s.width && r.bottom == s.y + s.height
        }),
{
    let items = m.previews.items();
    let skip = match target {
        DragTarget::Preview(i) => Some(i as int),
        DragTarget::List => None,
    };
    lemma_rect_count(items, skip);
    if target != DragTarget::Preview(k as usize) || k > usize::MAX {
        assert(skip != Some(k));
        lemma_rects_of_the_others(items, skip, k);
        let rs = preview_rects(items, skip);
        let i = choose|i: int| 0 <= i < rs.len() && rs[i] == rect_of(items[k].1.surface);
        assert(m.other_rects(target)[i] == rs[i]);
    }
}

/// The preview of the focused client is the active one, and no other. A
/// preview is hidden exactly where it is active and the setting says so, and
/// one that comes back into view is painted anew. Nothing else changes.
pub proof fn law_active_preview_is_the_focused_one(
    items: Seq<(Seq<char>, Preview)>,
    active: u32,
    hide_active: bool,
    i: int,
)
    requires
        0 <= i < items.len(),
    ensures
        ({
            let p = items[i].1;
            let a = all_active(items, active)[i];
            let v = all_visibility(all_active(items, active), hide_active)[i];
            &&& all_visibility(all_active(items, active), hide_active).len() == items.len()
            &&& a.0 == items[i].0 && v.0 == items[i].0
            &&& a.1.is_active == (p.source_id == active)
            &&& v.1.is_active == (p.source_id == active)
            &&& v.1.hidden == (hide_active && p.source_id == active)
            &&& v.1.dirty == (p.dirty || (p.hidden && !v.1.hidden))
            &&& v.1.surface == p.surface
            &&& v.1.source_id == p.source_id && v.1.damage_id == p.damage_id
            &&& v.1.source_w == p.source_w && v.1.source_h == p.source_h
            &&& v.1.present_in_flight == p.present_in_flight
        }),
{
}

/// What is shown or hidden is exactly what changes: each window whose preview
/// is not yet as the setting says, with what it is to be.
pub proof fn law_visibility_changes_are_the_changes(
    items: Seq<(Seq<char>, Preview)>,
    hide_active: bool,
    v: Visibility,
)
    ensures
        visibility_changes(items, hide_active).contains(v) == (exists|i: int|
            0 <= i < items.len() && (#[trigger] items[i]).1.surface.window == v.window && v.hidden
                == (hide_active && items[i].1.is_active) && items[i].1.hidden != v.hidden),
    decreases items.len(),
{
    if items.len() > 0 {
        let front = items.drop_last();
        law_visibility_changes_are_the_changes(front, hide_active, v);
        let a = visibility_changes(front, hide_active);
        let b = visibility_changes(items, hide_active);
        assert forall|i: int| 0 <= i < front.len() implies front[i] == items[i] by {}
        if b.contains(v) {
            let k = choose|k: int| 0 <= k < b.len() && b[k] == v;
            if k < a.len() {
                assert(a[k] == v);
                let i = choose|i: int|
                    0 <= i < front.len() && (#[trigger] front[i]).1.surface.window == v.window
                        && v.hidden == (hide_active && front[i].1.is_active) && front[i].1.hidden
                        != v.hidden;
                assert(items[i] == front[i]);
            } else {
                assert(items[items.len() - 1] == items.last());
            }
        }
        if exists|i: int|
            0 <= i < items.len() && (#[trigger] items[i]).1.surface.window == v.window && v.hidden
                == (hide_active && items[i].1.is_active) && items[i].1.hidden != v.hidden {
            let i = choose|i: int|
                0 <= i < items.len() && (#[trigger] items[i]).1.surface.window == v.window
                    && v.hidden == (hide_active && items[i].1.is_active) && items[i].1.hidden
                    != v.hidden;
            if i < front.len() {
                assert(front[i] == items[i]);
                let k = choose|k: int| 0 <= k < a.len() && a[k] == v;
                assert(b[k] == v);
            } else {
                assert(b[b.len() - 1] == v);
            }
        }
    }
}

/// The previews to paint after a change of focus are exactly those that were
/// active and are no longer, or are now and were not.
pub proof fn law_focus_change_repaints_the_changed(
    items: Seq<(Seq<char>, Preview)>,
    active: u32,
    name: Seq<char>,
)
    ensures
        active_changes(items, active).contains(name) == (exists|i: int|
            0 <= i < items.len() && (#[trigger] items[i]).0 == name && items[i].1.is_active != (
            items[i].1.source_id == active)),
    decreases items.len(),
{
    if items.len() > 0 {
        let front = items.drop_last();
        law_focus_change_repaints_the_changed(front, active, name);
        let a = active_changes(front, active);
        let b = active_changes(items, active);
        assert forall|i: int| 0 <= i < front.len() implies front[i] == items[i] by {}
        if b.contains(name) {
            let k = choose|k: int| 0 <= k < b.len() && b[k] == name;
            if k < a.len() {
                assert(a[k] == name);
                let i = choose|i: int|
                    0 <= i < front.len() && (#[trigger] front[i]).0 == name
                        && front[i].1.is_active != (front[i].1.source_id == active);
                assert(items[i] == front[i]);
            } else {
                assert(items[items.len() - 1] == items.last());
            }
        }
        if exists|i: int|
            0 <= i < items.len() && (#[trigger] items[i]).0 == name && items[i].1.is_active != (
            items[i].1.source_id == active) {
            let i = choose|i: int|
                0 <= i < items.len() && (#[trigger] items[i]).0 == name && items[i].1.is_active
                    != (items[i].1.source_id == active);
            if i < front.len() {
                assert(front[i] == items[i]);
                let k = choose|k: int| 0 <= k < a.len() && a[k] == name;
                assert(b[k] == name);
            } else {
                assert(b[b.len() - 1] == name);
            }
        }
    }
}

/// A change of size gives every preview the new size and nothing else, and
/// those to lay out anew are exactly those whose size it was not.
pub proof fn law_size_change_resizes_all(
    items: Seq<(Seq<char>, Preview)>,
    w: u16,
    h: u16,
    i: int,
)
    requires
        0 <= i < items.len(),
    ensures
        all_size(items, w, h).len() == items.len(),
        ({
            let a = all_size(items, w, h)[i];
            let p = items[i].1;
            &&& a.0 == items[i].0
            &&& a.1.surface.width == w && a.1.surface.height == h
            &&& a.1.surface.x == p.surface.x && a.1.surface.y == p.surface.y
            &&& a.1.surface.window == p.surface.window && a.1.surface.drag == p.surface.drag
            &&& a.1.source_id == p.source_id && a.1.damage_id == p.damage_id
            &&& a.1.is_active == p.is_active && a.1.hidden == p.hidden
        }),
        items[i].1.surface.width != w || items[i].1.surface.height != h ==> size_changes(
            items,
            w,
            h,
        ).contains(items[i].0),
        size_changes(all_size(items, w, h), w, h).len() == 0,
    decreases items.len(),
{
    lemma_no_more_sizes(items, w, h);
    let front = items.drop_last();
    let a = size_changes(front, w, h);
    let b = size_changes(items, w, h);
    if i < front.len() {
        law_size_change_resizes_all(front, w, h, i);
        if items[i].1.surface.width != w || items[i].1.surface.height != h {
            let k = choose|k: int| 0 <= k < a.len() && a[k] == items[i].0;
            assert(b[k] == items[i].0);
        }
    } else if items[i].1.surface.width != w || items[i].1.surface.height != h {
        assert(b[b.len() - 1] == items[i].0);
    }
}

proof fn lemma_no_more_sizes(items: Seq<(Seq<char>, Preview)>, w: u16, h: u16)
    ensures
        size_changes(all_size(items, w, h), w, h).len() == 0,
    decreases items.len(),
{
    let all = all_size(items, w, h);
    if items.len() > 0 {
        lemma_no_more_sizes(items.drop_last(), w, h);
        assert(all.drop_last() =~= all_size(items.drop_last(), w, h));
    }
}

/// A dirty preview is painted as soon as it may be: when no frame of it is
/// waiting to be shown, or the one that is waits longer than 200
/// milliseconds. A preview that is not dirty is not painted.
pub proof fn law_dirty_previews_are_painted(
    items: Seq<(Seq<char>, Preview)>,
    waited: Map<Seq<char>, u128>,
    i: int,
)
    requires
        0 <= i < items.len(),
        name_map::distinct_names(items),
    ensures
        due(items, waited).contains(items[i].0) == (items[i].1.dirty && (
        !items[i].1.present_in_flight || !waited.contains_key(items[i].0) || waited[items[i].0]
            > 200)),
    decreases items.len(),
{
    let front = items.drop_last();
    let a = due(front, waited);
    let b = due(items, waited);
    let name = items[i].0;
    assert(name_map::distinct_names(front)) by {
        assert forall|x: int, y: int| 0 <= x < y < front.len() implies (#[trigger] front[x]).0 != (
        #[trigger] front[y]).0 by {
            assert(items[x].0 != items[y].0);
        }
    }
    if i < front.len() {
        law_dirty_previews_are_painted(front, waited, i);
        assert(items[i].0 != items[items.len() - 1].0);
        if a.contains(name) {
            let k = choose|k: int| 0 <= k < a.len() && a[k] == name;
            assert(b[k] == name);
        }
        if b.contains(name) {
            let k = choose|k: int| 0 <= k < b.len() && b[k] == name;
            assert(a[k] == name);
        }
    } else {
        lemma_due_is_named(front, waited);
        if a.contains(name) {
            let k = choose|k: int| 0 <= k < a.len() && a[k] == name;
            assert(due(front, waited)[k] == name);
            let j = choose|j: int| 0 <= j < front.len() && #[trigger] front[j].0 == a[k];
            assert(items[j].0 != items[i].0);
        }
        if b.len() > a.len() {
            assert(b[b.len() - 1] == name);
        }
    }
}

/// Damage belongs to the preview that watches for it.
pub proof fn law_damage_belongs_to_its_preview(items: Seq<(Seq<char>, Preview)>, damage: u32)
    ensures
        damaged(items, damage) matches Some(i) ==> 0 <= i < items.len() && items[i].1.damage_id
            == damage,
        damaged(items, damage) is None ==> forall|k: int|
            0 <= k < items.len() ==> (#[trigger] items[k]).1.damage_id != damage,
    decreases items.len(),
{
    if items.len() > 0 {
        law_damage_belongs_to_its_preview(items.drop_last(), damage);
        assert forall|k: int| 0 <= k < items.len() - 1 implies items.drop_last()[k] == items[k] by {}
    }
}

/// Marking a preview dirty changes that and nothing else.
pub proof fn law_marking_dirty_changes_only_that(
    before: PreviewManager,
    i: int,
    after: PreviewManager,
    k: int,
)
    requires
        marked_dirty(before, i, after),
        0 <= i < before.previews.items().len(),
        0 <= k < before.previews.items().len(),
    ensures
        after.previews.items().len() == before.previews.items().len(),
        after.previews.items()[i].1.dirty,
        k != i ==> after.previews.items()[k] == before.previews.items()[k],
        after.previews.items()[k].0 == before.previews.items()[k].0,
        after.previews.items()[k].1.surface == before.previews.items()[k].1.surface,
        after.previews.items()[k].1.source_id == before.previews.items()[k].1.source_id,
        after.previews.items()[k].1.present_in_flight
            == before.previews.items()[k].1.present_in_flight,
        after.previews.items()[k].1.is_active == before.previews.items()[k].1.is_active,
        after.previews.items()[k].1.hidden == before.previews.items()[k].1.hidden,
        after.list_window == before.list_window,
{
}

/// All windows of ours are raised: each preview's and the list's.
pub proof fn law_own_windows_are_all(m: PreviewManager, k: int)
    ensures
        0 <= k < m.previews.items().len() ==> m.own_windows()[k]
            == m.previews.items()[k].1.surface.window,
        m.list_window matches Some(l) ==> m.own_windows().last() == l.surface.window,
        m.own_windows().len() == m.previews.items().len() + (if m.list_window is Some {
            1int
        } else {
            0
        }),
{
}

/// The focus on a window of ours is no news, nor is what is known already. Any
/// other is: the active character is then the one that the title names.
pub proof fn law_focus_is_news_once(m: PreviewManager, active: u32, title: Option<Seq<char>>)
    ensures
        m.picked(Pick::Window(active)) is Some ==> !m.active_differs(active, title),
        m.picked(Pick::Window(active)) is None && active != m.active_id ==> m.active_differs(
            active,
            title,
        ),
        m.picked(Pick::Window(active)) is None && active == m.active_id ==> m.active_differs(
            active,
            title,
        ) == (PreviewManager::active_name(active, title) != m.active_character_view()),
        PreviewManager::active_name(0, title) is None,
        PreviewManager::active_name(active, None) is None,
        active != 0 && title is Some ==> PreviewManager::active_name(active, title)
            == window_manager::character_of_title(title.unwrap()),
{
}

/// A coordinate that fits is kept; one that does not becomes the nearest that
/// does.
pub proof fn law_clamping_keeps_what_fits(v: int)
    ensures
        -32768 <= v <= 32767 ==> clamped(v) == v,
        v < -32768 ==> clamped(v) == -32768,
        v > 32767 ==> clamped(v) == 32767,
{
}

/// Moving one window's surface leaves every other window.
pub proof fn law_one_window_moves(
    m: PreviewManager,
    target: DragTarget,
    s: Surface,
    after: PreviewManager,
    k: int,
)
    requires
        m.has_target(target),
        m.replaced(target, s, after),
        0 <= k < m.previews.items().len(),
    ensures
        target matches DragTarget::Preview(i) ==> after.previews.items()[i as int].1.surface == s
            && after.previews.items()[i as int].0 == m.previews.items()[i as int].0
            && after.previews.items()[i as int].1.source_id
            == m.previews.items()[i as int].1.source_id && after.list_window == m.list_window,
        target != DragTarget::Preview(k as usize) && k <= usize::MAX ==> after.previews.items()[k]
            == m.previews.items()[k],
        target == DragTarget::List ==> (after.list_window matches Some(l) && l.surface == s
            && l.last_names == m.list_window->Some_0.last_names),
        after.active_id == m.active_id,
        after.current_mode == m.current_mode,
        after.next_offset == m.next_offset,
{
}

} // verus!
