use nicotine::config::{Config, DisplayMode, LiveSettings, Platform};
use nicotine::cycle_state::CycleState;
use nicotine::name_map::NameMap;
use nicotine::preview_common::{
    initial_position, position_on_screen, preview_should_hide, snap_position, DragRect, DragState,
    Reconcile,
};
use nicotine::preview_windows;
use nicotine::preview_x11::{
    chrome_color, has_area, initial_size, list_position, row_texts, ActiveChange, DragTarget,
    Exposed, PreviewManager, Release, ReleaseAction, WindowMove,
};
use nicotine::render::{
    blend_coverage, chrome_rects, list_layout, list_window_height, opacity_to_cardinal,
    pick_argb32_format, pick_visual_format, row_text_width, row_top, scale_factor, scale_transform,
    text_pixels, thumbnail_size, title_text_top, xcolor, Directformat, PictType, Pictdepth,
    Pictforminfo, Pictscreen, Pictvisual, QueryPictFormatsReply, XRect,
};
use nicotine::window_manager::EveWindow;

fn live() -> LiveSettings {
    let mut c = Config::build_default(Platform::Unix, 1920, 1080);
    c.show_previews = true;
    LiveSettings::from_config(&c)
}

fn names(v: &[&str]) -> Vec<String> {
    v.iter().map(|s| s.to_string()).collect()
}

/// Two previews of 480 by 270, side by side with a gap of 20.
fn manager() -> PreviewManager {
    let mut m = PreviewManager::new(0, DisplayMode::Previews);
    m.insert("Alpha".to_string(), 11, (101, 1920, 1080), 201, (100, 100), (480, 270));
    m.insert("Beta".to_string(), 12, (102, 1920, 1080), 202, (600, 100), (480, 270));
    m
}

#[test]
fn a_small_motion_is_a_click() {
    let mut m = manager();
    assert_eq!(m.press(1, 11, false), Some(true));
    assert_eq!(m.press(3, 11, false), None);
    assert_eq!(m.press(1, 99, false), None);
    m.begin_drag(11, 150, 150, true);
    assert_eq!(m.motion(153, 151, false), None);
    assert_eq!(
        m.release(1, 11),
        Some(Release { ungrab: true, action: ReleaseAction::Activate(101) })
    );
    assert_eq!(m.release(1, 11), None);
}

#[test]
fn a_drag_moves_snaps_and_is_remembered() {
    let mut m = manager();
    m.begin_drag(11, 150, 150, true);
    // 100 + 15 = 115, whose right edge 595 is 5 from the neighbour's left.
    assert_eq!(m.motion(165, 150, false), Some(WindowMove { window: 11, x: 120, y: 100 }));
    assert_eq!(m.motion(150, 450, false), Some(WindowMove { window: 11, x: 100, y: 400 }));
    assert_eq!(
        m.release(1, 11),
        Some(Release {
            ungrab: true,
            action: ReleaseAction::SavePosition("Alpha".to_string(), 100, 400)
        })
    );
}

#[test]
fn locked_previews_do_not_move() {
    let mut m = manager();
    assert_eq!(m.press(1, 12, true), Some(false));
    m.begin_drag(12, 700, 150, false);
    assert_eq!(m.motion(900, 400, true), None);
    assert_eq!(
        m.release(1, 12),
        Some(Release { ungrab: false, action: ReleaseAction::Activate(102) })
    );
}

#[test]
fn a_window_snaps_to_the_others_only() {
    let m = manager();
    let others = m.collect_other_rects(DragTarget::Preview(0));
    assert_eq!(others, [DragRect { left: 600, top: 100, right: 1080, bottom: 370 }]);
    assert_eq!(m.restack_topmost(), [11, 12]);
    assert!(m.is_our_window(12) && !m.is_our_window(13));
}

#[test]
fn the_list_is_dragged_too_and_ignores_clicks() {
    let mut m = PreviewManager::new(0, DisplayMode::List);
    m.open_list(50, (200, 200), 2);
    m.begin_drag(50, 210, 210, true);
    assert_eq!(
        m.release(1, 50),
        Some(Release { ungrab: true, action: ReleaseAction::Nothing })
    );
    m.begin_drag(50, 210, 210, true);
    assert_eq!(m.motion(260, 240, false), Some(WindowMove { window: 50, x: 250, y: 230 }));
    assert_eq!(
        m.release(1, 50),
        Some(Release { ungrab: true, action: ReleaseAction::SaveListPosition(250, 230) })
    );
}

#[test]
fn settings_decide_what_is_shown() {
    let mut m = manager();
    let mut l = live();
    assert_eq!(m.reconcile(&l), Reconcile::Previews);
    assert_eq!(m.previews.len(), 2);
    l.display_mode = DisplayMode::List;
    assert_eq!(m.reconcile(&l), Reconcile::List);
    assert_eq!(m.previews.len(), 0);
    m.open_list(50, (0, 0), 1);
    l.show_previews = false;
    assert_eq!(m.reconcile(&l), Reconcile::Hidden);
    assert!(m.list_window.is_none());
    l.show_previews = true;
    l.display_mode = DisplayMode::Previews;
    assert_eq!(m.reconcile(&l), Reconcile::Previews);
    // Windows that appear after a pause are looked for at once.
    assert!(m.begin_scan(0));
}

#[test]
fn a_scan_follows_the_clients() {
    let mut m = manager();
    m.finish_scan();
    assert!(!m.begin_scan(1999));
    assert!(m.begin_scan(2000));
    m.request_scan();
    assert!(m.begin_scan(0));
    m.retain_live(&names(&["Beta", "Gamma"]));
    assert_eq!(m.previews.len(), 1);
    // A known character with the same window is kept, one with another window
    // makes place for a new preview, and an unknown one is new.
    assert!(!m.offer(102, "Beta"));
    assert!(m.offer(112, "Beta"));
    assert_eq!(m.previews.len(), 0);
    assert!(m.offer(103, "Gamma"));
}

#[test]
fn previews_start_on_a_diagonal_unless_saved() {
    let mut m = PreviewManager::new(0, DisplayMode::Previews);
    assert_eq!(m.place(Some((5, 6)), true), (5, 6));
    assert_eq!(m.place(None, false), (64, 64));
    assert_eq!(m.place(Some((9000, 9000)), false), (96, 96));
    let mut offset = 288;
    assert_eq!(initial_position(None, false, 10, &mut offset), (298, 298));
    assert_eq!(offset, 0);
    assert_eq!(list_position(None, false), (100, 100));
    assert_eq!(list_position(Some((7, 8)), true), (7, 8));
    assert_eq!(list_position(Some((7, 8)), false), (100, 100));
    assert!(position_on_screen(0, 0, (0, 0, 1920, 1080)));
    assert!(!position_on_screen(1920, 0, (0, 0, 1920, 1080)));
    assert!(position_on_screen(-100, 5, (-1920, 0, 3840, 1080)));
    assert_eq!(initial_size(480, 270), (480, 270));
    assert!(has_area(1, 1) && !has_area(0, 5));
}

#[test]
fn the_active_client_is_marked_and_may_be_hidden() {
    let mut m = manager();
    let c: ActiveChange = m.update_active(102, Some("EVE - Beta"), true).unwrap();
    assert_eq!(c.repaint, ["Beta"]);
    let shown: Vec<(u32, bool)> = c.visibility.iter().map(|v| (v.window, v.hidden)).collect();
    assert_eq!(shown, [(12, true)]);
    assert!(m.is_active_row("Beta") && !m.is_active_row("Alpha"));
    assert!(m.update_active(102, Some("EVE - Beta"), true).is_none());
    let c = m.update_active(101, Some("EVE - Alpha"), true).unwrap();
    assert_eq!(c.repaint, ["Alpha", "Beta"]);
    let shown: Vec<(u32, bool)> = c.visibility.iter().map(|v| (v.window, v.hidden)).collect();
    assert_eq!(shown, [(11, true), (12, false)]);
    let shown = m.apply_active_visibility(false);
    assert_eq!(shown.len(), 1);
    assert!(!shown[0].hidden && shown[0].window == 11);
    assert!(m.apply_active_visibility(false).is_empty());
    assert!(preview_should_hide(true, true));
    assert!(!preview_should_hide(true, false) && !preview_should_hide(false, true));
}

#[test]
fn at_most_one_frame_is_in_flight() {
    let mut m = manager();
    let mut waited: NameMap<u128> = NameMap::new();
    assert_eq!(m.on_damage(999, &waited), None);
    assert_eq!(m.on_damage(201, &waited), Some("Alpha".to_string()));
    m.painted("Alpha");
    waited.insert("Alpha".to_string(), 10);
    assert_eq!(m.on_damage(201, &waited), None);
    assert!(m.repaint_thumbnails(&waited).contains(&"Beta".to_string()));
    assert!(!m.repaint_thumbnails(&waited).contains(&"Alpha".to_string()));
    // When the frame is on screen, what was missed meanwhile is painted.
    assert_eq!(m.on_complete(11), Some("Alpha".to_string()));
    m.painted("Alpha");
    assert_eq!(m.on_complete(11), None);
    m.painted("Alpha");
    // A frame that is never reported back does not stop the preview for good.
    waited.insert("Alpha".to_string(), 200);
    assert!(!m.request_paint("Alpha", &waited));
    waited.insert("Alpha".to_string(), 201);
    assert!(m.request_paint("Alpha", &waited));
    assert!(!m.request_paint("Nobody", &waited));
    assert!(matches!(m.on_expose(12, &waited), Exposed::Paint(n) if n == "Beta"));
    assert!(matches!(m.on_expose(13, &waited), Exposed::Nothing));
    m.open_list(50, (0, 0), 1);
    assert!(matches!(m.on_expose(50, &waited), Exposed::PaintList));
}

#[test]
fn live_changes_are_applied_once() {
    let mut m = manager();
    assert_eq!(m.apply_live_opacity(50), Some(0x7fff_ffff));
    assert_eq!(m.apply_live_opacity(50), None);
    let (w, h, changed) = m.apply_live_size(320, 180).unwrap();
    assert_eq!((w, h), (320, 180));
    assert_eq!(changed, ["Alpha", "Beta"]);
    assert!(m.apply_live_size(320, 180).is_none());
}

#[test]
fn the_list_follows_the_names() {
    let mut m = PreviewManager::new(0, DisplayMode::List);
    m.open_list(50, (0, 0), 0);
    assert!(m.update_list_rows(&names(&["Alpha", "Beta"])).is_some());
    assert_eq!(m.update_list_rows(&names(&["Alpha", "Beta"])), None);
    // The same number of rows needs no new height.
    assert_eq!(m.update_list_rows(&names(&["Beta", "Alpha"])), Some(None));
    assert_eq!(
        m.update_list_rows(&names(&["Beta"])),
        Some(Some(list_window_height(1)))
    );
    assert_eq!(row_texts("Alpha"), ("▸ Alpha".to_string(), "  Alpha".to_string()));
    assert_eq!(chrome_color(true), (196, 30, 58));
    assert_eq!(chrome_color(false), (30, 30, 30));
}

#[test]
fn snapping_moves_by_less_than_the_threshold() {
    let other = [DragRect { left: 100, top: 100, right: 200, bottom: 200 }];
    for x in 0..320 {
        let (sx, sy) = snap_position(x, 105, 50, 50, &other, 12);
        assert!((sx - x).abs() <= 12 && (sy - 105).abs() <= 12);
        assert_eq!(snap_position(x, 105, 50, 50, &other, 0), (x, 105));
    }
    assert_eq!(snap_position(205, 95, 50, 50, &other, 12), (200, 100));
    let d = DragState::press((10, 10), (100, 100));
    assert!(!d.has_crossed((13, 13), 4));
    assert!(!d.has_crossed((14, 6), 4));
    assert!(d.has_crossed((15, 10), 4) && d.has_crossed((10, 5), 4));
    assert_eq!(d.target((20, 30), 50, 50, &[], 12), (110, 120));
    assert!(!d.released().active);
}

#[test]
fn opacity_is_scaled_and_rounded_down() {
    assert_eq!(opacity_to_cardinal(0), 0);
    assert_eq!(opacity_to_cardinal(100), u32::MAX);
    assert_eq!(opacity_to_cardinal(200), u32::MAX);
    for p in 0u32..=100 {
        let exact = (p as f64 / 100.0 * u32::MAX as f64) as u32;
        assert!(opacity_to_cardinal(p).abs_diff(exact) <= 1);
        assert!(p == 0 || opacity_to_cardinal(p - 1) <= opacity_to_cardinal(p));
        assert_eq!(
            preview_windows::opacity_to_byte(p),
            (p as f64 / 100.0 * 255.0) as u8
        );
    }
}

#[test]
fn the_source_is_scaled_into_the_frame() {
    assert_eq!(thumbnail_size(480, 270), (474, 243));
    assert_eq!(thumbnail_size(3, 3), (1, 1));
    assert_eq!(scale_factor(1920, 480), 4 * 0x10000);
    assert_eq!(scale_transform(1896, 972, 480, 270), (4 * 0x10000, 4 * 0x10000));
    let c = xcolor((0xff, 0x80, 0x01), 0xffff);
    assert_eq!((c.red, c.green, c.blue, c.alpha), (0xffff, 0x8080, 0x0101, 0xffff));
}

fn format(id: u32, depth: u8, alpha_shift: u16) -> Pictforminfo {
    Pictforminfo {
        id,
        type_: PictType::Direct,
        depth,
        direct: Directformat {
            red_shift: 16,
            red_mask: 0xff,
            green_shift: 8,
            green_mask: 0xff,
            blue_shift: 0,
            blue_mask: 0xff,
            alpha_shift,
            alpha_mask: 0xff,
        },
        colormap: 0,
    }
}

#[test]
fn formats_are_picked_by_visual_and_layout() {
    let reply = QueryPictFormatsReply {
        formats: vec![format(1, 24, 24), format(2, 32, 0), format(3, 32, 24)],
        screens: vec![Pictscreen {
            depths: vec![
                Pictdepth { depth: 24, visuals: vec![Pictvisual { visual: 33, format: 1 }] },
                Pictdepth { depth: 32, visuals: vec![Pictvisual { visual: 34, format: 3 }] },
            ],
            fallback: 1,
        }],
    };
    assert_eq!(pick_argb32_format(&reply), Some(3));
    assert_eq!(pick_visual_format(&reply, 33, 24), Some(1));
    assert_eq!(pick_visual_format(&reply, 34, 32), Some(3));
    assert_eq!(pick_visual_format(&reply, 33, 32), None);
    assert_eq!(pick_visual_format(&reply, 35, 24), None);
}

#[test]
fn text_is_drawn_by_coverage() {
    let mut buf = vec![0u8; 6];
    blend_coverage(&mut buf, 3, 2, 1, 1, 200);
    blend_coverage(&mut buf, 3, 2, 1, 1, 100);
    blend_coverage(&mut buf, 3, 2, 3, 0, 9);
    blend_coverage(&mut buf, 3, 2, -1, 0, 9);
    assert_eq!(buf, [0, 0, 0, 0, 200, 0]);
    assert_eq!(
        text_pixels(&vec![255, 0], (252, 250, 242)),
        [241, 249, 251, 255, 0, 0, 0, 0]
    );
}

fn rect(r: &XRect) -> (i16, i16, u16, u16) {
    (r.x, r.y, r.width, r.height)
}

#[test]
fn frames_and_rows_are_laid_out() {
    let rects: Vec<_> = chrome_rects(480, 270).iter().map(rect).collect();
    assert_eq!(rects[0], (0, 0, 480, 24));
    assert!(rects.contains(&(0, 267, 480, 3)));
    assert_eq!(title_text_top(14), 5);
    assert_eq!(title_text_top(40), 0);
    assert_eq!(list_window_height(0), 96);
    assert_eq!(list_window_height(1), 96);
    assert_eq!(list_window_height(3), 140);
    let l = list_layout(220, 200, 100, 20);
    assert_eq!(rect(&l.outer), (0, 0, 220, 200));
    assert_eq!(rect(&l.body), (2, 2, 216, 196));
    assert_eq!(l.title_x, 60);
    assert_eq!(row_top(1) - row_top(0), 22);
    assert_eq!(row_text_width(300, 188), 188);
    assert_eq!(row_text_width(30, 188), 30);
}

#[test]
fn packed_coordinates_keep_their_sign() {
    assert_eq!(preview_windows::unpack_xy(0x0005_0003), (3, 5));
    assert_eq!(preview_windows::unpack_xy(0xfffe_ffff), (-1, -2));
}

#[test]
fn a_gesture_that_became_a_drag_stays_one() {
    let mut d = DragState::press((10, 10), (0, 0));
    assert!(!preview_windows::follow(&mut d, (12, 10), false, 4));
    assert!(preview_windows::follow(&mut d, (30, 10), false, 4));
    assert!(preview_windows::follow(&mut d, (10, 10), false, 4));
    assert_eq!(preview_windows::finish(&mut d), preview_windows::GestureEnd::Drop);
    assert_eq!(preview_windows::finish(&mut d), preview_windows::GestureEnd::Nothing);
    let mut d = DragState::press((10, 10), (0, 0));
    assert!(!preview_windows::follow(&mut d, (300, 10), true, 4));
    assert_eq!(preview_windows::finish(&mut d), preview_windows::GestureEnd::Click);
}

#[test]
fn thumbnail_windows_follow_the_clients() {
    let mut m = preview_windows::PreviewManager::new(DisplayMode::Previews, 480, 270, 100);
    assert!(m.offer(1, "Alpha"));
    m.insert("Alpha".to_string(), 1001, 1);
    m.insert("Beta".to_string(), 1002, 2);
    assert!(!m.offer(1, "Alpha"));
    assert_eq!(m.collect_other_rects(1001), [1002]);
    assert!(m.apply_live_size(320, 180) && !m.apply_live_size(320, 180));
    assert_eq!(m.apply_live_opacity(50), Some(127));
    assert_eq!(m.apply_live_opacity(50), None);
    assert_eq!(
        m.place(Some((4, 5)), true),
        preview_windows::Placement::At(4, 5)
    );
    assert!(matches!(m.place(None, false), preview_windows::Placement::Diagonal(_)));
    let mut state = CycleState::new();
    state.update_windows(vec![
        EveWindow { id: 1, title: "Alpha".to_string() },
        EveWindow { id: 2, title: "Beta".to_string() },
    ]);
    let c = m.update_active(2, true, &mut state);
    assert_eq!(c.repaint, [1002]);
    assert_eq!(c.visibility.len(), 1);
    assert_eq!(state.get_current_index(), 1);
    assert_eq!(m.apply_active_visibility(false).len(), 1);
    m.retain_live(&names(&["Beta"]));
    assert_eq!(m.previews.len(), 1);
    let mut l = live();
    l.display_mode = DisplayMode::List;
    assert_eq!(m.reconcile(&l), Reconcile::List);
    assert_eq!(m.previews.len(), 0);
    assert!(m.update_list_names(&names(&["A"])));
    assert!(!m.update_list_names(&names(&["A"])));
    assert_eq!(preview_windows::list_position(None, false), (20, 20));
    assert_eq!(preview_windows::row_text("A", true), "🚬 A");
}

#[test]
fn thumbnail_windows_are_framed() {
    let t = preview_windows::thumbnail_rect(480, 270, 24, 3, false);
    assert_eq!((t.left, t.top, t.right, t.bottom), (3, 24, 477, 267));
    assert_eq!(preview_windows::chrome_rects(480, 270, 24, 3, false).len(), 4);
    let t = preview_windows::thumbnail_rect(480, 270, 24, 3, true);
    assert_eq!((t.left, t.top, t.right, t.bottom), (0, 24, 480, 270));
    let bars = preview_windows::chrome_rects(480, 270, 24, 3, true);
    assert_eq!(bars.len(), 1);
    assert_eq!((bars[0].left, bars[0].top, bars[0].right, bars[0].bottom), (0, 0, 480, 24));
    let r = preview_windows::row_rect(1, 220, 44, 14, 22, (16, 16));
    assert_eq!((r.left, r.top, r.right, r.bottom), (16, 80, 204, 102));
    assert_eq!(preview_windows::list_window_height(2, 44, 22, 26), 114);
}
