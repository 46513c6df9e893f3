use nicotine::config::{
    default_backward_button, default_backward_key, default_display_mode, default_enable_keyboard,
    default_enable_mouse, default_forward_button, default_forward_key, Config, DisplayMode, Hotkey,
    LiveSettings, Platform, TriggerKind,
};
use nicotine::window_manager::stack_geometry;
use std::collections::HashSet;

#[test]
fn defaults_differ_between_the_platforms() {
    assert!(default_enable_mouse(Platform::Unix));
    assert!(!default_enable_mouse(Platform::Windows));
    assert!(!default_enable_keyboard(Platform::Unix));
    assert!(default_enable_keyboard(Platform::Windows));
    assert_eq!(default_forward_button(Platform::Unix), 276);
    assert_eq!(default_backward_button(Platform::Unix), 275);
    assert_eq!(default_forward_button(Platform::Windows), 2);
    assert_eq!(default_backward_button(Platform::Windows), 1);
    assert_eq!(default_forward_key(Platform::Unix), 15);
    assert_eq!(default_backward_key(Platform::Unix), 15);
    assert_eq!(default_forward_key(Platform::Windows), 0x7A);
    assert_eq!(default_backward_key(Platform::Windows), 0x79);
    assert_eq!(default_display_mode(), DisplayMode::Previews);
}

#[test]
fn the_default_configuration_fills_the_display() {
    let c = Config::build_default(Platform::Unix, 1920, 1080);
    assert_eq!((c.display_width, c.display_height), (1920, 1080));
    assert_eq!(c.panel_height, 0);
    assert_eq!(c.eve_width, 1037);
    assert_eq!(c.eve_height, 1080);
    assert_eq!((c.preview_width, c.preview_height), (320, 180));
    assert_eq!(c.preview_opacity, 100);
    assert!(c.show_previews);
    assert!(!c.minimize_inactive);
    assert!(!c.positions_locked);
    assert!(c.characters.is_empty());
    assert_eq!(c.character_hotkeys.len(), 0);
    assert_eq!((c.window_width, c.window_height), (720, 680));
    assert_eq!(c.eve_height_adjusted(), 1080);
}

#[test]
fn a_copy_of_the_configuration_holds_the_same() {
    let mut c = Config::build_default(Platform::Unix, 1920, 1080);
    c.characters.push("Alpha".to_string());
    c.mouse_device_name = Some("Logitech PRO X".to_string());
    c.toggle_previews_key = Some(67);
    let d = c.clone();
    assert_eq!(d.characters, c.characters);
    assert_eq!(d.mouse_device_name, c.mouse_device_name);
    assert_eq!(d.toggle_previews_key, Some(67));
    assert_eq!(d.eve_width, c.eve_width);
}

#[test]
fn the_display_size_is_that_of_the_mode_in_use() {
    let printed = b"Screen 0: minimum 320 x 200\n   1280x720  60.00\n   7680x2160     60.00*+\n";
    assert_eq!(Config::detect_display_size(Some(printed)), (7680, 2160));
    // A mode that cannot be read is passed over.
    assert_eq!(
        Config::display_size_of_listing(Some("  axb 60.00*\n 800x600 60.00*\n")),
        (800, 600)
    );
    assert_eq!(Config::display_size_of_listing(Some("800x600 60.00\n")), (1920, 1080));
    assert_eq!(Config::display_size_of_listing(None), (1920, 1080));
    assert_eq!(Config::detect_display_size(None), (1920, 1080));
    // What is no UTF-8 counts as no listing.
    assert_eq!(
        Config::detect_display_size(Some(b"800x600 60.00*\n\xff")),
        (1920, 1080)
    );
    assert_eq!(Config::display_size_of_metrics(2560, 1440), (2560, 1440));
    assert_eq!(Config::display_size_of_metrics(0, 1440), (1920, 1080));
}

#[test]
fn live_settings_mirror_the_configuration() {
    let mut c = Config::build_default(Platform::Windows, 1920, 1080);
    c.preview_opacity = 55;
    c.hide_active_preview = true;
    c.display_mode = DisplayMode::List;
    let l = LiveSettings::from_config(&c);
    assert_eq!((l.preview_width, l.preview_height, l.preview_opacity), (320, 180, 55));
    assert!(l.hide_active_preview && l.show_previews && !l.positions_locked);
    assert_eq!(l.display_mode, DisplayMode::List);
}

#[test]
fn a_stack_is_centered() {
    let mut c = Config::build_default(Platform::Unix, 1920, 1080);
    c.eve_width = 1000;
    c.panel_height = 40;
    let g = stack_geometry(&c);
    assert_eq!((g.x, g.y, g.width, g.height), (460, 0, 1000, 1040));
}

#[test]
fn the_order_of_modifiers_does_not_matter() {
    let a = Hotkey::key_with_mods(30, vec![29, 42]);
    let b = Hotkey::key_with_mods(30, vec![42, 29, 42]);
    assert_eq!(a, b);
    let held: HashSet<u16> = [42, 29].into_iter().collect();
    assert!(a.matches(TriggerKind::Key, 30, &held));
    assert!(b.matches(TriggerKind::Key, 30, &held));
    // A chord whose list was written by hand in any order is the same chord.
    let c = Hotkey { mods: vec![42, 29], kind: TriggerKind::Key, code: 30 };
    assert!(c.matches(TriggerKind::Key, 30, &held));
}
