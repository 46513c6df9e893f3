use nicotine::config::{Config, DisplayMode, Hotkey, TriggerKind};
use nicotine::name_map::NameMap;
use std::collections::HashSet;

#[test]
fn hotkey_mods_sorted_and_deduped() {
    let hk = Hotkey::key_with_mods(30, vec![56, 29, 29, 42]);
    assert_eq!(hk.mods, vec![29, 42, 56]); // sorted, deduped
    assert_eq!(hk.kind, TriggerKind::Key);
}

#[test]
fn hotkey_mods_match_is_exact() {
    let hk = Hotkey::key_with_mods(30, vec![29, 42]); // Ctrl+Shift+X
    let exact: HashSet<u16> = [29, 42].into_iter().collect();
    let subset: HashSet<u16> = [29].into_iter().collect();
    let superset: HashSet<u16> = [29, 42, 56].into_iter().collect();
    assert!(hk.mods_match(&exact));
    assert!(!hk.mods_match(&subset), "missing a required modifier");
    assert!(!hk.mods_match(&superset), "extra modifier held");
}

#[test]
fn bare_key_requires_no_modifiers() {
    let hk = Hotkey::key(30);
    let none: HashSet<u16> = HashSet::new();
    let ctrl: HashSet<u16> = [29].into_iter().collect();
    assert!(hk.matches(TriggerKind::Key, 30, &none));
    assert!(!hk.matches(TriggerKind::Key, 30, &ctrl), "Ctrl held but bare bind");
    assert!(!hk.matches(TriggerKind::Mouse, 30, &none), "wrong kind");
}


#[test]
fn test_eve_height_adjusted_with_panel() {
    let config = Config {
        display_width: 1920,
        display_height: 1080,
        panel_height: 40,
        window_width: 720,
        window_height: 680,
        eve_width: 1000,
        eve_height: 1080,
        enable_mouse_buttons: true,
        forward_button: 276,
        backward_button: 275,
        enable_keyboard_buttons: false,
        forward_key: 15,
        backward_key: 15,
        mouse_device_name: None,
        mouse_device_path: None,
        minimize_inactive: false,
        keyboard_device_name: None,
        keyboard_device_path: None,
        modifier_key: None,
        preview_width: 320,
        preview_height: 180,
        preview_opacity: 100,
        show_previews: true,
        hide_active_preview: false,
        constrain_aspect: false,
        toggle_previews_key: None,
        toggle_previews_modifier: None,
        characters: Vec::new(),
        display_mode: DisplayMode::Previews,
        positions_locked: false,
        character_hotkeys: NameMap::new(),
    };

    // Height should be: 1080 - 40 = 1040
    assert_eq!(config.eve_height_adjusted(), 1040);
}

#[test]
fn test_eve_height_adjusted_without_panel() {
    let config = Config {
        display_width: 1920,
        display_height: 1080,
        panel_height: 0,
        window_width: 720,
        window_height: 680,
        eve_width: 1000,
        eve_height: 1080,
        enable_mouse_buttons: true,
        forward_button: 276,
        backward_button: 275,
        enable_keyboard_buttons: false,
        forward_key: 15,
        backward_key: 15,
        mouse_device_name: None,
        mouse_device_path: None,
        minimize_inactive: false,
        keyboard_device_name: None,
        keyboard_device_path: None,
        modifier_key: None,
        preview_width: 320,
        preview_height: 180,
        preview_opacity: 100,
        show_previews: true,
        hide_active_preview: false,
        constrain_aspect: false,
        toggle_previews_key: None,
        toggle_previews_modifier: None,
        characters: Vec::new(),
        display_mode: DisplayMode::Previews,
        positions_locked: false,
        character_hotkeys: NameMap::new(),
    };

    assert_eq!(config.eve_height_adjusted(), 1080);
}

