use nicotine::config::CharacterHotkey;
use nicotine::keyboard_listener::{
    resolve_character_hotkey, toggle_previews_should_fire, KeyboardConfig,
};
use nicotine::name_map::NameMap;
use std::collections::HashSet;

fn hk(vk: u16, modifier: Option<u16>) -> CharacterHotkey {
    CharacterHotkey { vk, modifier }
}

#[test]
fn unmatched_code_returns_none() {
    let mut hotkeys = NameMap::new();
    hotkeys.insert("Alpha".to_string(), hk(0x70, None)); // F1
    let pressed: HashSet<u16> = HashSet::new();
    assert_eq!(resolve_character_hotkey(0x71, &pressed, &hotkeys), None);
}

#[test]
fn placeholder_vk_zero_never_matches() {
    // Panel writes vk=0 when the user picks a modifier before a
    // key. Pressing any key (including code 0, theoretically)
    // shouldn't dispatch a placeholder.
    let mut hotkeys = NameMap::new();
    hotkeys.insert("Alpha".to_string(), hk(0, Some(42)));
    let pressed: HashSet<u16> = [42].into_iter().collect();
    assert_eq!(resolve_character_hotkey(0, &pressed, &hotkeys), None);
}

#[test]
fn no_modifier_binding_matches_when_no_modifier_held() {
    let mut hotkeys = NameMap::new();
    hotkeys.insert("Alpha".to_string(), hk(0x70, None));
    let pressed: HashSet<u16> = HashSet::new();
    assert_eq!(
        resolve_character_hotkey(0x70, &pressed, &hotkeys),
        Some("Alpha".to_string())
    );
}

#[test]
fn modifier_binding_requires_modifier_held() {
    let mut hotkeys = NameMap::new();
    hotkeys.insert("Alpha".to_string(), hk(0x70, Some(0x10)));
    // Press F1 without Shift held.
    assert_eq!(
        resolve_character_hotkey(0x70, &HashSet::new(), &hotkeys),
        None
    );
    // Press F1 with Shift held.
    let pressed: HashSet<u16> = [0x10].into_iter().collect();
    assert_eq!(
        resolve_character_hotkey(0x70, &pressed, &hotkeys),
        Some("Alpha".to_string())
    );
}

#[test]
fn modifier_binding_beats_no_modifier_binding_when_modifier_held() {
    // The modifier-bearing match wins, whatever the order.
    let mut hotkeys = NameMap::new();
    hotkeys.insert("AlphaWithShift".to_string(), hk(0x70, Some(0x10))); // Shift+F1
    hotkeys.insert("BetaPlain".to_string(), hk(0x70, None)); // F1
    let pressed: HashSet<u16> = [0x10].into_iter().collect();
    for _ in 0..32 {
        assert_eq!(
            resolve_character_hotkey(0x70, &pressed, &hotkeys),
            Some("AlphaWithShift".to_string())
        );
    }
}

#[test]
fn falls_back_to_no_modifier_binding_when_modifier_not_held() {
    // Same setup as above, but no modifier is held — should
    // resolve to the no-modifier binding.
    let mut hotkeys = NameMap::new();
    hotkeys.insert("AlphaWithShift".to_string(), hk(0x70, Some(0x10)));
    hotkeys.insert("BetaPlain".to_string(), hk(0x70, None));
    let pressed: HashSet<u16> = HashSet::new();
    assert_eq!(
        resolve_character_hotkey(0x70, &pressed, &hotkeys),
        Some("BetaPlain".to_string())
    );
}

#[test]
fn multiple_distinct_modifiers_pick_the_matching_one() {
    // Hotkeys: Shift+F1 → Alpha, Ctrl+F1 → Beta.
    // Pressing F1 with Ctrl held should pick Beta. Pressing F1
    // with Shift held should pick Alpha.
    let mut hotkeys = NameMap::new();
    hotkeys.insert("Alpha".to_string(), hk(0x70, Some(0x10)));
    hotkeys.insert("Beta".to_string(), hk(0x70, Some(0x11)));

    let shift_only: HashSet<u16> = [0x10].into_iter().collect();
    assert_eq!(
        resolve_character_hotkey(0x70, &shift_only, &hotkeys),
        Some("Alpha".to_string())
    );

    let ctrl_only: HashSet<u16> = [0x11].into_iter().collect();
    assert_eq!(
        resolve_character_hotkey(0x70, &ctrl_only, &hotkeys),
        Some("Beta".to_string())
    );
}

#[test]
fn modifier_binding_doesnt_match_when_no_modifier_held() {
    // Hotkey "Shift+F1 → Alpha" should NOT fire on plain F1, even
    // if no other binding exists for F1. The first-pass filter
    // requires the modifier to be in pressed_modifiers.
    let mut hotkeys = NameMap::new();
    hotkeys.insert("Alpha".to_string(), hk(0x70, Some(0x10)));
    assert_eq!(
        resolve_character_hotkey(0x70, &HashSet::new(), &hotkeys),
        None
    );
}

fn idle_config() -> KeyboardConfig {
    KeyboardConfig {
        enable: false,
        forward_key: 15,
        backward_key: 15,
        modifier_key: None,
        keyboard_device_name: None,
        keyboard_device_path: None,
        minimize_inactive: false,
        character_hotkeys: NameMap::new(),
        toggle_previews_key: None,
        toggle_previews_modifier: None,
    }
}

#[test]
fn has_work_false_when_nothing_bound() {
    assert!(!idle_config().has_work());
}

#[test]
fn has_work_true_when_only_toggle_key_bound() {
    // Binding just the preview-toggle key (cycling
    // off, no character hotkeys) must keep the listener attached, or
    // the toggle press would never be seen.
    let mut c = idle_config();
    c.toggle_previews_key = Some(88);
    assert!(c.has_work());
}

#[test]
fn has_work_true_when_cycling_enabled_or_character_hotkey_bound() {
    let mut enabled = idle_config();
    enabled.enable = true;
    assert!(enabled.has_work());

    let mut with_char = idle_config();
    with_char
        .character_hotkeys
        .insert("Alpha".to_string(), hk(0x70, None));
    assert!(with_char.has_work());
}

#[test]
fn toggle_fires_on_bare_key_when_no_modifier_bound() {
    let pressed = HashSet::new();
    assert!(toggle_previews_should_fire(Some(88), None, 88, &pressed));
    // A no-modifier binding fires even if some modifier happens to be
    // held — same as the no-modifier cycle keys.
    let shift_down: HashSet<u16> = [42].into_iter().collect();
    assert!(toggle_previews_should_fire(Some(88), None, 88, &shift_down));
}

#[test]
fn toggle_requires_bound_modifier_to_be_held() {
    // Bound as Shift(42)+88.
    let none_held = HashSet::new();
    assert!(!toggle_previews_should_fire(
        Some(88),
        Some(42),
        88,
        &none_held
    ));
    let shift_held: HashSet<u16> = [42].into_iter().collect();
    assert!(toggle_previews_should_fire(
        Some(88),
        Some(42),
        88,
        &shift_held
    ));
}

#[test]
fn toggle_never_fires_on_wrong_key_or_when_unbound() {
    let shift_held: HashSet<u16> = [42].into_iter().collect();
    assert!(!toggle_previews_should_fire(
        Some(88),
        Some(42),
        99,
        &shift_held
    ));
    assert!(!toggle_previews_should_fire(
        None,
        None,
        88,
        &HashSet::new()
    ));
}