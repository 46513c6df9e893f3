use nicotine::config::{Hotkey, TriggerKind, WHEEL_UP};
use nicotine::name_map::NameMap;
use nicotine::windows_helpers::{
    classify_xbutton, modifier_kind, plan_character_hotkeys, plan_cycle_hotkeys,
    resolve_mouse_action, should_attach_thread_input, CycleDirection, CycleHotkeyPlan,
    ModifierKind, MouseHotkeyAction,
};
use std::collections::HashSet;

// ---- modifier_kind --------------------------------------------------

#[test]
fn modifier_kind_recognises_unified_vk_constants() {
    assert_eq!(modifier_kind(0x10), Some(ModifierKind::Shift)); // VK_SHIFT
    assert_eq!(modifier_kind(0x11), Some(ModifierKind::Ctrl)); // VK_CONTROL
    assert_eq!(modifier_kind(0x12), Some(ModifierKind::Alt)); // VK_MENU
}

#[test]
fn modifier_kind_recognises_left_and_right_variants() {
    assert_eq!(modifier_kind(0xA0), Some(ModifierKind::Shift));
    assert_eq!(modifier_kind(0xA1), Some(ModifierKind::Shift));
    assert_eq!(modifier_kind(0xA2), Some(ModifierKind::Ctrl));
    assert_eq!(modifier_kind(0xA3), Some(ModifierKind::Ctrl));
    assert_eq!(modifier_kind(0xA4), Some(ModifierKind::Alt));
    assert_eq!(modifier_kind(0xA5), Some(ModifierKind::Alt));
}

#[test]
fn modifier_kind_returns_none_for_non_modifier_keys() {
    assert_eq!(modifier_kind(0x70), None); // F1
    assert_eq!(modifier_kind(0x41), None); // A
    assert_eq!(modifier_kind(0), None);
    assert_eq!(modifier_kind(0xFF), None);
}

// ---- classify_xbutton ----------------------------------------------

#[test]
fn classify_xbutton_returns_forward_when_press_matches_forward_binding() {
    assert_eq!(classify_xbutton(2, 2, 1), Some(CycleDirection::Forward));
}

#[test]
fn classify_xbutton_returns_backward_when_press_matches_backward_binding() {
    assert_eq!(classify_xbutton(1, 2, 1), Some(CycleDirection::Backward));
}

#[test]
fn classify_xbutton_returns_none_for_unbound_button() {
    assert_eq!(classify_xbutton(3, 2, 1), None);
}

#[test]
fn classify_xbutton_forward_wins_when_forward_and_backward_collide() {
    // If a user managed to bind both directions to the same button,
    // forward shadows backward — that's the order the consumer
    // expects.
    assert_eq!(classify_xbutton(2, 2, 2), Some(CycleDirection::Forward));
}

// ---- should_attach_thread_input ------------------------------------

#[test]
fn should_attach_thread_input_rejects_zero_id() {
    assert!(!should_attach_thread_input(0, 100, &[]));
}

#[test]
fn should_attach_thread_input_rejects_self_attach() {
    assert!(!should_attach_thread_input(100, 100, &[]));
}

#[test]
fn should_attach_thread_input_rejects_already_excluded() {
    assert!(!should_attach_thread_input(200, 100, &[200]));
}

#[test]
fn should_attach_thread_input_allows_valid_distinct_thread() {
    assert!(should_attach_thread_input(200, 100, &[]));
    assert!(should_attach_thread_input(200, 100, &[300]));
}

// ---- plan_cycle_hotkeys --------------------------------------------

#[test]
fn plan_cycle_hotkeys_returns_empty_when_disabled() {
    let plans = plan_cycle_hotkeys(false, &Hotkey::key(0x70), &Hotkey::key(0x71), 1, 2);
    assert!(plans.is_empty());
}

#[test]
fn plan_cycle_hotkeys_emits_both_when_key_bound() {
    let plans = plan_cycle_hotkeys(true, &Hotkey::key(0x70), &Hotkey::key(0x71), 1, 2);
    assert_eq!(
        plans,
        vec![
            CycleHotkeyPlan { id: 1, modifiers: vec![], vk: 0x70 },
            CycleHotkeyPlan { id: 2, modifiers: vec![], vk: 0x71 },
        ]
    );
}

#[test]
fn plan_cycle_hotkeys_carries_backward_chord() {
    // Classic Tab forward, Shift+Tab backward.
    let plans = plan_cycle_hotkeys(
        true,
        &Hotkey::key(0x09),
        &Hotkey::key_with_mods(0x09, vec![0x10]),
        1,
        2,
    );
    assert_eq!(plans.len(), 2);
    assert_eq!(plans[0].modifiers, vec![]);
    assert_eq!(plans[1].modifiers, vec![ModifierKind::Shift]);
    assert_eq!(plans[1].vk, 0x09);
}

#[test]
fn plan_cycle_hotkeys_skips_unbound_and_mouse_bindings() {
    // Forward unbound; backward bound to a mouse button — neither is
    // RegisterHotKey-able, so nothing is planned.
    let mouse = Hotkey { mods: vec![], kind: TriggerKind::Mouse, code: 5 };
    let plans = plan_cycle_hotkeys(true, &Hotkey::default(), &mouse, 1, 2);
    assert!(plans.is_empty());
}

// ---- plan_character_hotkeys ----------------------------------------

fn hk(vk: u16, mods: Vec<u16>) -> Hotkey {
    Hotkey::key_with_mods(vk, mods)
}

#[test]
fn plan_character_hotkeys_emits_entries_in_character_order() {
    let characters = vec!["Beta".to_string(), "Alpha".to_string()];
    let mut hotkeys = NameMap::new();
    hotkeys.insert("Alpha".to_string(), hk(0x70, vec![]));
    hotkeys.insert("Beta".to_string(), hk(0x71, vec![]));
    let plans = plan_character_hotkeys(&characters, &hotkeys, 2000);
    assert_eq!(plans.len(), 2);
    assert_eq!(plans[0].character_name, "Beta");
    assert_eq!(plans[0].id, 2000);
    assert_eq!(plans[1].character_name, "Alpha");
    assert_eq!(plans[1].id, 2001);
}

#[test]
fn plan_character_hotkeys_skips_characters_without_a_binding() {
    let characters = vec!["Alpha".to_string(), "Beta".to_string()];
    let mut hotkeys = NameMap::new();
    hotkeys.insert("Beta".to_string(), hk(0x71, vec![]));
    let plans = plan_character_hotkeys(&characters, &hotkeys, 2000);
    assert_eq!(plans.len(), 1);
    assert_eq!(plans[0].character_name, "Beta");
    assert_eq!(plans[0].id, 2000);
}

#[test]
fn plan_character_hotkeys_skips_unbound_key() {
    let characters = vec!["Alpha".to_string()];
    let mut hotkeys = NameMap::new();
    hotkeys.insert("Alpha".to_string(), hk(0, vec![0x10]));
    let plans = plan_character_hotkeys(&characters, &hotkeys, 2000);
    assert!(plans.is_empty());
}

#[test]
fn plan_character_hotkeys_skips_mouse_bindings() {
    let characters = vec!["Alpha".to_string()];
    let mut hotkeys = NameMap::new();
    hotkeys.insert(
        "Alpha".to_string(),
        Hotkey { mods: vec![], kind: TriggerKind::Mouse, code: 5 },
    );
    let plans = plan_character_hotkeys(&characters, &hotkeys, 2000);
    assert!(plans.is_empty());
}

#[test]
fn plan_character_hotkeys_translates_modifier_chord() {
    let characters = vec!["Alpha".to_string()];
    let mut hotkeys = NameMap::new();
    hotkeys.insert("Alpha".to_string(), hk(0x70, vec![0x11, 0x10])); // Ctrl+Shift
    let plans = plan_character_hotkeys(&characters, &hotkeys, 2000);
    // key_with_mods sorts by code: 0x10 (Shift) before 0x11 (Ctrl).
    assert_eq!(plans[0].modifiers, vec![ModifierKind::Shift, ModifierKind::Ctrl]);
}

#[test]
fn plan_character_hotkeys_drops_non_modifier_codes() {
    let characters = vec!["Alpha".to_string()];
    let mut hotkeys = NameMap::new();
    hotkeys.insert("Alpha".to_string(), hk(0x70, vec![0x41])); // 'A' isn't a modifier
    let plans = plan_character_hotkeys(&characters, &hotkeys, 2000);
    assert_eq!(plans[0].modifiers, vec![]);
}

// ---- resolve_mouse_action ------------------------------------------

fn mouse(code: u16, mods: Vec<u16>) -> Hotkey {
    Hotkey { mods, kind: TriggerKind::Mouse, code }
}

#[test]
fn resolve_mouse_action_prioritises_toggle_then_cycle() {
    let none = HashSet::new();
    let fwd = mouse(1, vec![]);
    let back = mouse(2, vec![]);
    let toggle = mouse(3, vec![]);
    let chars: Vec<String> = vec![];
    let map = NameMap::new();
    assert_eq!(
        resolve_mouse_action(TriggerKind::Mouse, 3, &none, &fwd, &back, &toggle, &chars, &map),
        Some(MouseHotkeyAction::ToggleOverlay)
    );
    assert_eq!(
        resolve_mouse_action(TriggerKind::Mouse, 2, &none, &fwd, &back, &toggle, &chars, &map),
        Some(MouseHotkeyAction::CycleBackward)
    );
    assert_eq!(
        resolve_mouse_action(TriggerKind::Mouse, 1, &none, &fwd, &back, &toggle, &chars, &map),
        Some(MouseHotkeyAction::CycleForward)
    );
}

#[test]
fn resolve_mouse_action_matches_wheel_and_character_index() {
    let none = HashSet::new();
    let unbound = Hotkey::default();
    let chars = vec!["Alpha".to_string(), "Bravo".to_string()];
    let mut map = NameMap::new();
    map.insert("Bravo".to_string(), Hotkey { mods: vec![], kind: TriggerKind::Wheel, code: WHEEL_UP });
    assert_eq!(
        resolve_mouse_action(
            TriggerKind::Wheel, WHEEL_UP, &none, &unbound, &unbound, &unbound, &chars, &map,
        ),
        Some(MouseHotkeyAction::SwitchCharacter(1))
    );
    // Wrong kind (a key) never matches a mouse/wheel resolve.
    assert_eq!(
        resolve_mouse_action(
            TriggerKind::Key, WHEEL_UP, &none, &unbound, &unbound, &unbound, &chars, &map,
        ),
        None
    );
}

#[test]
fn resolve_mouse_action_requires_modifier_chord() {
    let unbound = Hotkey::default();
    let chars: Vec<String> = vec![];
    let map = NameMap::new();
    // Ctrl(0x11)+Mouse4 backward.
    let back = mouse(4, vec![0x11]);
    let none = HashSet::new();
    assert_eq!(
        resolve_mouse_action(TriggerKind::Mouse, 4, &none, &unbound, &back, &unbound, &chars, &map),
        None
    );
    let ctrl: HashSet<u16> = [0x11].into_iter().collect();
    assert_eq!(
        resolve_mouse_action(TriggerKind::Mouse, 4, &ctrl, &unbound, &back, &unbound, &chars, &map),
        Some(MouseHotkeyAction::CycleBackward)
    );
}