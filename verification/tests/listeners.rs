use nicotine::config::{CharacterHotkey, Config, Hotkey, Platform, TriggerKind};
use nicotine::cycle_state::CycleState;
use nicotine::evdev_util::{
    event_index, event_nodes, is_keyboard, is_mouse, ready_or_dead, rescan_due,
    EventDeviceHelper, InputDeviceType, ListenerStep, OpenedNode, PollFlags, ScanDevicesResult, SupportedKeys,
};
use nicotine::keyboard_listener::{key_action, KeyAction, KeyboardConfig, KeyboardListener};
use nicotine::mouse_listener::{MouseConfig, MouseListener};
use nicotine::name_map::NameMap;
use nicotine::window_manager::{Call, EveWindow, HeadlessManager};
use nicotine::windows_helpers::{
    mods_to_kinds, plan_character_hotkeys, resolve_mouse_action, CycleDirection, ModifierKind,
    MouseHotkeyAction,
};
use nicotine::windows_input::{
    bindings_of, character_for, modifier_to_winapi, registrations, HookContext, Listener,
    ListenerAction, ListenerMessage,
};
use std::collections::HashSet;

fn held(v: &[u16]) -> HashSet<u16> {
    v.iter().copied().collect()
}

fn keyboard() -> KeyboardConfig {
    let mut config = Config::build_default(Platform::Unix, 1920, 1080);
    config.enable_keyboard_buttons = true;
    config.modifier_key = Some(42);
    config.toggle_previews_key = Some(67);
    config
        .character_hotkeys
        .insert("Alpha".to_string(), CharacterHotkey { vk: 59, modifier: None });
    KeyboardConfig::from_config(&config)
}

#[test]
fn keys_do_what_they_are_bound_to() {
    let c = keyboard();
    assert_eq!(key_action(&c, &held(&[]), 15, 1), KeyAction::CycleForward);
    assert_eq!(key_action(&c, &held(&[42]), 15, 1), KeyAction::CycleBackward);
    assert_eq!(key_action(&c, &held(&[]), 59, 1), KeyAction::SwitchTo("Alpha".to_string()));
    assert_eq!(key_action(&c, &held(&[]), 67, 1), KeyAction::TogglePreviews);
    // Held down, a key goes on cycling, and the toggle fires once.
    assert_eq!(key_action(&c, &held(&[]), 15, 2), KeyAction::CycleForward);
    assert_eq!(key_action(&c, &held(&[]), 67, 2), KeyAction::Ignore);
    assert_eq!(key_action(&c, &held(&[]), 99, 1), KeyAction::Ignore);
    let mut off = keyboard();
    off.enable = false;
    assert_eq!(key_action(&off, &held(&[]), 15, 1), KeyAction::Ignore);
    assert_eq!(key_action(&off, &held(&[]), 59, 1), KeyAction::SwitchTo("Alpha".to_string()));
}

#[test]
fn a_round_of_key_events_becomes_actions() {
    let c = keyboard();
    let mut devices = EventDeviceHelper::new(InputDeviceType::Keyboard);
    let mut l = KeyboardListener::new();
    assert_eq!(l.next_step(&c, &mut devices, None), ListenerStep::Scan);
    let start = devices.begin_scan();
    let nodes = vec![node("/dev/input/event1", Some("kbd"), KEYBOARD)];
    let found = devices.scan_devices(&start, Some(&nodes), None);
    assert_eq!(
        l.after_scan(&c, found.as_ref(), devices.num_devices()),
        ListenerStep::Poll { announce: true }
    );
    l.key_event(&c, 42, 1);
    l.key_event(&c, 15, 1);
    assert_eq!(l.actions(&c), [KeyAction::Ignore, KeyAction::CycleBackward]);
    l.end_round(0);
    // The modifier is held over to the next round, and no other key is.
    assert_eq!(
        l.next_step(&c, &mut devices, Some(10)),
        ListenerStep::Poll { announce: false }
    );
    l.key_event(&c, 15, 1);
    assert_eq!(l.actions(&c), [KeyAction::CycleBackward]);
    l.key_event(&c, 42, 0);
    assert_eq!(l.actions(&c), [KeyAction::CycleForward]);
    // A scan forgets what is held: a release may have been missed.
    l.key_event(&c, 42, 1);
    assert_eq!(l.next_step(&c, &mut devices, Some(2000)), ListenerStep::Scan);
    let start = devices.begin_scan();
    let found = devices.scan_devices(&start, Some(&nodes), None);
    assert_eq!(
        l.after_scan(&c, found.as_ref(), devices.num_devices()),
        ListenerStep::Poll { announce: false }
    );
    l.key_event(&c, 15, 1);
    assert_eq!(l.actions(&c), [KeyAction::CycleForward]);
    l.end_round(1);
    assert_eq!(
        l.next_step(&c, &mut devices, Some(0)),
        ListenerStep::Poll { announce: true }
    );
}

#[test]
fn rescans_are_due_at_intervals() {
    assert!(rescan_due(false, None));
    assert!(rescan_due(false, Some(2000)));
    assert!(!rescan_due(false, Some(1999)));
    assert!(rescan_due(true, Some(0)));
}

#[test]
fn a_second_echo_of_a_button_is_dropped() {
    let mut config = Config::build_default(Platform::Unix, 1920, 1080);
    config.enable_mouse_buttons = true;
    let c = MouseConfig::from_config(&config);
    let at = |code, value, since| MouseListener::trigger(&c, code, value, since);
    assert_eq!(at(276, 1, None), Some(CycleDirection::Forward));
    assert_eq!(at(275, 1, None), Some(CycleDirection::Backward));
    assert_eq!(at(276, 1, Some(29)), None);
    assert_eq!(at(276, 1, Some(30)), Some(CycleDirection::Forward));
    assert_eq!(at(276, 0, None), None);
    assert_eq!(at(272, 1, None), None);
}

#[test]
fn listeners_cycle_and_switch() {
    let windows = || {
        vec![
            EveWindow { id: 1, title: "Alpha".to_string() },
            EveWindow { id: 2, title: "Beta".to_string() },
        ]
    };
    let mut wm = HeadlessManager::new(windows(), 1);
    let mut state = CycleState::new();
    state.update_windows(windows());
    MouseListener::run_cycle(&mut wm, &mut state, false, CycleDirection::Forward).unwrap();
    assert_eq!(state.get_current_index(), 1);
    KeyboardListener::cycle_backward(&mut wm, &mut state, false).unwrap();
    assert_eq!(state.get_current_index(), 0);
    KeyboardListener::cycle_forward(&mut wm, &mut state, false).unwrap();
    assert_eq!(state.get_current_index(), 1);
    KeyboardListener::switch_to_character("Alpha", &mut wm, &mut state, false).unwrap();
    assert_eq!(state.get_current_index(), 0);
    assert!(wm.calls().contains(&Call::Activate(2)));
    assert_eq!(wm.calls().last(), Some(&Call::Activate(1)));
}

#[test]
fn idleness_is_announced_once() {
    let mut c = keyboard();
    c.enable = false;
    c.toggle_previews_key = None;
    c.character_hotkeys.remove("Alpha");
    let mut devices = EventDeviceHelper::new(InputDeviceType::Keyboard);
    let mut k = KeyboardListener::new();
    assert_eq!(k.next_step(&c, &mut devices, None), ListenerStep::Idle { announce: true });
    assert_eq!(k.next_step(&c, &mut devices, None), ListenerStep::Idle { announce: false });
    c.enable = true;
    assert_eq!(k.next_step(&c, &mut devices, Some(0)), ListenerStep::Scan);
    assert_eq!(k.after_scan(&c, None, 0), ListenerStep::Retry { failed: true });
    let nothing = ScanDevicesResult { removed_devices: false, new_devices: Vec::new() };
    assert_eq!(k.after_scan(&c, Some(&nothing), 0), ListenerStep::Retry { failed: false });
}

#[test]
fn the_mouse_listener_lets_its_devices_go_when_disabled() {
    let mut config = Config::build_default(Platform::Unix, 1920, 1080);
    config.enable_mouse_buttons = true;
    config.mouse_device_name = None;
    config.mouse_device_path = None;
    let mut c = MouseConfig::from_config(&config);
    let mut devices = EventDeviceHelper::new(InputDeviceType::Mouse);
    let mut m = MouseListener::new();
    assert_eq!(m.next_step(&c, &mut devices, None), ListenerStep::Scan);
    let start = devices.begin_scan();
    let nodes = vec![node("/dev/input/event1", Some("mouse"), MOUSE)];
    let found = devices.scan_devices(&start, Some(&nodes), None);
    assert_eq!(
        m.after_scan(found.as_ref(), devices.num_devices()),
        ListenerStep::Poll { announce: true }
    );
    assert_eq!(
        m.next_step(&c, &mut devices, Some(0)),
        ListenerStep::Poll { announce: false }
    );
    m.end_round(1);
    assert_eq!(
        m.next_step(&c, &mut devices, Some(0)),
        ListenerStep::Poll { announce: true }
    );
    c.enable = false;
    assert_eq!(m.next_step(&c, &mut devices, Some(0)), ListenerStep::Idle { announce: true });
    assert_eq!(devices.num_devices(), 0);
    assert_eq!(m.after_scan(None, 0), ListenerStep::Retry { failed: true });
    let gone = ScanDevicesResult { removed_devices: true, new_devices: Vec::new() };
    assert_eq!(m.after_scan(Some(&gone), 0), ListenerStep::Retry { failed: false });
}

const KEYBOARD: SupportedKeys =
    SupportedKeys { tab: true, left_shift: true, z: true, side: false, extra: false };
const MOUSE: SupportedKeys =
    SupportedKeys { tab: false, left_shift: false, z: false, side: true, extra: true };

#[test]
fn devices_are_told_apart_by_their_keys() {
    assert!(is_keyboard(Some(KEYBOARD)) && !is_mouse(Some(KEYBOARD)));
    assert!(is_mouse(Some(MOUSE)) && !is_keyboard(Some(MOUSE)));
    assert!(!is_keyboard(None) && !is_mouse(None));
}

#[test]
fn event_nodes_come_in_numeric_order() {
    assert_eq!(event_index("event16"), Some(16));
    assert_eq!(event_index("mouse0"), None);
    assert_eq!(event_index("eventX"), None);
    let names: Vec<String> =
        ["event10", "mice", "event2", "event0"].iter().map(|s| s.to_string()).collect();
    assert_eq!(event_nodes(&names), ["event0", "event2", "event10"]);
}

#[test]
fn polled_devices_are_ready_or_dead() {
    let f = |readable, hung| PollFlags { readable, hung_up_or_error: hung };
    let r = ready_or_dead(&vec![f(false, false), f(true, false), f(false, true), f(true, true)]);
    assert_eq!(r.ready, [1, 3]);
    assert_eq!(r.dead, [2]);
}

fn node(path: &str, name: Option<&str>, keys: SupportedKeys) -> OpenedNode {
    OpenedNode {
        path: path.to_string(),
        name: name.map(|n| n.to_string()),
        keys: Some(keys),
    }
}

fn paths(r: &ScanDevicesResult) -> Vec<(&str, &str)> {
    r.new_devices.iter().map(|d| (d.name.as_str(), d.path.as_str())).collect()
}

#[test]
fn detection_opens_each_device_of_the_type_once() {
    let nodes = vec![
        node("/dev/input/event0", Some("mouse"), MOUSE),
        node("/dev/input/event1", Some("kbd"), KEYBOARD),
        node("/dev/input/event2", None, KEYBOARD),
        node("/dev/input/event1", Some("kbd"), KEYBOARD),
    ];
    let mut h = EventDeviceHelper::new(InputDeviceType::Keyboard);
    assert!(h.needs_scan());
    let start = h.begin_scan();
    assert!(!start.satisfied && !start.removed_devices && start.keep.is_empty());
    let r = h.scan_devices(&start, Some(&nodes), None).unwrap();
    assert_eq!(paths(&r), [("kbd", "/dev/input/event1"), ("Unknown", "/dev/input/event2")]);
    assert!(!h.needs_scan());
    // A second look finds nothing new and drops nothing.
    let start = h.begin_scan();
    assert_eq!(start.keep, [true, true]);
    let r = h.scan_devices(&start, Some(&nodes), None).unwrap();
    assert!(r.new_devices.is_empty() && !r.removed_devices);
    assert_eq!(h.num_devices(), 2);
    assert_eq!(h.drop_dead(&vec![0]), [false, true]);
    assert!(!h.contains_device_path("/dev/input/event1"));
    assert!(h.contains_device_path("/dev/input/event2"));
    assert_eq!(h.drop_all(), 1);
    assert!(h.needs_scan());
    // Without a list of the nodes there is no result.
    let start = h.begin_scan();
    assert!(h.scan_devices(&start, None, None).is_none());
}

#[test]
fn a_pinned_name_comes_before_a_pinned_path() {
    let nodes = vec![
        node("/dev/input/event0", Some("Other"), MOUSE),
        node("/dev/input/event4", Some("PRO X"), KEYBOARD),
        node("/dev/input/event5", Some("PRO X"), MOUSE),
    ];
    let at = node("/dev/input/by-id/mouse", None, MOUSE);
    let name = Some("PRO X".to_string());
    let path = Some("/dev/input/by-id/mouse".to_string());
    let mut h = EventDeviceHelper::new(InputDeviceType::Mouse);
    let start = h.begin_scan();
    h.scan_devices(&start, Some(&nodes), None).unwrap();
    assert_eq!(h.num_devices(), 2);
    h.check_update_pinned_device(&name, &path);
    assert!(h.needs_scan());
    let start = h.begin_scan();
    assert_eq!(start.keep, [false, true]);
    assert!(start.satisfied && start.removed_devices);
    h.reset();
    h.check_update_pinned_device(&name, &path);
    let start = h.begin_scan();
    let r = h.scan_devices(&start, Some(&nodes), Some(&at)).unwrap();
    assert_eq!(paths(&r), [("PRO X", "/dev/input/event4")]);
    // A name that no node has falls back to the path, and that to detection.
    h.reset();
    h.check_update_pinned_device(&Some("Gone".to_string()), &path);
    let start = h.begin_scan();
    assert!(h.scan_devices(&start, None, Some(&at)).is_none());
    let r = h.scan_devices(&start, Some(&nodes), Some(&at)).unwrap();
    assert_eq!(paths(&r), [("Unknown", "/dev/input/by-id/mouse")]);
    let start = h.begin_scan();
    assert!(!start.satisfied && start.removed_devices);
    let r = h.scan_devices(&start, Some(&nodes), None).unwrap();
    assert!(!r.removed_devices);
    assert_eq!(paths(&r), [("Other", "/dev/input/event0"), ("PRO X", "/dev/input/event5")]);
    // A pinned path that is open stays open and is not opened again.
    h.reset();
    h.check_update_pinned_device(&None, &path);
    let start = h.begin_scan();
    let r = h.scan_devices(&start, None, Some(&at)).unwrap();
    assert_eq!(r.new_devices.len(), 1);
    let start = h.begin_scan();
    assert!(start.satisfied && !start.removed_devices);
    assert_eq!(h.num_devices(), 1);
    // It is the same path in whatever way it is written.
    h.check_update_pinned_device(&None, &Some("/dev/input//by-id/./mouse".to_string()));
    assert!(h.needs_scan());
    let start = h.begin_scan();
    assert!(start.satisfied && !start.removed_devices);
    assert!(h.contains_device_path("//dev/input/by-id/mouse/"));
    assert!(!h.contains_device_path("dev/input/by-id/mouse"));
}

#[test]
fn character_hotkeys_are_numbered_without_gaps() {
    let mut hotkeys: NameMap<Hotkey> = NameMap::new();
    hotkeys.insert("A".to_string(), Hotkey::key(0x70));
    hotkeys.insert("C".to_string(), Hotkey::key(0x72));
    let characters: Vec<String> = ["A", "B", "C"].iter().map(|s| s.to_string()).collect();
    let plans = plan_character_hotkeys(&characters, &hotkeys, 2000);
    let ids: Vec<i32> = plans.iter().map(|p| p.id).collect();
    assert_eq!(ids, [2000, 2001]);
}

#[test]
fn the_longest_chord_wins_among_characters() {
    let none = Hotkey::default();
    let mut hotkeys: NameMap<Hotkey> = NameMap::new();
    let mouse = |mods: Vec<u16>| Hotkey { mods, kind: TriggerKind::Mouse, code: 5 };
    hotkeys.insert("A".to_string(), mouse(vec![]));
    hotkeys.insert("B".to_string(), mouse(vec![0x11]));
    let characters: Vec<String> = ["A", "B"].iter().map(|s| s.to_string()).collect();
    let resolve = |h: &HashSet<u16>| {
        resolve_mouse_action(TriggerKind::Mouse, 5, h, &none, &none, &none, &characters, &hotkeys)
    };
    assert_eq!(resolve(&held(&[])), Some(MouseHotkeyAction::SwitchCharacter(0)));
    assert_eq!(resolve(&held(&[0x11])), Some(MouseHotkeyAction::SwitchCharacter(1)));
    assert_eq!(resolve(&held(&[0x10])), None);
}

#[test]
fn modifiers_become_a_mask() {
    assert_eq!(mods_to_kinds(&vec![0x10, 0x41, 0xA2]), [ModifierKind::Shift, ModifierKind::Ctrl]);
    assert_eq!(modifier_to_winapi(&vec![]), 0);
    assert_eq!(modifier_to_winapi(&vec![ModifierKind::Alt]), 1);
    assert_eq!(modifier_to_winapi(&vec![ModifierKind::Ctrl, ModifierKind::Shift]), 6);
    assert_eq!(
        modifier_to_winapi(&vec![ModifierKind::Ctrl, ModifierKind::Ctrl, ModifierKind::Win]),
        10
    );
}

#[test]
fn registrations_name_their_character() {
    let mut c = Config::build_default(Platform::Windows, 1920, 1080);
    c.characters = vec!["Alpha".to_string()];
    c.character_hotkeys
        .insert("Alpha".to_string(), CharacterHotkey { vk: 0x70, modifier: Some(0x11) });
    let rs = registrations(c.enable_keyboard_buttons, &bindings_of(&c), &c.characters);
    let of_alpha = rs.iter().find(|r| r.character.is_some()).unwrap();
    assert_eq!(of_alpha.vk, 0x70);
    assert_eq!(of_alpha.modifiers, [ModifierKind::Ctrl]);
    assert_eq!(character_for(&rs, of_alpha.id), Some("Alpha".to_string()));
    assert_eq!(character_for(&rs, -1), None);
}

#[test]
fn side_buttons_cycle_where_enabled() {
    let mut h = HookContext { enabled: true, forward_button: 2, backward_button: 1 };
    assert_eq!(h.on_xbutton(2 << 16), Some(CycleDirection::Forward));
    assert_eq!(h.on_xbutton(1 << 16), Some(CycleDirection::Backward));
    assert_eq!(h.on_xbutton(3 << 16), None);
    h.set_mouse_cycle_enabled(false);
    assert_eq!(h.on_xbutton(2 << 16), None);
}

#[test]
fn a_paused_listener_is_quiet() {
    let mut l = Listener { paused: false };
    assert_eq!(
        l.on_message(ListenerMessage::Step(CycleDirection::Forward)),
        ListenerAction::Cycle(CycleDirection::Forward)
    );
    assert_eq!(l.on_message(ListenerMessage::Pause), ListenerAction::Unregister);
    assert_eq!(
        l.on_message(ListenerMessage::Step(CycleDirection::Forward)),
        ListenerAction::Nothing
    );
    assert_eq!(l.on_message(ListenerMessage::Resume), ListenerAction::Rebind);
    assert!(!l.paused);
    assert_eq!(l.on_message(ListenerMessage::Other), ListenerAction::Nothing);
}
