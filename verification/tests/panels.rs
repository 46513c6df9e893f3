use nicotine::config::{CharacterHotkey, Config, DisplayMode, LiveSettings, Platform};
use nicotine::config_editor::{modifier_dropdown_label, vk_dropdown_label, ConfigPanel};
use nicotine::config_panel::{
    modifier_choices, shown_hotkey, swap_names, CaptureTarget, Effect, KeyEvent, Message, Panel,
    Tab,
};
use nicotine::cycle_state::CycleState;
use nicotine::key_codes::{
    char_to_evdev, code_to_label, iced_key_to_code, oem_vk_currently_pressed, oem_vk_range, Key,
    Named,
};
use nicotine::overlay::{display_title, row_text, sync_due, target_height, OverlayApp};
use nicotine::window_manager::EveWindow;

fn config(characters: &[&str]) -> Config {
    let mut c = Config::build_default(Platform::Unix, 1920, 1080);
    c.characters = characters.iter().map(|s| s.to_string()).collect();
    c
}

fn panel(characters: &[&str]) -> Panel {
    let c = config(characters);
    let live = LiveSettings::from_config(&c);
    Panel::new(c, live)
}

const UNIX: Platform = Platform::Unix;

#[test]
fn moving_up_undoes_moving_down() {
    let mut p = panel(&["A", "B", "C"]);
    p.update(UNIX, Message::MoveCharacterDown(0));
    assert_eq!(p.config.characters, ["B", "A", "C"]);
    p.update(UNIX, Message::MoveCharacterUp(1));
    assert_eq!(p.config.characters, ["A", "B", "C"]);
    // The ends have nowhere to go.
    p.update(UNIX, Message::MoveCharacterUp(0));
    p.update(UNIX, Message::MoveCharacterDown(2));
    p.update(UNIX, Message::RemoveCharacter(7));
    assert_eq!(p.config.characters, ["A", "B", "C"]);
    let mut v = p.config.characters.clone();
    swap_names(&mut v, 0, 2);
    assert_eq!(v, ["C", "B", "A"]);
}

#[test]
fn characters_are_added_trimmed_and_removed() {
    let mut p = panel(&[]);
    p.update(UNIX, Message::NewCharacterChanged("  Main  ".to_string()));
    p.update(UNIX, Message::AddCharacter);
    assert_eq!(p.config.characters, ["Main"]);
    assert_eq!(p.new_character_buffer, "");
    p.update(UNIX, Message::NewCharacterChanged("   ".to_string()));
    p.update(UNIX, Message::AddCharacter);
    assert_eq!(p.config.characters.len(), 1);
    p.update(UNIX, Message::CharacterNameChanged(0, "Alt".to_string()));
    assert_eq!(p.config.characters, ["Alt"]);
    p.update(UNIX, Message::RemoveCharacter(0));
    assert!(p.config.characters.is_empty());
}

const F1: CharacterHotkey = CharacterHotkey { vk: 59, modifier: None };
const F2: CharacterHotkey = CharacterHotkey { vk: 60, modifier: Some(29) };

/// A panel with a character for each name; the first has F1, the second F2.
fn bound_panel(characters: &[&str]) -> Panel {
    let mut p = panel(characters);
    for (name, hotkey) in characters.iter().zip([F1, F2]) {
        p.config.character_hotkeys.insert(name.to_string(), hotkey);
    }
    p
}

#[test]
fn bindings_follow_renames() {
    let mut p = bound_panel(&["Alpha"]);
    p.update(UNIX, Message::CharacterNameChanged(0, "Beta".to_string()));
    assert_eq!(p.config.characters, ["Beta"]);
    assert_eq!(p.config.character_hotkeys.get("Beta"), Some(&F1));
    assert_eq!(p.config.character_hotkeys.get("Alpha"), None);
    assert!(p.wants_clock());
    // The same name again, and a row that is not there.
    p.update(UNIX, Message::CharacterNameChanged(0, "Beta".to_string()));
    p.update(UNIX, Message::CharacterNameChanged(1, "Gamma".to_string()));
    assert_eq!(p.config.characters, ["Beta"]);
    assert_eq!(p.config.character_hotkeys.get("Beta"), Some(&F1));
    assert_eq!(p.config.character_hotkeys.len(), 1);

    let mut e = ConfigPanel::new(p.config.clone(), LiveSettings::from_config(&p.config));
    e.rename_character(0, "Delta".to_string());
    assert!(e.dirty);
    assert_eq!(e.config.characters, ["Delta"]);
    assert_eq!(e.config.character_hotkeys.get("Delta"), Some(&F1));
    assert_eq!(e.config.character_hotkeys.get("Beta"), None);
}

#[test]
fn a_name_typed_letter_by_letter_keeps_its_binding() {
    let mut p = bound_panel(&["Alpha", "Main"]);
    for typed in ["Alph", "Al", "", "B", "Be", "Beta"] {
        p.update(UNIX, Message::CharacterNameChanged(0, typed.to_string()));
        assert_eq!(p.config.character_hotkeys.get(typed), Some(&F1));
        assert_eq!(p.config.character_hotkeys.get("Main"), Some(&F2));
        assert_eq!(p.config.character_hotkeys.len(), 2);
    }
    assert_eq!(p.config.characters, ["Beta", "Main"]);
}

#[test]
fn a_name_stands_for_one_binding() {
    // The new name's own binding gives way.
    let mut p = bound_panel(&["Alpha", "Beta"]);
    p.update(UNIX, Message::CharacterNameChanged(0, "Beta".to_string()));
    assert_eq!(p.config.characters, ["Beta", "Beta"]);
    assert_eq!(p.config.character_hotkeys.get("Beta"), Some(&F1));
    assert_eq!(p.config.character_hotkeys.len(), 1);
    // The other row with the old name is left without.
    p.update(UNIX, Message::CharacterNameChanged(0, "Gamma".to_string()));
    assert_eq!(p.config.characters, ["Gamma", "Beta"]);
    assert_eq!(p.config.character_hotkeys.get("Gamma"), Some(&F1));
    assert_eq!(p.config.character_hotkeys.get("Beta"), None);
    // A name without a binding brings none along and takes none away.
    p.update(UNIX, Message::CharacterNameChanged(1, "Gamma".to_string()));
    assert_eq!(p.config.character_hotkeys.get("Gamma"), Some(&F1));
    assert_eq!(p.config.character_hotkeys.len(), 1);
}

#[test]
fn live_settings_follow_the_panel() {
    let mut p = panel(&[]);
    p.update(UNIX, Message::LockToggled(true));
    p.update(UNIX, Message::DisplayModeChanged(DisplayMode::List));
    p.update(UNIX, Message::ShowPreviewsToggled(false));
    p.update(UNIX, Message::PreviewWidthChanged(320));
    p.update(UNIX, Message::PreviewHeightChanged(180));
    assert!(p.live.positions_locked && p.config.positions_locked);
    assert_eq!(p.live.display_mode, DisplayMode::List);
    assert!(!p.live.show_previews);
    assert_eq!((p.live.preview_width, p.live.preview_height), (320, 180));
    assert!(p.wants_clock());
}

#[test]
fn edits_are_saved_after_a_pause() {
    let mut p = panel(&[]);
    assert!(!p.wants_clock());
    assert_eq!(p.flush_after(None), Effect::Nothing);
    p.update(UNIX, Message::KeyboardEnabledToggled(true));
    assert!(p.config.enable_keyboard_buttons);
    assert_eq!(p.flush_after(Some(299)), Effect::Nothing);
    assert!(p.wants_clock());
    assert_eq!(p.flush_after(Some(300)), Effect::Save);
    assert!(!p.wants_clock());
    assert_eq!(p.update(UNIX, Message::RestackClicked), Effect::SendStack);
    assert_eq!(
        p.update(UNIX, Message::OpenLink("https://example.org".to_string())),
        Effect::OpenLink("https://example.org".to_string())
    );
    assert_eq!(p.update(UNIX, Message::TabSelected(Tab::Hotkeys)), Effect::Nothing);
    assert!(p.active_tab == Tab::Hotkeys && !p.wants_clock());
}

#[test]
fn each_edit_restarts_the_wait() {
    let mut p = panel(&["A"]);
    p.update(UNIX, Message::LockToggled(true));
    let first = p.last_change;
    assert!(first.is_some());
    while Some(std::time::Instant::now()) <= first {}
    p.update(UNIX, Message::TabSelected(Tab::Hotkeys));
    assert_eq!(p.last_change, first);
    p.update(UNIX, Message::CharacterNameChanged(0, "B".to_string()));
    assert!(p.last_change > first);
}

fn pressed(k: Key) -> KeyEvent {
    KeyEvent::Pressed(k, None)
}

#[test]
fn a_captured_key_is_bound() {
    let mut p = panel(&["Alpha"]);
    p.update(UNIX, Message::StartCapture(CaptureTarget::ForwardKey));
    assert!(p.wants_keys());
    p.update(UNIX, Message::KeyEvent(KeyEvent::Other));
    assert!(p.wants_keys());
    p.update(UNIX, Message::KeyEvent(pressed(Key::Named(Named::F1))));
    assert_eq!(p.config.forward_key, 59);
    assert!(!p.wants_keys());
    // Escape leaves everything as it was.
    p.update(UNIX, Message::StartCapture(CaptureTarget::BackwardKey));
    let before = p.config.backward_key;
    p.update(UNIX, Message::KeyEvent(pressed(Key::Named(Named::Escape))));
    assert_eq!(p.config.backward_key, before);
    assert!(!p.wants_keys());
    p.update(
        UNIX,
        Message::StartCapture(CaptureTarget::Character("Alpha".to_string())),
    );
    p.update(UNIX, Message::KeyEvent(pressed(Key::Character("q".to_string()))));
    assert_eq!(
        p.config.character_hotkeys.get("Alpha"),
        Some(&CharacterHotkey { vk: 16, modifier: None })
    );
    assert_eq!(shown_hotkey(&p.config.character_hotkeys, "Alpha"), Some(16));
    assert_eq!(shown_hotkey(&p.config.character_hotkeys, "Beta"), None);
    p.update(UNIX, Message::CharacterModifierChanged("Alpha".to_string(), Some(42)));
    assert_eq!(p.config.character_hotkeys.get("Alpha").unwrap().modifier, Some(42));
    p.update(UNIX, Message::ClearCharacterHotkey("Alpha".to_string()));
    assert_eq!(p.config.character_hotkeys.get("Alpha"), None);
}

#[test]
fn hotkeys_pause_while_windows_captures() {
    let mut p = panel(&[]);
    assert_eq!(
        p.update(Platform::Windows, Message::StartCapture(CaptureTarget::ModifierKey)),
        Effect::PauseHotkeys
    );
    assert!(matches!(
        p.update(Platform::Windows, Message::KeyEvent(pressed(Key::Named(Named::F5)))),
        Effect::ResumeHotkeys { .. }
    ));
    assert_eq!(p.config.modifier_key, Some(0x74));
    p.update(UNIX, Message::ClearModifier);
    assert_eq!(p.config.modifier_key, None);
}

#[test]
fn labels_say_what_is_bound() {
    let mut p = panel(&[]);
    assert_eq!(p.bind_label(&CaptureTarget::ForwardKey, "Tab"), "Tab");
    p.update(UNIX, Message::StartCapture(CaptureTarget::ForwardKey));
    assert_ne!(p.bind_label(&CaptureTarget::ForwardKey, "Tab"), "Tab");
    assert_eq!(p.bind_label(&CaptureTarget::BackwardKey, "Tab"), "Tab");
    let choices = modifier_choices(UNIX);
    assert_eq!(choices[0].code, None);
    assert_eq!(choices[0].label, "None");
    for c in &choices[1..] {
        assert_eq!(c.label, code_to_label(UNIX, c.code.unwrap(), None));
    }
    assert_eq!(modifier_dropdown_label(None), "None");
    assert_eq!(vk_dropdown_label(0x70), "F1");
}

#[test]
fn keys_have_codes_on_both_platforms() {
    assert_eq!(char_to_evdev("a"), Some(30));
    assert_eq!(char_to_evdev("0"), Some(11));
    assert_eq!(char_to_evdev("ab"), Some(30));
    assert_eq!(char_to_evdev(""), None);
    assert_eq!(char_to_evdev("€"), None);
    let named = |p, n| iced_key_to_code(p, &Key::Named(n));
    assert_eq!(named(UNIX, Named::F1), Some(59));
    assert_eq!(named(Platform::Windows, Named::F1), Some(0x70));
    assert_eq!(named(UNIX, Named::Other), None);
    assert_eq!(iced_key_to_code(UNIX, &Key::Unidentified), None);
    assert_eq!(
        iced_key_to_code(Platform::Windows, &Key::Character("a".to_string())),
        Some(0x41)
    );
    assert_eq!(code_to_label(Platform::Windows, 0x41, None), "A");
    assert_eq!(code_to_label(Platform::Windows, 0xBA, Some("ö")), "ö");
    assert_eq!(code_to_label(UNIX, 59, None), "F1");
    let range = oem_vk_range();
    let mut down = vec![false; range.len()];
    assert_eq!(oem_vk_currently_pressed(&range, &down), None);
    down[2] = true;
    assert_eq!(oem_vk_currently_pressed(&range, &down), Some(range[2]));
}

#[test]
fn the_editor_notices_edits() {
    let c = config(&["A", "B"]);
    let live = LiveSettings::from_config(&c);
    let mut e = ConfigPanel::new(c, live);
    assert!(!e.dirty);
    e.swap_characters(0, 1);
    assert!(e.dirty);
    assert_eq!(e.config.characters, ["B", "A"]);
    e.saved(Ok(()));
    assert!(!e.dirty);
    e.rename_character(0, "C".to_string());
    e.remove_character(1);
    e.new_character_buffer = " D ".to_string();
    e.add_character();
    assert_eq!(e.config.characters, ["C", "D"]);
    e.saved(Err("disk full".to_string()));
    assert!(e.dirty);
    assert!(e.status.clone().unwrap().contains("disk full"));
    assert!(e.footer().is_some());
    e.set_display_mode(DisplayMode::List);
    e.set_preview_size(300, 200);
    assert_eq!((e.live.preview_width, e.live.preview_height), (300, 200));
    e.saved(Ok(()));
    e.set_keyboard_enabled(e.config.enable_keyboard_buttons);
    e.set_mouse_enabled(e.config.enable_mouse_buttons);
    e.set_show_previews(e.config.show_previews);
    e.set_mouse_buttons(e.config.forward_button, e.config.backward_button);
    assert!(!e.dirty);
    let keyboard = e.config.enable_keyboard_buttons;
    e.set_keyboard_enabled(!keyboard);
    assert!(e.dirty && e.config.enable_keyboard_buttons != keyboard);
    e.saved(Ok(()));
    let mouse = e.config.enable_mouse_buttons;
    e.set_mouse_enabled(!mouse);
    assert!(e.dirty && e.config.enable_mouse_buttons != mouse);
    e.saved(Ok(()));
    e.set_mouse_buttons(1, 2);
    assert!(e.dirty);
    assert_eq!((e.config.forward_button, e.config.backward_button), (1, 2));
    e.saved(Ok(()));
    let (show, live) = (e.config.show_previews, e.live.show_previews);
    e.set_show_previews(!show);
    assert!(e.dirty && e.config.show_previews != show && e.live.show_previews == live);
    // A choice from a menu is an edit even where it is the old one.
    e.saved(Ok(()));
    e.choose_forward_key(e.config.forward_key);
    assert!(e.dirty);
    e.choose_forward_key(0x70);
    e.choose_backward_key(0x71);
    e.choose_modifier_key(Some(0x10));
    assert_eq!((e.config.forward_key, e.config.backward_key), (0x70, 0x71));
    assert_eq!(e.config.modifier_key, Some(0x10));
    e.reloaded(Ok(config(&["Z"])));
    assert!(!e.dirty);
    assert_eq!(e.config.characters, ["Z"]);
    e.reloaded(Err("gone".to_string()));
    assert!(e.status.clone().unwrap().contains("gone"));
}

#[test]
fn the_overlay_shows_short_titles() {
    assert_eq!(display_title("Alpha"), "Alpha");
    assert_eq!(display_title("A title of more than twenty"), "A title of more than");
    let w = EveWindow { id: 1, title: "Alpha".to_string() };
    assert_eq!(row_text(&w, true), "▸ Alpha");
    assert_eq!(row_text(&w, false), "  Alpha");
    assert_eq!(target_height(3), 320);
    assert_eq!(target_height(12), 360);
    assert!(sync_due(500) && !sync_due(499));
    let mut state = CycleState::new();
    state.update_windows(vec![
        EveWindow { id: 1, title: "Alpha".to_string() },
        EveWindow { id: 2, title: "Beta".to_string() },
    ]);
    let mut o = OverlayApp::new();
    o.take_index(Some(1), &mut state);
    assert_eq!(state.get_current_index(), 1);
    let recorded = Some(std::time::Instant::now());
    state.set_last_activated(recorded);
    o.take_index(None, &mut state);
    assert_eq!(state.get_current_index(), 1);
    o.take_index(Some(0), &mut state);
    assert_eq!(state.get_current_index(), 0);
    assert_eq!(state.last_activated(), recorded);
}

#[test]
fn named_keys_have_codes_of_their_own() {
    let named = [
        Named::F1, Named::F11, Named::F12, Named::F13, Named::F24, Named::Tab, Named::Space,
        Named::Enter, Named::Backspace, Named::Insert, Named::Delete, Named::Home, Named::End,
        Named::PageUp, Named::PageDown, Named::ArrowUp, Named::ArrowDown, Named::ArrowLeft,
        Named::ArrowRight,
    ];
    for platform in [UNIX, Platform::Windows] {
        let codes: Vec<u16> = named
            .iter()
            .map(|n| iced_key_to_code(platform, &Key::Named(*n)).unwrap())
            .collect();
        for (i, a) in codes.iter().enumerate() {
            assert!(codes[i + 1..].iter().all(|b| a != b));
        }
    }
}
