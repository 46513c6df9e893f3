use nicotine::config::Config;
use nicotine::cycle_state::{CycleState, ACTIVATION_GRACE};
use nicotine::window_manager::{EveWindow, WindowId, WindowManager, WmError};

fn create_test_window(id: WindowId, title: &str) -> EveWindow {
    EveWindow {
        id,
        title: title.to_string(),
    }
}

#[test]
fn test_new_cycle_state_is_empty() {
    let state = CycleState::new();
    assert_eq!(state.get_current_index(), 0);
    assert_eq!(state.get_windows().len(), 0);
}

#[test]
fn test_update_windows() {
    let mut state = CycleState::new();
    let windows = vec![
        create_test_window(1, "EVE - Character 1"),
        create_test_window(2, "EVE - Character 2"),
        create_test_window(3, "EVE - Character 3"),
    ];

    state.update_windows(windows);
    assert_eq!(state.get_windows().len(), 3);
    assert_eq!(state.get_current_index(), 0);
}

#[test]
fn test_update_windows_clamps_index() {
    let mut state = CycleState::new();

    // Set up with 5 windows and move to index 4
    let windows = vec![
        create_test_window(1, "EVE - Character 1"),
        create_test_window(2, "EVE - Character 2"),
        create_test_window(3, "EVE - Character 3"),
        create_test_window(4, "EVE - Character 4"),
        create_test_window(5, "EVE - Character 5"),
    ];
    state.update_windows(windows);
    state.set_current_index(4); // Manually set to last index

    // Now update with only 2 windows
    let windows = vec![
        create_test_window(1, "EVE - Character 1"),
        create_test_window(2, "EVE - Character 2"),
    ];
    state.update_windows(windows);

    // Index should be clamped back to 0
    assert_eq!(state.get_current_index(), 0);
}

#[test]
fn test_sync_with_active_updates_index() {
    let mut state = CycleState::new();
    let windows = vec![
        create_test_window(100, "EVE - Character 1"),
        create_test_window(200, "EVE - Character 2"),
        create_test_window(300, "EVE - Character 3"),
    ];
    state.update_windows(windows);

    // Sync with window id 300
    state.sync_with_active(300);
    assert_eq!(state.get_current_index(), 2);

    // Sync with window id 100
    state.sync_with_active(100);
    assert_eq!(state.get_current_index(), 0);
}

#[test]
fn test_sync_with_active_nonexistent_window() {
    let mut state = CycleState::new();
    let windows = vec![
        create_test_window(100, "EVE - Character 1"),
        create_test_window(200, "EVE - Character 2"),
    ];
    state.update_windows(windows);
    state.set_current_index(1);

    // Sync with non-existent window - index shouldn't change
    state.sync_with_active(999);
    assert_eq!(state.get_current_index(), 1);
}

#[test]
fn test_get_windows_returns_slice() {
    let mut state = CycleState::new();
    let windows = vec![
        create_test_window(1, "EVE - Character 1"),
        create_test_window(2, "EVE - Character 2"),
    ];
    state.update_windows(windows);

    let returned_windows = state.get_windows();
    assert_eq!(returned_windows.len(), 2);
    assert_eq!(returned_windows[0].id, 1);
    assert_eq!(returned_windows[1].id, 2);
}

#[test]
fn test_empty_windows_stays_at_zero() {
    let mut state = CycleState::new();

    // Update with empty list
    state.update_windows(vec![]);

    assert_eq!(state.get_current_index(), 0);
    assert_eq!(state.get_windows().len(), 0);
}

#[test]
fn test_single_window_behavior() {
    let mut state = CycleState::new();
    let windows = vec![create_test_window(1, "EVE - Single Client")];
    state.update_windows(windows);

    // With a single window, we should stay at index 0
    assert_eq!(state.get_current_index(), 0);

    // Syncing with the only window should work
    state.sync_with_active(1);
    assert_eq!(state.get_current_index(), 0);
}

#[test]
fn test_update_windows_preserves_valid_index() {
    let mut state = CycleState::new();

    // Start with 5 windows, move to index 2
    let windows = vec![
        create_test_window(1, "EVE - Character 1"),
        create_test_window(2, "EVE - Character 2"),
        create_test_window(3, "EVE - Character 3"),
        create_test_window(4, "EVE - Character 4"),
        create_test_window(5, "EVE - Character 5"),
    ];
    state.update_windows(windows);
    state.set_current_index(2);

    // Update with 4 windows - index 2 is still valid
    let windows = vec![
        create_test_window(1, "EVE - Character 1"),
        create_test_window(2, "EVE - Character 2"),
        create_test_window(3, "EVE - Character 3"),
        create_test_window(4, "EVE - Character 4"),
    ];
    state.update_windows(windows);

    // Index should stay at 2 since it's still valid
    assert_eq!(state.get_current_index(), 2);
}

/// A window manager that remembers what it activated.
struct MockWindowManager {
    activated_windows: Vec<WindowId>,
}

impl MockWindowManager {
    fn new() -> Self {
        Self {
            activated_windows: Vec::new(),
        }
    }

    fn get_activated(&self) -> Vec<WindowId> {
        self.activated_windows.clone()
    }
}

impl WindowManager for MockWindowManager {
    fn get_eve_windows(&mut self) -> Result<Vec<EveWindow>, WmError> {
        Ok(vec![])
    }

    fn activate_window(&mut self, window_id: WindowId) -> Result<(), WmError> {
        self.activated_windows.push(window_id);
        Ok(())
    }

    fn stack_windows(
        &mut self,
        _windows: &Vec<EveWindow>,
        _config: &Config,
    ) -> Result<(), WmError> {
        Ok(())
    }

    fn get_active_window(&mut self) -> Result<WindowId, WmError> {
        Ok(0)
    }

    fn minimize_window(&mut self, _window_id: WindowId) -> Result<(), WmError> {
        Ok(())
    }

    fn restore_window(&mut self, _window_id: WindowId) -> Result<(), WmError> {
        Ok(())
    }
}

#[test]
fn test_switch_to_by_index_no_character_order() {
    let mut state = CycleState::new();
    let windows = vec![
        create_test_window(100, "Alpha"),
        create_test_window(200, "Beta"),
        create_test_window(300, "Gamma"),
    ];
    state.update_windows(windows);

    let mut wm = MockWindowManager::new();

    // Switch to target 2 (0-indexed: 1)
    state.switch_to(2, &mut wm, false, None).unwrap();
    assert_eq!(state.get_current_index(), 1);
    assert_eq!(wm.get_activated(), vec![200]);
}

#[test]
fn test_switch_to_with_character_order() {
    let mut state = CycleState::new();
    // Windows in random order
    let windows = vec![
        create_test_window(100, "Gamma"),
        create_test_window(200, "Alpha"),
        create_test_window(300, "Beta"),
    ];
    state.update_windows(windows);

    let mut wm = MockWindowManager::new();

    // Character order defines: 1=Alpha, 2=Beta, 3=Gamma
    let char_order = vec!["Alpha".to_string(), "Beta".to_string(), "Gamma".to_string()];

    // Switch to target 1 (Alpha) - should find window 200
    state.switch_to(1, &mut wm, false, Some(&char_order)).unwrap();
    assert_eq!(state.get_current_index(), 1); // Index of Alpha in windows
    assert_eq!(wm.get_activated(), vec![200]);
}

#[test]
fn test_switch_to_same_window_does_nothing() {
    let mut state = CycleState::new();
    let windows = vec![
        create_test_window(100, "Alpha"),
        create_test_window(200, "Beta"),
    ];
    state.update_windows(windows);
    state.set_current_index(0);

    let mut wm = MockWindowManager::new();

    // Switch to target 1 when already on index 0
    state.switch_to(1, &mut wm, false, None).unwrap();

    // Should not have activated anything
    assert!(wm.get_activated().is_empty());
}

#[test]
fn test_switch_to_out_of_range() {
    let mut state = CycleState::new();
    let windows = vec![
        create_test_window(100, "Alpha"),
        create_test_window(200, "Beta"),
    ];
    state.update_windows(windows);

    let mut wm = MockWindowManager::new();

    // Switch to target 5 when only 2 windows exist
    let result = state.switch_to(5, &mut wm, false, None);
    assert!(result.is_err());
}

#[test]
fn test_switch_to_character_not_logged_in() {
    let mut state = CycleState::new();
    let windows = vec![
        create_test_window(100, "Alpha"),
        create_test_window(200, "Beta"),
    ];
    state.update_windows(windows);

    let mut wm = MockWindowManager::new();

    // Character order includes a character not in windows
    let char_order = vec!["Alpha".to_string(), "Beta".to_string(), "Gamma".to_string()];

    // Switch to target 3 (Gamma) - not logged in
    let result = state.switch_to(3, &mut wm, false, Some(&char_order));
    assert!(result.is_err());
}

#[test]
fn test_switch_to_zero_does_nothing() {
    let mut state = CycleState::new();
    let windows = vec![create_test_window(100, "Alpha")];
    state.update_windows(windows);

    let mut wm = MockWindowManager::new();

    // Switch to target 0 should do nothing
    state.switch_to(0, &mut wm, false, None).unwrap();
    assert!(wm.get_activated().is_empty());
}

#[test]
fn test_switch_to_empty_windows_does_nothing() {
    let mut state = CycleState::new();

    let mut wm = MockWindowManager::new();

    // Switch with no windows
    state.switch_to(1, &mut wm, false, None).unwrap();
    assert!(wm.get_activated().is_empty());
}

#[test]
fn test_character_order_getter_starts_none() {
    let state = CycleState::new();
    assert!(state.character_order().is_none());
}

#[test]
fn test_character_order_getter_returns_latest_after_set() {
    // The daemon asks for the order on every call, so the getter must see
    // every update.
    let mut state = CycleState::new();
    let first = vec!["Alpha".to_string(), "Beta".to_string()];
    state.set_character_order(Some(first.clone()));
    assert_eq!(state.character_order(), Some(&first));

    let second = vec!["Beta".to_string(), "Alpha".to_string(), "Gamma".to_string()];
    state.set_character_order(Some(second.clone()));
    assert_eq!(state.character_order(), Some(&second));

    state.set_character_order(None);
    assert!(state.character_order().is_none());
}

#[test]
fn test_switch_to_uses_latest_character_order() {
    // The numbered targets must follow the latest list, not any
    // earlier one.
    let mut state = CycleState::new();
    state.update_windows(vec![
        create_test_window(100, "Alpha"),
        create_test_window(200, "Beta"),
        create_test_window(300, "Gamma"),
    ]);

    let mut wm = MockWindowManager::new();

    // Old order: target 1 = Alpha (id 100).
    let old_order = vec!["Alpha".to_string(), "Beta".to_string(), "Gamma".to_string()];
    state.set_character_order(Some(old_order));

    // User edits the panel — new order puts Gamma first.
    let new_order = vec!["Gamma".to_string(), "Alpha".to_string(), "Beta".to_string()];
    state.set_character_order(Some(new_order));

    let order: Vec<String> = state.character_order().unwrap().to_vec();
    state.switch_to(1, &mut wm, false, Some(&order)).unwrap();

    // Target 1 under the new order is Gamma (id 300).
    assert_eq!(wm.get_activated(), vec![300]);
}

// --- switch_to_character ----------------------------------------

#[test]
fn switch_to_character_activates_matching_window() {
    let mut state = CycleState::new();
    state.update_windows(vec![
        create_test_window(100, "Alpha"),
        create_test_window(200, "Beta"),
    ]);
    state.set_current_index(0);

    let mut wm = MockWindowManager::new();
    state.switch_to_character("Beta", &mut wm, false).unwrap();

    assert_eq!(wm.get_activated(), vec![200]);
    assert_eq!(state.get_current_index(), 1);
}

#[test]
fn switch_to_character_unknown_name_is_noop() {
    // Per-character hotkey for a character that isn't logged in
    // should silently do nothing — not error, not change focus.
    // Matches the user-facing expectation that "I have F4 bound
    // to Charlie, but Charlie isn't logged in right now" doesn't
    // dump a stack trace.
    let mut state = CycleState::new();
    state.update_windows(vec![
        create_test_window(100, "Alpha"),
        create_test_window(200, "Beta"),
    ]);
    state.set_current_index(0);

    let mut wm = MockWindowManager::new();
    state.switch_to_character("Charlie", &mut wm, false).unwrap();

    assert!(wm.get_activated().is_empty());
    assert_eq!(state.get_current_index(), 0);
}

#[test]
fn switch_to_character_already_active_reactivates() {
    // If the hotkey fires for the currently-active character, the user
    // expects the window to be re-foregrounded in case some other app
    // stole focus.
    let mut state = CycleState::new();
    state.update_windows(vec![
        create_test_window(100, "Alpha"),
        create_test_window(200, "Beta"),
    ]);
    state.set_current_index(1); // On Beta

    let mut wm = MockWindowManager::new();
    state.switch_to_character("Beta", &mut wm, false).unwrap();

    assert_eq!(wm.get_activated(), vec![200]);
    assert_eq!(state.get_current_index(), 1);
}

// --- activation-grace resync guard ------------------------------

#[test]
fn sync_is_ignored_within_activation_grace() {
    // Right after we drive an activation, the compositor's _NET_ACTIVE_WINDOW can still
    // report the previous window. sync_with_active must NOT rewind to it.
    let mut state = CycleState::new();
    state.update_windows(vec![
        create_test_window(100, "Alpha"),
        create_test_window(200, "Beta"),
        create_test_window(300, "Gamma"),
    ]);
    state.set_current_index(2); // we just cycled to Gamma
    state.set_last_activated(Some(std::time::Instant::now()));

    // Compositor still reports the old window (Alpha) — must be ignored.
    state.sync_with_active(100);
    assert_eq!(state.get_current_index(), 2);
}

#[test]
fn sync_applies_after_activation_grace() {
    // Once grace elapses, a genuine external focus change (user clicked /
    // alt-tabbed to another client) is honored again.
    let mut state = CycleState::new();
    state.update_windows(vec![
        create_test_window(100, "Alpha"),
        create_test_window(200, "Beta"),
        create_test_window(300, "Gamma"),
    ]);
    state.set_current_index(2);
    state.set_last_activated(
        std::time::Instant::now()
            .checked_sub(std::time::Duration::from_millis(ACTIVATION_GRACE as u64 * 2)),
    );
    assert!(state.last_activated().is_some(), "test clock underflow");

    state.sync_with_active(100);
    assert_eq!(state.get_current_index(), 0);
}

#[test]
fn sync_applies_when_never_activated() {
    // Fresh daemon, no activation yet: the first sync adopts whatever
    // client is currently focused.
    let mut state = CycleState::new();
    state.update_windows(vec![
        create_test_window(100, "Alpha"),
        create_test_window(200, "Beta"),
    ]);
    assert!(state.last_activated().is_none());
    state.sync_with_active(200);
    assert_eq!(state.get_current_index(), 1);
}

// --- update_windows identity stability --------------------------

#[test]
fn update_windows_remaps_current_index_by_id_on_reorder() {
    // The rescan can return the same clients in a different order. The
    // index must follow the client we were on (by id), not stay put.
    let mut state = CycleState::new();
    state.update_windows(vec![
        create_test_window(1, "A"),
        create_test_window(2, "B"),
        create_test_window(3, "C"),
    ]);
    state.set_current_index(2); // on C (id 3)

    // Same clients, reordered: C is now first.
    state.update_windows(vec![
        create_test_window(3, "C"),
        create_test_window(1, "A"),
        create_test_window(2, "B"),
    ]);
    assert_eq!(state.get_current_index(), 0); // still on C
}

#[test]
fn update_windows_falls_back_when_current_window_closes() {
    let mut state = CycleState::new();
    state.update_windows(vec![
        create_test_window(1, "A"),
        create_test_window(2, "B"),
        create_test_window(3, "C"),
    ]);
    state.set_current_index(2); // on C (id 3)

    // C closed; only A and B remain. Index can't follow C, so it clamps
    // back into range rather than pointing past the end.
    state.update_windows(vec![create_test_window(1, "A"), create_test_window(2, "B")]);
    assert_eq!(state.get_current_index(), 0);
}