use nicotine::config::{Config, Platform};
use nicotine::cycle_state::{grace_holds, CycleError, CycleState};
use nicotine::daemon::{
    backend_for, cycle_order, parse_cli, run_cycle_direct, send_command, Backend, CliCommand,
    Command, CycleOp, Daemon, DaemonError, Outcome,
};
use nicotine::config::LiveSettings;
use nicotine::window_manager::{
    Call, DisplayServer, EveWindow, HeadlessManager, WaylandCompositor, WindowId, WindowManager,
    WmError,
};
use nicotine::windows_helpers::CycleDirection;

fn window(id: WindowId, title: &str) -> EveWindow {
    EveWindow { id, title: title.to_string() }
}

fn abc() -> Vec<EveWindow> {
    vec![window(100, "Alpha"), window(200, "Beta"), window(300, "Gamma")]
}

fn names(v: &[&str]) -> Vec<String> {
    v.iter().map(|s| s.to_string()).collect()
}

fn activated(wm: &HeadlessManager) -> Vec<WindowId> {
    wm.calls()
        .iter()
        .filter_map(|c| match c {
            Call::Activate(id) => Some(*id),
            _ => None,
        })
        .collect()
}

#[test]
fn forward_goes_round_the_listed_characters() {
    let mut wm = HeadlessManager::new(abc(), 0);
    let mut state = CycleState::new();
    state.set_character_order(Some(names(&["Gamma", "Nobody", "Alpha"])));
    state.update_windows(abc());
    for _ in 0..4 {
        state.cycle_forward(&mut wm, false).unwrap();
    }
    // Beta is not listed and is never visited.
    assert_eq!(activated(&wm), [300, 100, 300, 100]);
    let ordered: Vec<String> = state.get_ordered_windows().into_iter().map(|w| w.title).collect();
    assert_eq!(ordered, ["Gamma", "Alpha"]);
}

#[test]
fn backward_undoes_forward() {
    let mut wm = HeadlessManager::new(abc(), 0);
    let mut state = CycleState::new();
    state.update_windows(abc());
    for start in 0..3 {
        state.set_current_index(start);
        state.cycle_forward(&mut wm, false).unwrap();
        state.cycle_backward(&mut wm, false).unwrap();
        assert_eq!(state.get_current_index(), start);
    }
}

#[test]
fn minimizing_restores_first_and_minimizes_last() {
    let mut wm = HeadlessManager::new(abc(), 0);
    let mut state = CycleState::new();
    state.update_windows(abc());
    state.cycle_step(&mut wm, true, CycleDirection::Forward).unwrap();
    assert_eq!(
        wm.calls(),
        &vec![Call::Restore(200), Call::Activate(200), Call::Minimize(100)]
    );
}

/// A manager whose every answer is a refusal.
struct Refusing;

impl WindowManager for Refusing {
    fn get_eve_windows(&mut self) -> Result<Vec<EveWindow>, WmError> {
        Err(WmError { message: "no windows".to_string() })
    }
    fn activate_window(&mut self, _: WindowId) -> Result<(), WmError> {
        Err(WmError { message: "no activation".to_string() })
    }
    fn stack_windows(&mut self, _: &Vec<EveWindow>, _: &Config) -> Result<(), WmError> {
        Err(WmError { message: "no stacking".to_string() })
    }
    fn get_active_window(&mut self) -> Result<WindowId, WmError> {
        Err(WmError { message: "no focus".to_string() })
    }
    fn minimize_window(&mut self, _: WindowId) -> Result<(), WmError> {
        Err(WmError { message: "no".to_string() })
    }
    fn restore_window(&mut self, _: WindowId) -> Result<(), WmError> {
        Err(WmError { message: "no".to_string() })
    }
}

#[test]
fn each_refusal_of_a_switch_is_its_own_error() {
    let mut wm = HeadlessManager::new(abc(), 0);
    let mut state = CycleState::new();
    state.update_windows(abc());
    let order = names(&["Alpha", "Zeta"]);
    let e = state.switch_to(4, &mut wm, false, None).unwrap_err();
    assert!(matches!(e, CycleError::NoSuchWindow { target: 4, windows: 3 }));
    assert_eq!(e.message(), "Target 4 is out of range (only 3 windows)");
    let e = state.switch_to(3, &mut wm, false, Some(&order)).unwrap_err();
    assert!(matches!(e, CycleError::NoSuchEntry { target: 3, configured: 2 }));
    let e = state.switch_to(2, &mut wm, false, Some(&order)).unwrap_err();
    assert!(matches!(&e, CycleError::NotLoggedIn { name } if name == "Zeta"));
    let e = state.switch_to(2, &mut Refusing, false, None).unwrap_err();
    assert!(matches!(&e, CycleError::Manager(w) if w.message == "no activation"));
    assert!(activated(&wm).is_empty());
}

#[test]
fn reports_of_the_focus_are_taken_over_after_the_grace_time() {
    let mut state = CycleState::new();
    state.update_windows(abc());
    state.sync_after(300, Some(299));
    assert_eq!(state.get_current_index(), 0);
    state.sync_after(300, Some(300));
    assert_eq!(state.get_current_index(), 2);
    state.sync_after(300, None);
    assert_eq!(state.get_current_index(), 2);
}

#[test]
fn only_an_activation_that_succeeds_starts_the_grace_time() {
    assert!(!grace_holds(None));
    assert!(grace_holds(Some(0)) && grace_holds(Some(299)));
    assert!(!grace_holds(Some(300)));
    let mut wm = HeadlessManager::new(abc(), 0);
    let mut state = CycleState::new();
    state.update_windows(abc());
    // A refused activation, a switch that stays and a report start none.
    assert!(state.cycle_forward(&mut Refusing, false).is_err());
    assert!(state.last_activated().is_none());
    assert_eq!(state.get_current_index(), 1);
    state.switch_to(2, &mut wm, false, None).unwrap();
    state.switch_to_character("Nobody", &mut wm, false).unwrap();
    state.sync_from(&mut wm);
    assert!(state.last_activated().is_none() && !state.in_activation_grace());
    state.cycle_forward(&mut wm, false).unwrap();
    let recorded = state.last_activated();
    assert!(recorded.is_some());
    state.update_windows(abc());
    assert!(state.switch_to(1, &mut Refusing, false, None).is_err());
    assert_eq!(state.last_activated(), recorded);
    // A later activation renews the record.
    while Some(std::time::Instant::now()) <= recorded {}
    state.switch_to_character("Beta", &mut wm, false).unwrap();
    assert!(state.last_activated() > recorded);
    let long_ago = std::time::Instant::now().checked_sub(std::time::Duration::from_secs(1));
    assert!(long_ago.is_some());
    state.set_last_activated(long_ago);
    assert!(!state.in_activation_grace());
}

#[test]
fn a_sent_command_is_the_one_received() {
    for c in [
        Command::Forward,
        Command::Backward,
        Command::Switch(0),
        Command::Switch(17),
        Command::Refresh,
        Command::Stack,
        Command::Quit,
    ] {
        assert_eq!(Command::from_str(&send_command(c)), Some(c));
        assert_eq!(Command::from_str(&format!(" {}\n", send_command(c))), Some(c));
    }
    assert_eq!(send_command(Command::Switch(3)), "switch:3");
    assert_eq!(Command::from_str("switch:x"), None);
    assert_eq!(Command::from_str("switch: 3"), None);
    assert_eq!(Command::from_str("FORWARD"), None);
    assert_eq!(Command::from_str(""), None);
}

#[test]
fn the_order_comes_from_the_settings_before_the_file() {
    let file = "Main\n\nAlt One\r\nAlt Two\n";
    assert_eq!(cycle_order(&names(&["A"]), Some(file)), Some(names(&["A"])));
    assert_eq!(
        cycle_order(&Vec::new(), Some(file)),
        Some(names(&["Main", "", "Alt One", "Alt Two"]))
    );
    assert_eq!(cycle_order(&Vec::new(), Some("")), None);
    assert_eq!(cycle_order(&Vec::new(), None), None);
}

fn daemon(wm: &mut HeadlessManager, characters: &[&str]) -> Daemon {
    let mut config = Config::build_default(Platform::Unix, 1920, 1080);
    config.characters = names(characters);
    let live = LiveSettings::from_config(&config);
    Daemon::new(wm, config, live, None)
}

#[test]
fn the_daemon_does_what_a_line_asks() {
    let mut wm = HeadlessManager::new(abc(), 100);
    let mut d = daemon(&mut wm, &[]);
    assert!(matches!(d.handle_client(&mut wm, "forward\n"), Ok(Outcome::Done)));
    assert_eq!(d.state.get_current_index(), 1);
    assert!(matches!(d.handle_client(&mut wm, "switch:3"), Ok(Outcome::Done)));
    assert_eq!(d.state.get_current_index(), 2);
    assert!(matches!(d.handle_client(&mut wm, "backward"), Ok(Outcome::Done)));
    assert_eq!(activated(&wm), [200, 300, 200]);
    assert!(matches!(d.handle_client(&mut wm, "stack"), Ok(Outcome::Done)));
    assert!(wm.calls().contains(&Call::Stack));
    assert!(matches!(d.handle_client(&mut wm, "refresh"), Ok(Outcome::Done)));
    assert!(matches!(d.handle_client(&mut wm, "quit"), Ok(Outcome::Quit)));
    assert!(matches!(d.handle_client(&mut wm, "dance"), Ok(Outcome::Unknown)));
    assert!(matches!(
        d.handle_client(&mut wm, "switch:9"),
        Err(DaemonError::Cycle(CycleError::NoSuchWindow { target: 9, windows: 3 }))
    ));
    assert!(matches!(
        d.handle_client(&mut Refusing, "refresh"),
        Err(DaemonError::Manager(_))
    ));
}

#[test]
fn a_reload_takes_over_what_changed() {
    let mut wm = HeadlessManager::new(abc(), 100);
    let mut d = daemon(&mut wm, &["Alpha", "Beta"]);
    let mut fresh = d.config.clone();
    let same = d.reload(&mut wm, Some(&fresh), None);
    assert!(!same.order_changed && !same.mouse_changed && !same.keyboard_changed);
    fresh.characters = names(&["Gamma", "Alpha"]);
    fresh.forward_button = 277;
    fresh.forward_key = 59;
    let report = d.reload(&mut wm, Some(&fresh), None);
    assert!(report.order_changed && report.mouse_changed && report.keyboard_changed);
    assert_eq!(d.state.character_order(), Some(&names(&["Gamma", "Alpha"])));
    assert_eq!(d.mouse_config.forward_button, 277);
    assert_eq!(d.keyboard_config.forward_key, 59);
}

#[test]
fn a_single_command_cycles_from_the_focused_client() {
    let config = Config::build_default(Platform::Unix, 1920, 1080);
    let mut wm = HeadlessManager::new(abc(), 200);
    run_cycle_direct(&mut wm, &config, None, CycleOp::Forward).unwrap();
    assert_eq!(activated(&wm), [300]);
    let mut wm = HeadlessManager::new(abc(), 200);
    run_cycle_direct(&mut wm, &config, None, CycleOp::Backward).unwrap();
    assert_eq!(activated(&wm), [100]);
    let mut wm = HeadlessManager::new(abc(), 200);
    run_cycle_direct(&mut wm, &config, Some("Gamma\nAlpha\n"), CycleOp::Switch(1)).unwrap();
    assert_eq!(activated(&wm), [300]);
    let mut wm = HeadlessManager::new(Vec::new(), 0);
    run_cycle_direct(&mut wm, &config, None, CycleOp::Switch(9)).unwrap();
    assert!(activated(&wm).is_empty());
}

#[test]
fn the_command_line_is_read() {
    let unix = |args: &[&str]| parse_cli(Platform::Unix, &names(args));
    assert_eq!(unix(&["start"]), CliCommand::Start);
    assert_eq!(unix(&["daemon"]), CliCommand::Daemon);
    assert_eq!(unix(&["overlay"]), CliCommand::Overlay);
    assert_eq!(unix(&["stack"]), CliCommand::Stack);
    for f in ["cycle-forward", "forward", "f"] {
        assert_eq!(unix(&[f]), CliCommand::Forward);
    }
    for b in ["cycle-backward", "backward", "b"] {
        assert_eq!(unix(&[b]), CliCommand::Backward);
    }
    assert_eq!(unix(&["stop"]), CliCommand::Stop);
    assert_eq!(unix(&["init-config"]), CliCommand::InitConfig);
    assert_eq!(unix(&["switch", "2"]), CliCommand::Switch(2));
    assert_eq!(unix(&["2"]), CliCommand::Switch(2));
    assert_eq!(unix(&["switch"]), CliCommand::Help);
    assert_eq!(unix(&["switch", "two"]), CliCommand::Help);
    assert_eq!(unix(&["dance"]), CliCommand::Help);
    assert_eq!(unix(&[]), CliCommand::Help);
    assert_eq!(parse_cli(Platform::Windows, &Vec::new()), CliCommand::Start);
    assert_eq!(parse_cli(Platform::Windows, &names(&["overlay"])), CliCommand::Help);
}

#[test]
fn the_backend_follows_the_session() {
    assert_eq!(backend_for(DisplayServer::X11, WaylandCompositor::Gnome), Some(Backend::X11));
    assert_eq!(backend_for(DisplayServer::Wayland, WaylandCompositor::Kde), Some(Backend::KWin));
    assert_eq!(backend_for(DisplayServer::Wayland, WaylandCompositor::Sway), Some(Backend::Sway));
    assert_eq!(backend_for(DisplayServer::Wayland, WaylandCompositor::Hyprland), Some(Backend::Hyprland));
    assert_eq!(backend_for(DisplayServer::Wayland, WaylandCompositor::Gnome), Some(Backend::Gnome));
    assert_eq!(backend_for(DisplayServer::Wayland, WaylandCompositor::Other), None);
}
