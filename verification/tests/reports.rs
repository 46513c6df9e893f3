use nicotine::boss::{
    client_streams, eve_client_pids, kill_all, mute_command, mute_eve, nicotine_pids, processes,
    unmute, Process,
};
use nicotine::config::Platform;
use nicotine::eve_match::{
    any_exefile_process_running, comm_is_eve_client, is_process_entry, pid_is_eve_client, CommRead,
    ProcessEntry,
};
use nicotine::json::Json;
use nicotine::wayland_backends::{
    extract_windows, get_window_title_by_id, hex_id, hyprland_active, hyprland_candidates,
    hyprland_focus, hyprland_minimize, hyprland_report_active, hyprland_report_candidates,
    hyprland_restore, hyprland_stack, parse_wmctrl_line, sway_active, sway_candidates, sway_focus,
    sway_minimize, sway_report_active, sway_report_candidates, sway_restore, sway_stack,
    tool_result, wmctrl_candidates, wmctrl_geometry, wmctrl_report_candidates, HyprlandManager,
    KWinManager, ReportError, SwayManager,
};
use nicotine::window_manager::{
    accept_clients, character_name, client_candidate, detect_display_server,
    detect_wayland_compositor, window_title, x11_id, Candidate, DisplayServer, StackGeometry,
    WaylandCompositor,
};

fn seen(cs: &[Candidate]) -> Vec<(u32, u64, &str)> {
    cs.iter().map(|c| (c.pid, c.window.id, c.window.title.as_str())).collect()
}

const GEOMETRY: StackGeometry = StackGeometry { x: 460, y: 0, width: 1000, height: 1040 };

#[test]
fn wmctrl_lines_are_read_with_and_without_a_host() {
    assert_eq!(
        parse_wmctrl_line("0x06e00008  0 4711 host EVE - Alpha Beta"),
        Some(("0x06e00008".to_string(), 4711, "EVE - Alpha Beta".to_string()))
    );
    assert_eq!(
        parse_wmctrl_line("0x06e00008 0 4711 title"),
        Some(("0x06e00008".to_string(), 4711, "title".to_string()))
    );
    assert_eq!(
        parse_wmctrl_line("0x1 0 nopid host x"),
        Some(("0x1".to_string(), 0, "x".to_string()))
    );
    assert_eq!(parse_wmctrl_line("0x1 0 1"), None);
}

#[test]
fn wmctrl_candidates_are_titled_like_clients() {
    let listing = "0x06e00008 0 4711 host EVE - Alpha\n\
                   0x06e00009 0 4712 host Firefox\n\
                   0x0600000a 0 0 host EVE - Nobody\n\
                   0x0 0 4713 host EVE - Zero\n\
                   12 -1 4714 host EVE - EVE - Beta\n";
    let expected = [(4711, 0x06e00008, "Alpha"), (4714, 12, "Beta")];
    assert_eq!(seen(&wmctrl_candidates(listing)), expected);
    assert_eq!(seen(&wmctrl_report_candidates(listing.as_bytes())), expected);
    // Bytes that are no UTF-8 are replaced, not refused.
    assert_eq!(
        seen(&wmctrl_report_candidates(b"0x1 0 7 host EVE - \xff\n")),
        [(7, 1, "\u{fffd}")]
    );
    assert_eq!(
        get_window_title_by_id(listing, "0x06e00009"),
        Some("Firefox".to_string())
    );
    assert_eq!(get_window_title_by_id(listing, "0x07"), None);
}

#[test]
fn a_wmctrl_identifier_reads_back() {
    for id in [1u64, 0x06e0_0008, 0xffff_ffff] {
        let line = format!("{} 0 5 host EVE - A", hex_id(id));
        assert_eq!(seen(&wmctrl_candidates(&line)), [(5, id, "A")]);
    }
    assert_eq!(hex_id(0x06e00008), "0x06e00008");
    assert_eq!(wmctrl_geometry(&GEOMETRY), "0,460,0,1000,1040");
}

const SWAY_TREE: &[u8] = br#"{
  "type": "root", "nodes": [
    {"type": "workspace", "nodes": [
      {"type": "con", "id": 7, "pid": 70, "name": "EVE - Alpha", "app_id": null,
       "window_properties": {"class": "x"}, "focused": false, "nodes": []},
      {"type": "con", "id": 8, "pid": 80, "name": "EVE - Beta", "app_id": "eve", "focused": true,
       "nodes": []},
      {"type": "con", "id": 9, "name": "EVE - Gamma", "app_id": "eve", "nodes": []}
    ],
    "floating_nodes": [
      {"type": "floating_con", "id": 5000000000, "pid": 100, "name": "EVE - Delta",
       "window_properties": {"class": "x"}}
    ]}
  ]}"#;

#[test]
fn sway_trees_are_walked() {
    // A window with a null application identifier is passed over, and one
    // without a process is no candidate. Wide identifiers are not cut.
    assert_eq!(
        seen(&sway_report_candidates(SWAY_TREE).unwrap()),
        [(80, 8, "Beta"), (100, 5_000_000_000, "Delta")]
    );
    assert_eq!(sway_report_active(SWAY_TREE), Ok(8));
    assert!(matches!(sway_report_candidates(b"{"), Err(ReportError::Unreadable)));
    assert_eq!(sway_report_active(b"nonsense"), Err(ReportError::Unreadable));
    assert_eq!(
        sway_report_active(br#"{"type":"root"}"#),
        Err(ReportError::NoActiveWindow)
    );
}

fn text(s: &str) -> Json {
    Json::Text(s.to_string())
}

fn object(fields: Vec<(&str, Json)>) -> Json {
    Json::Object(fields.into_iter().map(|(n, v)| (n.to_string(), v)).collect())
}

#[test]
fn a_parsed_sway_tree_gives_its_windows() {
    let leaf = object(vec![
        ("type", text("con")),
        ("id", Json::Number(Some(3))),
        ("pid", Json::Number(Some(33))),
        ("name", text("EVE - Alpha")),
        ("app_id", text("eve")),
        ("focused", Json::Bool(true)),
    ]);
    let tree = object(vec![
        ("type", text("root")),
        ("nodes", Json::Array(vec![leaf])),
    ]);
    let mut found = Vec::new();
    extract_windows(&tree, &mut found);
    assert_eq!(found.len(), 1);
    assert_eq!(seen(&sway_candidates(&tree)), [(33, 3, "Alpha")]);
    assert_eq!(sway_active(&tree), Ok(3));
    assert_eq!(sway_active(&Json::Null), Err(ReportError::NoActiveWindow));
}

#[test]
fn sway_is_told_by_container() {
    assert_eq!(sway_focus(7), "[con_id=7] focus");
    assert_eq!(sway_minimize(7), "[con_id=7] move scratchpad");
    assert_eq!(sway_restore(7), "[con_id=7] scratchpad show");
    assert_eq!(
        sway_stack(7, &GEOMETRY),
        [
            "[con_id=7] floating enable",
            "[con_id=7] move position 460 0",
            "[con_id=7] resize set 1000 1040"
        ]
    );
}

#[test]
fn hyprland_reports_are_read() {
    let clients = br#"[
      {"address": "0x55d0c1b2a3f0", "pid": 42, "title": "EVE - Alpha"},
      {"address": "55d0", "pid": 43, "title": "EVE - Beta"},
      {"address": "0x10", "pid": 0, "title": "EVE - Gamma"},
      {"address": "0x11", "pid": 44, "title": "Firefox"},
      {"pid": 45, "title": "EVE - Delta"}
    ]"#;
    assert_eq!(
        seen(&hyprland_report_candidates(clients).unwrap()),
        [(42, 0x55d0c1b2a3f0, "Alpha"), (43, 0, "Beta")]
    );
    assert_eq!(
        hyprland_report_active(br#"{"address": "0x55d0c1b2a3f0"}"#),
        Ok(0x55d0c1b2a3f0)
    );
    assert_eq!(
        hyprland_report_active(b"{}"),
        Err(ReportError::NoActiveWindow)
    );
    assert!(matches!(hyprland_report_candidates(b"{}"), Err(ReportError::Unreadable)));
    assert!(matches!(hyprland_candidates(&Json::Null), Err(ReportError::Unreadable)));
    assert_eq!(hyprland_active(&object(vec![("address", text("0xf"))])), Ok(15));
}

#[test]
fn hyprland_is_told_by_address() {
    assert_eq!(hyprland_focus(0x55d0), "address:0x55d0");
    assert_eq!(hyprland_minimize(0x55d0), "special,address:0x55d0");
    assert_eq!(hyprland_restore(0x55d0), "e+0,address:0x55d0");
    let told = hyprland_stack(0x55d0, &GEOMETRY);
    let told: Vec<(&str, &str)> = told.iter().map(|(a, b)| (a.as_str(), b.as_str())).collect();
    assert_eq!(
        told,
        [
            ("togglefloating", "address:0x55d0"),
            ("movewindowpixel", "exact 460 0,address:0x55d0"),
            ("resizewindowpixel", "exact 1000 1040,address:0x55d0")
        ]
    );
    // An address that was written is the one that is read.
    let id = 0x55d0c1b2a3f0u64;
    let address = hyprland_focus(id);
    let report = format!(r#"{{"address": "{}"}}"#, address.trim_start_matches("address:"));
    assert_eq!(hyprland_report_active(report.as_bytes()), Ok(id));
}

#[test]
fn managers_need_their_tool() {
    assert!(KWinManager::new(true).is_ok());
    assert_eq!(
        KWinManager::new(false).unwrap_err().message,
        "wmctrl not found. Install wmctrl package"
    );
    assert_eq!(
        SwayManager::new(false).unwrap_err().message,
        "swaymsg not found. Make sure you're running Sway"
    );
    assert_eq!(
        HyprlandManager::new(false).unwrap_err().message,
        "hyprctl not found. Make sure you're running Hyprland"
    );
    assert!(tool_result("swaymsg failed", true, &b"warning".to_vec()).is_ok());
    assert_eq!(
        tool_result("swaymsg failed", false, &b"no \xff socket".to_vec()).unwrap_err().message,
        "swaymsg failed: no \u{fffd} socket"
    );
}

#[test]
fn sessions_are_recognised() {
    assert_eq!(detect_display_server(Some("wayland"), false), DisplayServer::Wayland);
    assert_eq!(detect_display_server(Some("x11"), true), DisplayServer::Wayland);
    assert_eq!(detect_display_server(None, true), DisplayServer::Wayland);
    assert_eq!(detect_display_server(Some("x11"), false), DisplayServer::X11);
    assert_eq!(detect_display_server(None, false), DisplayServer::X11);
    let of = |d: Option<&str>| detect_wayland_compositor(d, false, false);
    assert_eq!(of(Some("KDE")), WaylandCompositor::Kde);
    assert_eq!(of(Some("Sway")), WaylandCompositor::Sway);
    assert_eq!(of(Some("Hyprland")), WaylandCompositor::Hyprland);
    assert_eq!(of(Some("ubuntu:GNOME")), WaylandCompositor::Gnome);
    assert_eq!(of(Some("river")), WaylandCompositor::Other);
    assert_eq!(detect_wayland_compositor(None, true, false), WaylandCompositor::Sway);
    assert_eq!(detect_wayland_compositor(None, false, true), WaylandCompositor::Hyprland);
    assert_eq!(of(None), WaylandCompositor::Other);
}

#[test]
fn titles_name_characters() {
    assert_eq!(character_name("EVE - Alpha"), Some("Alpha".to_string()));
    assert_eq!(character_name("EVE - EVE - Alpha"), Some("Alpha".to_string()));
    assert_eq!(character_name("EVE"), None);
    assert_eq!(character_name("My EVE - tab"), None);
    assert!(client_candidate(1, "EVE - Alpha", 0).is_none());
    let c = client_candidate(1, "EVE - Alpha", 9).unwrap();
    let d = client_candidate(2, "EVE - Beta", 10).unwrap();
    let accepted = accept_clients(&vec![c, d], &vec![false, true]);
    assert_eq!(accepted.len(), 1);
    assert_eq!((accepted[0].id, accepted[0].title.as_str()), (2, "Beta"));
}

#[test]
fn window_titles_prefer_utf8() {
    let title = |a: Option<&[u8]>, b: Option<&[u8]>| {
        window_title(a.map(|x| x.to_vec()), b.map(|x| x.to_vec()))
    };
    assert_eq!(title(Some("EVE - É".as_bytes()), Some(b"x")), Some("EVE - É".to_string()));
    assert_eq!(title(Some(b""), Some(b"legacy")), Some("legacy".to_string()));
    assert_eq!(title(Some(b"\xff"), Some(b"caf\xe9")), Some("caf\u{fffd}".to_string()));
    assert_eq!(title(None, Some(b"")), None);
    assert_eq!(title(None, None), None);
}

#[test]
fn x11_identifiers_are_narrow() {
    assert_eq!(x11_id(0xffff_ffff).unwrap(), 0xffff_ffff);
    assert_eq!(
        x11_id(0x1_0000_0000).unwrap_err().message,
        "Window ID exceeds the X11 32-bit range"
    );
}

#[test]
fn clients_are_recognised_by_their_process() {
    assert!(comm_is_eve_client("exefile.exe\n"));
    assert!(!comm_is_eve_client("firefox"));
    assert!(pid_is_eve_client(CommRead::Read("exefile.exe".to_string()), false));
    assert!(!pid_is_eve_client(CommRead::Read("firefox".to_string()), true));
    // In a process namespace of its own the identifier means nothing here.
    assert!(pid_is_eve_client(CommRead::NotFound, true));
    assert!(!pid_is_eve_client(CommRead::NotFound, false));
    assert!(!pid_is_eve_client(CommRead::Failed, true));
    assert!(is_process_entry("4711"));
    assert!(!is_process_entry("self"));
    let entry = |e: &str, c: Option<&str>| ProcessEntry {
        entry: e.to_string(),
        comm: c.map(|s| s.to_string()),
    };
    assert!(any_exefile_process_running(&vec![
        entry("self", Some("exefile.exe")),
        entry("12", None),
        entry("13", Some("exefile.exe\n")),
    ]));
    assert!(!any_exefile_process_running(&vec![entry("self", Some("exefile.exe"))]));
}

fn process(pid: u32, name: &str) -> Process {
    Process { pid, name: name.to_string() }
}

#[test]
fn the_kill_spares_itself() {
    let ps = vec![
        process(1, "init"),
        process(2, "exefile.exe"),
        process(3, "Nicotine"),
        process(4, "nicotine"),
        process(5, "ExeFile.exe"),
    ];
    assert_eq!(eve_client_pids(Platform::Unix, &ps), [2]);
    assert_eq!(nicotine_pids(Platform::Unix, &ps), [3, 4]);
    assert_eq!(kill_all(Platform::Unix, &ps, 4), [2, 3]);
    assert_eq!(eve_client_pids(Platform::Windows, &ps), [2, 5]);
    assert!(nicotine_pids(Platform::Windows, &ps).is_empty());
    let read = processes(&vec![
        ProcessEntry { entry: "12".to_string(), comm: Some("exefile.exe\n".to_string()) },
        ProcessEntry { entry: "13".to_string(), comm: None },
        ProcessEntry { entry: "net".to_string(), comm: Some("x".to_string()) },
    ]);
    assert_eq!(read.len(), 1);
    assert_eq!((read[0].pid, read[0].name.as_str()), (12, "exefile.exe"));
}

#[test]
fn the_clients_streams_are_muted() {
    let report = br#"[
      {"index": 5, "properties": {"application.process.id": "42"}},
      {"index": 6, "properties": {"application.process.id": "43"}},
      {"index": 7, "properties": {}},
      {"properties": {"application.process.id": "42"}},
      {"index": 4294967301, "properties": {"application.process.id": "42"}}
    ]"#;
    assert_eq!(mute_eve(report, &vec![42]), [5, 4294967301]);
    assert!(mute_eve(b"not json", &vec![42]).is_empty());
    assert!(mute_eve(b"{}", &vec![42]).is_empty());
    assert!(client_streams(&Json::Null, &vec![42]).is_empty());
    assert_eq!(mute_command(5, true), ["set-sink-input-mute", "5", "1"]);
    assert_eq!(
        unmute(&vec![5, 6]),
        [["set-sink-input-mute", "5", "0"], ["set-sink-input-mute", "6", "0"]]
    );
}
