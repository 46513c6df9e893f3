use nicotine::clock::{millis_until, Clock};
use nicotine::config::Platform;
use nicotine::paths::{
    config_dir, config_path, device_id_path, index_file_path, lock_file_path,
    preview_positions_path, runtime_path, same_path, socket_printname, BaseDir, Location,
};
use nicotine::pointer_nudge::PointerNudger;
use nicotine::telemetry::get_or_create_device_id;
use nicotine::version_check::{
    check_for_updates, is_newer_version, parse_version, status_of_release, UpdateCache,
    UpdateStatus, VersionError,
};
use nicotine::windows_manager::{
    read_window_title, text_until_zero, Activation, AttachPlan, WindowsManager,
};
use nicotine::xdg_activation::{TokenState, TokenStep};

fn at(l: &Location) -> (String, String) {
    let base = match &l.base {
        BaseDir::Given(d) => format!("given {d}"),
        BaseDir::Tmp => "tmp".to_string(),
        BaseDir::SystemTemp => "system temp".to_string(),
        BaseDir::Cache => "cache".to_string(),
        BaseDir::UserConfig => "config".to_string(),
        BaseDir::DataLocal => "data".to_string(),
        BaseDir::Working => "working".to_string(),
    };
    (base, l.below.join("/"))
}

fn pair(a: &str, b: &str) -> (String, String) {
    (a.to_string(), b.to_string())
}

#[test]
fn paths_are_compared_by_their_components() {
    let written = [
        "", ".", "./", "/", "//", "/.", "a", "./a", "a/", "a/.", "a/./b", "a//b", "a/b", "a/b/",
        "/a/b", "//a/./b//", "a/../b", "b", "..", "../b", "a/.b", "/dev/input/event3",
        "/dev/input//event3", "/dev/./input/event3/",
    ];
    for a in written {
        for b in written {
            let same = std::path::Path::new(a) == std::path::Path::new(b);
            assert_eq!(same_path(a, b), same, "{a:?} {b:?}");
        }
    }
    assert!(same_path("/dev/input//event3", "/dev/./input/event3/"));
    assert!(!same_path("./a", "a") && !same_path("/a", "a") && !same_path("a/../b", "b"));
}

#[test]
fn the_clock_counts_whole_milliseconds() {
    let mut clock = Clock::new();
    let t = clock.read();
    let later = |micros: u64| t + std::time::Duration::from_micros(micros);
    assert_eq!(millis_until(None, t), None);
    assert_eq!(millis_until(Some(t), t), Some(0));
    assert_eq!(millis_until(Some(t), later(299_999)), Some(299));
    assert_eq!(millis_until(Some(t), later(300_000)), Some(300));
    assert_eq!(millis_until(Some(later(5000)), t), Some(0));
    assert!(clock.read() >= t);
}

#[test]
fn files_have_their_places() {
    let run = || Some("/run/user/1000".to_string());
    assert_eq!(
        at(&runtime_path(Platform::Unix, run(), true, "x")),
        pair("given /run/user/1000", "x")
    );
    assert_eq!(at(&runtime_path(Platform::Unix, None, true, "x")), pair("tmp", "x"));
    assert_eq!(at(&runtime_path(Platform::Windows, None, true, "x")), pair("cache", "nicotine/x"));
    assert_eq!(at(&runtime_path(Platform::Windows, None, false, "x")), pair("system temp", "nicotine/x"));
    assert_eq!(
        at(&lock_file_path(Platform::Unix, run(), false)),
        pair("given /run/user/1000", "nicotine-cycle.lock")
    );
    assert_eq!(
        at(&index_file_path(Platform::Unix, None, false)),
        pair("tmp", "nicotine-index")
    );
    assert_eq!(
        at(&config_path(Some("/etc/n".to_string()), true)),
        pair("given /etc/n", "config.toml")
    );
    assert_eq!(at(&config_path(None, true)), pair("config", "nicotine/config.toml"));
    assert_eq!(at(&config_dir(None, true)), pair("config", "nicotine"));
    assert_eq!(at(&config_dir(None, false)).0, "working");
    assert!(at(&preview_positions_path(true)).1.ends_with("preview_positions.toml"));
    assert_eq!(device_id_path(false).map(|l| at(&l)), None);
    assert_eq!(at(&device_id_path(true).unwrap()).0, "data");
    assert_eq!(socket_printname(Platform::Windows, None), "nicotine.sock");
    assert_eq!(
        socket_printname(Platform::Unix, Some("/run/n.sock".to_string())),
        "/run/n.sock"
    );
    assert_eq!(socket_printname(Platform::Unix, None), "/tmp/nicotine.sock");
}

#[test]
fn a_stored_device_id_is_kept() {
    assert_eq!(
        get_or_create_device_id(Some(" 4f2c \n")),
        ("4f2c".to_string(), false)
    );
    let (id, new) = get_or_create_device_id(None);
    assert!(new);
    assert_eq!(id.len(), 36);
    assert_eq!(id.as_bytes()[14], b'4');
    assert!(id.bytes().enumerate().all(|(i, b)| if [8, 13, 18, 23].contains(&i) {
        b == b'-'
    } else {
        b.is_ascii_hexdigit() && !b.is_ascii_uppercase()
    }));
    assert!(get_or_create_device_id(Some(" \n")).1);
}

#[test]
fn versions_that_do_not_parse_say_why() {
    assert_eq!(
        parse_version("1.2"),
        Err(VersionError::Format { version: "1.2".to_string() })
    );
    assert_eq!(parse_version("x.2.3"), Err(VersionError::Major));
    assert_eq!(parse_version("1.x.3"), Err(VersionError::Minor));
    assert_eq!(parse_version("1.2.4294967296"), Err(VersionError::Patch));
    assert_eq!(parse_version("1.2.3"), Ok((1, 2, 3)));
    assert_eq!(is_newer_version("1.2", "1.0.0").is_err(), true);
}

#[test]
fn newer_is_a_strict_order() {
    let vs = ["0.9.9", "1.0.0", "1.0.1", "1.1.0", "2.0.0"];
    for (i, a) in vs.iter().enumerate() {
        for (j, b) in vs.iter().enumerate() {
            assert_eq!(is_newer_version(a, b), Ok(i > j));
        }
    }
}

#[test]
fn a_release_is_offered_only_when_newer() {
    let url = || "https://example.org/r".to_string();
    let newer = status_of_release("v1.3.0", url(), "1.2.0").unwrap();
    assert_eq!(newer, UpdateStatus::Outdated { version: "1.3.0".to_string(), url: url() });
    assert_eq!(
        status_of_release("1.2.0", url(), "1.2.0"),
        Ok(UpdateStatus::UpToDate)
    );
    assert!(status_of_release("nightly", url(), "1.2.0").is_err());
    let mut cache = UpdateCache::new();
    assert_eq!(cache.get_update_status(), None);
    cache.record(Some(UpdateStatus::UpToDate));
    cache.record(None);
    assert_eq!(cache.get_update_status(), Some(UpdateStatus::UpToDate));
    assert_eq!(check_for_updates(newer), Some(("1.3.0".to_string(), url())));
    assert_eq!(check_for_updates(UpdateStatus::UpToDate), None);
}

#[test]
fn a_window_comes_to_the_foreground_once() {
    assert_eq!(WindowsManager::activation(7, 7, true), Activation::Nothing);
    assert_eq!(WindowsManager::activation(7, 8, true), Activation::Raise { restore: true });
    assert_eq!(WindowsManager::activation(7, 8, false), Activation::Raise { restore: false });
    let plan = |t, f, c| WindowsManager::attachments(t, f, c);
    assert_eq!(plan(1, 2, 3), AttachPlan { target: true, foreground: true });
    assert_eq!(plan(1, 1, 3), AttachPlan { target: true, foreground: false });
    assert_eq!(plan(3, 2, 3), AttachPlan { target: false, foreground: true });
    assert_eq!(plan(0, 0, 3), AttachPlan { target: false, foreground: false });
}

#[test]
fn wide_titles_are_read() {
    let mut units: Vec<u16> = "EVE - É".encode_utf16().collect();
    let n = units.len();
    units.extend([0, 65, 0]);
    assert_eq!(read_window_title(&units, n as i32), "EVE - É");
    assert_eq!(read_window_title(&units, 3), "EVE");
    // A pair of surrogates is one character; half a pair is replaced.
    let halves: Vec<u16> = vec![0xD83D, 0xDEAC, 0xD83D, 0x41, 0xDEAC, 0xD83D];
    assert_eq!(read_window_title(&halves, 6), "🚬\u{FFFD}A\u{FFFD}\u{FFFD}");
    assert_eq!(read_window_title(&units, 0), "");
    assert_eq!(read_window_title(&units, -1), "");
    assert_eq!(text_until_zero(&units), "EVE - É");
    assert_eq!(text_until_zero(&vec![65, 0xd800, 66]), "A\u{fffd}B");
}

#[test]
fn a_token_is_awaited_for_a_while() {
    let mut t = TokenState::new();
    assert_eq!(t.step(0), TokenStep::Wait);
    assert_eq!(t.step(100), TokenStep::TimedOut);
    t.done("abc".to_string());
    assert_eq!(t.step(100), TokenStep::Done("abc".to_string()));
}

#[test]
fn a_nudge_ends_where_it_began() {
    let mut n = PointerNudger::new();
    assert!(n.fire(1000).is_empty());
    n.schedule();
    assert!(n.fire(4).is_empty());
    let steps = n.fire(5);
    assert!(!steps.is_empty());
    assert_eq!(steps.iter().sum::<i32>(), 0);
    assert!(n.fire(5).is_empty());
}
