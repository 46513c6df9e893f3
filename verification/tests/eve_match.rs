use nicotine::eve_match::path_basename_is_eve_exe;

#[test]
fn path_basename_matches_canonical_steam_path() {
    assert!(path_basename_is_eve_exe(
        "C:\\Program Files (x86)\\Steam\\steamapps\\common\\EVE\\bin64\\exefile.exe"
    ));
}

#[test]
fn path_basename_is_case_insensitive() {
    assert!(path_basename_is_eve_exe("C:\\anywhere\\ExeFile.EXE"));
    assert!(path_basename_is_eve_exe("EXEFILE.EXE"));
}

#[test]
fn path_basename_rejects_non_eve_executables() {
    assert!(!path_basename_is_eve_exe(
        "C:\\Windows\\System32\\notepad.exe"
    ));
    assert!(!path_basename_is_eve_exe("exefile2.exe"));
    assert!(!path_basename_is_eve_exe("exefile.ex"));
}

#[test]
fn path_basename_handles_forward_slash_separators() {
    // QueryFullProcessImageNameW returns backslash-separated paths,
    // but Wine on Linux occasionally normalises to forward slashes
    // when crossing the prefix boundary. Accept both.
    assert!(path_basename_is_eve_exe(
        "/wine/prefix/drive_c/eve/exefile.exe"
    ));
}

#[test]
fn path_basename_handles_bare_filename() {
    assert!(path_basename_is_eve_exe("exefile.exe"));
}

#[test]
fn path_basename_rejects_empty_string() {
    assert!(!path_basename_is_eve_exe(""));
}