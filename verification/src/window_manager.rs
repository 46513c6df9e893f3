//! Windows, the manager that moves them, and the session it runs in.
use vstd::prelude::*;
use crate::config::Config;
use crate::text;

verus! {

/// Cross-platform window identifier. X11 identifiers are 32-bit, but Hyprland
/// reports pointer-sized addresses and Win64 handles are pointer-sized as
/// well: wide enough to hold each of them without truncation.
pub type WindowId = u64;

/// A client window and the character logged in to it.
#[derive(Debug)]
pub struct EveWindow {
    pub id: WindowId,
    pub title: String,
}

impl Clone for EveWindow {
    fn clone(&self) -> (r: Self)
        ensures
            r == *self,
    {
        EveWindow { id: self.id, title: self.title.clone() }
    }
}

/// Why a window manager could not do what it was asked.
#[derive(Debug)]
pub struct WmError {
    pub message: String,
}

/// What a window manager was asked, with its answer.
pub enum Request {
    Windows(Result<Vec<EveWindow>, WmError>),
    Activate(WindowId, Result<(), WmError>),
    Stack(Seq<EveWindow>, Config, Result<(), WmError>),
    Active(Result<WindowId, WmError>),
    Minimize(WindowId),
    Restore(WindowId),
}

/// Window management across different display servers and compositors.
pub trait WindowManager: Sized {
    /// Everything that was asked so far, in order. The record exists in proofs
    /// only: a manager that no proof is about need not keep one.
    closed spec fn requests(&self) -> Seq<Request> {
        Seq::empty()
    }

    /// All EVE Online client windows.
    fn get_eve_windows(&mut self) -> (r: Result<Vec<EveWindow>, WmError>)
        ensures
            final(self).requests() == old(self).requests().push(Request::Windows(r)),
    ;

    /// Activates a window.
    fn activate_window(&mut self, window_id: WindowId) -> (r: Result<(), WmError>)
        ensures
            final(self).requests() == old(self).requests().push(Request::Activate(window_id, r)),
    ;

    /// Stacks windows at the same, centered position.
    fn stack_windows(&mut self, windows: &Vec<EveWindow>, config: &Config) -> (r: Result<
        (),
        WmError,
    >)
        ensures
            final(self).requests() == old(self).requests().push(
                Request::Stack(windows@, *config, r),
            ),
    ;

    /// The window that has the focus.
    fn get_active_window(&mut self) -> (r: Result<WindowId, WmError>)
        ensures
            final(self).requests() == old(self).requests().push(Request::Active(r)),
    ;

    /// Minimizes a window.
    fn minimize_window(&mut self, window_id: WindowId) -> (r: Result<(), WmError>)
        ensures
            final(self).requests() == old(self).requests().push(Request::Minimize(window_id)),
    ;

    /// Restores a minimized window.
    fn restore_window(&mut self, window_id: WindowId) -> (r: Result<(), WmError>)
        ensures
            final(self).requests() == old(self).requests().push(Request::Restore(window_id)),
    ;
}

/// One call of a window manager.
#[derive(Debug, Clone, Copy, PartialEq, Eq, Structural)]
pub enum Call {
    Windows,
    Activate(WindowId),
    Stack,
    Active,
    Minimize(WindowId),
    Restore(WindowId),
}

/// A window manager without a display: it answers from a list of windows,
/// moves the focus as it is asked, and remembers the calls.
pub struct HeadlessManager {
    windows: Vec<EveWindow>,
    active: WindowId,
    calls: Vec<Call>,
    log: Ghost<Seq<Request>>,
}

fn copy_windows(windows: &Vec<EveWindow>) -> (r: Vec<EveWindow>)
    ensures
        r@ == windows@,
{
    let mut out: Vec<EveWindow> = Vec::new();
    let mut i: usize = 0;
    while i < windows.len()
        invariant
            i <= windows.len(),
            out@ == windows@.take(i as int),
        decreases windows.len() - i,
    {
        out.push(windows[i].clone());
        assert(windows@.take(i + 1) == windows@.take(i as int).push(windows@[i as int]));
        i = i + 1;
    }
    assert(windows@.take(i as int) == windows@);
    out
}

impl HeadlessManager {
    pub closed spec fn listed(&self) -> Seq<EveWindow> {
        self.windows@
    }

    pub closed spec fn focus(&self) -> WindowId {
        self.active
    }

    pub closed spec fn made(&self) -> Seq<Call> {
        self.calls@
    }

    pub fn new(windows: Vec<EveWindow>, active: WindowId) -> (r: Self)
        ensures
            r.listed() == windows@,
            r.focus() == active,
            r.made() == Seq::<Call>::empty(),
            r.requests() == Seq::<Request>::empty(),
    {
        HeadlessManager { windows, active, calls: Vec::new(), log: Ghost(Seq::empty()) }
    }

    /// The calls so far.
    pub fn calls(&self) -> (r: &Vec<Call>)
        ensures
            r@ == self.made(),
    {
        &self.calls
    }

    /// Makes a window the one that has the focus.
    pub fn set_active(&mut self, active: WindowId)
        ensures
            final(self).focus() == active,
            final(self).listed() == old(self).listed(),
            final(self).made() == old(self).made(),
            final(self).requests() == old(self).requests(),
    {
        self.active = active;
    }
}

impl WindowManager for HeadlessManager {
    closed spec fn requests(&self) -> Seq<Request> {
        self.log@
    }

    fn get_eve_windows(&mut self) -> (r: Result<Vec<EveWindow>, WmError>)
        ensures
            r matches Ok(ws) && ws@ == old(self).listed(),
            final(self).listed() == old(self).listed(),
            final(self).focus() == old(self).focus(),
            final(self).made() == old(self).made().push(Call::Windows),
    {
        let r: Result<Vec<EveWindow>, WmError> = Ok(copy_windows(&self.windows));
        self.calls.push(Call::Windows);
        self.log = Ghost(self.log@.push(Request::Windows(r)));
        r
    }

    fn activate_window(&mut self, window_id: WindowId) -> (r: Result<(), WmError>)
        ensures
            r is Ok,
            final(self).listed() == old(self).listed(),
            final(self).focus() == window_id,
            final(self).made() == old(self).made().push(Call::Activate(window_id)),
    {
        self.active = window_id;
        self.calls.push(Call::Activate(window_id));
        self.log = Ghost(self.log@.push(Request::Activate(window_id, Ok(()))));
        Ok(())
    }

    fn stack_windows(&mut self, windows: &Vec<EveWindow>, config: &Config) -> (r: Result<
        (),
        WmError,
    >)
        ensures
            r is Ok,
            final(self).listed() == old(self).listed(),
            final(self).focus() == old(self).focus(),
            final(self).made() == old(self).made().push(Call::Stack),
    {
        self.calls.push(Call::Stack);
        self.log = Ghost(self.log@.push(Request::Stack(windows@, *config, Ok(()))));
        Ok(())
    }

    fn get_active_window(&mut self) -> (r: Result<WindowId, WmError>)
        ensures
            r == Ok::<WindowId, WmError>(old(self).focus()),
            final(self).listed() == old(self).listed(),
            final(self).focus() == old(self).focus(),
            final(self).made() == old(self).made().push(Call::Active),
    {
        self.calls.push(Call::Active);
        self.log = Ghost(self.log@.push(Request::Active(Ok(self.active))));
        Ok(self.active)
    }

    fn minimize_window(&mut self, window_id: WindowId) -> (r: Result<(), WmError>)
        ensures
            r is Ok,
            final(self).listed() == old(self).listed(),
            final(self).focus() == old(self).focus(),
            final(self).made() == old(self).made().push(Call::Minimize(window_id)),
    {
        self.calls.push(Call::Minimize(window_id));
        self.log = Ghost(self.log@.push(Request::Minimize(window_id)));
        Ok(())
    }

    fn restore_window(&mut self, window_id: WindowId) -> (r: Result<(), WmError>)
        ensures
            r is Ok,
            final(self).listed() == old(self).listed(),
            final(self).focus() == old(self).focus(),
            final(self).made() == old(self).made().push(Call::Restore(window_id)),
    {
        self.calls.push(Call::Restore(window_id));
        self.log = Ghost(self.log@.push(Request::Restore(window_id)));
        Ok(())
    }
}

/// The display server of a session.
#[derive(Debug, Clone, Copy, PartialEq, Eq, Structural)]
pub enum DisplayServer {
    X11,
    Wayland,
}

/// The compositor of a Wayland session.
#[derive(Debug, Clone, Copy, PartialEq, Eq, Structural)]
pub enum WaylandCompositor {
    /// KDE Plasma / KWin
    Kde,
    /// Sway (wlroots)
    Sway,
    /// Hyprland
    Hyprland,
    /// GNOME Shell
    Gnome,
    /// Any other, or unknown
    Other,
}

/// The display server, from the session type and from whether a Wayland
/// display is set.
pub fn detect_display_server(session_type: Option<&str>, wayland_display_set: bool) -> (r:
    DisplayServer)
    ensures
        (r == DisplayServer::Wayland) == (wayland_display_set || (session_type matches Some(s)
            && s@ == "wayland"@)),
{
    if let Some(s) = session_type {
        if text::same(s, "wayland") {
            return DisplayServer::Wayland;
        }
    }
    if wayland_display_set {
        return DisplayServer::Wayland;
    }
    DisplayServer::X11
}

/// The lower-case form of a text, by the rules of Unicode.
pub uninterp spec fn unicode_lowercase(s: Seq<char>) -> Seq<char>;

/// `str::to_lowercase`: the result depends on the text alone and is what
/// `unicode_lowercase` names.
#[verifier::external_body]
fn to_lowercase(s: &str) -> (r: String)
    ensures
        r@ == unicode_lowercase(s@),
{
    s.to_lowercase()
}

/// The compositor that a lower-case desktop name speaks of.
pub open spec fn desktop_compositor(desktop_lower: Seq<char>) -> Option<WaylandCompositor> {
    if text::has_substring(desktop_lower, "kde"@) {
        Some(WaylandCompositor::Kde)
    } else if text::has_substring(desktop_lower, "gnome"@) {
        Some(WaylandCompositor::Gnome)
    } else if text::has_substring(desktop_lower, "sway"@) {
        Some(WaylandCompositor::Sway)
    } else if text::has_substring(desktop_lower, "hyprland"@) {
        Some(WaylandCompositor::Hyprland)
    } else {
        None
    }
}

/// The compositor, by the desktop's name first and by the sockets that
/// compositors announce where the name says nothing.
pub open spec fn compositor_of(
    desktop_lower: Option<Seq<char>>,
    sway_socket_set: bool,
    hyprland_signature_set: bool,
) -> WaylandCompositor {
    match desktop_lower {
        Some(d) if desktop_compositor(d) is Some => desktop_compositor(d).unwrap(),
        _ => if sway_socket_set {
            WaylandCompositor::Sway
        } else if hyprland_signature_set {
            WaylandCompositor::Hyprland
        } else {
            WaylandCompositor::Other
        },
    }
}

/// The compositor, from the lower-case name of the desktop.
pub fn compositor_of_desktop(
    desktop_lower: Option<String>,
    sway_socket_set: bool,
    hyprland_signature_set: bool,
) -> (r: WaylandCompositor)
    ensures
        r == compositor_of(
            match desktop_lower {
                Some(d) => Some(d@),
                None => None,
            },
            sway_socket_set,
            hyprland_signature_set,
        ),
{
    if let Some(d) = desktop_lower {
        if text::contains(d.as_str(), "kde") {
            return WaylandCompositor::Kde;
        }
        if text::contains(d.as_str(), "gnome") {
            return WaylandCompositor::Gnome;
        }
        if text::contains(d.as_str(), "sway") {
            return WaylandCompositor::Sway;
        }
        if text::contains(d.as_str(), "hyprland") {
            return WaylandCompositor::Hyprland;
        }
    }
    if sway_socket_set {
        return WaylandCompositor::Sway;
    }
    if hyprland_signature_set {
        return WaylandCompositor::Hyprland;
    }
    WaylandCompositor::Other
}

/// The compositor, from what the environment says of the desktop.
pub fn detect_wayland_compositor(
    desktop: Option<&str>,
    sway_socket_set: bool,
    hyprland_signature_set: bool,
) -> (r: WaylandCompositor)
    ensures
        r == compositor_of(
            match desktop {
                Some(d) => Some(unicode_lowercase(d@)),
                None => None,
            },
            sway_socket_set,
            hyprland_signature_set,
        ),
{
    let lower: Option<String> = match desktop {
        Some(d) => Some(to_lowercase(d)),
        None => None,
    };
    compositor_of_desktop(lower, sway_socket_set, hyprland_signature_set)
}

/// Whether the session can move and resize clients to absolute coordinates.
/// GNOME's Wayland session alone forbids it.
pub fn restack_supported(server: DisplayServer, compositor: WaylandCompositor) -> (r: bool)
    ensures
        r == !(server == DisplayServer::Wayland && compositor == WaylandCompositor::Gnome),
{
    !(server == DisplayServer::Wayland && compositor == WaylandCompositor::Gnome)
}

/// Where stacked clients go: a rectangle on the screen.
#[derive(Debug, Clone, Copy, PartialEq, Eq, Structural)]
pub struct StackGeometry {
    pub x: i32,
    pub y: i32,
    pub width: u32,
    pub height: u32,
}

/// A client and the panel fit on the display.
pub open spec fn stack_fits(config: Config) -> bool {
    config.eve_width <= config.display_width && config.panel_height <= config.display_height
}

/// The rectangle of stacked clients: centered, from the top of the screen
/// down to the desktop's own panel.
pub fn stack_geometry(config: &Config) -> (r: StackGeometry)
    requires
        stack_fits(*config),
    ensures
        r.x == (config.display_width - config.eve_width) / 2,
        r.y == 0,
        r.width == config.eve_width,
        r.height == config.display_height - config.panel_height,
{
    StackGeometry {
        x: ((config.display_width - config.eve_width) / 2) as i32,
        y: 0,
        width: config.eve_width,
        height: config.display_height - config.panel_height,
    }
}

/// A stacked client stands between the edges of the display, as far from the
/// left one as from the right, up to a pixel.
pub proof fn law_stack_is_centered(config: Config, g: StackGeometry)
    requires
        stack_fits(config),
        g.x == (config.display_width - config.eve_width) / 2,
        g.width == config.eve_width,
    ensures
        0 <= g.x,
        g.x + g.width <= config.display_width,
        0 <= (config.display_width - (g.x + g.width)) - g.x <= 1,
{
}

/// The character that a client window's title names: what follows the
/// client's own prefix. None for a window that is no client's.
pub open spec fn character_of_title(title: Seq<char>) -> Option<Seq<char>> {
    if text::starts(title, "EVE - "@) {
        Some(text::without_prefixes(title, "EVE - "@))
    } else {
        None
    }
}

pub fn character_name(title: &str) -> (r: Option<String>)
    ensures
        r matches Some(n) ==> character_of_title(title@) == Some(n@),
        r is None ==> character_of_title(title@) is None,
{
    if text::starts_with(title, "EVE - ") {
        Some(text::trim_start_matches(title, "EVE - "))
    } else {
        None
    }
}

/// A window that is titled like a client's, with the process that owns it.
#[derive(Debug)]
pub struct Candidate {
    pub pid: u32,
    pub window: EveWindow,
}

/// What identifies a candidate: process, window and character.
pub open spec fn candidate_view(c: Candidate) -> (u32, WindowId, Seq<char>) {
    (c.pid, c.window.id, c.window.title@)
}

pub open spec fn candidate_views(cs: Seq<Candidate>) -> Seq<(u32, WindowId, Seq<char>)> {
    Seq::new(cs.len(), |i: int| candidate_view(cs[i]))
}

/// A window is a candidate if its title is a client's and its process is
/// known.
pub open spec fn candidate_of(id: WindowId, title: Seq<char>, pid: u32) -> Option<
    (u32, WindowId, Seq<char>),
> {
    match character_of_title(title) {
        Some(name) => if pid != 0 {
            Some((pid, id, name))
        } else {
            None
        },
        None => None,
    }
}

pub fn client_candidate(id: WindowId, title: &str, pid: u32) -> (r: Option<Candidate>)
    ensures
        r matches Some(c) ==> candidate_of(id, title@, pid) == Some(candidate_view(c)),
        r is None ==> candidate_of(id, title@, pid) is None,
{
    match character_name(title) {
        Some(name) => if pid != 0 {
            Some(Candidate { pid, window: EveWindow { id, title: name } })
        } else {
            None
        },
        None => None,
    }
}

/// The windows of the candidates whose process is a client, in order.
pub open spec fn client_windows(cs: Seq<Candidate>, is_client: Seq<bool>) -> Seq<EveWindow>
    decreases cs.len(),
{
    if cs.len() == 0 {
        Seq::empty()
    } else {
        let front = client_windows(cs.drop_last(), is_client);
        if is_client[cs.len() - 1] {
            front.push(cs.last().window)
        } else {
            front
        }
    }
}

/// Keeps the candidates whose process is a client.
pub fn accept_clients(candidates: &Vec<Candidate>, is_client: &Vec<bool>) -> (r: Vec<EveWindow>)
    requires
        candidates@.len() == is_client@.len(),
    ensures
        r@ == client_windows(candidates@, is_client@),
{
    let mut out: Vec<EveWindow> = Vec::new();
    let mut i: usize = 0;
    while i < candidates.len()
        invariant
            i <= candidates.len() == is_client.len(),
            out@ == client_windows(candidates@.take(i as int), is_client@),
        decreases candidates.len() - i,
    {
        assert(candidates@.take(i + 1).drop_last() == candidates@.take(i as int));
        assert(candidates@.take(i + 1).last() == candidates@[i as int]);
        if is_client[i] {
            out.push(candidates[i].window.clone());
        }
        i = i + 1;
    }
    assert(candidates@.take(i as int) == candidates@);
    out
}

/// The title that a window's two name properties give: the UTF-8 one where
/// it is there, not empty and valid, else the legacy one, read leniently,
/// where it is there and not empty.
pub open spec fn title_of_properties(
    utf8_name: Option<Seq<u8>>,
    legacy_name: Option<Seq<u8>>,
) -> Option<Seq<char>> {
    match utf8_name {
        Some(b) if b.len() > 0 && vstd::utf8::valid_utf8(b) => Some(vstd::utf8::decode_utf8(b)),
        _ => match legacy_name {
            Some(b) if b.len() > 0 => Some(text::lossy_text(b)),
            _ => None,
        },
    }
}

pub open spec fn bytes_of(v: Option<Vec<u8>>) -> Option<Seq<u8>> {
    match v {
        Some(b) => Some(b@),
        None => None,
    }
}

pub fn window_title(utf8_name: Option<Vec<u8>>, legacy_name: Option<Vec<u8>>) -> (r: Option<
    String,
>)
    ensures
        r matches Some(s) ==> title_of_properties(bytes_of(utf8_name), bytes_of(legacy_name))
            == Some(s@),
        r is None ==> title_of_properties(bytes_of(utf8_name), bytes_of(legacy_name)) is None,
{
    if let Some(b) = &utf8_name {
        if b.len() > 0 {
            if let Some(s) = text::from_utf8(b.as_slice()) {
                return Some(s);
            }
        }
    }
    if let Some(b) = &legacy_name {
        if b.len() > 0 {
            return Some(text::from_utf8_lossy(b.as_slice()));
        }
    }
    None
}

/// The identifier of an X11 window, which has 32 bits.
pub fn x11_id(window_id: WindowId) -> (r: Result<u32, WmError>)
    ensures
        window_id <= u32::MAX ==> (r matches Ok(id) && id == window_id),
        window_id > u32::MAX ==> (r matches Err(e) && e.message@
            == "Window ID exceeds the X11 32-bit range"@),
{
    if window_id <= u32::MAX as u64 {
        Ok(window_id as u32)
    } else {
        Err(WmError { message: "Window ID exceeds the X11 32-bit range".to_owned() })
    }
}

/// A client's title is `EVE - ` and the character's name; a window with
/// another title is no client's.
pub proof fn law_title_names_the_character(name: Seq<char>, title: Seq<char>)
    ensures
        !text::starts(name, "EVE - "@) ==> character_of_title("EVE - "@ + name) == Some(name),
        !text::starts(title, "EVE - "@) ==> character_of_title(title) is None,
{
    reveal_strlit("EVE - ");
    text::law_rest_stands_behind_the_prefix("EVE - "@, name, title);
    if !text::starts(name, "EVE - "@) {
        assert(text::without_prefixes(name, "EVE - "@) == name);
    }
}

/// A window is a client's where its title names a character and its process is
/// known; it then stands under its own identifier and process.
pub proof fn law_candidate_is_the_window(id: WindowId, name: Seq<char>, pid: u32, title: Seq<char>)
    ensures
        !text::starts(name, "EVE - "@) && pid != 0 ==> candidate_of(id, "EVE - "@ + name, pid)
            == Some((pid, id, name)),
        candidate_of(id, title, 0) is None,
        !text::starts(title, "EVE - "@) ==> candidate_of(id, title, pid) is None,
{
    law_title_names_the_character(name, title);
}

/// The windows that are listed are exactly those whose process is a client, in
/// their order.
pub proof fn law_listed_windows_are_the_clients(
    cs: Seq<Candidate>,
    is_client: Seq<bool>,
) -> (at: Seq<int>)
    requires
        cs.len() <= is_client.len(),
    ensures
        crate::search::positions(at, cs.len()),
        client_windows(cs, is_client).len() == at.len(),
        forall|i: int|
            0 <= i < at.len() ==> is_client[#[trigger] at[i]] && client_windows(cs, is_client)[i]
                == cs[at[i]].window,
        forall|i: int| 0 <= i < cs.len() && #[trigger] is_client[i] ==> at.contains(i),
    decreases cs.len(),
{
    if cs.len() == 0 {
        Seq::empty()
    } else {
        let n = (cs.len() - 1) as nat;
        let front = law_listed_windows_are_the_clients(cs.drop_last(), is_client);
        crate::search::lemma_next_position(front, n);
        if is_client[n as int] {
            front.push(n as int)
        } else {
            front
        }
    }
}

/// The desktop's name decides before the sockets do; `kde` counts before
/// `gnome`, `gnome` before `sway` and `sway` before `hyprland`.
pub proof fn law_desktop_decides_before_the_sockets(d: Seq<char>, sway: bool, hyprland: bool)
    ensures
        text::has_substring(d, "kde"@) ==> compositor_of(Some(d), sway, hyprland)
            == WaylandCompositor::Kde,
        !text::has_substring(d, "kde"@) && text::has_substring(d, "gnome"@) ==> compositor_of(
            Some(d),
            sway,
            hyprland,
        ) == WaylandCompositor::Gnome,
        !text::has_substring(d, "kde"@) && !text::has_substring(d, "gnome"@) && text::has_substring(
            d,
            "sway"@,
        ) ==> compositor_of(Some(d), sway, hyprland) == WaylandCompositor::Sway,
        !text::has_substring(d, "kde"@) && !text::has_substring(d, "gnome"@)
            && !text::has_substring(d, "sway"@) && text::has_substring(d, "hyprland"@)
            ==> compositor_of(Some(d), sway, hyprland) == WaylandCompositor::Hyprland,
        !text::has_substring(d, "kde"@) && !text::has_substring(d, "gnome"@)
            && !text::has_substring(d, "sway"@) && !text::has_substring(d, "hyprland"@)
            ==> compositor_of(Some(d), sway, hyprland) == compositor_of(None, sway, hyprland),
        compositor_of(None, true, hyprland) == WaylandCompositor::Sway,
        compositor_of(None, false, true) == WaylandCompositor::Hyprland,
        compositor_of(None, false, false) == WaylandCompositor::Other,
{
}

/// A window's UTF-8 name is its title where it is there and readable, and the
/// older property is read only otherwise.
pub proof fn law_utf8_name_comes_first(name: Seq<char>, legacy: Option<Seq<u8>>, b: Seq<u8>)
    ensures
        name.len() > 0 && vstd::utf8::encode_utf8(name).len() > 0 ==> title_of_properties(
            Some(vstd::utf8::encode_utf8(name)),
            legacy,
        ) == Some(name),
        title_of_properties(None, None) is None,
        title_of_properties(Some(Seq::<u8>::empty()), legacy) == title_of_properties(None, legacy),
        !vstd::utf8::valid_utf8(b) ==> title_of_properties(Some(b), legacy) == title_of_properties(
            None,
            legacy,
        ),
        b.len() > 0 ==> title_of_properties(None, Some(b)) == Some(text::lossy_text(b)),
        b.len() == 0 ==> title_of_properties(None, Some(b)) is None,
{
    vstd::utf8::encode_utf8_valid_utf8(name);
    vstd::utf8::encode_utf8_decode_utf8(name);
}

/// Any stack that is no wider than the display, under a panel that is no
/// higher, can be laid out; one as large as the display too.
pub proof fn law_whole_display_can_be_used(config: Config)
    ensures
        config.eve_width == config.display_width && config.panel_height == config.display_height
            ==> stack_fits(config),
        config.eve_width <= config.display_width && config.panel_height <= config.display_height
            <==> stack_fits(config),
{
}

} // verus!
