//! User settings: bindings, display geometry and what the previews show.
use vstd::prelude::*;
use std::collections::HashSet;
use crate::ascending;
use crate::name_map::NameMap;
use crate::numerals;
use crate::text;

verus! {

broadcast use vstd::std_specs::hash::group_hash_axioms;

/// The family of systems the program runs on. Key and button codes, and with
/// them the defaults, differ between the two.
#[derive(Debug, Clone, Copy, PartialEq, Eq, Structural)]
pub enum Platform {
    Unix,
    Windows,
}

/// A single per-character hotkey binding. `vk` is a Win32 virtual-key code
/// (or an evdev code on Linux); `modifier` is an optional second code that
/// must be held down.
#[derive(Debug, Clone, Copy, PartialEq, Eq, Structural)]
pub struct CharacterHotkey {
    pub vk: u16,
    pub modifier: Option<u16>,
}

/// What kind of input triggers a [`Hotkey`]: a keyboard key, a mouse button,
/// or a scroll-wheel notch.
#[derive(Debug, Clone, Copy, PartialEq, Eq, Structural)]
pub enum TriggerKind {
    Key,
    Mouse,
    Wheel,
}

impl Default for TriggerKind {
    fn default() -> (r: Self)
        ensures
            r == TriggerKind::Key,
    {
        TriggerKind::Key
    }
}

/// Wheel directions, used as [`Hotkey::code`] where the kind is `Wheel`.
pub const WHEEL_UP: u16 = 1;

pub const WHEEL_DOWN: u16 = 2;

/// A unified input binding: a trigger (key, mouse button, or wheel notch)
/// plus the set of modifier keys that must be held.
#[derive(Debug, PartialEq, Eq)]
pub struct Hotkey {
    /// Modifier codes that must be held. Empty means a bare trigger.
    pub mods: Vec<u16>,
    /// Whether `code` names a key, a mouse button, or a wheel direction.
    pub kind: TriggerKind,
    /// The trigger code, interpreted per `kind`.
    pub code: u16,
}

impl Default for Hotkey {
    fn default() -> (r: Self)
        ensures
            r.mods@ == Seq::<u16>::empty(),
            r.kind == TriggerKind::Key,
            r.code == 0,
    {
        Hotkey { mods: Vec::new(), kind: TriggerKind::Key, code: 0 }
    }
}

impl Clone for Hotkey {
    fn clone(&self) -> (r: Self)
        ensures
            r.mods@ == self.mods@,
            r.kind == self.kind,
            r.code == self.code,
    {
        Hotkey { mods: self.mods.clone(), kind: self.kind, code: self.code }
    }
}

/// The held modifiers are exactly those of the list, whatever its order and
/// however often it repeats one.
pub open spec fn held_exactly(mods: Seq<u16>, held: Set<u16>) -> bool {
    forall|m: u16| #[trigger] held.contains(m) == mods.contains(m)
}

/// `list` holds the modifiers of `pressed`, each once, in ascending order.
pub open spec fn is_chord(list: Seq<u16>, pressed: Seq<u16>) -> bool {
    ascending::ascending(list) && forall|m: u16| list.contains(m) == pressed.contains(m)
}

impl Hotkey {
    /// The event (`kind`, `code`) with `held` modifiers fires this binding.
    pub open spec fn fires(&self, kind: TriggerKind, code: u16, held: Set<u16>) -> bool {
        self.kind == kind && self.code == code && held_exactly(self.mods@, held)
    }

    /// A bare keyboard-key binding (no modifiers).
    pub fn key(code: u16) -> (r: Self)
        ensures
            r.mods@ == Seq::<u16>::empty(),
            r.kind == TriggerKind::Key,
            r.code == code,
    {
        Hotkey { mods: Vec::new(), kind: TriggerKind::Key, code }
    }

    /// A keyboard binding with held modifiers. The modifier list is sorted
    /// and de-duplicated so equal chords compare equal regardless of the
    /// order the user pressed them.
    pub fn key_with_mods(code: u16, mods: Vec<u16>) -> (r: Self)
        ensures
            is_chord(r.mods@, mods@),
            r.kind == TriggerKind::Key,
            r.code == code,
    {
        Hotkey { mods: ascending::sorted_distinct(&mods), kind: TriggerKind::Key, code }
    }

    /// True when the currently held modifier set is exactly this binding's
    /// modifiers: no more, no fewer.
    pub fn mods_match(&self, held: &HashSet<u16>) -> (r: bool)
        ensures
            r == held_exactly(self.mods@, held@),
    {
        let distinct: Vec<u16> = ascending::sorted_distinct(&self.mods);
        let mut i: usize = 0;
        while i < distinct.len()
            invariant
                i <= distinct.len(),
                forall|m: u16| distinct@.contains(m) == self.mods@.contains(m),
                forall|k: int| 0 <= k < i ==> held@.contains(#[trigger] distinct@[k]),
            decreases distinct.len() - i,
        {
            if !held.contains(&distinct[i]) {
                assert(distinct@.contains(distinct@[i as int]));
                assert(!held@.contains(distinct@[i as int]));
                return false;
            }
            i = i + 1;
        }
        proof {
            lemma_held_count(distinct@, held@);
        }
        distinct.len() == held.len()
    }

    /// True if `code`, `kind` and modifiers all match the given event.
    pub fn matches(&self, kind: TriggerKind, code: u16, held: &HashSet<u16>) -> (r: bool)
        ensures
            r == self.fires(kind, code, held@),
    {
        self.kind == kind && self.code == code && self.mods_match(held)
    }
}

/// Where every listed modifier is held and none is listed twice, nothing
/// else is held exactly if the counts agree.
proof fn lemma_held_count(mods: Seq<u16>, held: Set<u16>)
    requires
        ascending::ascending(mods),
        forall|k: int| 0 <= k < mods.len() ==> held.contains(#[trigger] mods[k]),
    ensures
        (mods.len() == held.len()) == held_exactly(mods, held),
{
    let listed = mods.to_set();
    broadcast use vstd::set_lib::full_set_properties;

    assert(Set::<u16>::full().finite());
    vstd::set_lib::lemma_set_subset_finite(Set::<u16>::full(), held);
    assert(mods.no_duplicates());
    mods.unique_seq_to_set();
    assert(listed.subset_of(held)) by {
        assert forall|m: u16| listed.contains(m) implies held.contains(m) by {
            assert(mods.contains(m));
        }
    }
    if mods.len() == held.len() {
        vstd::set_lib::lemma_subset_equality(listed, held);
        assert forall|m: u16| #[trigger] held.contains(m) == mods.contains(m) by {
            assert(listed.contains(m) == mods.contains(m));
        }
    }
    if held_exactly(mods, held) {
        assert(listed =~= held) by {
            assert forall|m: u16| listed.contains(m) == held.contains(m) by {
                assert(held.contains(m) == mods.contains(m));
            }
        }
    }
}

/// Chords that name the same modifiers are the same binding, in whatever
/// order the modifiers were pressed.
pub proof fn law_chord_order_is_irrelevant(a: Seq<u16>, b: Seq<u16>, x: Seq<u16>, y: Seq<u16>)
    requires
        is_chord(a, x),
        is_chord(b, y),
        forall|m: u16| x.contains(m) == y.contains(m),
    ensures
        a == b,
{
    assert forall|m: u16| a.contains(m) == b.contains(m) by {
        assert(x.contains(m) == y.contains(m));
    }
    ascending::lemma_ascending_unique(a, b);
}

/// An event fires two bindings at once only if they have the same trigger
/// and the same set of modifiers.
pub proof fn law_firing_bindings_agree(
    a: Hotkey,
    b: Hotkey,
    kind: TriggerKind,
    code: u16,
    held: Set<u16>,
)
    requires
        a.fires(kind, code, held),
        b.fires(kind, code, held),
    ensures
        a.kind == b.kind,
        a.code == b.code,
        forall|m: u16| a.mods@.contains(m) == b.mods@.contains(m),
{
    assert forall|m: u16| a.mods@.contains(m) == b.mods@.contains(m) by {
        assert(held.contains(m) == a.mods@.contains(m));
        assert(held.contains(m) == b.mods@.contains(m));
    }
}

/// How the visible-at-a-glance view of clients is rendered.
#[derive(Debug, Clone, Copy, PartialEq, Eq, Structural)]
pub enum DisplayMode {
    /// One thumbnail window per EVE client (default).
    Previews,
    /// A single always-on-top window listing each character name.
    List,
}

/// Settings that components watch for live changes: the preview manager
/// resizes windows as soon as these change, without waiting for a save and
/// a reload.
#[derive(Debug, Clone, Copy, PartialEq, Eq, Structural)]
pub struct LiveSettings {
    pub preview_width: u32,
    pub preview_height: u32,
    pub preview_opacity: u32,
    pub display_mode: DisplayMode,
    /// When true, preview windows and the client list ignore mouse drags.
    /// Click-to-activate still works on previews.
    pub positions_locked: bool,
    /// Mirror of `Config::show_previews`, so that the preview manager can
    /// tear its windows down and spawn them again live.
    pub show_previews: bool,
    /// When true, the preview of the active EVE client is hidden.
    pub hide_active_preview: bool,
}

impl LiveSettings {
    /// The live settings that `config` holds.
    pub open spec fn of_config(config: Config) -> LiveSettings {
        LiveSettings {
            preview_width: config.preview_width,
            preview_height: config.preview_height,
            preview_opacity: config.preview_opacity,
            display_mode: config.display_mode,
            positions_locked: config.positions_locked,
            show_previews: config.show_previews,
            hide_active_preview: config.hide_active_preview,
        }
    }

    pub fn from_config(config: &Config) -> (r: Self)
        ensures
            r == LiveSettings::of_config(*config),
    {
        LiveSettings {
            preview_width: config.preview_width,
            preview_height: config.preview_height,
            preview_opacity: config.preview_opacity,
            display_mode: config.display_mode,
            positions_locked: config.positions_locked,
            show_previews: config.show_previews,
            hide_active_preview: config.hide_active_preview,
        }
    }
}

/// Everything the user can configure.
#[derive(Debug)]
pub struct Config {
    pub display_width: u32,
    pub display_height: u32,
    pub panel_height: u32,
    pub eve_width: u32,
    pub eve_height: u32,
    pub enable_mouse_buttons: bool,
    pub forward_button: u16,
    pub backward_button: u16,
    pub enable_keyboard_buttons: bool,
    pub forward_key: u16,
    pub backward_key: u16,
    pub mouse_device_name: Option<String>,
    pub mouse_device_path: Option<String>,
    pub minimize_inactive: bool,
    /// Exact name of the keyboard to listen to; it takes priority over
    /// `keyboard_device_path`.
    pub keyboard_device_name: Option<String>,
    pub keyboard_device_path: Option<String>,
    /// Modifier that turns the forward key into the backward one.
    pub modifier_key: Option<u16>,
    /// Size of every preview window in pixels.
    pub preview_width: u32,
    pub preview_height: u32,
    /// Preview-window opacity as a percentage, 10 to 100.
    pub preview_opacity: u32,
    /// Whether preview windows are shown at all.
    pub show_previews: bool,
    /// Whether the preview of the active client is hidden.
    pub hide_active_preview: bool,
    /// Whether the panel keeps preview width and height in one ratio.
    pub constrain_aspect: bool,
    /// Optional global hotkey that flips `show_previews`.
    pub toggle_previews_key: Option<u16>,
    /// Optional modifier that must be held with `toggle_previews_key`.
    pub toggle_previews_modifier: Option<u16>,
    /// Ordered list of character names. Empty means that the window
    /// manager's order is used.
    pub characters: Vec<String>,
    /// Which representation of running clients is shown.
    pub display_mode: DisplayMode,
    /// When true, drag is disabled on preview windows and the client list.
    pub positions_locked: bool,
    /// Character name to jump-to-character hotkey. The key activates that
    /// client directly, whatever the cycle is at. Keyed by name, so that
    /// bindings follow reorders and renames.
    pub character_hotkeys: NameMap<CharacterHotkey>,
    /// Config-panel window size in logical pixels.
    pub window_width: u32,
    pub window_height: u32,
}

/// The hotkeys after a character's name went from `from` to `to`: the
/// character's binding goes along, and a name without one changes nothing.
/// A name stands for one binding. So the new name's own binding gives way to
/// one that goes along, and another row with the old name is left without.
pub open spec fn renamed_hotkeys(
    hotkeys: Map<Seq<char>, CharacterHotkey>,
    from: Seq<char>,
    to: Seq<char>,
) -> Map<Seq<char>, CharacterHotkey> {
    if hotkeys.contains_key(from) && from != to {
        hotkeys.remove(from).insert(to, hotkeys[from])
    } else {
        hotkeys
    }
}

/// The binding of a name, where it has one.
pub open spec fn binding_of(
    hotkeys: Map<Seq<char>, CharacterHotkey>,
    name: Seq<char>,
) -> Option<CharacterHotkey> {
    if hotkeys.contains_key(name) {
        Some(hotkeys[name])
    } else {
        None
    }
}

/// Row `i` has the same binding, or none, before and after a rename. Left out
/// is a row without a binding whose new name has one already: it shows that
/// one.
pub proof fn law_binding_follows_rename(
    hotkeys: Map<Seq<char>, CharacterHotkey>,
    names: Seq<Seq<char>>,
    i: int,
    name: Seq<char>,
)
    requires
        0 <= i < names.len(),
        hotkeys.contains_key(names[i]) || !hotkeys.contains_key(name),
    ensures
        binding_of(renamed_hotkeys(hotkeys, names[i], name), names.update(i, name)[i])
            == binding_of(hotkeys, names[i]),
{
}

/// A rename leaves the binding of every name alone but the old and the new
/// one.
pub proof fn law_rename_touches_two_names(
    hotkeys: Map<Seq<char>, CharacterHotkey>,
    from: Seq<char>,
    to: Seq<char>,
    other: Seq<char>,
)
    requires
        other != from,
        other != to,
    ensures
        binding_of(renamed_hotkeys(hotkeys, from, to), other) == binding_of(hotkeys, other),
{
}

/// Where a character with a binding gets another name, nothing is bound to
/// the old name any more, and the new name has that binding whatever was bound
/// to it before.
pub proof fn law_rename_moves_the_binding(
    hotkeys: Map<Seq<char>, CharacterHotkey>,
    from: Seq<char>,
    to: Seq<char>,
)
    requires
        hotkeys.contains_key(from),
        from != to,
    ensures
        binding_of(renamed_hotkeys(hotkeys, from, to), from) is None,
        binding_of(renamed_hotkeys(hotkeys, from, to), to) == Some(hotkeys[from]),
{
}

/// A name may be typed letter by letter: a rename by way of another name comes
/// to the same as the rename at once, as long as nothing is bound to the name
/// on the way.
pub proof fn law_rename_in_steps(
    hotkeys: Map<Seq<char>, CharacterHotkey>,
    from: Seq<char>,
    by: Seq<char>,
    to: Seq<char>,
)
    requires
        by == from || !hotkeys.contains_key(by),
    ensures
        renamed_hotkeys(renamed_hotkeys(hotkeys, from, by), by, to) == renamed_hotkeys(
            hotkeys,
            from,
            to,
        ),
{
    assert(renamed_hotkeys(renamed_hotkeys(hotkeys, from, by), by, to) =~= renamed_hotkeys(
        hotkeys,
        from,
        to,
    ));
}

/// Two configurations hold the same.
pub open spec fn same_config(a: Config, b: Config) -> bool {
    &&& a.display_width == b.display_width
    &&& a.display_height == b.display_height
    &&& a.panel_height == b.panel_height
    &&& a.eve_width == b.eve_width
    &&& a.eve_height == b.eve_height
    &&& a.enable_mouse_buttons == b.enable_mouse_buttons
    &&& a.forward_button == b.forward_button
    &&& a.backward_button == b.backward_button
    &&& a.enable_keyboard_buttons == b.enable_keyboard_buttons
    &&& a.forward_key == b.forward_key
    &&& a.backward_key == b.backward_key
    &&& a.minimize_inactive == b.minimize_inactive
    &&& a.modifier_key == b.modifier_key
    &&& a.preview_width == b.preview_width
    &&& a.preview_height == b.preview_height
    &&& a.preview_opacity == b.preview_opacity
    &&& a.show_previews == b.show_previews
    &&& a.hide_active_preview == b.hide_active_preview
    &&& a.constrain_aspect == b.constrain_aspect
    &&& a.toggle_previews_key == b.toggle_previews_key
    &&& a.toggle_previews_modifier == b.toggle_previews_modifier
    &&& a.display_mode == b.display_mode
    &&& a.positions_locked == b.positions_locked
    &&& a.window_width == b.window_width
    &&& a.window_height == b.window_height
    &&& text::opt_view(a.mouse_device_name) == text::opt_view(b.mouse_device_name)
    &&& text::opt_view(a.mouse_device_path) == text::opt_view(b.mouse_device_path)
    &&& text::opt_view(a.keyboard_device_name) == text::opt_view(b.keyboard_device_name)
    &&& text::opt_view(a.keyboard_device_path) == text::opt_view(b.keyboard_device_path)
    &&& text::views(a.characters@) == text::views(b.characters@)
    &&& a.character_hotkeys.items() == b.character_hotkeys.items()
}

impl Clone for Config {
    fn clone(&self) -> (r: Self)
        ensures
            same_config(r, *self),
    {
        Config {
            display_width: self.display_width,
            display_height: self.display_height,
            panel_height: self.panel_height,
            eve_width: self.eve_width,
            eve_height: self.eve_height,
            enable_mouse_buttons: self.enable_mouse_buttons,
            forward_button: self.forward_button,
            backward_button: self.backward_button,
            enable_keyboard_buttons: self.enable_keyboard_buttons,
            forward_key: self.forward_key,
            backward_key: self.backward_key,
            minimize_inactive: self.minimize_inactive,
            modifier_key: self.modifier_key,
            preview_width: self.preview_width,
            preview_height: self.preview_height,
            preview_opacity: self.preview_opacity,
            show_previews: self.show_previews,
            hide_active_preview: self.hide_active_preview,
            constrain_aspect: self.constrain_aspect,
            toggle_previews_key: self.toggle_previews_key,
            toggle_previews_modifier: self.toggle_previews_modifier,
            display_mode: self.display_mode,
            positions_locked: self.positions_locked,
            window_width: self.window_width,
            window_height: self.window_height,
            mouse_device_name: text::copy_opt(&self.mouse_device_name),
            mouse_device_path: text::copy_opt(&self.mouse_device_path),
            keyboard_device_name: text::copy_opt(&self.keyboard_device_name),
            keyboard_device_path: text::copy_opt(&self.keyboard_device_path),
            characters: text::copy_all(&self.characters),
            character_hotkeys: self.character_hotkeys.clone(),
        }
    }
}

pub fn default_enable_mouse(platform: Platform) -> (r: bool)
    ensures
        r == (platform == Platform::Unix),
{
    match platform {
        Platform::Unix => true,
        Platform::Windows => false,
    }
}

pub fn default_forward_button(platform: Platform) -> (r: u16)
    ensures
        r == (if platform == Platform::Unix {
            276u16
        } else {
            2u16
        }),
{
    match platform {
        Platform::Unix => 276,
        Platform::Windows => 2,
    }
}

pub fn default_backward_button(platform: Platform) -> (r: u16)
    ensures
        r == (if platform == Platform::Unix {
            275u16
        } else {
            1u16
        }),
{
    match platform {
        Platform::Unix => 275,
        Platform::Windows => 1,
    }
}

pub fn default_enable_keyboard(platform: Platform) -> (r: bool)
    ensures
        r == (platform == Platform::Windows),
{
    match platform {
        Platform::Unix => false,
        Platform::Windows => true,
    }
}

/// Tab on evdev, F11 on Windows.
pub fn default_forward_key(platform: Platform) -> (r: u16)
    ensures
        r == (if platform == Platform::Unix {
            15u16
        } else {
            0x7Au16
        }),
{
    match platform {
        Platform::Unix => 15,
        Platform::Windows => 0x7A,
    }
}

/// Tab on evdev, F10 on Windows.
pub fn default_backward_key(platform: Platform) -> (r: u16)
    ensures
        r == (if platform == Platform::Unix {
            15u16
        } else {
            0x79u16
        }),
{
    match platform {
        Platform::Unix => 15,
        Platform::Windows => 0x79,
    }
}

pub fn default_mouse_device_name() -> (r: Option<String>)
    ensures
        r is None,
{
    None
}

pub fn default_mouse_device_path() -> (r: Option<String>)
    ensures
        r is None,
{
    None
}

pub fn default_minimize_inactive() -> (r: bool)
    ensures
        !r,
{
    false
}

pub fn default_keyboard_device_path() -> (r: Option<String>)
    ensures
        r is None,
{
    None
}

pub fn default_modifier_key() -> (r: Option<u16>)
    ensures
        r is None,
{
    None
}

pub fn default_preview_width() -> (r: u32)
    ensures
        r == 320,
{
    320
}

pub fn default_preview_height() -> (r: u32)
    ensures
        r == 180,
{
    180
}

pub fn default_preview_opacity() -> (r: u32)
    ensures
        r == 100,
{
    100
}

pub fn default_show_previews() -> (r: bool)
    ensures
        r,
{
    true
}

pub fn default_hide_active_preview() -> (r: bool)
    ensures
        !r,
{
    false
}

pub fn default_constrain_aspect() -> (r: bool)
    ensures
        !r,
{
    false
}

pub fn default_display_mode() -> (r: DisplayMode)
    ensures
        r == DisplayMode::Previews,
{
    DisplayMode::Previews
}

pub fn default_window_width() -> (r: u32)
    ensures
        r == 720,
{
    720
}

pub fn default_window_height() -> (r: u32)
    ensures
        r == 680,
{
    680
}

/// 54% of `display_width`, to the nearest whole pixel.
pub open spec fn default_eve_width(display_width: u32) -> int {
    (display_width * 54 + 50) / 100
}

/// The part before and the part after the first `c` of `s`.
pub open spec fn split_once_on(s: Seq<char>, c: char) -> Option<(Seq<char>, Seq<char>)> {
    if exists|i: int| 0 <= i < s.len() && s[i] == c {
        let i = s.index_of_first(c).unwrap();
        Some((s.take(i), s.skip(i + 1)))
    } else {
        None
    }
}

/// The size that a display-listing line such as `7680x2160  60.00*+` gives,
/// if it describes the mode in use.
pub open spec fn mode_line_size(line: Seq<char>) -> Option<(nat, nat)> {
    if line.contains('*') && line.contains('x') && text::words(line).len() > 0 {
        match split_once_on(text::words(line)[0], 'x') {
            Some((w, h)) => match (
                numerals::unsigned_to(w, 10, u32::MAX as nat),
                numerals::unsigned_to(h, 10, u32::MAX as nat),
            ) {
                (Some(width), Some(height)) => Some((width, height)),
                _ => None,
            },
            None => None,
        }
    } else {
        None
    }
}

/// The size given by the first line that gives one.
pub open spec fn first_mode_size(lines: Seq<Seq<char>>) -> Option<(nat, nat)>
    decreases lines.len(),
{
    if lines.len() == 0 {
        None
    } else {
        match mode_line_size(lines[0]) {
            Some(size) => Some(size),
            None => first_mode_size(lines.skip(1)),
        }
    }
}

fn has_char(s: &str, c: char) -> (r: bool)
    ensures
        r == s@.contains(c),
{
    let cs: Vec<char> = text::chars_of(s);
    let mut i: usize = 0;
    while i < cs.len()
        invariant
            i <= cs.len(),
            cs@ == s@,
            forall|k: int| 0 <= k < i ==> s@[k] != c,
        decreases cs.len() - i,
    {
        if cs[i] == c {
            assert(s@[i as int] == c);
            return true;
        }
        i = i + 1;
    }
    false
}

fn split_once(s: &str, c: char) -> (r: Option<(String, String)>)
    ensures
        r matches Some((a, b)) ==> split_once_on(s@, c) == Some((a@, b@)),
        r is None ==> split_once_on(s@, c) is None,
{
    let cs: Vec<char> = text::chars_of(s);
    let mut i: usize = 0;
    while i < cs.len()
        invariant
            i <= cs.len(),
            cs@ == s@,
            forall|k: int| 0 <= k < i ==> s@[k] != c,
        decreases cs.len() - i,
    {
        if cs[i] == c {
            proof {
                s@.index_of_first_ensures(c);
                assert(s@.index_of_first(c) == Some(i as int)) by {
                    assert(s@.contains(c));
                }
                assert(s@.subrange(0, i as int) == s@.take(i as int));
                assert(s@.subrange(i + 1, s@.len() as int) == s@.skip(i + 1));
            }
            let a: String = text::string_of(&cs, 0, i);
            let b: String = text::string_of(&cs, i + 1, cs.len());
            return Some((a, b));
        }
        i = i + 1;
    }
    None
}

fn size_of_mode_line(line: &str) -> (r: Option<(u32, u32)>)
    ensures
        r matches Some((w, h)) ==> mode_line_size(line@) == Some((w as nat, h as nat)),
        r is None ==> mode_line_size(line@) is None,
{
    if !has_char(line, '*') || !has_char(line, 'x') {
        return None;
    }
    let words: Vec<String> = text::split_whitespace(line);
    assert(text::views(words@).len() == words@.len());
    if words.len() == 0 {
        return None;
    }
    assert(text::views(words@)[0] == words@[0]@);
    match split_once(words[0].as_str(), 'x') {
        Some((w, h)) => match (
            numerals::parse_u32(w.as_str()),
            numerals::parse_u32(h.as_str()),
        ) {
            (Some(width), Some(height)) => Some((width, height)),
            _ => None,
        },
        None => None,
    }
}

impl Config {
    /// The display size by what the mode listing tool printed. What is no
    /// UTF-8 counts as no listing.
    pub fn detect_display_size(printed: Option<&[u8]>) -> (r: (u32, u32))
        ensures
            match printed {
                Some(b) => if vstd::utf8::valid_utf8(b@) {
                    match first_mode_size(text::lines_of(vstd::utf8::decode_utf8(b@))) {
                        Some((w, h)) => r.0 == w && r.1 == h,
                        None => r == (1920u32, 1080u32),
                    }
                } else {
                    r == (1920u32, 1080u32)
                },
                None => r == (1920u32, 1080u32),
            },
    {
        match printed {
            Some(b) => match text::from_utf8(b) {
                Some(s) => Config::display_size_of_listing(Some(s.as_str())),
                None => Config::display_size_of_listing(None),
            },
            None => Config::display_size_of_listing(None),
        }
    }

    /// The display size that a mode listing reports: the first mode in use
    /// whose size can be read, else 1920 by 1080. `listing` is None where no
    /// listing could be had.
    pub fn display_size_of_listing(listing: Option<&str>) -> (r: (u32, u32))
        ensures
            match listing {
                Some(s) => match first_mode_size(text::lines_of(s@)) {
                    Some((w, h)) => r.0 == w && r.1 == h,
                    None => r == (1920u32, 1080u32),
                },
                None => r == (1920u32, 1080u32),
            },
    {
        if let Some(s) = listing {
            let ls: Vec<String> = text::lines(s);
            let ghost all = text::lines_of(s@);
            let mut i: usize = 0;
            assert(all.skip(0) == all);
            while i < ls.len()
                invariant
                    i <= ls.len(),
                    listing == Some(s),
                    text::views(ls@) == all,
                    all == text::lines_of(s@),
                    first_mode_size(all) == first_mode_size(all.skip(i as int)),
                decreases ls.len() - i,
            {
                assert(all[i as int] == ls@[i as int]@);
                assert(all.skip(i as int)[0] == all[i as int]);
                assert(all.skip(i as int).skip(1) == all.skip(i + 1));
                if let Some((w, h)) = size_of_mode_line(ls[i].as_str()) {
                    assert(first_mode_size(all.skip(i as int)) == Some((w as nat, h as nat)));
                    return (w, h);
                }
                i = i + 1;
            }
        }
        (1920, 1080)
    }

    /// The display size that the system metrics report, else 1920 by 1080
    /// where they report none.
    pub fn display_size_of_metrics(width: i32, height: i32) -> (r: (u32, u32))
        ensures
            width > 0 && height > 0 ==> r.0 == width && r.1 == height,
            !(width > 0 && height > 0) ==> r == (1920u32, 1080u32),
    {
        if width > 0 && height > 0 {
            (width as u32, height as u32)
        } else {
            (1920, 1080)
        }
    }

    /// The configuration of a fresh installation on a display of the given
    /// size.
    pub fn build_default(platform: Platform, display_width: u32, display_height: u32) -> (r: Self)
        ensures
            r.display_width == display_width,
            r.display_height == display_height,
            r.panel_height == 0,
            r.eve_width == default_eve_width(display_width),
            r.eve_height == display_height,
            r.enable_mouse_buttons == (platform == Platform::Unix),
            r.forward_button == (if platform == Platform::Unix {
                276u16
            } else {
                2u16
            }),
            r.backward_button == (if platform == Platform::Unix {
                275u16
            } else {
                1u16
            }),
            r.enable_keyboard_buttons == (platform == Platform::Windows),
            r.forward_key == (if platform == Platform::Unix {
                15u16
            } else {
                0x7Au16
            }),
            r.backward_key == (if platform == Platform::Unix {
                15u16
            } else {
                0x79u16
            }),
            r.mouse_device_name is None,
            r.mouse_device_path is None,
            !r.minimize_inactive,
            r.keyboard_device_name is None,
            r.keyboard_device_path is None,
            r.modifier_key is None,
            r.preview_width == 320,
            r.preview_height == 180,
            r.preview_opacity == 100,
            r.show_previews,
            !r.hide_active_preview,
            !r.constrain_aspect,
            r.toggle_previews_key is None,
            r.toggle_previews_modifier is None,
            r.characters@ == Seq::<String>::empty(),
            r.display_mode == DisplayMode::Previews,
            !r.positions_locked,
            r.character_hotkeys@ == Map::<Seq<char>, CharacterHotkey>::empty(),
            r.window_width == 720,
            r.window_height == 680,
    {
        Config {
            display_width,
            display_height,
            panel_height: 0,
            eve_width: ((display_width as u64 * 54 + 50) / 100) as u32,
            eve_height: display_height,
            enable_mouse_buttons: default_enable_mouse(platform),
            forward_button: default_forward_button(platform),
            backward_button: default_backward_button(platform),
            enable_keyboard_buttons: default_enable_keyboard(platform),
            forward_key: default_forward_key(platform),
            backward_key: default_backward_key(platform),
            mouse_device_name: default_mouse_device_name(),
            mouse_device_path: default_mouse_device_path(),
            minimize_inactive: default_minimize_inactive(),
            keyboard_device_name: None,
            keyboard_device_path: default_keyboard_device_path(),
            modifier_key: default_modifier_key(),
            preview_width: default_preview_width(),
            preview_height: default_preview_height(),
            preview_opacity: default_preview_opacity(),
            show_previews: default_show_previews(),
            hide_active_preview: default_hide_active_preview(),
            constrain_aspect: default_constrain_aspect(),
            toggle_previews_key: None,
            toggle_previews_modifier: None,
            characters: Vec::new(),
            display_mode: default_display_mode(),
            positions_locked: false,
            character_hotkeys: NameMap::new(),
            window_width: default_window_width(),
            window_height: default_window_height(),
        }
    }

    /// The height that is left to a client beside the desktop's own panel.
    pub fn eve_height_adjusted(&self) -> (r: u32)
        requires
            self.panel_height <= self.display_height,
        ensures
            r == self.display_height - self.panel_height,
    {
        self.display_height - self.panel_height
    }

    /// The settings after the character at `i` got the name `name`.
    pub open spec fn renamed(&self, i: int, name: Seq<char>, after: Config) -> bool {
        let names = text::views(self.characters@);
        &&& text::views(after.characters@) == names.update(i, name)
        &&& after.character_hotkeys@ == renamed_hotkeys(self.character_hotkeys@, names[i], name)
        &&& after == (Config {
            characters: after.characters,
            character_hotkeys: after.character_hotkeys,
            ..*self
        })
    }

    /// Renames a character. Its hotkey goes along.
    pub fn rename_character(&mut self, i: usize, name: String)
        requires
            i < old(self).characters@.len(),
        ensures
            old(self).renamed(i as int, name@, *final(self)),
    {
        let ghost wanted = text::views(self.characters@).update(i as int, name@);
        let hotkey: Option<CharacterHotkey> = match self.character_hotkeys.get(
            self.characters[i].as_str(),
        ) {
            Some(h) => Some(*h),
            None => None,
        };
        if let Some(h) = hotkey {
            if !text::same(self.characters[i].as_str(), name.as_str()) {
                self.character_hotkeys.remove(self.characters[i].as_str());
                self.character_hotkeys.insert(name.clone(), h);
            }
        }
        self.characters.set(i, name);
        assert(text::views(self.characters@) =~= wanted);
    }
}

/// A binding fires on its own kind of trigger with its own code, while exactly
/// its modifiers are held: no more and no fewer.
pub proof fn law_binding_fires_on_its_own_chord(
    hk: Hotkey,
    kind: TriggerKind,
    code: u16,
    held: Set<u16>,
)
    ensures
        hk.fires(kind, code, held) == (hk.kind == kind && hk.code == code && held
            == hk.mods@.to_set()),
{
    if hk.fires(kind, code, held) {
        assert(held =~= hk.mods@.to_set()) by {
            assert forall|m: u16| held.contains(m) == hk.mods@.to_set().contains(m) by {
                assert(held.contains(m) == hk.mods@.contains(m));
            }
        }
    }
}

/// The settings that apply at once are the saved ones.
pub proof fn law_live_settings_are_the_saved_ones(c: Config)
    ensures
        ({
            let l = LiveSettings::of_config(c);
            &&& l.preview_width == c.preview_width
            &&& l.preview_height == c.preview_height
            &&& l.preview_opacity == c.preview_opacity
            &&& l.display_mode == c.display_mode
            &&& l.positions_locked == c.positions_locked
            &&& l.show_previews == c.show_previews
            &&& l.hide_active_preview == c.hide_active_preview
        }),
{
}

/// Clients are by default as wide as 54 percent of the display, to the nearest
/// pixel.
pub proof fn law_default_width_is_rounded(display_width: u32)
    ensures
        -50 < default_eve_width(display_width) * 100 - display_width * 54 <= 50,
        default_eve_width(display_width) <= display_width,
{
}

/// What stands before the first separator and what stands behind it make up
/// the text.
pub proof fn law_split_parts_make_up_the_text(a: Seq<char>, b: Seq<char>, c: char)
    requires
        !a.contains(c),
    ensures
        split_once_on(a.push(c) + b, c) == Some((a, b)),
{
    let s = a.push(c) + b;
    assert(s[a.len() as int] == c);
    s.index_of_first_ensures(c);
    let i = s.index_of_first(c).unwrap();
    if i < a.len() {
        assert(a[i] == c);
    }
    assert(s.take(i) =~= a);
    assert(s.skip(i + 1) =~= b);
}

/// The size of the first line that gives one is taken.
pub proof fn law_first_mode_line_counts(lines: Seq<Seq<char>>, i: int)
    requires
        0 <= i < lines.len(),
        forall|k: int| 0 <= k < i ==> mode_line_size(#[trigger] lines[k]) is None,
        mode_line_size(lines[i]) is Some,
    ensures
        first_mode_size(lines) == mode_line_size(lines[i]),
    decreases i,
{
    if i > 0 {
        let rest = lines.skip(1);
        assert(mode_line_size(lines[0]) is None);
        assert(rest[i - 1] == lines[i]);
        assert forall|k: int| 0 <= k < i - 1 implies mode_line_size(#[trigger] rest[k]) is None by {
            assert(rest[k] == lines[k + 1]);
        }
        law_first_mode_line_counts(rest, i - 1);
    }
}

/// A line gives a size only where the mode on it is the current one.
pub proof fn law_only_the_current_mode_counts(line: Seq<char>)
    requires
        mode_line_size(line) is Some,
    ensures
        line.contains('*'),
        line.contains('x'),
        text::words(line).len() > 0,
{
}

/// A mode line gives the size that stands at its front, where it is marked as
/// the current one.
pub proof fn law_mode_line_gives_its_size(line: Seq<char>, w: u32, h: u32)
    requires
        line.contains('*'),
        line.contains('x'),
        text::words(line).len() > 0,
        text::words(line)[0] == numerals::decimal(w as nat).push('x') + numerals::decimal(h as nat),
    ensures
        mode_line_size(line) == Some((w as nat, h as nat)),
{
    let a = numerals::decimal(w as nat);
    let b = numerals::decimal(h as nat);
    numerals::law_decimal_has_digits_only(w as nat);
    assert(!a.contains('x'));
    law_split_parts_make_up_the_text(a, b, 'x');
    numerals::law_written_number_reads_back(w as nat, 10, false, u32::MAX as nat);
    numerals::law_written_number_reads_back(h as nat, 10, false, u32::MAX as nat);
}

/// Where no line gives a size there is none.
pub proof fn law_no_mode_line_no_size(lines: Seq<Seq<char>>)
    requires
        forall|k: int| 0 <= k < lines.len() ==> mode_line_size(#[trigger] lines[k]) is None,
    ensures
        first_mode_size(lines) is None,
    decreases lines.len(),
{
    if lines.len() > 0 {
        let rest = lines.skip(1);
        assert(mode_line_size(lines[0]) is None);
        assert forall|k: int| 0 <= k < rest.len() implies mode_line_size(#[trigger] rest[k])
            is None by {
            assert(rest[k] == lines[k + 1]);
        }
        law_no_mode_line_no_size(rest);
    }
}

/// A copy of the settings has every setting of the original.
pub proof fn law_copy_has_every_setting(a: Config, b: Config)
    requires
        same_config(a, b),
    ensures
        a == (Config {
            mouse_device_name: a.mouse_device_name,
            mouse_device_path: a.mouse_device_path,
            keyboard_device_name: a.keyboard_device_name,
            keyboard_device_path: a.keyboard_device_path,
            characters: a.characters,
            character_hotkeys: a.character_hotkeys,
            ..b
        }),
        text::opt_view(a.mouse_device_name) == text::opt_view(b.mouse_device_name),
        text::opt_view(a.mouse_device_path) == text::opt_view(b.mouse_device_path),
        text::opt_view(a.keyboard_device_name) == text::opt_view(b.keyboard_device_name),
        text::opt_view(a.keyboard_device_path) == text::opt_view(b.keyboard_device_path),
        a.characters@.len() == b.characters@.len(),
        forall|i: int|
            0 <= i < a.characters@.len() ==> (#[trigger] a.characters@[i])@ == b.characters@[i]@,
        a.character_hotkeys@ == b.character_hotkeys@,
{
    assert(text::views(a.characters@).len() == text::views(b.characters@).len());
    assert forall|i: int| 0 <= i < a.characters@.len() implies (#[trigger] a.characters@[i])@
        == b.characters@[i]@ by {
        assert(text::views(a.characters@)[i] == text::views(b.characters@)[i]);
    }
}

/// A rename puts the new name in the old one's place, moves the hotkey along,
/// and changes nothing else.
pub proof fn law_rename_changes_one_name(before: Config, i: int, name: Seq<char>, after: Config)
    requires
        0 <= i < before.characters@.len(),
        before.renamed(i, name, after),
    ensures
        after.characters@.len() == before.characters@.len(),
        after.characters@[i]@ == name,
        forall|k: int|
            0 <= k < before.characters@.len() && k != i ==> (#[trigger] after.characters@[k])@
                == before.characters@[k]@,
        ({
            let was = before.character_hotkeys@;
            let now = after.character_hotkeys@;
            let old_name = before.characters@[i]@;
            &&& was.contains_key(old_name) ==> now.contains_key(name) && now[name] == was[old_name]
            &&& was.contains_key(old_name) && old_name != name ==> !now.contains_key(old_name)
            &&& !was.contains_key(old_name) ==> now == was
            &&& forall|n: Seq<char>|
                n != name && n != old_name ==> #[trigger] now.contains_key(n) == was.contains_key(n)
                    && (was.contains_key(n) ==> now[n] == was[n])
        }),
        after == (Config {
            characters: after.characters,
            character_hotkeys: after.character_hotkeys,
            ..before
        }),
{
    let was = text::views(before.characters@);
    let now = text::views(after.characters@);
    assert(now == was.update(i, name));
    assert(now.len() == was.len());
    assert(now[i] == name);
    assert forall|k: int| 0 <= k < before.characters@.len() && k != i implies (
    #[trigger] after.characters@[k])@ == before.characters@[k]@ by {
        assert(now[k] == was[k]);
    }
}

} // verus!
