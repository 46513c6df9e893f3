//! The configuration panel: what the user's edits do to the settings, and
//! what they ask of the rest of the program.
use vstd::prelude::*;
use std::time::Instant;
use crate::clock;
use crate::clock::Clock;
use crate::config::{CharacterHotkey, Config, DisplayMode, LiveSettings, Platform};
use crate::key_codes;
use crate::key_codes::{Key, Named};
use crate::name_map::NameMap;
use crate::text;

verus! {

/// Edits are written to disk when there was no further one for this long.
pub const AUTOSAVE_DEBOUNCE_MS: u128 = 300;

/// Which binding takes the next key that is pressed.
#[derive(Debug, Clone)]
pub enum CaptureTarget {
    ForwardKey,
    BackwardKey,
    ModifierKey,
    /// The hotkey of this character.
    Character(String),
}

/// A capture target with the character as plain text.
pub enum CaptureView {
    ForwardKey,
    BackwardKey,
    ModifierKey,
    Character(Seq<char>),
}

impl View for CaptureTarget {
    type V = CaptureView;

    open spec fn view(&self) -> CaptureView {
        match self {
            CaptureTarget::ForwardKey => CaptureView::ForwardKey,
            CaptureTarget::BackwardKey => CaptureView::BackwardKey,
            CaptureTarget::ModifierKey => CaptureView::ModifierKey,
            CaptureTarget::Character(name) => CaptureView::Character(name@),
        }
    }
}

impl CaptureTarget {
    /// Whether two targets are the same.
    pub fn same_as(&self, other: &CaptureTarget) -> (r: bool)
        ensures
            r == (self@ == other@),
    {
        match (self, other) {
            (CaptureTarget::ForwardKey, CaptureTarget::ForwardKey) => true,
            (CaptureTarget::BackwardKey, CaptureTarget::BackwardKey) => true,
            (CaptureTarget::ModifierKey, CaptureTarget::ModifierKey) => true,
            (CaptureTarget::Character(a), CaptureTarget::Character(b)) => text::same(
                a.as_str(),
                b.as_str(),
            ),
            _ => false,
        }
    }
}

/// The settings pages.
#[derive(Debug, Clone, Copy, PartialEq, Eq, Structural)]
pub enum Tab {
    Display,
    Characters,
    Hotkeys,
}

/// An entry of the modifier menu.
#[derive(Debug, Clone)]
pub struct ModifierChoice {
    pub code: Option<u16>,
    pub label: String,
}

/// The entries of the modifier menu, as codes and labels.
pub open spec fn modifier_menu(platform: Platform) -> Seq<(Option<u16>, Seq<char>)> {
    let codes: (u16, u16, u16) = match platform {
        Platform::Unix => (42, 29, 56),
        Platform::Windows => (0x10, 0x11, 0x12),
    };
    seq![
        (None, "None"@),
        (Some(codes.0), "Shift"@),
        (Some(codes.1), "Ctrl"@),
        (Some(codes.2), "Alt"@),
    ]
}

pub open spec fn choice_views(cs: Seq<ModifierChoice>) -> Seq<(Option<u16>, Seq<char>)> {
    Seq::new(cs.len(), |i: int| (cs[i].code, cs[i].label@))
}

pub fn modifier_choices(platform: Platform) -> (r: Vec<ModifierChoice>)
    ensures
        choice_views(r@) == modifier_menu(platform),
{
    let codes: (u16, u16, u16) = match platform {
        Platform::Unix => (42, 29, 56),
        Platform::Windows => (0x10, 0x11, 0x12),
    };
    let mut out: Vec<ModifierChoice> = Vec::new();
    out.push(ModifierChoice { code: None, label: "None".to_owned() });
    out.push(ModifierChoice { code: Some(codes.0), label: "Shift".to_owned() });
    out.push(ModifierChoice { code: Some(codes.1), label: "Ctrl".to_owned() });
    out.push(ModifierChoice { code: Some(codes.2), label: "Alt".to_owned() });
    assert(choice_views(out@) =~= modifier_menu(platform));
    out
}

/// A modifier in the menu is shown as it is on the button that binds it.
pub proof fn law_modifier_menu_matches_labels(platform: Platform, i: int, layout: Option<Seq<char>>)
    requires
        0 < i < modifier_menu(platform).len(),
    ensures
        modifier_menu(platform)[i].0 matches Some(code) && key_codes::label(platform, code, layout)
            == modifier_menu(platform)[i].1,
{
}

/// A key event while the panel is open.
#[derive(Debug, Clone)]
pub enum KeyEvent {
    /// A key was pressed. On Windows the second part is the key that is held
    /// down according to the system, where its code depends on the layout.
    Pressed(Key, Option<u16>),
    Other,
}

/// What the user did.
#[derive(Debug, Clone)]
pub enum Message {
    DisplayModeChanged(DisplayMode),
    LockToggled(bool),
    RestackClicked,
    CharacterNameChanged(usize, String),
    MoveCharacterUp(usize),
    MoveCharacterDown(usize),
    RemoveCharacter(usize),
    NewCharacterChanged(String),
    AddCharacter,
    CharacterModifierChanged(String, Option<u16>),
    ClearCharacterHotkey(String),
    KeyboardEnabledToggled(bool),
    MouseEnabledToggled(bool),
    ClearModifier,
    StartCapture(CaptureTarget),
    TabSelected(Tab),
    KeyEvent(KeyEvent),
    ShowPreviewsToggled(bool),
    PreviewWidthChanged(u32),
    PreviewHeightChanged(u32),
    OpenLink(String),
    FlushIfIdle,
}

/// What is asked of the rest of the program.
#[derive(Debug, PartialEq, Eq)]
pub enum Effect {
    Nothing,
    /// The daemon is to stack the clients' windows.
    SendStack,
    OpenLink(String),
    /// The settings are to be written to disk.
    Save,
    /// The global hotkeys are to be released while a key is captured.
    PauseHotkeys,
    /// The global hotkeys are to be registered again, after the settings were
    /// written to disk where there are edits.
    ResumeHotkeys {
        save: bool,
    },
}

/// The panel's state.
pub struct Panel {
    pub config: Config,
    /// The settings that apply at once.
    pub live: LiveSettings,
    /// The text in the field for a new character.
    pub new_character_buffer: String,
    pub capturing: Option<CaptureTarget>,
    /// When the last edit was that is not yet on disk.
    pub last_change: Option<Instant>,
    pub active_tab: Tab,
    /// What edits read their time from.
    pub clock: Clock,
}

pub open spec fn capture_view(c: Option<CaptureTarget>) -> Option<CaptureView> {
    match c {
        Some(t) => Some(t@),
        None => None,
    }
}

/// The list with two entries exchanged.
pub open spec fn swapped(names: Seq<Seq<char>>, i: int, j: int) -> Seq<Seq<char>> {
    names.update(i, names[j]).update(j, names[i])
}

/// Exchanges two entries of a list.
pub fn swap_names(names: &mut Vec<String>, i: usize, j: usize)
    requires
        i < old(names)@.len(),
        j < old(names)@.len(),
    ensures
        text::views(final(names)@) == swapped(text::views(old(names)@), i as int, j as int),
{
    let a: String = names[i].clone();
    let b: String = names[j].clone();
    names.set(i, b);
    names.set(j, a);
    assert(text::views(names@) =~= swapped(text::views(old(names)@), i as int, j as int));
}

/// The hotkeys with another modifier for a character. One without a hotkey
/// gets one without a key.
pub open spec fn modified(
    hotkeys: Map<Seq<char>, CharacterHotkey>,
    name: Seq<char>,
    modifier: Option<u16>,
) -> Map<Seq<char>, CharacterHotkey> {
    hotkeys.insert(
        name,
        CharacterHotkey {
            vk: if hotkeys.contains_key(name) {
                hotkeys[name].vk
            } else {
                0
            },
            modifier,
        },
    )
}

/// The code that a captured key is bound to: on Windows the key that the
/// system says is held counts first.
pub open spec fn captured_code(platform: Platform, key: Key, held: Option<u16>) -> Option<u16> {
    match platform {
        Platform::Unix => key_codes::key_code(platform, key),
        Platform::Windows => match held {
            Some(vk) => Some(vk),
            None => key_codes::key_code(platform, key),
        },
    }
}

impl Panel {
    pub fn new(config: Config, live: LiveSettings) -> (r: Self)
        ensures
            r.config == config,
            r.live == live,
            r.new_character_buffer@.len() == 0,
            r.capturing is None,
            r.last_change is None,
            r.active_tab == Tab::Display,
            r.clock.readings() == Seq::<Instant>::empty(),
    {
        Panel {
            config,
            live,
            new_character_buffer: String::new(),
            capturing: None,
            last_change: None,
            active_tab: Tab::Display,
            clock: Clock::new(),
        }
    }

    /// There is an edit to write to disk since `before`, and its time was read
    /// now.
    pub open spec fn stamped(&self, before: &Panel) -> bool {
        self.last_change matches Some(now) && self.clock.readings()
            == before.clock.readings().push(now)
    }

    /// There is an edit to write to disk. The wait for further ones starts
    /// anew.
    pub fn touch(&mut self)
        ensures
            final(self).stamped(old(self)),
            *final(self) == (Panel {
                last_change: final(self).last_change,
                clock: final(self).clock,
                ..*old(self)
            }),
    {
        let now: Instant = self.clock.read();
        self.last_change = Some(now);
    }

    /// The capture ended: on Windows the hotkeys are resumed, and the edits
    /// written before that.
    pub open spec fn capture_ended(&self, platform: Platform, after: Panel, r: Effect) -> bool {
        match platform {
            Platform::Unix => r == Effect::Nothing && after == *self,
            Platform::Windows => r == (Effect::ResumeHotkeys { save: self.last_change is Some })
                && after == (Panel { last_change: None, ..*self }),
        }
    }

    /// Ends a capture.
    pub fn end_capture(&mut self, platform: Platform) -> (r: Effect)
        ensures
            old(self).capture_ended(platform, *final(self), r),
    {
        match platform {
            Platform::Unix => Effect::Nothing,
            Platform::Windows => {
                let save: bool = self.last_change.is_some();
                self.last_change = None;
                Effect::ResumeHotkeys { save }
            },
        }
    }

    /// The settings after a code was bound to a target.
    pub open spec fn bound(&self, target: CaptureView, code: u16, after: Config) -> bool {
        match target {
            CaptureView::ForwardKey => after == (Config { forward_key: code, ..self.config }),
            CaptureView::BackwardKey => after == (Config { backward_key: code, ..self.config }),
            CaptureView::ModifierKey => after == (Config {
                modifier_key: Some(code),
                ..self.config
            }),
            CaptureView::Character(name) => {
                let hotkeys = self.config.character_hotkeys@;
                &&& after.character_hotkeys@ == hotkeys.insert(
                    name,
                    CharacterHotkey {
                        vk: code,
                        modifier: if hotkeys.contains_key(name) {
                            hotkeys[name].modifier
                        } else {
                            None
                        },
                    },
                )
                &&& after == (Config { character_hotkeys: after.character_hotkeys, ..self.config })
            },
        }
    }

    fn bind(&mut self, target: &CaptureTarget, code: u16)
        ensures
            old(self).bound(target@, code, final(self).config),
            *final(self) == (Panel { config: final(self).config, ..*old(self) }),
    {
        match target {
            CaptureTarget::ForwardKey => {
                self.config.forward_key = code;
            },
            CaptureTarget::BackwardKey => {
                self.config.backward_key = code;
            },
            CaptureTarget::ModifierKey => {
                self.config.modifier_key = Some(code);
            },
            CaptureTarget::Character(name) => {
                let modifier: Option<u16> = match self.config.character_hotkeys.get(name.as_str()) {
                    Some(h) => h.modifier,
                    None => None,
                };
                self.config.character_hotkeys.insert(
                    name.clone(),
                    CharacterHotkey { vk: code, modifier },
                );
            },
        }
    }

    /// What a key event does: nothing unless a key is to be captured. Escape
    /// ends the capture without binding anything, a key with a code is bound
    /// and ends it, and other keys do nothing.
    pub open spec fn after_key(
        &self,
        platform: Platform,
        event: KeyEvent,
        after: Panel,
        r: Effect,
    ) -> bool {
        match (self.capturing, event) {
            (Some(target), KeyEvent::Pressed(key, held)) => if key == Key::Named(Named::Escape) {
                (Panel { capturing: None, ..*self }).capture_ended(platform, after, r)
            } else {
                match captured_code(platform, key, held) {
                    Some(code) => {
                        &&& self.bound(target@, code, after.config)
                        &&& after == (Panel {
                            config: after.config,
                            capturing: None,
                            last_change: after.last_change,
                            clock: after.clock,
                            ..*self
                        })
                        &&& match platform {
                            Platform::Unix => after.stamped(self) && r == Effect::Nothing,
                            Platform::Windows => after.last_change is None && r == (
                            Effect::ResumeHotkeys { save: true }) && exists|now: Instant|
                                after.clock.readings() == #[trigger] self.clock.readings().push(
                                    now,
                                ),
                        }
                    },
                    None => r == Effect::Nothing && after == *self,
                }
            },
            _ => r == Effect::Nothing && after == *self,
        }
    }

    /// Takes a key event over.
    pub fn handle_capture_key(&mut self, platform: Platform, event: &KeyEvent) -> (r: Effect)
        ensures
            old(self).after_key(platform, *event, *final(self), r),
    {
        if self.capturing.is_none() {
            return Effect::Nothing;
        }
        match event {
            KeyEvent::Pressed(key, held) => {
                let escape: bool = match key {
                    Key::Named(Named::Escape) => true,
                    _ => false,
                };
                if escape {
                    self.capturing = None;
                    return self.end_capture(platform);
                }
                let own: Option<u16> = match platform {
                    Platform::Unix => None,
                    Platform::Windows => *held,
                };
                let code: Option<u16> = match own {
                    Some(vk) => Some(vk),
                    None => key_codes::iced_key_to_code(platform, key),
                };
                match code {
                    Some(vk) => {
                        match self.capturing.take() {
                            Some(target) => {
                                self.bind(&target, vk);
                                self.touch();
                                self.end_capture(platform)
                            },
                            None => Effect::Nothing,
                        }
                    },
                    None => Effect::Nothing,
                }
            },
            KeyEvent::Other => Effect::Nothing,
        }
    }

    /// What the edits that wait do, `idle` milliseconds after the last one.
    pub open spec fn flushed(&self, idle: Option<u128>, after: Panel, r: Effect) -> bool {
        if idle matches Some(ms) && ms >= AUTOSAVE_DEBOUNCE_MS {
            r == Effect::Save && after == (Panel { last_change: None, ..*self })
        } else {
            r == Effect::Nothing && after == *self
        }
    }

    /// Writes the edits to disk once there was no further one for a while.
    pub fn flush_after(&mut self, idle: Option<u128>) -> (r: Effect)
        ensures
            old(self).flushed(idle, *final(self), r),
    {
        match idle {
            Some(ms) => if ms >= AUTOSAVE_DEBOUNCE_MS {
                self.last_change = None;
                Effect::Save
            } else {
                Effect::Nothing
            },
            None => Effect::Nothing,
        }
    }

    /// `after` has other settings and an edit to write to disk.
    pub open spec fn edited(&self, after: Panel, r: Effect) -> bool {
        &&& r == Effect::Nothing
        &&& after.stamped(self)
        &&& after == (Panel {
            config: after.config,
            live: after.live,
            new_character_buffer: after.new_character_buffer,
            last_change: after.last_change,
            clock: after.clock,
            ..*self
        })
    }

    /// The panel is as it was.
    pub open spec fn untouched(&self, after: Panel, r: Effect) -> bool {
        r == Effect::Nothing && after == *self
    }

    /// The settings with other characters.
    pub open spec fn with_characters(&self, names: Seq<Seq<char>>, after: Panel, r: Effect) -> bool {
        &&& self.edited(after, r)
        &&& text::views(after.config.characters@) == names
        &&& after.config == (Config { characters: after.config.characters, ..self.config })
        &&& after.live == self.live
        &&& after.new_character_buffer == self.new_character_buffer
    }

    /// The settings with another name of a character. Its hotkey goes along.
    pub open spec fn renamed(&self, i: int, name: Seq<char>, after: Panel, r: Effect) -> bool {
        &&& self.edited(after, r)
        &&& self.config.renamed(i, name, after.config)
        &&& after.live == self.live
        &&& after.new_character_buffer == self.new_character_buffer
    }

    /// Settings changed, and with them the settings that apply at once.
    pub open spec fn with_settings(
        &self,
        config: Config,
        live: LiveSettings,
        after: Panel,
        r: Effect,
    ) -> bool {
        &&& self.edited(after, r)
        &&& after.config == config
        &&& after.live == live
        &&& after.new_character_buffer == self.new_character_buffer
    }

    /// The settings with other hotkeys of characters.
    pub open spec fn with_hotkeys(
        &self,
        hotkeys: Map<Seq<char>, CharacterHotkey>,
        after: Panel,
        r: Effect,
    ) -> bool {
        &&& self.edited(after, r)
        &&& after.config.character_hotkeys@ == hotkeys
        &&& after.config == (Config {
            character_hotkeys: after.config.character_hotkeys,
            ..self.config
        })
        &&& after.live == self.live
        &&& after.new_character_buffer == self.new_character_buffer
    }

    /// A character was removed, and its hotkey with it.
    pub open spec fn removed(&self, i: usize, after: Panel, r: Effect) -> bool {
        let names = text::views(self.config.characters@);
        if i < names.len() {
            &&& self.edited(after, r)
            &&& text::views(after.config.characters@) == names.remove(i as int)
            &&& after.config.character_hotkeys@ == self.config.character_hotkeys@.remove(
                names[i as int],
            )
            &&& after.config == (Config {
                characters: after.config.characters,
                character_hotkeys: after.config.character_hotkeys,
                ..self.config
            })
            &&& after.live == self.live
            &&& after.new_character_buffer == self.new_character_buffer
        } else {
            self.untouched(after, r)
        }
    }

    /// The character in the field was added to the end, without white space
    /// around it. A blank field adds nothing.
    pub open spec fn added(&self, after: Panel, r: Effect) -> bool {
        let name = text::trimmed(self.new_character_buffer@);
        if name.len() > 0 {
            &&& self.edited(after, r)
            &&& text::views(after.config.characters@) == text::views(self.config.characters@).push(
                name,
            )
            &&& after.config == (Config { characters: after.config.characters, ..self.config })
            &&& after.live == self.live
            &&& after.new_character_buffer@.len() == 0
        } else {
            self.untouched(after, r)
        }
    }

    /// A binding was clicked: it takes the next key, or no longer does.
    pub open spec fn armed(
        &self,
        platform: Platform,
        target: CaptureTarget,
        after: Panel,
        r: Effect,
    ) -> bool {
        if capture_view(self.capturing) == Some(target@) {
            (Panel { capturing: None, ..*self }).capture_ended(platform, after, r)
        } else {
            &&& after == (Panel { capturing: Some(target), ..*self })
            &&& r == (if platform == Platform::Windows && self.capturing is None {
                Effect::PauseHotkeys
            } else {
                Effect::Nothing
            })
        }
    }

    /// A message that sets one setting.
    pub open spec fn sets_setting(message: Message) -> bool {
        match message {
            Message::DisplayModeChanged(_) => true,
            Message::LockToggled(_) => true,
            Message::KeyboardEnabledToggled(_) => true,
            Message::MouseEnabledToggled(_) => true,
            Message::ClearModifier => true,
            Message::ShowPreviewsToggled(_) => true,
            Message::PreviewWidthChanged(_) => true,
            Message::PreviewHeightChanged(_) => true,
            _ => false,
        }
    }

    /// The settings after such a message.
    pub open spec fn set_config(c: Config, message: Message) -> Config {
        match message {
            Message::DisplayModeChanged(mode) => Config { display_mode: mode, ..c },
            Message::LockToggled(v) => Config { positions_locked: v, ..c },
            Message::KeyboardEnabledToggled(v) => Config { enable_keyboard_buttons: v, ..c },
            Message::MouseEnabledToggled(v) => Config { enable_mouse_buttons: v, ..c },
            Message::ClearModifier => Config { modifier_key: None, ..c },
            Message::ShowPreviewsToggled(v) => Config { show_previews: v, ..c },
            Message::PreviewWidthChanged(w) => Config { preview_width: w, ..c },
            Message::PreviewHeightChanged(h) => Config { preview_height: h, ..c },
            _ => c,
        }
    }

    /// The settings that apply at once after such a message.
    pub open spec fn set_live(l: LiveSettings, message: Message) -> LiveSettings {
        match message {
            Message::DisplayModeChanged(mode) => LiveSettings { display_mode: mode, ..l },
            Message::LockToggled(v) => LiveSettings { positions_locked: v, ..l },
            Message::ShowPreviewsToggled(v) => LiveSettings { show_previews: v, ..l },
            Message::PreviewWidthChanged(w) => LiveSettings { preview_width: w, ..l },
            Message::PreviewHeightChanged(h) => LiveSettings { preview_height: h, ..l },
            _ => l,
        }
    }

    /// What a message that sets one setting does.
    pub open spec fn updated_setting(&self, message: Message, after: Panel, r: Effect) -> bool {
        self.with_settings(
            Self::set_config(self.config, message),
            Self::set_live(self.live, message),
            after,
            r,
        )
    }

    /// A message that edits the characters or their hotkeys.
    pub open spec fn edits_characters(message: Message) -> bool {
        match message {
            Message::CharacterNameChanged(_, _) => true,
            Message::MoveCharacterUp(_) => true,
            Message::MoveCharacterDown(_) => true,
            Message::RemoveCharacter(_) => true,
            Message::NewCharacterChanged(_) => true,
            Message::AddCharacter => true,
            Message::CharacterModifierChanged(_, _) => true,
            Message::ClearCharacterHotkey(_) => true,
            _ => false,
        }
    }

    /// What such a message does.
    pub open spec fn characters_edited(&self, message: Message, after: Panel, r: Effect) -> bool {
        let names = text::views(self.config.characters@);
        let hotkeys = self.config.character_hotkeys@;
        match message {
            Message::CharacterNameChanged(i, name) => if i < names.len() {
                self.renamed(i as int, name@, after, r)
            } else {
                self.untouched(after, r)
            },
            Message::MoveCharacterUp(i) => if 0 < i < names.len() {
                self.with_characters(swapped(names, i as int, i - 1), after, r)
            } else {
                self.untouched(after, r)
            },
            Message::MoveCharacterDown(i) => if i + 1 < names.len() {
                self.with_characters(swapped(names, i as int, i + 1), after, r)
            } else {
                self.untouched(after, r)
            },
            Message::RemoveCharacter(i) => self.removed(i, after, r),
            Message::NewCharacterChanged(s) => r == Effect::Nothing && after == (Panel {
                new_character_buffer: s,
                ..*self
            }),
            Message::AddCharacter => self.added(after, r),
            Message::CharacterModifierChanged(name, code) => self.with_hotkeys(
                modified(hotkeys, name@, code),
                after,
                r,
            ),
            Message::ClearCharacterHotkey(name) => self.with_hotkeys(
                hotkeys.remove(name@),
                after,
                r,
            ),
            _ => true,
        }
    }

    /// What a message does.
    pub open spec fn updated(
        &self,
        platform: Platform,
        message: Message,
        after: Panel,
        r: Effect,
    ) -> bool {
        if Self::sets_setting(message) {
            self.updated_setting(message, after, r)
        } else if Self::edits_characters(message) {
            self.characters_edited(message, after, r)
        } else {
            match message {
                Message::RestackClicked => r == Effect::SendStack && after == *self,
                Message::StartCapture(target) => self.armed(platform, target, after, r),
                Message::TabSelected(tab) => r == Effect::Nothing && after == (Panel {
                    active_tab: tab,
                    ..*self
                }),
                Message::KeyEvent(event) => self.after_key(platform, event, after, r),
                Message::OpenLink(url) => r == Effect::OpenLink(url) && after == *self,
                Message::FlushIfIdle => exists|now: Instant|
                    self.flushed(#[trigger] clock::millis_to(self.last_change, now), after, r),
                _ => true,
            }
        }
    }

    fn rename_character(&mut self, i: usize, name: String) -> (r: Effect)
        ensures
            if i < old(self).config.characters@.len() {
                old(self).renamed(i as int, name@, *final(self), r)
            } else {
                old(self).untouched(*final(self), r)
            },
    {
        if i < self.config.characters.len() {
            self.config.rename_character(i, name);
            self.touch();
        }
        Effect::Nothing
    }

    fn exchange_characters(&mut self, i: usize, j: usize) -> (r: Effect)
        requires
            i < old(self).config.characters@.len(),
            j < old(self).config.characters@.len(),
        ensures
            old(self).with_characters(
                swapped(text::views(old(self).config.characters@), i as int, j as int),
                *final(self),
                r,
            ),
    {
        swap_names(&mut self.config.characters, i, j);
        self.touch();
        Effect::Nothing
    }

    fn remove_character(&mut self, i: usize) -> (r: Effect)
        ensures
            old(self).removed(i, *final(self), r),
    {
        if i < self.config.characters.len() {
            let ghost wanted = text::views(self.config.characters@).remove(i as int);
            let name: String = self.config.characters.remove(i);
            assert(text::views(self.config.characters@) =~= wanted);
            self.config.character_hotkeys.remove(name.as_str());
            self.touch();
        }
        Effect::Nothing
    }

    fn add_character(&mut self) -> (r: Effect)
        ensures
            old(self).added(*final(self), r),
    {
        let name: String = text::trim(self.new_character_buffer.as_str());
        if name.as_str().unicode_len() > 0 {
            let ghost wanted = text::views(self.config.characters@).push(name@);
            self.config.characters.push(name);
            assert(text::views(self.config.characters@) =~= wanted);
            self.new_character_buffer = String::new();
            self.touch();
        }
        Effect::Nothing
    }

    fn set_modifier(&mut self, name: String, code: Option<u16>) -> (r: Effect)
        ensures
            old(self).with_hotkeys(
                modified(old(self).config.character_hotkeys@, name@, code),
                *final(self),
                r,
            ),
    {
        let vk: u16 = match self.config.character_hotkeys.get(name.as_str()) {
            Some(h) => h.vk,
            None => 0,
        };
        self.config.character_hotkeys.insert(name, CharacterHotkey { vk, modifier: code });
        self.touch();
        Effect::Nothing
    }

    fn start_capture(&mut self, platform: Platform, target: CaptureTarget) -> (r: Effect)
        ensures
            old(self).armed(platform, target, *final(self), r),
    {
        let again: bool = match &self.capturing {
            Some(t) => t.same_as(&target),
            None => false,
        };
        if again {
            self.capturing = None;
            return self.end_capture(platform);
        }
        let pause: bool = self.capturing.is_none();
        self.capturing = Some(target);
        if pause {
            if let Platform::Windows = platform {
                return Effect::PauseHotkeys;
            }
        }
        Effect::Nothing
    }

    fn set_display_mode(&mut self, value: DisplayMode) -> (r: Effect)
        ensures
            old(self).updated_setting(Message::DisplayModeChanged(value), *final(self), r),
    {
        self.config.display_mode = value;
        self.live.display_mode = value;
        self.touch();
        Effect::Nothing
    }

    fn set_positions_locked(&mut self, value: bool) -> (r: Effect)
        ensures
            old(self).updated_setting(Message::LockToggled(value), *final(self), r),
    {
        self.config.positions_locked = value;
        self.live.positions_locked = value;
        self.touch();
        Effect::Nothing
    }

    fn set_enable_keyboard_buttons(&mut self, value: bool) -> (r: Effect)
        ensures
            old(self).updated_setting(Message::KeyboardEnabledToggled(value), *final(self), r),
    {
        self.config.enable_keyboard_buttons = value;
        self.touch();
        Effect::Nothing
    }

    fn set_enable_mouse_buttons(&mut self, value: bool) -> (r: Effect)
        ensures
            old(self).updated_setting(Message::MouseEnabledToggled(value), *final(self), r),
    {
        self.config.enable_mouse_buttons = value;
        self.touch();
        Effect::Nothing
    }

    fn clear_modifier_key(&mut self) -> (r: Effect)
        ensures
            old(self).updated_setting(Message::ClearModifier, *final(self), r),
    {
        self.config.modifier_key = None;
        self.touch();
        Effect::Nothing
    }

    fn set_show_previews(&mut self, value: bool) -> (r: Effect)
        ensures
            old(self).updated_setting(Message::ShowPreviewsToggled(value), *final(self), r),
    {
        self.config.show_previews = value;
        self.live.show_previews = value;
        self.touch();
        Effect::Nothing
    }

    fn set_preview_width(&mut self, value: u32) -> (r: Effect)
        ensures
            old(self).updated_setting(Message::PreviewWidthChanged(value), *final(self), r),
    {
        self.config.preview_width = value;
        self.live.preview_width = value;
        self.touch();
        Effect::Nothing
    }

    fn set_preview_height(&mut self, value: u32) -> (r: Effect)
        ensures
            old(self).updated_setting(Message::PreviewHeightChanged(value), *final(self), r),
    {
        self.config.preview_height = value;
        self.live.preview_height = value;
        self.touch();
        Effect::Nothing
    }

    fn edit_characters(&mut self, message: Message) -> (r: Effect)
        requires
            Self::edits_characters(message),
        ensures
            old(self).characters_edited(message, *final(self), r),
    {
        match message {
            Message::CharacterNameChanged(i, name) => self.rename_character(i, name),
            Message::MoveCharacterUp(i) => {
                if i > 0 && i < self.config.characters.len() {
                    self.exchange_characters(i, i - 1)
                } else {
                    Effect::Nothing
                }
            },
            Message::MoveCharacterDown(i) => {
                if i < self.config.characters.len() && i + 1 < self.config.characters.len() {
                    self.exchange_characters(i, i + 1)
                } else {
                    Effect::Nothing
                }
            },
            Message::RemoveCharacter(i) => self.remove_character(i),
            Message::NewCharacterChanged(s) => {
                self.new_character_buffer = s;
                Effect::Nothing
            },
            Message::AddCharacter => self.add_character(),
            Message::CharacterModifierChanged(name, code) => self.set_modifier(name, code),
            Message::ClearCharacterHotkey(name) => {
                self.config.character_hotkeys.remove(name.as_str());
                self.touch();
                Effect::Nothing
            },
            _ => Effect::Nothing,
        }
    }

    /// Takes a message over. When the edits that wait are flushed depends on
    /// the clock.
    #[verifier::rlimit(40)]
    pub fn update(&mut self, platform: Platform, message: Message) -> (r: Effect)
        ensures
            old(self).updated(platform, message, *final(self), r),
    {
        match message {
            Message::DisplayModeChanged(v) => self.set_display_mode(v),
            Message::LockToggled(v) => self.set_positions_locked(v),
            Message::KeyboardEnabledToggled(v) => self.set_enable_keyboard_buttons(v),
            Message::MouseEnabledToggled(v) => self.set_enable_mouse_buttons(v),
            Message::ClearModifier => self.clear_modifier_key(),
            Message::ShowPreviewsToggled(v) => self.set_show_previews(v),
            Message::PreviewWidthChanged(v) => self.set_preview_width(v),
            Message::PreviewHeightChanged(v) => self.set_preview_height(v),
            Message::RestackClicked => Effect::SendStack,
            Message::StartCapture(target) => self.start_capture(platform, target),
            Message::TabSelected(tab) => {
                self.active_tab = tab;
                Effect::Nothing
            },
            Message::KeyEvent(event) => self.handle_capture_key(platform, &event),
            Message::OpenLink(url) => Effect::OpenLink(url),
            Message::FlushIfIdle => {
                let idle: Option<u128> = clock::millis_since(self.last_change);
                self.flush_after(idle)
            },
            other => self.edit_characters(other),
        }
    }

    /// Whether key events are wanted: only while a key is to be captured.
    pub fn wants_keys(&self) -> (r: bool)
        ensures
            r == self.capturing is Some,
    {
        self.capturing.is_some()
    }

    /// Whether the autosave clock is wanted: only while edits wait.
    pub fn wants_clock(&self) -> (r: bool)
        ensures
            r == self.last_change is Some,
    {
        self.last_change.is_some()
    }

    /// The text on the button of a binding.
    pub fn bind_label(&self, target: &CaptureTarget, current: &str) -> (r: String)
        ensures
            r@ == (if capture_view(self.capturing) == Some(target@) {
                "[press key — Esc]"@
            } else {
                current@
            }),
    {
        let capturing: bool = match &self.capturing {
            Some(t) => t.same_as(target),
            None => false,
        };
        if capturing {
            "[press key — Esc]".to_owned()
        } else {
            current.to_owned()
        }
    }
}

/// The code of a character's hotkey that is shown: none while only a
/// modifier was chosen.
pub fn shown_hotkey(hotkeys: &NameMap<CharacterHotkey>, name: &str) -> (r: Option<u16>)
    ensures
        r == (if hotkeys@.contains_key(name@) && hotkeys@[name@].vk != 0 {
            Some(hotkeys@[name@].vk)
        } else {
            None
        }),
{
    match hotkeys.get(name) {
        Some(h) => if h.vk != 0 {
            Some(h.vk)
        } else {
            None
        },
        None => None,
    }
}

/// Moving a character up and down again leaves the order as it was.
pub proof fn law_move_up_undoes_move_down(names: Seq<Seq<char>>, i: int)
    requires
        0 <= i,
        i + 1 < names.len(),
    ensures
        swapped(swapped(names, i, i + 1), i + 1, i) == names,
{
    assert(swapped(swapped(names, i, i + 1), i + 1, i) =~= names);
}

/// A message that changes a setting which applies at once changes the saved
/// one alike: where they agreed before, they agree after.
pub proof fn law_live_settings_follow(
    before: Panel,
    platform: Platform,
    message: Message,
    after: Panel,
    r: Effect,
)
    requires
        before.updated(platform, message, after, r),
        before.live == LiveSettings::of_config(before.config),
    ensures
        after.live == LiveSettings::of_config(after.config),
{
}

/// Every edit starts the wait for further ones anew: at any later reading
/// `now`, the edits are written to disk exactly where `AUTOSAVE_DEBOUNCE_MS`
/// milliseconds passed from the reading that the last edit made.
pub proof fn law_edit_restarts_the_wait(
    before: Panel,
    edited: Panel,
    e: Effect,
    now: Instant,
    after: Panel,
    r: Effect,
)
    requires
        before.edited(edited, e),
        edited.flushed(clock::millis_to(edited.last_change, now), after, r),
    ensures
        edited.clock.readings() == before.clock.readings().push(edited.clock.readings().last()),
        r == Effect::Save <==> clock::millis_between(edited.clock.readings().last(), now)
            >= AUTOSAVE_DEBOUNCE_MS,
        r == Effect::Save ==> after.last_change is None,
        r != Effect::Save ==> r == Effect::Nothing && after == edited,
{
}

/// No message throws an edit away: while one waits, it is still waiting
/// afterwards, or a save is asked for.
pub proof fn law_edits_are_saved(
    before: Panel,
    platform: Platform,
    message: Message,
    after: Panel,
    r: Effect,
)
    requires
        before.updated(platform, message, after, r),
        before.last_change is Some,
    ensures
        after.last_change is Some || r == Effect::Save || r == (Effect::ResumeHotkeys {
            save: true,
        }),
{
}

// ---------------------------------------------------------------------
// What the controls are for
// ---------------------------------------------------------------------

/// The key that was pressed has the code: its own, or on Windows that of the
/// key that the system says is held.
pub open spec fn pressed_code(platform: Platform, key: Key, held: Option<u16>, code: u16) -> bool {
    if platform == Platform::Windows && held is Some {
        held == Some(code)
    } else {
        key_codes::key_code(platform, key) == Some(code)
    }
}

/// A captured key changes exactly the binding that was clicked: after a click
/// on a binding and a press of a key, that binding has the key's code, and
/// every other setting is as it was. A character's modifier is kept.
pub proof fn law_captured_key_goes_to_the_clicked_binding(
    before: Panel,
    platform: Platform,
    target: CaptureTarget,
    armed: Panel,
    e: Effect,
    key: Key,
    held: Option<u16>,
    code: u16,
    after: Panel,
    r: Effect,
)
    requires
        before.capturing matches Some(t) ==> t@ != target@,
        before.updated(platform, Message::StartCapture(target), armed, e),
        key != Key::Named(Named::Escape),
        pressed_code(platform, key, held, code),
        armed.updated(platform, Message::KeyEvent(KeyEvent::Pressed(key, held)), after, r),
    ensures
        match target {
            CaptureTarget::ForwardKey => after.config.forward_key == code && after.config == (
            Config { forward_key: after.config.forward_key, ..before.config }),
            CaptureTarget::BackwardKey => after.config.backward_key == code && after.config == (
            Config { backward_key: after.config.backward_key, ..before.config }),
            CaptureTarget::ModifierKey => after.config.modifier_key == Some(code) && after.config
                == (Config { modifier_key: after.config.modifier_key, ..before.config }),
            CaptureTarget::Character(name) => {
                let was = before.config.character_hotkeys@;
                let now = after.config.character_hotkeys@;
                &&& now.contains_key(name@) && now[name@].vk == code
                &&& now[name@].modifier == (if was.contains_key(name@) {
                    was[name@].modifier
                } else {
                    None
                })
                &&& forall|n: Seq<char>|
                    n != name@ ==> #[trigger] now.contains_key(n) == was.contains_key(n) && (
                    was.contains_key(n) ==> now[n] == was[n])
                &&& after.config == (Config {
                    character_hotkeys: after.config.character_hotkeys,
                    ..before.config
                })
            },
        },
        after.capturing is None,
        after.live == before.live,
        after.new_character_buffer == before.new_character_buffer,
        after.active_tab == before.active_tab,
        platform == Platform::Unix ==> r == Effect::Nothing && after.last_change is Some,
        platform == Platform::Windows ==> (before.capturing is None ==> e == Effect::PauseHotkeys)
            && r == (Effect::ResumeHotkeys { save: true }) && after.last_change is None,
{
}

/// Two targets are the same only where they stand for the same binding: the
/// same key of the cycle, or the same character's hotkey.
pub proof fn law_targets_are_told_apart(a: CaptureTarget, b: CaptureTarget)
    requires
        a@ == b@,
    ensures
        a is ForwardKey <==> b is ForwardKey,
        a is BackwardKey <==> b is BackwardKey,
        a is ModifierKey <==> b is ModifierKey,
        a matches CaptureTarget::Character(n) ==> (b matches CaptureTarget::Character(m) && n@
            == m@),
{
}

/// A click on a binding arms that binding and no other, and a second click on
/// it ends the capture. No setting changes.
pub proof fn law_click_arms_the_binding(
    before: Panel,
    platform: Platform,
    target: CaptureTarget,
    after: Panel,
    r: Effect,
)
    requires
        before.updated(platform, Message::StartCapture(target), after, r),
    ensures
        before.capturing is None ==> after.capturing == Some(target) && after.last_change
            == before.last_change && r == (if platform == Platform::Windows {
            Effect::PauseHotkeys
        } else {
            Effect::Nothing
        }),
        (before.capturing matches Some(t) && t@ != target@) ==> after.capturing == Some(target) && r
            == Effect::Nothing,
        (before.capturing matches Some(t) && t@ == target@) ==> after.capturing is None && (platform
            == Platform::Unix ==> r == Effect::Nothing && after.last_change == before.last_change)
            && (platform == Platform::Windows ==> r == (Effect::ResumeHotkeys {
            save: before.last_change is Some,
        }) && after.last_change is None),
        after.config == before.config,
        after.live == before.live,
{
}

/// Escape ends a capture without binding anything; a key without a code and
/// keys while nothing is captured do nothing.
pub proof fn law_escape_binds_nothing(
    before: Panel,
    platform: Platform,
    key: Key,
    held: Option<u16>,
    after: Panel,
    r: Effect,
)
    requires
        before.updated(platform, Message::KeyEvent(KeyEvent::Pressed(key, held)), after, r),
    ensures
        key == Key::Named(Named::Escape) && before.capturing is Some ==> after.capturing is None
            && after.config == before.config && after.live == before.live && (platform
            == Platform::Windows ==> r == (Effect::ResumeHotkeys {
            save: before.last_change is Some,
        })),
        before.capturing is None ==> after == before && r == Effect::Nothing,
        key != Key::Named(Named::Escape) && !(exists|code: u16|
            pressed_code(platform, key, held, code)) ==> after == before && r == Effect::Nothing,
{
    if before.capturing is Some && key != Key::Named(Named::Escape) {
        if let Some(code) = captured_code(platform, key, held) {
            assert(pressed_code(platform, key, held, code));
        }
    }
}

/// A switch or a slider changes the setting that it is for, at once where that
/// setting applies at once, and no other.
pub proof fn law_control_changes_its_setting(
    before: Panel,
    platform: Platform,
    message: Message,
    after: Panel,
    r: Effect,
)
    requires
        before.updated(platform, message, after, r),
    ensures
        match message {
            Message::DisplayModeChanged(mode) => after.config.display_mode == mode
                && after.live.display_mode == mode && after.config == (Config {
                display_mode: after.config.display_mode,
                ..before.config
            }) && after.live == (LiveSettings { display_mode: after.live.display_mode, ..before.live
            }),
            Message::LockToggled(v) => after.config.positions_locked == v
                && after.live.positions_locked == v && after.config == (Config {
                positions_locked: after.config.positions_locked,
                ..before.config
            }) && after.live == (LiveSettings {
                positions_locked: after.live.positions_locked,
                ..before.live
            }),
            Message::ShowPreviewsToggled(v) => after.config.show_previews == v
                && after.live.show_previews == v && after.config == (Config {
                show_previews: after.config.show_previews,
                ..before.config
            }) && after.live == (LiveSettings {
                show_previews: after.live.show_previews,
                ..before.live
            }),
            Message::PreviewWidthChanged(w) => after.config.preview_width == w
                && after.live.preview_width == w && after.config == (Config {
                preview_width: after.config.preview_width,
                ..before.config
            }) && after.live == (LiveSettings {
                preview_width: after.live.preview_width,
                ..before.live
            }),
            Message::PreviewHeightChanged(h) => after.config.preview_height == h
                && after.live.preview_height == h && after.config == (Config {
                preview_height: after.config.preview_height,
                ..before.config
            }) && after.live == (LiveSettings {
                preview_height: after.live.preview_height,
                ..before.live
            }),
            Message::KeyboardEnabledToggled(v) => after.config.enable_keyboard_buttons == v
                && after.live == before.live && after.config == (Config {
                enable_keyboard_buttons: after.config.enable_keyboard_buttons,
                ..before.config
            }),
            Message::MouseEnabledToggled(v) => after.config.enable_mouse_buttons == v && after.live
                == before.live && after.config == (Config {
                enable_mouse_buttons: after.config.enable_mouse_buttons,
                ..before.config
            }),
            Message::ClearModifier => after.config.modifier_key is None && after.live == before.live
                && after.config == (Config {
                modifier_key: after.config.modifier_key,
                ..before.config
            }),
            Message::TabSelected(tab) => after.active_tab == tab && after.config == before.config
                && after.live == before.live && r == Effect::Nothing,
            Message::RestackClicked => after == before && r == Effect::SendStack,
            Message::OpenLink(url) => after == before && r == Effect::OpenLink(url),
            _ => true,
        },
        Panel::sets_setting(message) ==> after.last_change is Some && r == Effect::Nothing
            && after.capturing == before.capturing && after.active_tab == before.active_tab,
{
}

/// A character that is moved up or down changes places with its neighbour; at
/// the ends nothing happens. Bindings stay with their names.
pub proof fn law_moved_character_changes_places(
    before: Panel,
    platform: Platform,
    i: usize,
    up: bool,
    after: Panel,
    r: Effect,
)
    requires
        before.updated(
            platform,
            if up {
                Message::MoveCharacterUp(i)
            } else {
                Message::MoveCharacterDown(i)
            },
            after,
            r,
        ),
    ensures
        ({
            let was = text::views(before.config.characters@);
            let now = text::views(after.config.characters@);
            let j = if up {
                i - 1
            } else {
                i + 1
            };
            if i < was.len() && 0 <= j < was.len() {
                &&& now.len() == was.len()
                &&& now[i as int] == was[j] && now[j] == was[i as int]
                &&& forall|k: int|
                    0 <= k < was.len() && k != i && k != j ==> #[trigger] now[k] == was[k]
                &&& after.config == (Config {
                    characters: after.config.characters,
                    ..before.config
                })
                &&& after.live == before.live
                &&& after.last_change is Some
            } else {
                after == before
            }
        }),
        r == Effect::Nothing,
{
}

/// A character that is removed is gone from its place, with its hotkey; the
/// others close up and keep theirs.
pub proof fn law_removed_character_is_gone(
    before: Panel,
    platform: Platform,
    i: usize,
    after: Panel,
    r: Effect,
)
    requires
        before.updated(platform, Message::RemoveCharacter(i), after, r),
    ensures
        ({
            let was = text::views(before.config.characters@);
            let now = text::views(after.config.characters@);
            if i < was.len() {
                &&& now.len() == was.len() - 1
                &&& forall|k: int| 0 <= k < i ==> #[trigger] now[k] == was[k]
                &&& forall|k: int| i <= k < now.len() ==> #[trigger] now[k] == was[k + 1]
                &&& !after.config.character_hotkeys@.contains_key(was[i as int])
                &&& forall|n: Seq<char>|
                    n != was[i as int] ==> #[trigger] after.config.character_hotkeys@.contains_key(
                        n,
                    ) == before.config.character_hotkeys@.contains_key(n) && (
                    before.config.character_hotkeys@.contains_key(n)
                        ==> after.config.character_hotkeys@[n]
                        == before.config.character_hotkeys@[n])
                &&& after.config == (Config {
                    characters: after.config.characters,
                    character_hotkeys: after.config.character_hotkeys,
                    ..before.config
                })
                &&& after.live == before.live
                &&& after.last_change is Some
            } else {
                after == before
            }
        }),
        r == Effect::Nothing,
{
}

/// The name in the field goes to the end of the list, without the white space
/// around it, and the field is empty afterwards. A blank field adds nothing.
pub proof fn law_added_character_is_last(
    before: Panel,
    platform: Platform,
    after: Panel,
    r: Effect,
)
    requires
        before.updated(platform, Message::AddCharacter, after, r),
    ensures
        ({
            let was = text::views(before.config.characters@);
            let now = text::views(after.config.characters@);
            let name = text::trimmed(before.new_character_buffer@);
            if name.len() > 0 {
                &&& now.len() == was.len() + 1
                &&& now.last() == name
                &&& forall|k: int| 0 <= k < was.len() ==> #[trigger] now[k] == was[k]
                &&& after.new_character_buffer@.len() == 0
                &&& after.config == (Config {
                    characters: after.config.characters,
                    ..before.config
                })
                &&& after.live == before.live
                &&& after.last_change is Some
            } else {
                after == before
            }
        }),
        r == Effect::Nothing,
{
}

/// The modifier of a character's hotkey is the one that was chosen, and its
/// key stays; a cleared hotkey is gone. No other character's changes.
pub proof fn law_hotkey_edit_is_the_characters_own(
    before: Panel,
    platform: Platform,
    name: String,
    modifier: Option<u16>,
    after: Panel,
    r: Effect,
    other: Seq<char>,
)
    requires
        other != name@,
    ensures
        before.updated(platform, Message::CharacterModifierChanged(name, modifier), after, r) ==> ({
            let was = before.config.character_hotkeys@;
            let now = after.config.character_hotkeys@;
            &&& now.contains_key(name@) && now[name@].modifier == modifier
            &&& was.contains_key(name@) ==> now[name@].vk == was[name@].vk
            &&& !was.contains_key(name@) ==> now[name@].vk == 0
            &&& now.contains_key(other) == was.contains_key(other) && (was.contains_key(other)
                ==> now[other] == was[other])
            &&& after.config == (Config {
                character_hotkeys: after.config.character_hotkeys,
                ..before.config
            })
            &&& after.live == before.live
            &&& after.last_change is Some
        }),
        before.updated(platform, Message::ClearCharacterHotkey(name), after, r) ==> ({
            let was = before.config.character_hotkeys@;
            let now = after.config.character_hotkeys@;
            &&& !now.contains_key(name@)
            &&& now.contains_key(other) == was.contains_key(other) && (was.contains_key(other)
                ==> now[other] == was[other])
            &&& after.config == (Config {
                character_hotkeys: after.config.character_hotkeys,
                ..before.config
            })
            &&& after.live == before.live
            &&& after.last_change is Some
        }),
{
}

/// A renamed character has the new name in the old place.
pub proof fn law_renamed_character_keeps_its_place(
    before: Panel,
    platform: Platform,
    i: usize,
    name: String,
    after: Panel,
    r: Effect,
)
    requires
        before.updated(platform, Message::CharacterNameChanged(i, name), after, r),
    ensures
        ({
            let was = text::views(before.config.characters@);
            let now = text::views(after.config.characters@);
            let old_keys = before.config.character_hotkeys@;
            let new_keys = after.config.character_hotkeys@;
            if i < was.len() {
                &&& now.len() == was.len() && now[i as int] == name@
                &&& forall|k: int| 0 <= k < was.len() && k != i ==> #[trigger] now[k] == was[k]
                &&& old_keys.contains_key(was[i as int]) ==> new_keys.contains_key(name@)
                    && new_keys[name@] == old_keys[was[i as int]]
                &&& !old_keys.contains_key(was[i as int]) ==> new_keys == old_keys
                &&& after.config == (Config {
                    characters: after.config.characters,
                    character_hotkeys: after.config.character_hotkeys,
                    ..before.config
                })
                &&& after.live == before.live
                &&& after.last_change is Some
            } else {
                after == before
            }
        }),
        r == Effect::Nothing,
{
}

/// The text in the field for a new character is what was typed.
pub proof fn law_field_holds_what_was_typed(
    before: Panel,
    platform: Platform,
    typed: String,
    after: Panel,
    r: Effect,
)
    requires
        before.updated(platform, Message::NewCharacterChanged(typed), after, r),
    ensures
        after.new_character_buffer == typed,
        after.config == before.config,
        after.live == before.live,
        r == Effect::Nothing,
{
}

/// The menu offers no modifier, Shift, Ctrl and Alt, with the left key's code
/// on Linux and the code for both keys on Windows.
pub proof fn law_menu_offers_the_modifiers(platform: Platform)
    ensures
        modifier_menu(platform).len() == 4,
        modifier_menu(platform)[0].0 is None,
        platform == Platform::Windows ==> crate::windows_helpers::modifier_of(
            modifier_menu(platform)[1].0.unwrap(),
        ) == Some(crate::windows_helpers::ModifierKind::Shift)
            && crate::windows_helpers::modifier_of(modifier_menu(platform)[2].0.unwrap()) == Some(
            crate::windows_helpers::ModifierKind::Ctrl,
        ) && crate::windows_helpers::modifier_of(modifier_menu(platform)[3].0.unwrap()) == Some(
            crate::windows_helpers::ModifierKind::Alt,
        ),
{
}

/// What was changed is saved once three tenths of a second have passed without
/// another change, and not before.
pub proof fn law_changes_are_saved_after_a_pause(
    before: Panel,
    platform: Platform,
    after: Panel,
    r: Effect,
) -> (now: Instant)
    requires
        before.updated(platform, Message::FlushIfIdle, after, r),
    ensures
        match before.last_change {
            Some(at) => if clock::millis_between(at, now) >= 300 {
                r == Effect::Save && after == (Panel { last_change: None, ..before })
            } else {
                r == Effect::Nothing && after == before
            },
            None => r == Effect::Nothing && after == before,
        },
{
    choose|now: Instant|
        before.flushed(#[trigger] clock::millis_to(before.last_change, now), after, r)
}

/// A change is stamped with the time at which it was made, which is read once.
pub proof fn law_change_is_stamped(before: Panel, after: Panel, r: Effect)
    requires
        before.edited(after, r),
    ensures
        after.clock.readings().len() == before.clock.readings().len() + 1,
        after.last_change == Some(after.clock.readings().last()),
        after.capturing == before.capturing,
        after.active_tab == before.active_tab,
        r == Effect::Nothing,
{
}

} // verus!
