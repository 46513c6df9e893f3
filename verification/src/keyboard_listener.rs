//! What key presses do: cycling, jumping to a character, toggling previews.
use vstd::prelude::*;
use std::collections::HashSet;
use crate::clock;
use crate::config::{CharacterHotkey, Config};
use crate::cycle_state;
use crate::cycle_state::{CycleError, CycleState};
use crate::evdev_util;
use crate::evdev_util::{rescan_due, EventDeviceHelper, ListenerStep, ScanDevicesResult};
use crate::name_map;
use crate::name_map::NameMap;
use crate::text;
use crate::window_manager::{Request, WindowManager};
use crate::windows_helpers::CycleDirection;

verus! {

broadcast use vstd::std_specs::hash::group_hash_axioms;

/// The settings of the keyboard listener.
#[derive(Debug)]
pub struct KeyboardConfig {
    pub enable: bool,
    pub forward_key: u16,
    pub backward_key: u16,
    pub modifier_key: Option<u16>,
    pub keyboard_device_name: Option<String>,
    pub keyboard_device_path: Option<String>,
    pub minimize_inactive: bool,
    pub character_hotkeys: NameMap<CharacterHotkey>,
    pub toggle_previews_key: Option<u16>,
    pub toggle_previews_modifier: Option<u16>,
}

impl Clone for KeyboardConfig {
    fn clone(&self) -> (r: Self)
        ensures
            r.same(self),
            r.character_hotkeys.items() == self.character_hotkeys.items(),
    {
        KeyboardConfig {
            enable: self.enable,
            forward_key: self.forward_key,
            backward_key: self.backward_key,
            modifier_key: self.modifier_key,
            keyboard_device_name: self.keyboard_device_name.clone(),
            keyboard_device_path: self.keyboard_device_path.clone(),
            minimize_inactive: self.minimize_inactive,
            character_hotkeys: self.character_hotkeys.clone(),
            toggle_previews_key: self.toggle_previews_key,
            toggle_previews_modifier: self.toggle_previews_modifier,
        }
    }
}

/// Whether two sets of character hotkeys bind the same.
pub fn same_hotkeys(a: &NameMap<CharacterHotkey>, b: &NameMap<CharacterHotkey>) -> (r: bool)
    ensures
        r == (a@ == b@),
{
    let ab: bool = binds_all_of(a, b);
    let ba: bool = binds_all_of(b, a);
    if ab && ba {
        assert(a@ =~= b@);
    }
    ab && ba
}

/// Whether `b` has every binding of `a`.
fn binds_all_of(a: &NameMap<CharacterHotkey>, b: &NameMap<CharacterHotkey>) -> (r: bool)
    ensures
        r == (forall|n: Seq<char>| #[trigger]
            a@.contains_key(n) ==> b@.contains_key(n) && b@[n] == a@[n]),
{
    let mut i: usize = 0;
    while i < a.len()
        invariant
            i <= a.items().len(),
            forall|k: int|
                0 <= k < i ==> b@.contains_key((#[trigger] a.items()[k]).0) && b@[a.items()[k].0]
                    == a.items()[k].1,
        decreases a.items().len() - i,
    {
        let hk: CharacterHotkey = *a.value_at(i);
        let same: bool = match b.get(a.name_at(i).as_str()) {
            Some(other) => *other == hk,
            None => false,
        };
        if !same {
            assert(a@.contains_key(a.items()[i as int].0));
            return false;
        }
        i = i + 1;
    }
    assert forall|n: Seq<char>| #[trigger] a@.contains_key(n) implies b@.contains_key(n) && b@[n]
        == a@[n] by {
        let k = name_map::index_of_name(a.items(), n);
        assert(a.items()[k].0 == n);
    }
    true
}

impl KeyboardConfig {
    /// The same settings.
    pub open spec fn same(&self, other: &KeyboardConfig) -> bool {
        &&& self.enable == other.enable
        &&& self.forward_key == other.forward_key
        &&& self.backward_key == other.backward_key
        &&& self.modifier_key == other.modifier_key
        &&& text::opt_view(self.keyboard_device_name) == text::opt_view(
            other.keyboard_device_name,
        )
        &&& text::opt_view(self.keyboard_device_path) == text::opt_view(
            other.keyboard_device_path,
        )
        &&& self.minimize_inactive == other.minimize_inactive
        &&& self.character_hotkeys@ == other.character_hotkeys@
        &&& self.toggle_previews_key == other.toggle_previews_key
        &&& self.toggle_previews_modifier == other.toggle_previews_modifier
    }

    pub fn same_as(&self, other: &KeyboardConfig) -> (r: bool)
        ensures
            r == self.same(other),
    {
        self.enable == other.enable && self.forward_key == other.forward_key && self.backward_key
            == other.backward_key && self.modifier_key == other.modifier_key
            && text::same_opt(&self.keyboard_device_name, &other.keyboard_device_name)
            && text::same_opt(&self.keyboard_device_path, &other.keyboard_device_path)
            && self.minimize_inactive == other.minimize_inactive && same_hotkeys(
            &self.character_hotkeys,
            &other.character_hotkeys,
        ) && self.toggle_previews_key == other.toggle_previews_key && self.toggle_previews_modifier
            == other.toggle_previews_modifier
    }

    pub fn from_config(c: &Config) -> (r: Self)
        ensures
            r.enable == c.enable_keyboard_buttons,
            r.forward_key == c.forward_key,
            r.backward_key == c.backward_key,
            r.modifier_key == c.modifier_key,
            text::opt_view(r.keyboard_device_name) == text::opt_view(
                c.keyboard_device_name,
            ),
            text::opt_view(r.keyboard_device_path) == text::opt_view(
                c.keyboard_device_path,
            ),
            r.minimize_inactive == c.minimize_inactive,
            r.character_hotkeys.items() == c.character_hotkeys.items(),
            r.toggle_previews_key == c.toggle_previews_key,
            r.toggle_previews_modifier == c.toggle_previews_modifier,
    {
        KeyboardConfig {
            enable: c.enable_keyboard_buttons,
            forward_key: c.forward_key,
            backward_key: c.backward_key,
            modifier_key: c.modifier_key,
            keyboard_device_name: c.keyboard_device_name.clone(),
            keyboard_device_path: c.keyboard_device_path.clone(),
            minimize_inactive: c.minimize_inactive,
            character_hotkeys: c.character_hotkeys.clone(),
            toggle_previews_key: c.toggle_previews_key,
            toggle_previews_modifier: c.toggle_previews_modifier,
        }
    }

    /// Whether any key press matters: cycling is on, or a character hotkey or
    /// the preview toggle is bound.
    pub open spec fn any_key_matters(&self) -> bool {
        self.enable || self.character_hotkeys.items().len() > 0 || self.toggle_previews_key is Some
    }

    /// Whether any key press matters.
    pub fn has_work(&self) -> (r: bool)
        ensures
            r == self.any_key_matters(),
    {
        self.enable || self.character_hotkeys.len() > 0 || self.toggle_previews_key.is_some()
    }

    /// Whether some binding uses the code as a modifier.
    pub open spec fn uses_modifier(&self, code: u16) -> bool {
        ||| self.modifier_key == Some(code)
        ||| self.toggle_previews_modifier == Some(code)
        ||| exists|i: int|
            0 <= i < self.character_hotkeys.items().len() && (
            #[trigger] self.character_hotkeys.items()[i]).1.modifier == Some(code)
    }

    /// Whether some binding uses the code as a modifier.
    pub fn is_modifier(&self, code: u16) -> (r: bool)
        ensures
            r == self.uses_modifier(code),
    {
        if self.modifier_key == Some(code) || self.toggle_previews_modifier == Some(code) {
            return true;
        }
        let mut i: usize = 0;
        while i < self.character_hotkeys.len()
            invariant
                i <= self.character_hotkeys.items().len(),
                forall|k: int|
                    0 <= k < i ==> (#[trigger] self.character_hotkeys.items()[k]).1.modifier
                        != Some(code),
            decreases self.character_hotkeys.items().len() - i,
        {
            if self.character_hotkeys.value_at(i).modifier == Some(code) {
                return true;
            }
            i = i + 1;
        }
        false
    }
}

/// The toggle fires: the key is the bound one and its modifier, where one is
/// bound, is held.
pub open spec fn toggle_fires(
    toggle_key: Option<u16>,
    toggle_modifier: Option<u16>,
    code: u16,
    held: Set<u16>,
) -> bool {
    toggle_key == Some(code) && (toggle_modifier matches Some(m) ==> held.contains(m))
}

/// Whether a key press should fire the preview-visibility toggle.
pub fn toggle_previews_should_fire(
    toggle_key: Option<u16>,
    toggle_modifier: Option<u16>,
    code: u16,
    pressed_modifiers: &HashSet<u16>,
) -> (r: bool)
    ensures
        r == toggle_fires(toggle_key, toggle_modifier, code, pressed_modifiers@),
{
    toggle_key == Some(code) && match toggle_modifier {
        Some(m) => pressed_modifiers.contains(&m),
        None => true,
    }
}

/// A binding with a modifier fires: its key is pressed while its modifier is
/// held. Code 0 stands for a key that is not bound yet.
pub open spec fn fires_with_modifier(hk: CharacterHotkey, code: u16, held: Set<u16>) -> bool {
    hk.vk != 0 && hk.vk == code && (hk.modifier matches Some(m) && held.contains(m))
}

/// A binding without a modifier fires.
pub open spec fn fires_plain(hk: CharacterHotkey, code: u16) -> bool {
    hk.vk != 0 && hk.vk == code && hk.modifier is None
}

/// The first binding of either kind that fires.
pub open spec fn first_firing(
    items: Seq<(Seq<char>, CharacterHotkey)>,
    code: u16,
    held: Set<u16>,
    with_modifier: bool,
) -> Option<Seq<char>>
    decreases items.len(),
{
    if items.len() == 0 {
        None
    } else {
        match first_firing(items.drop_last(), code, held, with_modifier) {
            Some(n) => Some(n),
            None => {
                let hk = items.last().1;
                if (with_modifier && fires_with_modifier(hk, code, held)) || (!with_modifier
                    && fires_plain(hk, code)) {
                    Some(items.last().0)
                } else {
                    None
                }
            },
        }
    }
}

/// The character whose hotkey a key press is: bindings whose modifier is held
/// come before bindings without one.
pub open spec fn hotkey_target(
    items: Seq<(Seq<char>, CharacterHotkey)>,
    code: u16,
    held: Set<u16>,
) -> Option<Seq<char>> {
    match first_firing(items, code, held, true) {
        Some(n) => Some(n),
        None => first_firing(items, code, held, false),
    }
}

proof fn lemma_first_firing_stays(
    items: Seq<(Seq<char>, CharacterHotkey)>,
    code: u16,
    held: Set<u16>,
    with_modifier: bool,
    k: int,
)
    requires
        0 <= k <= items.len(),
        first_firing(items.take(k), code, held, with_modifier) is Some,
    ensures
        first_firing(items, code, held, with_modifier) == first_firing(
            items.take(k),
            code,
            held,
            with_modifier,
        ),
    decreases items.len() - k,
{
    if k == items.len() {
        assert(items.take(k) == items);
    } else {
        assert(items.take(k + 1).drop_last() == items.take(k));
        lemma_first_firing_stays(items, code, held, with_modifier, k + 1);
    }
}

fn find_firing(
    code: u16,
    pressed_modifiers: &HashSet<u16>,
    hotkeys: &NameMap<CharacterHotkey>,
    with_modifier: bool,
) -> (r: Option<String>)
    ensures
        text::opt_view(r) == first_firing(
            hotkeys.items(),
            code,
            pressed_modifiers@,
            with_modifier,
        ),
{
    let ghost items = hotkeys.items();
    let mut i: usize = 0;
    while i < hotkeys.len()
        invariant
            i <= items.len(),
            items == hotkeys.items(),
            first_firing(items.take(i as int), code, pressed_modifiers@, with_modifier) is None,
        decreases items.len() - i,
    {
        assert(items.take(i + 1).drop_last() == items.take(i as int));
        assert(items.take(i + 1).last() == items[i as int]);
        let hk: CharacterHotkey = *hotkeys.value_at(i);
        let fires: bool = hk.vk != 0 && hk.vk == code && match hk.modifier {
            Some(m) => with_modifier && pressed_modifiers.contains(&m),
            None => !with_modifier,
        };
        if fires {
            proof {
                lemma_first_firing_stays(items, code, pressed_modifiers@, with_modifier, i + 1);
            }
            return Some(hotkeys.name_at(i).clone());
        }
        i = i + 1;
    }
    assert(items.take(i as int) == items);
    None
}

/// Picks the character (if any) whose hotkey matches a key press.
pub fn resolve_character_hotkey(
    code: u16,
    pressed_modifiers: &HashSet<u16>,
    hotkeys: &NameMap<CharacterHotkey>,
) -> (r: Option<String>)
    ensures
        text::opt_view(r) == hotkey_target(hotkeys.items(), code, pressed_modifiers@),
{
    match find_firing(code, pressed_modifiers, hotkeys, true) {
        Some(name) => Some(name),
        None => find_firing(code, pressed_modifiers, hotkeys, false),
    }
}

/// Whatever fires is a binding that is there and fires.
pub proof fn law_target_has_a_firing_binding(
    items: Seq<(Seq<char>, CharacterHotkey)>,
    code: u16,
    held: Set<u16>,
    with_modifier: bool,
)
    requires
        first_firing(items, code, held, with_modifier) is Some,
    ensures
        exists|i: int|
            0 <= i < items.len() && (#[trigger] items[i]).0 == first_firing(
                items,
                code,
                held,
                with_modifier,
            ).unwrap() && if with_modifier {
                fires_with_modifier(items[i].1, code, held)
            } else {
                fires_plain(items[i].1, code)
            },
    decreases items.len(),
{
    let front = items.drop_last();
    if first_firing(front, code, held, with_modifier) is Some {
        law_target_has_a_firing_binding(front, code, held, with_modifier);
        let i = choose|i: int|
            0 <= i < front.len() && (#[trigger] front[i]).0 == first_firing(
                front,
                code,
                held,
                with_modifier,
            ).unwrap() && if with_modifier {
                fires_with_modifier(front[i].1, code, held)
            } else {
                fires_plain(front[i].1, code)
            };
        assert(items[i] == front[i]);
    } else {
        assert(items[items.len() - 1] == items.last());
    }
}

proof fn lemma_some_firing(
    items: Seq<(Seq<char>, CharacterHotkey)>,
    code: u16,
    held: Set<u16>,
    i: int,
)
    requires
        0 <= i < items.len(),
        fires_with_modifier(items[i].1, code, held),
    ensures
        first_firing(items, code, held, true) is Some,
    decreases items.len(),
{
    if i < items.len() - 1 {
        assert(items.drop_last()[i] == items[i]);
        lemma_some_firing(items.drop_last(), code, held, i);
    }
}

/// A binding whose modifier is held wins over every binding without one.
pub proof fn law_modifier_binding_wins(
    items: Seq<(Seq<char>, CharacterHotkey)>,
    code: u16,
    held: Set<u16>,
    i: int,
)
    requires
        0 <= i < items.len(),
        fires_with_modifier(items[i].1, code, held),
    ensures
        hotkey_target(items, code, held) is Some,
        exists|k: int|
            0 <= k < items.len() && Some((#[trigger] items[k]).0) == hotkey_target(
                items,
                code,
                held,
            ) && fires_with_modifier(items[k].1, code, held),
{
    lemma_some_firing(items, code, held, i);
    law_target_has_a_firing_binding(items, code, held, true);
}

/// A binding without a key never fires: code 0 reaches no character.
pub proof fn law_unbound_key_never_fires(
    items: Seq<(Seq<char>, CharacterHotkey)>,
    held: Set<u16>,
)
    ensures
        hotkey_target(items, 0, held) is None,
    decreases items.len(),
{
    if items.len() > 0 {
        law_unbound_key_never_fires(items.drop_last(), held);
    }
}

/// What a key press does.
#[derive(Debug, PartialEq, Eq)]
pub enum KeyAction {
    /// Show or hide the previews.
    TogglePreviews,
    CycleBackward,
    CycleForward,
    SwitchTo(String),
    /// Nothing.
    Ignore,
}

/// What a key press does, by the name it switches to.
pub enum KeyDecision {
    TogglePreviews,
    CycleBackward,
    CycleForward,
    SwitchTo(Seq<char>),
    Ignore,
}

pub open spec fn decision_of(a: KeyAction) -> KeyDecision {
    match a {
        KeyAction::TogglePreviews => KeyDecision::TogglePreviews,
        KeyAction::CycleBackward => KeyDecision::CycleBackward,
        KeyAction::CycleForward => KeyDecision::CycleForward,
        KeyAction::SwitchTo(n) => KeyDecision::SwitchTo(n@),
        KeyAction::Ignore => KeyDecision::Ignore,
    }
}

/// The decision on a pressed key. The preview toggle comes first and acts on
/// the press alone, not on repeats, yet takes the key in either case. Cycling
/// comes next where it is on: backward with its modifier before forward
/// before plain backward. Characters come last.
pub open spec fn key_decision(c: KeyboardConfig, held: Set<u16>, code: u16, value: i32) -> KeyDecision {
    if toggle_fires(c.toggle_previews_key, c.toggle_previews_modifier, code, held) {
        if value == 1 {
            KeyDecision::TogglePreviews
        } else {
            KeyDecision::Ignore
        }
    } else if c.enable && code == c.backward_key && (c.modifier_key matches Some(m)
        && held.contains(m)) {
        KeyDecision::CycleBackward
    } else if c.enable && code == c.forward_key {
        KeyDecision::CycleForward
    } else if c.enable && code == c.backward_key {
        KeyDecision::CycleBackward
    } else {
        match hotkey_target(c.character_hotkeys.items(), code, held) {
            Some(n) => KeyDecision::SwitchTo(n),
            None => KeyDecision::Ignore,
        }
    }
}

pub fn key_action(c: &KeyboardConfig, held: &HashSet<u16>, code: u16, value: i32) -> (r: KeyAction)
    ensures
        decision_of(r) == key_decision(*c, held@, code, value),
{
    if toggle_previews_should_fire(
        c.toggle_previews_key,
        c.toggle_previews_modifier,
        code,
        held,
    ) {
        return if value == 1 {
            KeyAction::TogglePreviews
        } else {
            KeyAction::Ignore
        };
    }
    if c.enable {
        let main_modifier_held: bool = match c.modifier_key {
            Some(m) => held.contains(&m),
            None => false,
        };
        if code == c.backward_key && main_modifier_held {
            return KeyAction::CycleBackward;
        }
        if code == c.forward_key {
            return KeyAction::CycleForward;
        }
        if code == c.backward_key {
            return KeyAction::CycleBackward;
        }
    }
    match resolve_character_hotkey(code, held, &c.character_hotkeys) {
        Some(name) => KeyAction::SwitchTo(name),
        None => KeyAction::Ignore,
    }
}

/// With one key for both directions, the modifier decides between them.
pub proof fn law_modifier_reverses_shared_key(c: KeyboardConfig, held: Set<u16>, value: i32, m: u16)
    requires
        c.enable,
        c.forward_key == c.backward_key,
        c.modifier_key == Some(m),
        !toggle_fires(c.toggle_previews_key, c.toggle_previews_modifier, c.forward_key, held),
    ensures
        held.contains(m) ==> key_decision(c, held, c.forward_key, value)
            == KeyDecision::CycleBackward,
        !held.contains(m) ==> key_decision(c, held, c.forward_key, value)
            == KeyDecision::CycleForward,
{
}

/// With cycling off, no key cycles.
pub proof fn law_disabled_never_cycles(c: KeyboardConfig, held: Set<u16>, code: u16, value: i32)
    requires
        !c.enable,
    ensures
        key_decision(c, held, code, value) != KeyDecision::CycleForward,
        key_decision(c, held, code, value) != KeyDecision::CycleBackward,
{
}

/// The listener's memory between events: which modifiers are held, which keys
/// the current round of events pressed, and what was announced.
pub struct KeyboardListener {
    pub pressed_modifiers: HashSet<u16>,
    pub pressed_keys: Vec<(u16, i32)>,
    pub announced_listening: bool,
    pub announced_idle: bool,
}

/// The keys pressed in a round, after one more press or repeat: a code that
/// is there already keeps its place and takes the new value.
pub open spec fn with_press(keys: Seq<(u16, i32)>, code: u16, value: i32) -> Seq<(u16, i32)>
    decreases keys.len(),
{
    if keys.len() == 0 {
        seq![(code, value)]
    } else if keys[0].0 == code {
        keys.update(0, (code, value))
    } else {
        seq![keys[0]] + with_press(keys.skip(1), code, value)
    }
}

impl KeyboardListener {
    pub fn new() -> (r: Self)
        ensures
            r.pressed_modifiers@ == Set::<u16>::empty(),
            r.pressed_keys@ == Seq::<(u16, i32)>::empty(),
            !r.announced_listening,
            !r.announced_idle,
    {
        KeyboardListener {
            pressed_modifiers: HashSet::new(),
            pressed_keys: Vec::new(),
            announced_listening: false,
            announced_idle: false,
        }
    }

    /// Nothing to listen for. The result says whether to announce it: once,
    /// until the listener works again.
    fn idle(&mut self) -> (r: bool)
        ensures
            r == !old(self).announced_idle,
            final(self).announced_idle,
            final(self).announced_listening == (old(self).announced_idle && old(
                self,
            ).announced_listening),
            final(self).pressed_modifiers@ == Set::<u16>::empty(),
            final(self).pressed_keys@ == Seq::<(u16, i32)>::empty(),
    {
        let announce: bool = !self.announced_idle;
        if announce {
            self.announced_idle = true;
            self.announced_listening = false;
        }
        self.pressed_modifiers = HashSet::new();
        self.pressed_keys = Vec::new();
        announce
    }

    /// A scan begins: releases of keys on a device that vanished never come,
    /// so no modifier counts as held.
    fn begin_rescan(&mut self)
        ensures
            final(self).pressed_modifiers@ == Set::<u16>::empty(),
            final(self).pressed_keys == old(self).pressed_keys,
            final(self).announced_listening == old(self).announced_listening,
            final(self).announced_idle == old(self).announced_idle,
    {
        self.pressed_modifiers = HashSet::new();
    }

    /// A scan ended. Where it changed the devices, both announcements are due
    /// again.
    fn scanned(&mut self, result: &ScanDevicesResult)
        ensures
            final(self).pressed_modifiers == old(self).pressed_modifiers,
            final(self).pressed_keys == old(self).pressed_keys,
            ({
                let changed = result.removed_devices || result.new_devices@.len() > 0;
                &&& final(self).announced_listening == (old(self).announced_listening && !changed)
                &&& final(self).announced_idle == (old(self).announced_idle && !changed)
            }),
    {
        if result.removed_devices || result.new_devices.len() > 0 {
            self.announced_idle = false;
            self.announced_listening = false;
        }
    }

    /// Whether to announce that the listener listens: once, until it is due
    /// again.
    fn announce_listening(&mut self) -> (r: bool)
        ensures
            r == !old(self).announced_listening,
            final(self).announced_listening,
            final(self).announced_idle == old(self).announced_idle,
            final(self).pressed_modifiers == old(self).pressed_modifiers,
            final(self).pressed_keys == old(self).pressed_keys,
    {
        let announce: bool = !self.announced_listening;
        self.announced_listening = true;
        announce
    }

    /// A round of events begins: codes that no binding uses as a modifier any
    /// more are forgotten, and no key counts as pressed.
    fn begin_round(&mut self, c: &KeyboardConfig)
        ensures
            forall|code: u16| #[trigger]
                final(self).pressed_modifiers@.contains(code) == (old(
                    self,
                ).pressed_modifiers@.contains(code) && c.uses_modifier(code)),
            final(self).pressed_keys@ == Seq::<(u16, i32)>::empty(),
            final(self).announced_listening == old(self).announced_listening,
            final(self).announced_idle == old(self).announced_idle,
    {
        let ghost held = self.pressed_modifiers@;
        let mut still: HashSet<u16> = HashSet::new();
        if let Some(m) = c.modifier_key {
            if self.pressed_modifiers.contains(&m) {
                still.insert(m);
            }
        }
        if let Some(m) = c.toggle_previews_modifier {
            if self.pressed_modifiers.contains(&m) {
                still.insert(m);
            }
        }
        let ghost items = c.character_hotkeys.items();
        let mut i: usize = 0;
        while i < c.character_hotkeys.len()
            invariant
                i <= items.len(),
                items == c.character_hotkeys.items(),
                held == self.pressed_modifiers@,
                forall|code: u16| #[trigger]
                    still@.contains(code) == (held.contains(code) && (c.modifier_key == Some(code)
                        || c.toggle_previews_modifier == Some(code) || exists|k: int|
                        0 <= k < i && (#[trigger] items[k]).1.modifier == Some(code))),
            decreases items.len() - i,
        {
            let modifier: Option<u16> = c.character_hotkeys.value_at(i).modifier;
            assert(items[i as int].1.modifier == modifier);
            if let Some(m) = modifier {
                if self.pressed_modifiers.contains(&m) {
                    still.insert(m);
                }
            }
            i = i + 1;
        }
        self.pressed_modifiers = still;
        self.pressed_keys = Vec::new();
    }

    /// The state at the start of a round of events: only codes that a binding
    /// uses as a modifier count as held, and no key as pressed. It is
    /// announced that the listener listens.
    pub open spec fn ready_for_round(&self, c: &KeyboardConfig, after: &KeyboardListener) -> bool {
        &&& forall|code: u16| #[trigger]
            after.pressed_modifiers@.contains(code) == (self.pressed_modifiers@.contains(code)
                && c.uses_modifier(code))
        &&& after.pressed_keys@ == Seq::<(u16, i32)>::empty()
        &&& after.announced_listening
    }

    /// Decides what to do next under the current settings, `since_rescan`
    /// milliseconds after the last scan. Without work the devices are let go.
    /// Else the pinned device is taken over from the settings; a scan that is
    /// due comes before reading events, and forgets which modifiers are held.
    pub fn next_step(
        &mut self,
        c: &KeyboardConfig,
        devices: &mut EventDeviceHelper,
        since_rescan: Option<u128>,
    ) -> (r: ListenerStep)
        ensures
            if !c.any_key_matters() {
                &&& r == (ListenerStep::Idle { announce: !old(self).announced_idle })
                &&& final(devices).is_reset(old(devices).device_type)
                &&& final(self).announced_idle
                &&& final(self).announced_listening == (old(self).announced_idle && old(
                    self,
                ).announced_listening)
                &&& final(self).pressed_modifiers@ == Set::<u16>::empty()
                &&& final(self).pressed_keys@ == Seq::<(u16, i32)>::empty()
            } else {
                &&& old(devices).pinned_to(
                    text::opt_view(c.keyboard_device_name),
                    text::opt_view(c.keyboard_device_path),
                    final(devices),
                )
                &&& final(self).announced_idle == old(self).announced_idle
                &&& if evdev_util::scan_is_due(final(devices).wants_scan(), since_rescan) {
                    &&& r == ListenerStep::Scan
                    &&& final(self).pressed_modifiers@ == Set::<u16>::empty()
                    &&& final(self).pressed_keys == old(self).pressed_keys
                    &&& final(self).announced_listening == old(self).announced_listening
                } else {
                    &&& r == (ListenerStep::Poll { announce: !old(self).announced_listening })
                    &&& old(self).ready_for_round(c, final(self))
                }
            },
    {
        if !c.has_work() {
            devices.reset();
            return ListenerStep::Idle { announce: self.idle() };
        }
        devices.check_update_pinned_device(&c.keyboard_device_name, &c.keyboard_device_path);
        if rescan_due(devices.needs_scan(), since_rescan) {
            self.begin_rescan();
            return ListenerStep::Scan;
        }
        self.begin_round(c);
        ListenerStep::Poll { announce: self.announce_listening() }
    }

    /// Decides what to do after a scan that left `num_devices` devices. The
    /// result is None where the scan failed. A scan that changed the devices
    /// makes both announcements due again.
    pub fn after_scan(
        &mut self,
        c: &KeyboardConfig,
        result: Option<&ScanDevicesResult>,
        num_devices: usize,
    ) -> (r: ListenerStep)
        ensures
            match result {
                None => r == (ListenerStep::Retry { failed: true }) && *final(self) == *old(self),
                Some(res) => {
                    let changed = res.removed_devices || res.new_devices@.len() > 0;
                    &&& final(self).announced_idle == (old(self).announced_idle && !changed)
                    &&& if num_devices == 0 {
                        &&& r == (ListenerStep::Retry { failed: false })
                        &&& final(self).announced_listening == (old(self).announced_listening
                            && !changed)
                        &&& final(self).pressed_modifiers == old(self).pressed_modifiers
                        &&& final(self).pressed_keys == old(self).pressed_keys
                    } else {
                        &&& r == (ListenerStep::Poll { announce: changed || !old(self).announced_listening })
                        &&& old(self).ready_for_round(c, final(self))
                    }
                },
            },
    {
        match result {
            None => ListenerStep::Retry { failed: true },
            Some(res) => {
                self.scanned(res);
                if num_devices == 0 {
                    return ListenerStep::Retry { failed: false };
                }
                self.begin_round(c);
                ListenerStep::Poll { announce: self.announce_listening() }
            },
        }
    }

    /// A key event: value 0 is a release, 1 a press, 2 a repeat. Modifiers
    /// count as held from press to release; presses and repeats are kept for
    /// the end of the round.
    pub fn key_event(&mut self, c: &KeyboardConfig, code: u16, value: i32)
        ensures
            final(self).pressed_modifiers@ == (if c.uses_modifier(code) {
                if value != 0 {
                    old(self).pressed_modifiers@.insert(code)
                } else {
                    old(self).pressed_modifiers@.remove(code)
                }
            } else {
                old(self).pressed_modifiers@
            }),
            final(self).pressed_keys@ == (if value != 0 {
                with_press(old(self).pressed_keys@, code, value)
            } else {
                old(self).pressed_keys@
            }),
            final(self).announced_listening == old(self).announced_listening,
            final(self).announced_idle == old(self).announced_idle,
    {
        if c.is_modifier(code) {
            if value != 0 {
                self.pressed_modifiers.insert(code);
            } else {
                self.pressed_modifiers.remove(&code);
            }
        }
        if value == 0 {
            return;
        }
        let mut i: usize = 0;
        let ghost keys = self.pressed_keys@;
        assert(keys.skip(0) == keys);
        while i < self.pressed_keys.len() && self.pressed_keys[i].0 != code
            invariant
                i <= self.pressed_keys.len(),
                keys == self.pressed_keys@,
                with_press(keys, code, value) == keys.take(i as int) + with_press(
                    keys.skip(i as int),
                    code,
                    value,
                ),
            decreases self.pressed_keys.len() - i,
        {
            proof {
                let rest = keys.skip(i as int);
                assert(rest.skip(1) == keys.skip(i + 1));
                assert(keys.take(i + 1) == keys.take(i as int) + seq![rest[0]]);
                assert(keys.take(i as int) + (seq![rest[0]] + with_press(
                    rest.skip(1),
                    code,
                    value,
                )) =~= keys.take(i + 1) + with_press(keys.skip(i + 1), code, value));
            }
            i = i + 1;
        }
        if i < self.pressed_keys.len() {
            self.pressed_keys.set(i, (code, value));
            assert(keys.take(i as int) + keys.skip(i as int).update(0, (code, value))
                =~= keys.update(i as int, (code, value)));
        } else {
            self.pressed_keys.push((code, value));
            assert(keys.skip(i as int) == Seq::<(u16, i32)>::empty());
            assert(keys.take(i as int) + seq![(code, value)] =~= keys.push((code, value)));
        }
    }

    /// What the keys pressed in a round do, each judged by the modifiers held
    /// at its end, from whichever device they came.
    pub fn actions(&self, c: &KeyboardConfig) -> (r: Vec<KeyAction>)
        ensures
            r@.len() == self.pressed_keys@.len(),
            forall|i: int|
                0 <= i < r@.len() ==> decision_of(#[trigger] r@[i]) == key_decision(
                    *c,
                    self.pressed_modifiers@,
                    self.pressed_keys@[i].0,
                    self.pressed_keys@[i].1,
                ),
    {
        let mut out: Vec<KeyAction> = Vec::new();
        let mut i: usize = 0;
        while i < self.pressed_keys.len()
            invariant
                i <= self.pressed_keys.len(),
                out@.len() == i,
                forall|k: int|
                    0 <= k < i ==> decision_of(#[trigger] out@[k]) == key_decision(
                        *c,
                        self.pressed_modifiers@,
                        self.pressed_keys@[k].0,
                        self.pressed_keys@[k].1,
                    ),
            decreases self.pressed_keys.len() - i,
        {
            let (code, value): (u16, i32) = self.pressed_keys[i];
            out.push(key_action(c, &self.pressed_modifiers, code, value));
            i = i + 1;
        }
        out
    }

    /// A round ended. Where devices were dropped, the announcement is due
    /// again.
    pub fn end_round(&mut self, num_devices_dropped: usize)
        ensures
            final(self).announced_listening == (old(self).announced_listening
                && num_devices_dropped == 0),
            final(self).announced_idle == old(self).announced_idle,
            final(self).pressed_modifiers == old(self).pressed_modifiers,
            final(self).pressed_keys == old(self).pressed_keys,
    {
        if num_devices_dropped > 0 {
            self.announced_listening = false;
        }
    }

    /// Cycles forward, after taking over the focus unless an activation of
    /// our own is recent.
    pub fn cycle_forward<W: WindowManager>(
        wm: &mut W,
        state: &mut CycleState,
        minimize_inactive: bool,
    ) -> (r: Result<(), CycleError>)
        requires
            old(state).wf(),
        ensures
            final(state).wf(),
            exists|mid: CycleState, log: Seq<Request>, since: Option<u128>|
                {
                    &&& clock::can_pass(old(state).activated(), since)
                    &&& #[trigger] cycle_state::synced_unless_recent(
                        *old(state),
                        mid,
                        old(wm).requests(),
                        log,
                        since,
                    )
                    &&& cycle_state::cycled(
                        mid,
                        *final(state),
                        log,
                        final(wm).requests(),
                        CycleDirection::Forward,
                        minimize_inactive,
                        r,
                    )
                },
    {
        state.sync_unless_recent(wm);
        state.cycle_forward(wm, minimize_inactive)
    }

    /// Cycles backward in the same way.
    pub fn cycle_backward<W: WindowManager>(
        wm: &mut W,
        state: &mut CycleState,
        minimize_inactive: bool,
    ) -> (r: Result<(), CycleError>)
        requires
            old(state).wf(),
        ensures
            final(state).wf(),
            exists|mid: CycleState, log: Seq<Request>, since: Option<u128>|
                {
                    &&& clock::can_pass(old(state).activated(), since)
                    &&& #[trigger] cycle_state::synced_unless_recent(
                        *old(state),
                        mid,
                        old(wm).requests(),
                        log,
                        since,
                    )
                    &&& cycle_state::cycled(
                        mid,
                        *final(state),
                        log,
                        final(wm).requests(),
                        CycleDirection::Backward,
                        minimize_inactive,
                        r,
                    )
                },
    {
        state.sync_unless_recent(wm);
        state.cycle_backward(wm, minimize_inactive)
    }

    /// Switches to a character, after asking for the focus.
    pub fn switch_to_character<W: WindowManager>(
        name: &str,
        wm: &mut W,
        state: &mut CycleState,
        minimize_inactive: bool,
    ) -> (r: Result<(), CycleError>)
        requires
            old(state).wf(),
        ensures
            final(state).wf(),
            exists|mid: CycleState, log: Seq<Request>, since: Option<u128>|
                {
                    &&& clock::can_pass(old(state).activated(), since)
                    &&& #[trigger] cycle_state::asked_focus(
                        *old(state),
                        mid,
                        old(wm).requests(),
                        log,
                        since,
                    )
                    &&& cycle_state::switched_to_character(
                        mid,
                        *final(state),
                        log,
                        final(wm).requests(),
                        name@,
                        minimize_inactive,
                        r,
                    )
                },
    {
        state.sync_from(wm);
        state.switch_to_character(name, wm, minimize_inactive)
    }
}

// ---------------------------------------------------------------------
// What the keys are for
// ---------------------------------------------------------------------

/// The preview toggle does not take the key: another key is bound to it, or
/// its modifier is not held.
pub open spec fn not_taken_by_toggle(c: KeyboardConfig, held: Set<u16>, code: u16) -> bool {
    c.toggle_previews_key != Some(code) || (c.toggle_previews_modifier matches Some(m)
        && !held.contains(m))
}

/// An action stands for the decision of its own name.
pub proof fn law_action_is_its_decision(name: String)
    ensures
        decision_of(KeyAction::CycleForward) == KeyDecision::CycleForward,
        decision_of(KeyAction::CycleBackward) == KeyDecision::CycleBackward,
        decision_of(KeyAction::TogglePreviews) == KeyDecision::TogglePreviews,
        decision_of(KeyAction::Ignore) == KeyDecision::Ignore,
        decision_of(KeyAction::SwitchTo(name)) == KeyDecision::SwitchTo(name@),
{
}

/// With cycling on, a backward key of its own goes backward, whether or not
/// the modifier is held, and the forward key goes forward.
pub proof fn law_each_key_has_its_direction(c: KeyboardConfig, held: Set<u16>, value: i32)
    requires
        c.enable,
        c.forward_key != c.backward_key,
    ensures
        not_taken_by_toggle(c, held, c.backward_key) ==> key_decision(
            c,
            held,
            c.backward_key,
            value,
        ) == KeyDecision::CycleBackward,
        not_taken_by_toggle(c, held, c.forward_key) ==> key_decision(c, held, c.forward_key, value)
            == KeyDecision::CycleForward,
{
}

/// One key for both directions goes backward exactly while the modifier is
/// held; without a modifier it goes forward.
pub proof fn law_shared_key_goes_by_the_modifier(c: KeyboardConfig, held: Set<u16>, value: i32)
    requires
        c.enable,
        c.forward_key == c.backward_key,
        not_taken_by_toggle(c, held, c.forward_key),
    ensures
        key_decision(c, held, c.forward_key, value) == (if c.modifier_key matches Some(m)
            && held.contains(m) {
            KeyDecision::CycleBackward
        } else {
            KeyDecision::CycleForward
        }),
{
}

/// No other key cycles.
pub proof fn law_only_the_bound_keys_cycle(
    c: KeyboardConfig,
    held: Set<u16>,
    code: u16,
    value: i32,
)
    requires
        code != c.forward_key,
        code != c.backward_key,
    ensures
        key_decision(c, held, code, value) != KeyDecision::CycleForward,
        key_decision(c, held, code, value) != KeyDecision::CycleBackward,
{
}

/// The toggle acts on a press of its key with its modifier held, where it has
/// one. A repeat does nothing, and no other key toggles.
pub proof fn law_toggle_acts_on_the_press(c: KeyboardConfig, held: Set<u16>, code: u16, value: i32)
    ensures
        !not_taken_by_toggle(c, held, code) ==> key_decision(c, held, code, value) == (if value
            == 1 {
            KeyDecision::TogglePreviews
        } else {
            KeyDecision::Ignore
        }),
        not_taken_by_toggle(c, held, code) ==> key_decision(c, held, code, value)
            != KeyDecision::TogglePreviews,
{
}

proof fn lemma_first_firing_is(
    items: Seq<(Seq<char>, CharacterHotkey)>,
    code: u16,
    held: Set<u16>,
    with_modifier: bool,
    i: int,
)
    requires
        0 <= i < items.len(),
        if with_modifier {
            fires_with_modifier(items[i].1, code, held)
        } else {
            fires_plain(items[i].1, code)
        },
        forall|k: int|
            0 <= k < i ==> if with_modifier {
                !fires_with_modifier((#[trigger] items[k]).1, code, held)
            } else {
                !fires_plain(items[k].1, code)
            },
    ensures
        first_firing(items, code, held, with_modifier) == Some(items[i].0),
{
    lemma_none_firing(items.take(i), code, held, with_modifier);
    assert(items.take(i + 1).drop_last() == items.take(i));
    assert(items.take(i + 1).last() == items[i]);
    lemma_first_firing_stays(items, code, held, with_modifier, i + 1);
}

proof fn lemma_none_firing(
    items: Seq<(Seq<char>, CharacterHotkey)>,
    code: u16,
    held: Set<u16>,
    with_modifier: bool,
)
    requires
        forall|k: int|
            0 <= k < items.len() ==> if with_modifier {
                !fires_with_modifier((#[trigger] items[k]).1, code, held)
            } else {
                !fires_plain(items[k].1, code)
            },
    ensures
        first_firing(items, code, held, with_modifier) is None,
    decreases items.len(),
{
    if items.len() > 0 {
        let front = items.drop_last();
        assert forall|k: int| 0 <= k < front.len() implies if with_modifier {
            !fires_with_modifier((#[trigger] front[k]).1, code, held)
        } else {
            !fires_plain(front[k].1, code)
        } by {
            assert(front[k] == items[k]);
        }
        lemma_none_firing(front, code, held, with_modifier);
        assert(items[items.len() - 1] == items.last());
    }
}

/// A key that neither toggles nor cycles jumps to the first character whose
/// binding has this key and a modifier that is held. Where there is none, it
/// jumps to the first one whose binding is the key alone.
pub proof fn law_character_key_jumps(
    c: KeyboardConfig,
    held: Set<u16>,
    code: u16,
    value: i32,
    i: int,
)
    requires
        not_taken_by_toggle(c, held, code),
        !c.enable || (code != c.forward_key && code != c.backward_key),
        code != 0,
        0 <= i < c.character_hotkeys.items().len(),
        c.character_hotkeys.items()[i].1.vk == code,
    ensures
        (c.character_hotkeys.items()[i].1.modifier matches Some(m) && held.contains(m)) && (
        forall|k: int|
            0 <= k < i && (#[trigger] c.character_hotkeys.items()[k]).1.vk == code ==> (
            c.character_hotkeys.items()[k].1.modifier matches Some(m) ==> !held.contains(m)))
            ==> key_decision(c, held, code, value) == KeyDecision::SwitchTo(
            c.character_hotkeys.items()[i].0,
        ),
        c.character_hotkeys.items()[i].1.modifier is None && (forall|k: int|
            0 <= k < c.character_hotkeys.items().len() && (
            #[trigger] c.character_hotkeys.items()[k]).1.vk == code ==> (
            c.character_hotkeys.items()[k].1.modifier matches Some(m) ==> !held.contains(m)) && (k
                < i ==> c.character_hotkeys.items()[k].1.modifier is Some)) ==> key_decision(
            c,
            held,
            code,
            value,
        ) == KeyDecision::SwitchTo(c.character_hotkeys.items()[i].0),
{
    let items = c.character_hotkeys.items();
    let hk = items[i].1;
    if (hk.modifier matches Some(m) && held.contains(m)) && (forall|k: int|
        0 <= k < i && (#[trigger] items[k]).1.vk == code ==> (items[k].1.modifier matches Some(m)
            ==> !held.contains(m))) {
        assert forall|k: int| 0 <= k < i implies !fires_with_modifier(
            (#[trigger] items[k]).1,
            code,
            held,
        ) by {}
        lemma_first_firing_is(items, code, held, true, i);
    }
    if hk.modifier is None && (forall|k: int|
        0 <= k < items.len() && (#[trigger] items[k]).1.vk == code ==> (
        items[k].1.modifier matches Some(m) ==> !held.contains(m)) && (k < i
            ==> items[k].1.modifier is Some)) {
        assert forall|k: int| 0 <= k < items.len() implies !fires_with_modifier(
            (#[trigger] items[k]).1,
            code,
            held,
        ) by {}
        lemma_none_firing(items, code, held, true);
        assert forall|k: int| 0 <= k < i implies !fires_plain((#[trigger] items[k]).1, code) by {}
        lemma_first_firing_is(items, code, held, false, i);
    }
}

/// A key that nothing is bound to is ignored.
pub proof fn law_unbound_key_is_ignored(c: KeyboardConfig, held: Set<u16>, code: u16, value: i32)
    requires
        c.toggle_previews_key != Some(code),
        !c.enable || (code != c.forward_key && code != c.backward_key),
        forall|k: int|
            0 <= k < c.character_hotkeys.items().len() ==> (
            #[trigger] c.character_hotkeys.items()[k]).1.vk != code,
    ensures
        key_decision(c, held, code, value) == KeyDecision::Ignore,
{
    lemma_none_firing(c.character_hotkeys.items(), code, held, true);
    lemma_none_firing(c.character_hotkeys.items(), code, held, false);
}

/// While a listener says that no key matters, no key does anything.
pub proof fn law_idle_listener_misses_nothing(
    c: KeyboardConfig,
    held: Set<u16>,
    code: u16,
    value: i32,
)
    requires
        !c.any_key_matters(),
    ensures
        key_decision(c, held, code, value) == KeyDecision::Ignore,
{
    law_unbound_key_is_ignored(c, held, code, value);
}

proof fn lemma_firing_by_modifiers(
    items: Seq<(Seq<char>, CharacterHotkey)>,
    code: u16,
    a: Set<u16>,
    b: Set<u16>,
    with_modifier: bool,
)
    requires
        forall|i: int|
            0 <= i < items.len() ==> ((#[trigger] items[i]).1.modifier matches Some(m)
                ==> a.contains(m) == b.contains(m)),
    ensures
        first_firing(items, code, a, with_modifier) == first_firing(items, code, b, with_modifier),
    decreases items.len(),
{
    if items.len() > 0 {
        let front = items.drop_last();
        assert forall|i: int| 0 <= i < front.len() implies ((
        #[trigger] front[i]).1.modifier matches Some(m) ==> a.contains(m) == b.contains(m)) by {
            assert(front[i] == items[i]);
        }
        lemma_firing_by_modifiers(front, code, a, b, with_modifier);
        assert(items[items.len() - 1] == items.last());
    }
}

/// The modifiers that are tracked are all that matter: what else is held
/// changes no decision.
pub proof fn law_tracked_modifiers_suffice(
    c: KeyboardConfig,
    a: Set<u16>,
    b: Set<u16>,
    code: u16,
    value: i32,
)
    requires
        forall|m: u16| c.uses_modifier(m) ==> #[trigger] a.contains(m) == b.contains(m),
    ensures
        key_decision(c, a, code, value) == key_decision(c, b, code, value),
{
    let items = c.character_hotkeys.items();
    assert forall|i: int| 0 <= i < items.len() implies ((
    #[trigger] items[i]).1.modifier matches Some(m) ==> a.contains(m) == b.contains(m)) by {
        if let Some(m) = items[i].1.modifier {
            assert(c.uses_modifier(m));
            assert(a.contains(m) == b.contains(m));
        }
    }
    lemma_firing_by_modifiers(items, code, a, b, true);
    lemma_firing_by_modifiers(items, code, a, b, false);
    if let Some(m) = c.toggle_previews_modifier {
        assert(a.contains(m) == b.contains(m));
    }
    if let Some(m) = c.modifier_key {
        assert(a.contains(m) == b.contains(m));
    }
}

/// A press is remembered with its value; the keys before it keep theirs, and
/// a key that was there already is not remembered twice.
pub proof fn law_press_is_remembered(keys: Seq<(u16, i32)>, code: u16, value: i32)
    ensures
        with_press(keys, code, value).contains((code, value)),
        keys.len() <= with_press(keys, code, value).len() <= keys.len() + 1,
        forall|k: int|
            0 <= k < keys.len() ==> (#[trigger] with_press(keys, code, value)[k]).0 == keys[k].0,
        forall|k: int|
            0 <= k < keys.len() && keys[k].0 != code ==> #[trigger] with_press(
                keys,
                code,
                value,
            )[k] == keys[k],
        (exists|k: int| 0 <= k < keys.len() && (#[trigger] keys[k]).0 == code) == (with_press(
            keys,
            code,
            value,
        ).len() == keys.len()),
    decreases keys.len(),
{
    let r = with_press(keys, code, value);
    if keys.len() == 0 {
        assert(r[0] == (code, value));
    } else if keys[0].0 == code {
        assert(r[0] == (code, value));
    } else {
        let rest = keys.skip(1);
        law_press_is_remembered(rest, code, value);
        let w = with_press(rest, code, value);
        let at = choose|at: int| 0 <= at < w.len() && w[at] == (code, value);
        assert(r[at + 1] == (code, value));
        assert forall|k: int| 0 <= k < keys.len() implies (#[trigger] r[k]).0 == keys[k].0 && (
        keys[k].0 != code ==> r[k] == keys[k]) by {
            if k > 0 {
                assert(r[k] == w[k - 1]);
                assert(rest[k - 1] == keys[k]);
            }
        }
        if exists|k: int| 0 <= k < keys.len() && (#[trigger] keys[k]).0 == code {
            let k = choose|k: int| 0 <= k < keys.len() && (#[trigger] keys[k]).0 == code;
            assert(rest[k - 1].0 == code);
        }
        if exists|k: int| 0 <= k < rest.len() && (#[trigger] rest[k]).0 == code {
            let k = choose|k: int| 0 <= k < rest.len() && (#[trigger] rest[k]).0 == code;
            assert(keys[k + 1].0 == code);
        }
    }
}

/// Two configurations are the same where nothing differs, and a difference in
/// any setting is noticed.
pub proof fn law_every_keyboard_setting_counts(a: KeyboardConfig, b: KeyboardConfig)
    ensures
        a.same(&a),
        a.same(&b) ==> b.same(&a),
        a.enable != b.enable || a.forward_key != b.forward_key || a.backward_key != b.backward_key
            || a.modifier_key != b.modifier_key || a.minimize_inactive != b.minimize_inactive
            ==> !a.same(&b),
        a.toggle_previews_key != b.toggle_previews_key || a.toggle_previews_modifier
            != b.toggle_previews_modifier ==> !a.same(&b),
        a.character_hotkeys@ != b.character_hotkeys@ ==> !a.same(&b),
        text::opt_view(a.keyboard_device_name) != text::opt_view(b.keyboard_device_name)
            ==> !a.same(&b),
        text::opt_view(a.keyboard_device_path) != text::opt_view(b.keyboard_device_path)
            ==> !a.same(&b),
        a == b ==> a.same(&b),
{
}

/// A round begins without pressed keys, and with those held modifiers that
/// some binding uses.
pub proof fn law_round_begins_with_the_held_modifiers(
    before: KeyboardListener,
    c: KeyboardConfig,
    after: KeyboardListener,
    code: u16,
)
    requires
        before.ready_for_round(&c, &after),
    ensures
        after.pressed_keys@.len() == 0,
        after.announced_listening,
        after.pressed_modifiers@.contains(code) ==> before.pressed_modifiers@.contains(code),
        before.pressed_modifiers@.contains(code) && c.modifier_key == Some(code)
            ==> after.pressed_modifiers@.contains(code),
        before.pressed_modifiers@.contains(code) && c.toggle_previews_modifier == Some(code)
            ==> after.pressed_modifiers@.contains(code),
        before.pressed_modifiers@.contains(code) && !c.uses_modifier(code)
            ==> !after.pressed_modifiers@.contains(code),
{
}

} // verus!
