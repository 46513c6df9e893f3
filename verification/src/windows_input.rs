//! The Windows input listener: which hotkeys are registered, and what its
//! messages ask for.
use vstd::prelude::*;
use crate::config::{Config, Hotkey, TriggerKind};
use crate::config;
use crate::name_map;
use crate::name_map::NameMap;
use crate::text;
use crate::windows_helpers;
use crate::windows_helpers::{CharacterHotkeyPlan, CycleDirection, CycleHotkeyPlan, ModifierKind};

verus! {

pub const HOTKEY_FORWARD_ID: i32 = 1001;

pub const HOTKEY_BACKWARD_ID: i32 = 1002;

/// The hotkey that shows or hides the previews.
pub const HOTKEY_TOGGLE_PREVIEWS_ID: i32 = 1003;

/// Per-character hotkeys count up from here, apart from the others.
pub const HOTKEY_CHARACTER_BASE: i32 = 2000;

/// The bindings of a configuration, each as a chord.
#[derive(Debug)]
pub struct Bindings {
    pub forward: Hotkey,
    pub backward: Hotkey,
    pub toggle: Hotkey,
    pub characters: NameMap<Hotkey>,
}

/// `hk` is the key `code` with `modifier` held, where there is one.
pub open spec fn is_key_chord(hk: Hotkey, code: u16, modifier: Option<u16>) -> bool {
    &&& hk.kind == TriggerKind::Key
    &&& hk.code == code
    &&& hk.mods@ == (match modifier {
        Some(m) => seq![m],
        None => Seq::empty(),
    })
}

fn key_chord(code: u16, modifier: Option<u16>) -> (r: Hotkey)
    ensures
        is_key_chord(r, code, modifier),
{
    let mut mods: Vec<u16> = Vec::new();
    if let Some(m) = modifier {
        mods.push(m);
    }
    Hotkey { mods, kind: TriggerKind::Key, code }
}

/// Every character's binding as a chord.
pub open spec fn are_chords(
    chords: Seq<(Seq<char>, Hotkey)>,
    hotkeys: Seq<(Seq<char>, config::CharacterHotkey)>,
) -> bool {
    &&& chords.len() == hotkeys.len()
    &&& forall|i: int|
        0 <= i < chords.len() ==> (#[trigger] chords[i]).0 == hotkeys[i].0 && is_key_chord(
            chords[i].1,
            hotkeys[i].1.vk,
            hotkeys[i].1.modifier,
        )
}

/// The bindings of a configuration. The modifier goes with the backward key;
/// an unbound toggle has code 0.
pub fn bindings_of(c: &Config) -> (r: Bindings)
    ensures
        is_key_chord(r.forward, c.forward_key, None),
        is_key_chord(r.backward, c.backward_key, c.modifier_key),
        match c.toggle_previews_key {
            Some(k) => is_key_chord(r.toggle, k, c.toggle_previews_modifier),
            None => is_key_chord(r.toggle, 0, None),
        },
        are_chords(r.characters.items(), c.character_hotkeys.items()),
{
    let toggle: Hotkey = match c.toggle_previews_key {
        Some(k) => key_chord(k, c.toggle_previews_modifier),
        None => key_chord(0, None),
    };
    let mut characters: NameMap<Hotkey> = NameMap::new();
    let ghost hotkeys = c.character_hotkeys.items();
    let n: usize = c.character_hotkeys.len();
    let mut i: usize = 0;
    while i < n
        invariant
            i <= n == hotkeys.len(),
            hotkeys == c.character_hotkeys.items(),
            name_map::distinct_names(hotkeys),
            are_chords(characters.items(), hotkeys.take(i as int)),
        decreases hotkeys.len() - i,
    {
        let hk: config::CharacterHotkey = *c.character_hotkeys.value_at(i);
        let name: String = c.character_hotkeys.name_at(i).clone();
        let ghost before = characters.items();
        assert(!name_map::has_name(before, name@)) by {
            if name_map::has_name(before, name@) {
                let k = name_map::index_of_name(before, name@);
                assert(before[k].0 == hotkeys.take(i as int)[k].0);
                assert(hotkeys[k].0 == hotkeys[i as int].0);
            }
        }
        characters.insert(name, key_chord(hk.vk, hk.modifier));
        assert(hotkeys.take(i + 1) == hotkeys.take(i as int).push(hotkeys[i as int]));
        i = i + 1;
    }
    assert(hotkeys.take(i as int) == hotkeys);
    Bindings {
        forward: key_chord(c.forward_key, None),
        backward: key_chord(c.backward_key, c.modifier_key),
        toggle,
        characters,
    }
}

/// A hotkey to register with the system.
#[derive(Debug)]
pub struct Registration {
    pub id: i32,
    pub modifiers: Vec<ModifierKind>,
    pub vk: u16,
    /// The character that it jumps to, for a per-character hotkey.
    pub character: Option<String>,
}

/// What is registered: identifier, modifiers, key and character.
pub open spec fn registration_view(r: Registration) -> (
    int,
    Seq<ModifierKind>,
    u16,
    Option<Seq<char>>,
) {
    (
        r.id as int,
        r.modifiers@,
        r.vk,
        match r.character {
            Some(n) => Some(n@),
            None => None,
        },
    )
}

pub open spec fn registration_views(rs: Seq<Registration>) -> Seq<
    (int, Seq<ModifierKind>, u16, Option<Seq<char>>),
> {
    Seq::new(rs.len(), |i: int| registration_view(rs[i]))
}

/// A registration that belongs to no character.
pub open spec fn general(p: (i32, Seq<ModifierKind>, u16)) -> (
    int,
    Seq<ModifierKind>,
    u16,
    Option<Seq<char>>,
) {
    (p.0 as int, p.1, p.2, None)
}

pub open spec fn all_general(ps: Seq<(i32, Seq<ModifierKind>, u16)>) -> Seq<
    (int, Seq<ModifierKind>, u16, Option<Seq<char>>),
> {
    Seq::new(ps.len(), |i: int| general(ps[i]))
}

/// The registration of a character's plan.
pub open spec fn of_character(p: (int, Seq<char>, Seq<ModifierKind>, u16)) -> (
    int,
    Seq<ModifierKind>,
    u16,
    Option<Seq<char>>,
) {
    (p.0, p.2, p.3, Some(p.1))
}

pub open spec fn all_of_characters(ps: Seq<(int, Seq<char>, Seq<ModifierKind>, u16)>) -> Seq<
    (int, Seq<ModifierKind>, u16, Option<Seq<char>>),
> {
    Seq::new(ps.len(), |i: int| of_character(ps[i]))
}

/// What is registered for bindings and a list of characters.
pub open spec fn registered(enable: bool, b: Bindings, characters: Seq<Seq<char>>) -> Seq<
    (int, Seq<ModifierKind>, u16, Option<Seq<char>>),
> {
    all_general(
        if enable {
            windows_helpers::cycle_plan_of(b.forward, HOTKEY_FORWARD_ID)
                + windows_helpers::cycle_plan_of(b.backward, HOTKEY_BACKWARD_ID)
        } else {
            Seq::empty()
        },
    ) + all_general(windows_helpers::cycle_plan_of(b.toggle, HOTKEY_TOGGLE_PREVIEWS_ID))
        + all_of_characters(
        windows_helpers::character_plans(characters, b.characters@, HOTKEY_CHARACTER_BASE as int),
    )
}

/// The cycle hotkeys where cycling by keys is on, the toggle, and the
/// characters' hotkeys.
pub fn registrations(enable: bool, b: &Bindings, characters: &Vec<String>) -> (r: Vec<Registration>)
    requires
        HOTKEY_CHARACTER_BASE + characters@.len() <= i32::MAX,
    ensures
        registration_views(r@) == registered(enable, *b, text::views(characters@)),
{
    let mut out: Vec<Registration> = Vec::new();
    let mut cycle: Vec<CycleHotkeyPlan> = windows_helpers::plan_cycle_hotkeys(
        enable,
        &b.forward,
        &b.backward,
        HOTKEY_FORWARD_ID,
        HOTKEY_BACKWARD_ID,
    );
    let toggle: Vec<CycleHotkeyPlan> = windows_helpers::plan_cycle_hotkeys(
        true,
        &b.toggle,
        &Hotkey::key(0),
        HOTKEY_TOGGLE_PREVIEWS_ID,
        0,
    );
    let ghost first = windows_helpers::cycle_plan_views(cycle@);
    let ghost second = windows_helpers::cycle_plan_of(b.toggle, HOTKEY_TOGGLE_PREVIEWS_ID);
    assert(windows_helpers::cycle_plan_views(toggle@) =~= second);
    push_general(&mut out, &cycle);
    push_general(&mut out, &toggle);
    assert(registration_views(out@) =~= all_general(first) + all_general(second));
    let plans: Vec<CharacterHotkeyPlan> = windows_helpers::plan_character_hotkeys(
        characters,
        &b.characters,
        HOTKEY_CHARACTER_BASE,
    );
    let ghost third = windows_helpers::character_plan_views(plans@);
    let ghost before = registration_views(out@);
    let mut i: usize = 0;
    while i < plans.len()
        invariant
            i <= plans.len(),
            third == windows_helpers::character_plan_views(plans@),
            registration_views(out@) == before + all_of_characters(third).take(i as int),
        decreases plans.len() - i,
    {
        let p: &CharacterHotkeyPlan = &plans[i];
        let ghost so_far = registration_views(out@);
        out.push(
            Registration {
                id: p.id,
                modifiers: p.modifiers.clone(),
                vk: p.vk,
                character: Some(p.character_name.clone()),
            },
        );
        assert(registration_views(out@) == so_far.push(registration_view(out@.last())));
        assert(out@.last().modifiers@ == p.modifiers@);
        assert(all_of_characters(third).take(i + 1) == all_of_characters(third).take(
            i as int,
        ).push(registration_view(out@.last())));
        i = i + 1;
    }
    assert(all_of_characters(third).take(i as int) == all_of_characters(third));
    out
}

fn push_general(out: &mut Vec<Registration>, plans: &Vec<CycleHotkeyPlan>)
    ensures
        registration_views(final(out)@) == registration_views(old(out)@) + all_general(
            windows_helpers::cycle_plan_views(plans@),
        ),
{
    let ghost before = registration_views(out@);
    let ghost all = all_general(windows_helpers::cycle_plan_views(plans@));
    let mut i: usize = 0;
    while i < plans.len()
        invariant
            i <= plans.len(),
            all == all_general(windows_helpers::cycle_plan_views(plans@)),
            registration_views(out@) == before + all.take(i as int),
        decreases plans.len() - i,
    {
        let p: &CycleHotkeyPlan = &plans[i];
        let ghost so_far = registration_views(out@);
        out.push(
            Registration {
                id: p.id,
                modifiers: p.modifiers.clone(),
                vk: p.vk,
                character: None,
            },
        );
        assert(out@.last().modifiers@ == p.modifiers@);
        assert(registration_views(out@) == so_far.push(registration_view(out@.last())));
        assert(all.take(i + 1) == all.take(i as int).push(registration_view(out@.last())));
        i = i + 1;
    }
    assert(all.take(i as int) == all);
}

/// The bit that stands for a modifier in the system's mask.
pub open spec fn modifier_bit(k: ModifierKind) -> u32 {
    match k {
        ModifierKind::Alt => 1,
        ModifierKind::Ctrl => 2,
        ModifierKind::Shift => 4,
        ModifierKind::Win => 8,
    }
}

/// The mask of a list of modifiers.
pub open spec fn modifier_mask(kinds: Seq<ModifierKind>) -> u32
    decreases kinds.len(),
{
    if kinds.len() == 0 {
        0
    } else {
        modifier_mask(kinds.drop_last()) | modifier_bit(kinds.last())
    }
}

pub fn modifier_to_winapi(kinds: &Vec<ModifierKind>) -> (r: u32)
    ensures
        r == modifier_mask(kinds@),
{
    let mut bits: u32 = 0;
    let mut i: usize = 0;
    while i < kinds.len()
        invariant
            i <= kinds.len(),
            bits == modifier_mask(kinds@.take(i as int)),
        decreases kinds.len() - i,
    {
        assert(kinds@.take(i + 1).drop_last() == kinds@.take(i as int));
        assert(kinds@.take(i + 1).last() == kinds@[i as int]);
        let bit: u32 = match kinds[i] {
            ModifierKind::Alt => 1,
            ModifierKind::Ctrl => 2,
            ModifierKind::Shift => 4,
            ModifierKind::Win => 8,
        };
        bits = bits | bit;
        i = i + 1;
    }
    assert(kinds@.take(i as int) == kinds@);
    bits
}

/// What the mouse hook goes by: whether side buttons cycle, and which.
#[derive(Debug, Clone, Copy, PartialEq, Eq, Structural)]
pub struct HookContext {
    pub enabled: bool,
    pub forward_button: u16,
    pub backward_button: u16,
}

/// The side button that a hook event names: the upper half of its data.
pub open spec fn xbutton_of(mouse_data: u32) -> u16 {
    (mouse_data / 0x1_0000) as u16
}

impl HookContext {
    /// Switches cycling by side buttons on or off.
    pub fn set_mouse_cycle_enabled(&mut self, enabled: bool)
        ensures
            *final(self) == (HookContext { enabled, ..*old(self) }),
    {
        self.enabled = enabled;
    }

    /// The step that a press of a side button asks for.
    pub fn on_xbutton(&self, mouse_data: u32) -> (r: Option<CycleDirection>)
        ensures
            r == (if !self.enabled {
                None
            } else if xbutton_of(mouse_data) == self.forward_button {
                Some(CycleDirection::Forward)
            } else if xbutton_of(mouse_data) == self.backward_button {
                Some(CycleDirection::Backward)
            } else {
                None
            }),
    {
        if !self.enabled {
            return None;
        }
        let xbutton: u16 = (mouse_data / 0x1_0000) as u16;
        windows_helpers::classify_xbutton(xbutton, self.forward_button, self.backward_button)
    }
}

/// A message to the listener.
#[derive(Debug, Clone, Copy, PartialEq, Eq, Structural)]
pub enum ListenerMessage {
    /// Keys are being bound: let go of the hotkeys.
    Pause,
    /// Binding is over: take up the hotkeys again.
    Resume,
    /// The mouse hook asks for a step.
    Step(CycleDirection),
    /// A registered hotkey was pressed.
    Hotkey(i32),
    Other,
}

/// What the listener is to do.
#[derive(Debug, Clone, Copy, PartialEq, Eq, Structural)]
pub enum ListenerAction {
    Nothing,
    /// Unregister every hotkey.
    Unregister,
    /// Unregister every hotkey and register those of the current
    /// configuration.
    Rebind,
    Cycle(CycleDirection),
    TogglePreviews,
    /// Jump to the character that the identifier stands for, if any.
    SwitchTo(i32),
}

/// What a message asks for, and whether the listener is paused after it.
/// While it is paused, only pausing and resuming count.
pub open spec fn listener_step(paused: bool, m: ListenerMessage) -> (bool, ListenerAction) {
    match m {
        ListenerMessage::Pause => (true, ListenerAction::Unregister),
        ListenerMessage::Resume => (false, ListenerAction::Rebind),
        ListenerMessage::Step(d) => if paused {
            (true, ListenerAction::Nothing)
        } else {
            (false, ListenerAction::Cycle(d))
        },
        ListenerMessage::Hotkey(id) => if paused {
            (true, ListenerAction::Nothing)
        } else if id == HOTKEY_FORWARD_ID {
            (false, ListenerAction::Cycle(CycleDirection::Forward))
        } else if id == HOTKEY_BACKWARD_ID {
            (false, ListenerAction::Cycle(CycleDirection::Backward))
        } else if id == HOTKEY_TOGGLE_PREVIEWS_ID {
            (false, ListenerAction::TogglePreviews)
        } else if id >= HOTKEY_CHARACTER_BASE {
            (false, ListenerAction::SwitchTo(id))
        } else {
            (false, ListenerAction::Nothing)
        },
        ListenerMessage::Other => (paused, ListenerAction::Nothing),
    }
}

/// Whether the listener is paused.
#[derive(Debug, Clone, Copy, PartialEq, Eq, Structural)]
pub struct Listener {
    pub paused: bool,
}

impl Listener {
    pub fn on_message(&mut self, m: ListenerMessage) -> (r: ListenerAction)
        ensures
            (final(self).paused, r) == listener_step(old(self).paused, m),
    {
        match m {
            ListenerMessage::Pause => {
                self.paused = true;
                ListenerAction::Unregister
            },
            ListenerMessage::Resume => {
                self.paused = false;
                ListenerAction::Rebind
            },
            ListenerMessage::Step(d) => if self.paused {
                ListenerAction::Nothing
            } else {
                ListenerAction::Cycle(d)
            },
            ListenerMessage::Hotkey(id) => if self.paused {
                ListenerAction::Nothing
            } else if id == HOTKEY_FORWARD_ID {
                ListenerAction::Cycle(CycleDirection::Forward)
            } else if id == HOTKEY_BACKWARD_ID {
                ListenerAction::Cycle(CycleDirection::Backward)
            } else if id == HOTKEY_TOGGLE_PREVIEWS_ID {
                ListenerAction::TogglePreviews
            } else if id >= HOTKEY_CHARACTER_BASE {
                ListenerAction::SwitchTo(id)
            } else {
                ListenerAction::Nothing
            },
            ListenerMessage::Other => ListenerAction::Nothing,
        }
    }
}

/// A paused listener neither cycles, nor toggles, nor switches.
pub proof fn law_paused_listener_is_quiet(m: ListenerMessage)
    ensures
        ({
            let action = listener_step(true, m).1;
            action is Nothing || action is Unregister || action is Rebind
        }),
{
}

/// The character that the hotkey with this identifier was registered for.
pub open spec fn character_registered(
    rs: Seq<(int, Seq<ModifierKind>, u16, Option<Seq<char>>)>,
    id: int,
) -> Option<Seq<char>>
    decreases rs.len(),
{
    if rs.len() == 0 {
        None
    } else if rs[0].0 == id && rs[0].3 is Some {
        rs[0].3
    } else {
        character_registered(rs.skip(1), id)
    }
}

pub fn character_for(rs: &Vec<Registration>, id: i32) -> (r: Option<String>)
    ensures
        (match r {
            Some(n) => Some(n@),
            None => None,
        }) == character_registered(registration_views(rs@), id as int),
{
    let ghost all = registration_views(rs@);
    let mut i: usize = 0;
    assert(all.skip(0) == all);
    while i < rs.len()
        invariant
            i <= rs.len(),
            all == registration_views(rs@),
            character_registered(all, id as int) == character_registered(
                all.skip(i as int),
                id as int,
            ),
        decreases rs.len() - i,
    {
        assert(all.skip(i as int)[0] == registration_view(rs@[i as int]));
        assert(all.skip(i as int).skip(1) == all.skip(i + 1));
        if rs[i].id == id {
            if let Some(n) = &rs[i].character {
                return Some(n.clone());
            }
        }
        i = i + 1;
    }
    None
}

// ---------------------------------------------------------------------
// What the hotkeys are for
// ---------------------------------------------------------------------

/// A hotkey does what it was registered for. With cycling by keys on, the
/// forward binding is registered, and its identifier asks for a step forward;
/// the backward binding's asks for a step backward and the toggle's for the
/// toggle. Each is registered with its own key and its own modifiers.
pub proof fn law_hotkey_does_what_it_was_registered_for(
    enable: bool,
    b: Bindings,
    characters: Seq<Seq<char>>,
)
    ensures
        enable && b.forward.kind == TriggerKind::Key && b.forward.code != 0 ==> exists|k: int|
            0 <= k < registered(enable, b, characters).len() && ({
                let r = #[trigger] registered(enable, b, characters)[k];
                &&& r.1 == windows_helpers::kinds_of(b.forward.mods@)
                &&& r.2 == b.forward.code
                &&& r.3 is None
                &&& listener_step(false, ListenerMessage::Hotkey(r.0 as i32)) == (
                    false,
                    ListenerAction::Cycle(CycleDirection::Forward),
                )
            }),
        enable && b.backward.kind == TriggerKind::Key && b.backward.code != 0 ==> exists|k: int|
            0 <= k < registered(enable, b, characters).len() && ({
                let r = #[trigger] registered(enable, b, characters)[k];
                &&& r.1 == windows_helpers::kinds_of(b.backward.mods@)
                &&& r.2 == b.backward.code
                &&& r.3 is None
                &&& listener_step(false, ListenerMessage::Hotkey(r.0 as i32)) == (
                    false,
                    ListenerAction::Cycle(CycleDirection::Backward),
                )
            }),
        b.toggle.kind == TriggerKind::Key && b.toggle.code != 0 ==> exists|k: int|
            0 <= k < registered(enable, b, characters).len() && ({
                let r = #[trigger] registered(enable, b, characters)[k];
                &&& r.1 == windows_helpers::kinds_of(b.toggle.mods@)
                &&& r.2 == b.toggle.code
                &&& r.3 is None
                &&& listener_step(false, ListenerMessage::Hotkey(r.0 as i32)) == (
                    false,
                    ListenerAction::TogglePreviews,
                )
            }),
{
    let rs = registered(enable, b, characters);
    let f = windows_helpers::cycle_plan_of(b.forward, HOTKEY_FORWARD_ID);
    let g = windows_helpers::cycle_plan_of(b.backward, HOTKEY_BACKWARD_ID);
    let t = windows_helpers::cycle_plan_of(b.toggle, HOTKEY_TOGGLE_PREVIEWS_ID);
    let cycle = if enable {
        f + g
    } else {
        Seq::empty()
    };
    if enable && f.len() == 1 {
        assert(cycle[0] == f[0]);
        assert(rs[0] == general(f[0]));
    }
    if enable && g.len() == 1 {
        assert(cycle[f.len() as int] == g[0]);
        assert(rs[f.len() as int] == general(g[0]));
    }
    if t.len() == 1 {
        assert(rs[cycle.len() as int] == general(t[0]));
    }
}

/// Nothing else is registered: every hotkey of no character asks for what its
/// own binding is for.
pub proof fn law_registered_hotkey_is_a_binding(
    enable: bool,
    b: Bindings,
    characters: Seq<Seq<char>>,
    k: int,
)
    requires
        0 <= k < registered(enable, b, characters).len(),
        registered(enable, b, characters)[k].3 is None,
    ensures
        ({
            let r = registered(enable, b, characters)[k];
            match listener_step(false, ListenerMessage::Hotkey(r.0 as i32)).1 {
                ListenerAction::Cycle(CycleDirection::Forward) => enable && b.forward.kind
                    == TriggerKind::Key && r.2 == b.forward.code && r.2 != 0,
                ListenerAction::Cycle(CycleDirection::Backward) => enable && b.backward.kind
                    == TriggerKind::Key && r.2 == b.backward.code && r.2 != 0,
                ListenerAction::TogglePreviews => b.toggle.kind == TriggerKind::Key && r.2
                    == b.toggle.code && r.2 != 0,
                _ => false,
            }
        }),
{
    let rs = registered(enable, b, characters);
    let f = windows_helpers::cycle_plan_of(b.forward, HOTKEY_FORWARD_ID);
    let g = windows_helpers::cycle_plan_of(b.backward, HOTKEY_BACKWARD_ID);
    let t = windows_helpers::cycle_plan_of(b.toggle, HOTKEY_TOGGLE_PREVIEWS_ID);
    let cycle = if enable {
        f + g
    } else {
        Seq::empty()
    };
    if k < cycle.len() {
        assert(rs[k] == general(cycle[k]));
    } else if k < cycle.len() + t.len() {
        assert(rs[k] == general(t[k - cycle.len()]));
    }
}

/// A listed character's key is registered, its identifier asks for the switch,
/// and the switch goes to that character.
pub proof fn law_character_hotkey_switches_to_it(
    enable: bool,
    b: Bindings,
    characters: Seq<Seq<char>>,
    j: int,
) -> (k: int)
    requires
        HOTKEY_CHARACTER_BASE + characters.len() <= i32::MAX,
        0 <= j < characters.len(),
        b.characters@.contains_key(characters[j]),
        b.characters@[characters[j]].kind == TriggerKind::Key,
        b.characters@[characters[j]].code != 0,
    ensures
        0 <= k < registered(enable, b, characters).len(),
        ({
            let r = registered(enable, b, characters)[k];
            &&& r.1 == windows_helpers::kinds_of(b.characters@[characters[j]].mods@)
            &&& r.2 == b.characters@[characters[j]].code
            &&& r.3 == Some(characters[j])
            &&& listener_step(false, ListenerMessage::Hotkey(r.0 as i32)) == (
                false,
                ListenerAction::SwitchTo(r.0 as i32),
            )
            &&& character_registered(registered(enable, b, characters), r.0) == Some(characters[j])
        }),
{
    let rs = registered(enable, b, characters);
    let f = windows_helpers::cycle_plan_of(b.forward, HOTKEY_FORWARD_ID);
    let g = windows_helpers::cycle_plan_of(b.backward, HOTKEY_BACKWARD_ID);
    let t = windows_helpers::cycle_plan_of(b.toggle, HOTKEY_TOGGLE_PREVIEWS_ID);
    let cycle = if enable {
        f + g
    } else {
        Seq::empty()
    };
    let plans = windows_helpers::character_plans(
        characters,
        b.characters@,
        HOTKEY_CHARACTER_BASE as int,
    );
    let p = windows_helpers::law_bound_character_is_registered(
        characters,
        b.characters@,
        HOTKEY_CHARACTER_BASE as int,
        j,
    );
    windows_helpers::law_plan_ids_are_dense(
        characters,
        b.characters@,
        HOTKEY_CHARACTER_BASE as int,
        p,
    );
    windows_helpers::law_registered_character_is_bound(
        characters,
        b.characters@,
        HOTKEY_CHARACTER_BASE as int,
        p,
    );
    let n = cycle.len() + t.len();
    let k = n + p;
    assert(rs[k] == of_character(plans[p]));
    assert forall|i: int| 0 <= i < k implies !((#[trigger] rs[i]).0 == rs[k].0 && rs[i].3 is Some) by {
        if i < cycle.len() {
            assert(rs[i] == general(cycle[i]));
        } else if i < n {
            assert(rs[i] == general(t[i - cycle.len()]));
        } else {
            assert(rs[i] == of_character(plans[i - n]));
            windows_helpers::law_plan_ids_are_dense(
                characters,
                b.characters@,
                HOTKEY_CHARACTER_BASE as int,
                i - n,
            );
        }
    }
    lemma_registered_is_first(rs, rs[k].0, k);
    k
}

proof fn lemma_registered_is_first(
    rs: Seq<(int, Seq<ModifierKind>, u16, Option<Seq<char>>)>,
    id: int,
    k: int,
)
    requires
        0 <= k < rs.len(),
        rs[k].0 == id,
        rs[k].3 is Some,
        forall|i: int| 0 <= i < k ==> !((#[trigger] rs[i]).0 == id && rs[i].3 is Some),
    ensures
        character_registered(rs, id) == rs[k].3,
    decreases k,
{
    if k > 0 {
        assert(!(rs[0].0 == id && rs[0].3 is Some));
        let rest = rs.skip(1);
        assert(rest[k - 1] == rs[k]);
        assert forall|i: int| 0 <= i < k - 1 implies !((#[trigger] rest[i]).0 == id
            && rest[i].3 is Some) by {
            assert(rest[i] == rs[i + 1]);
        }
        lemma_registered_is_first(rest, id, k - 1);
    }
}

/// The hook's step is carried out in its own direction, and pausing and
/// resuming let go of the hotkeys and take them up again.
pub proof fn law_messages_ask_for_what_they_say(paused: bool, d: CycleDirection)
    ensures
        listener_step(false, ListenerMessage::Step(d)) == (false, ListenerAction::Cycle(d)),
        listener_step(paused, ListenerMessage::Pause) == (true, ListenerAction::Unregister),
        listener_step(paused, ListenerMessage::Resume) == (false, ListenerAction::Rebind),
        listener_step(paused, ListenerMessage::Other) == (paused, ListenerAction::Nothing),
        listener_step(true, ListenerMessage::Step(d)).0,
{
}

/// The bindings of a configuration fire on its keys: a chord made of a key and
/// a modifier fires while exactly that modifier is held, one of a key alone
/// while none is.
pub proof fn law_key_chord_fires_with_its_modifier(
    hk: Hotkey,
    code: u16,
    modifier: Option<u16>,
    kind: TriggerKind,
    pressed: u16,
    held: Set<u16>,
)
    requires
        is_key_chord(hk, code, modifier),
    ensures
        hk.fires(kind, pressed, held) == (kind == TriggerKind::Key && pressed == code && held == (
        match modifier {
            Some(m) => Set::<u16>::empty().insert(m),
            None => Set::<u16>::empty(),
        })),
{
    config::law_binding_fires_on_its_own_chord(hk, kind, pressed, held);
    let want = match modifier {
        Some(m) => Set::<u16>::empty().insert(m),
        None => Set::<u16>::empty(),
    };
    assert(hk.mods@.to_set() =~= want) by {
        assert forall|m: u16| hk.mods@.to_set().contains(m) == want.contains(m) by {
            if let Some(x) = modifier {
                assert(hk.mods@[0] == x);
            }
        }
    }
}

/// Each character's chord is that character's own binding.
pub proof fn law_chords_are_the_characters_own(
    chords: Seq<(Seq<char>, Hotkey)>,
    hotkeys: Seq<(Seq<char>, config::CharacterHotkey)>,
    i: int,
)
    requires
        are_chords(chords, hotkeys),
        0 <= i < hotkeys.len(),
    ensures
        chords.len() == hotkeys.len(),
        chords[i].0 == hotkeys[i].0,
        chords[i].1.kind == TriggerKind::Key,
        chords[i].1.code == hotkeys[i].1.vk,
        hotkeys[i].1.modifier is None ==> chords[i].1.mods@.len() == 0,
        hotkeys[i].1.modifier matches Some(m) ==> chords[i].1.mods@ == seq![m],
{
}

/// Each modifier has its own bit in the mask: it is set exactly where the
/// modifier is in the list. The system's bits are 1 for Alt, 2 for Ctrl, 4 for
/// Shift and 8 for the Windows key.
pub proof fn law_mask_holds_the_modifiers(kinds: Seq<ModifierKind>)
    ensures
        (modifier_mask(kinds) & 1 == 1) == kinds.contains(ModifierKind::Alt),
        (modifier_mask(kinds) & 2 == 2) == kinds.contains(ModifierKind::Ctrl),
        (modifier_mask(kinds) & 4 == 4) == kinds.contains(ModifierKind::Shift),
        (modifier_mask(kinds) & 8 == 8) == kinds.contains(ModifierKind::Win),
        modifier_mask(kinds) < 16,
    decreases kinds.len(),
{
    if kinds.len() == 0 {
        assert(0u32 & 1 == 0 && 0u32 & 2 == 0 && 0u32 & 4 == 0 && 0u32 & 8 == 0) by (bit_vector);
    } else {
        let front = kinds.drop_last();
        law_mask_holds_the_modifiers(front);
        let m = modifier_mask(front);
        let b = modifier_bit(kinds.last());
        assert(kinds == front.push(kinds.last()));
        assert forall|k: ModifierKind| kinds.contains(k) == (front.contains(k) || k
            == kinds.last()) by {
            if front.contains(k) {
                let i = choose|i: int| 0 <= i < front.len() && front[i] == k;
                assert(kinds[i] == k);
            }
            if k == kinds.last() {
                assert(kinds[kinds.len() - 1] == k);
            }
            if kinds.contains(k) && k != kinds.last() {
                let i = choose|i: int| 0 <= i < kinds.len() && kinds[i] == k;
                assert(front[i] == k);
            }
        }
        assert(((m | b) & 1 == 1) == (m & 1 == 1 || b == 1) && ((m | b) & 2 == 2) == (m & 2 == 2
            || b == 2) && ((m | b) & 4 == 4) == (m & 4 == 4 || b == 4) && ((m | b) & 8 == 8) == (m
            & 8 == 8 || b == 8) && (m | b) < 16) by (bit_vector)
            requires
                b == 1 || b == 2 || b == 4 || b == 8,
                m < 16u32,
        ;
    }
}

/// The upper half of the event's data names the side button.
pub proof fn law_upper_half_names_the_button(button: u16, low: u16)
    ensures
        xbutton_of((button * 0x1_0000 + low) as u32) == button,
{
}

} // verus!
