//! Hotkey planning and mouse dispatch for the Windows listener, as plain
//! functions of codes and bindings.
use vstd::prelude::*;
use std::collections::HashSet;
use crate::config::{Hotkey, TriggerKind};
use crate::name_map::NameMap;
use crate::text;

verus! {

/// Direction of a cycle action.
#[derive(Debug, Clone, Copy, PartialEq, Eq, Structural)]
pub enum CycleDirection {
    Forward,
    Backward,
}

/// The keyboard modifiers that a global hotkey can be qualified by.
#[derive(Debug, Clone, Copy, PartialEq, Eq, Structural)]
pub enum ModifierKind {
    Shift,
    Ctrl,
    Alt,
    Win,
}

/// The modifier that a virtual-key code stands for: either the unified code
/// or that of the left or the right key.
pub open spec fn modifier_of(vk: u16) -> Option<ModifierKind> {
    if vk == 0x10 || vk == 0xA0 || vk == 0xA1 {
        Some(ModifierKind::Shift)
    } else if vk == 0x11 || vk == 0xA2 || vk == 0xA3 {
        Some(ModifierKind::Ctrl)
    } else if vk == 0x12 || vk == 0xA4 || vk == 0xA5 {
        Some(ModifierKind::Alt)
    } else if vk == 0x5B || vk == 0x5C {
        Some(ModifierKind::Win)
    } else {
        None
    }
}

pub fn modifier_kind(vk: u16) -> (r: Option<ModifierKind>)
    ensures
        r == modifier_of(vk),
{
    match vk {
        0x10 | 0xA0 | 0xA1 => Some(ModifierKind::Shift),
        0x11 | 0xA2 | 0xA3 => Some(ModifierKind::Ctrl),
        0x12 | 0xA4 | 0xA5 => Some(ModifierKind::Alt),
        0x5B | 0x5C => Some(ModifierKind::Win),
        _ => None,
    }
}

/// The direction that a mouse side button is bound to, if any. Where both
/// directions are bound to it, it is forward.
pub fn classify_xbutton(xbutton: u16, forward_button: u16, backward_button: u16) -> (r: Option<
    CycleDirection,
>)
    ensures
        r == (if xbutton == forward_button {
            Some(CycleDirection::Forward)
        } else if xbutton == backward_button {
            Some(CycleDirection::Backward)
        } else {
            None
        }),
{
    if xbutton == forward_button {
        Some(CycleDirection::Forward)
    } else if xbutton == backward_button {
        Some(CycleDirection::Backward)
    } else {
        None
    }
}

/// Whether to attach another thread's input queue to ours: not an unknown
/// thread's, not our own, and none of `exclude`.
pub fn should_attach_thread_input(thread: u32, current: u32, exclude: &[u32]) -> (r: bool)
    ensures
        r == (thread != 0 && thread != current && !exclude@.contains(thread)),
{
    if thread == 0 || thread == current {
        return false;
    }
    let mut i: usize = 0;
    while i < exclude.len()
        invariant
            i <= exclude.len(),
            forall|k: int| 0 <= k < i ==> exclude@[k] != thread,
        decreases exclude.len() - i,
    {
        if exclude[i] == thread {
            assert(exclude@[i as int] == thread);
            return false;
        }
        i = i + 1;
    }
    true
}

/// The modifiers among codes, in order; other codes are dropped.
pub open spec fn kinds_of(mods: Seq<u16>) -> Seq<ModifierKind>
    decreases mods.len(),
{
    if mods.len() == 0 {
        Seq::empty()
    } else {
        let front = kinds_of(mods.drop_last());
        match modifier_of(mods.last()) {
            Some(k) => front.push(k),
            None => front,
        }
    }
}

pub fn mods_to_kinds(mods: &Vec<u16>) -> (r: Vec<ModifierKind>)
    ensures
        r@ == kinds_of(mods@),
{
    let mut out: Vec<ModifierKind> = Vec::new();
    let mut i: usize = 0;
    while i < mods.len()
        invariant
            i <= mods.len(),
            out@ == kinds_of(mods@.take(i as int)),
        decreases mods.len() - i,
    {
        assert(mods@.take(i + 1).drop_last() == mods@.take(i as int));
        assert(mods@.take(i + 1).last() == mods@[i as int]);
        if let Some(k) = modifier_kind(mods[i]) {
            out.push(k);
        }
        i = i + 1;
    }
    assert(mods@.take(i as int) == mods@);
    out
}

/// A planned cycle hotkey registration.
#[derive(Debug, PartialEq, Eq)]
pub struct CycleHotkeyPlan {
    pub id: i32,
    pub modifiers: Vec<ModifierKind>,
    pub vk: u16,
}

/// The contents of a plan: identifier, modifiers and key.
pub open spec fn cycle_plan_view(p: CycleHotkeyPlan) -> (i32, Seq<ModifierKind>, u16) {
    (p.id, p.modifiers@, p.vk)
}

pub open spec fn cycle_plan_views(ps: Seq<CycleHotkeyPlan>) -> Seq<
    (i32, Seq<ModifierKind>, u16),
> {
    Seq::new(ps.len(), |i: int| cycle_plan_view(ps[i]))
}

/// Whether the system's hotkey service can serve a binding: a key that is
/// bound. Mouse and wheel bindings are served by the mouse hook.
pub open spec fn is_key_binding(hk: Hotkey) -> bool {
    hk.kind == TriggerKind::Key && hk.code != 0
}

/// The registration of a binding under an identifier, where there is one.
pub open spec fn cycle_plan_of(hk: Hotkey, id: i32) -> Seq<(i32, Seq<ModifierKind>, u16)> {
    if is_key_binding(hk) {
        seq![(id, kinds_of(hk.mods@), hk.code)]
    } else {
        Seq::empty()
    }
}

/// Plans which cycle hotkeys to register, forward before backward.
pub fn plan_cycle_hotkeys(
    enable: bool,
    forward: &Hotkey,
    backward: &Hotkey,
    forward_id: i32,
    backward_id: i32,
) -> (r: Vec<CycleHotkeyPlan>)
    ensures
        cycle_plan_views(r@) == (if enable {
            cycle_plan_of(*forward, forward_id) + cycle_plan_of(*backward, backward_id)
        } else {
            Seq::empty()
        }),
{
    let mut plans: Vec<CycleHotkeyPlan> = Vec::new();
    if !enable {
        return plans;
    }
    if forward.kind == TriggerKind::Key && forward.code != 0 {
        plans.push(
            CycleHotkeyPlan {
                id: forward_id,
                modifiers: mods_to_kinds(&forward.mods),
                vk: forward.code,
            },
        );
    }
    assert(cycle_plan_views(plans@) == cycle_plan_of(*forward, forward_id));
    if backward.kind == TriggerKind::Key && backward.code != 0 {
        plans.push(
            CycleHotkeyPlan {
                id: backward_id,
                modifiers: mods_to_kinds(&backward.mods),
                vk: backward.code,
            },
        );
    }
    plans
}

/// A planned per-character hotkey registration.
#[derive(Debug, PartialEq, Eq)]
pub struct CharacterHotkeyPlan {
    pub id: i32,
    pub character_name: String,
    pub modifiers: Vec<ModifierKind>,
    pub vk: u16,
}

/// The contents of a plan: identifier, character, modifiers and key.
pub open spec fn character_plan_view(p: CharacterHotkeyPlan) -> (
    int,
    Seq<char>,
    Seq<ModifierKind>,
    u16,
) {
    (p.id as int, p.character_name@, p.modifiers@, p.vk)
}

pub open spec fn character_plan_views(ps: Seq<CharacterHotkeyPlan>) -> Seq<
    (int, Seq<char>, Seq<ModifierKind>, u16),
> {
    Seq::new(ps.len(), |i: int| character_plan_view(ps[i]))
}

/// The registrations for the listed characters, in list order. Characters
/// without a key binding are passed over, and identifiers count up from
/// `base_id` without gaps.
pub open spec fn character_plans(
    characters: Seq<Seq<char>>,
    hotkeys: Map<Seq<char>, Hotkey>,
    base_id: int,
) -> Seq<(int, Seq<char>, Seq<ModifierKind>, u16)>
    decreases characters.len(),
{
    if characters.len() == 0 {
        Seq::empty()
    } else {
        let front = character_plans(characters.drop_last(), hotkeys, base_id);
        let name = characters.last();
        if hotkeys.contains_key(name) && is_key_binding(hotkeys[name]) {
            front.push(
                (base_id + front.len(), name, kinds_of(hotkeys[name].mods@), hotkeys[name].code),
            )
        } else {
            front
        }
    }
}

/// Plans per-character key hotkeys in the configured character order.
pub fn plan_character_hotkeys(
    characters: &Vec<String>,
    character_hotkeys: &NameMap<Hotkey>,
    base_id: i32,
) -> (r: Vec<CharacterHotkeyPlan>)
    requires
        base_id + characters@.len() <= i32::MAX,
    ensures
        character_plan_views(r@) == character_plans(
            text::views(characters@),
            character_hotkeys@,
            base_id as int,
        ),
{
    let mut out: Vec<CharacterHotkeyPlan> = Vec::new();
    let mut next_id: i32 = base_id;
    let ghost all = text::views(characters@);
    let ghost hks = character_hotkeys@;
    let mut i: usize = 0;
    while i < characters.len()
        invariant
            i <= characters.len(),
            all == text::views(characters@),
            hks == character_hotkeys@,
            base_id + characters@.len() <= i32::MAX,
            next_id == base_id + out@.len(),
            out@.len() <= i,
            character_plan_views(out@) == character_plans(all.take(i as int), hks, base_id as int),
        decreases characters.len() - i,
    {
        assert(all.take(i + 1).drop_last() == all.take(i as int));
        assert(all.take(i + 1).last() == characters@[i as int]@);
        if let Some(hk) = character_hotkeys.get(characters[i].as_str()) {
            if hk.kind == TriggerKind::Key && hk.code != 0 {
                let ghost before = character_plan_views(out@);
                out.push(
                    CharacterHotkeyPlan {
                        id: next_id,
                        character_name: characters[i].clone(),
                        modifiers: mods_to_kinds(&hk.mods),
                        vk: hk.code,
                    },
                );
                assert(character_plan_views(out@) == before.push(character_plan_view(out@.last())));
                next_id = next_id + 1;
            }
        }
        i = i + 1;
    }
    assert(all.take(i as int) == all);
    out
}

/// Identifiers of registrations are dense: the `k`-th has number `k` from the
/// base, so no two are the same.
pub proof fn law_plan_ids_are_dense(
    characters: Seq<Seq<char>>,
    hotkeys: Map<Seq<char>, Hotkey>,
    base_id: int,
    k: int,
)
    requires
        0 <= k < character_plans(characters, hotkeys, base_id).len(),
    ensures
        character_plans(characters, hotkeys, base_id)[k].0 == base_id + k,
    decreases characters.len(),
{
    let front = character_plans(characters.drop_last(), hotkeys, base_id);
    if k < front.len() {
        law_plan_ids_are_dense(characters.drop_last(), hotkeys, base_id, k);
    }
}

/// What a mouse button or wheel trigger maps to. `SwitchCharacter` carries
/// the position in the character list.
#[derive(Debug, Clone, Copy, PartialEq, Eq, Structural)]
pub enum MouseHotkeyAction {
    CycleForward,
    CycleBackward,
    ToggleOverlay,
    SwitchCharacter(usize),
}

/// Whether the character at `i` has a binding that the event fires.
pub open spec fn character_fires(
    characters: Seq<Seq<char>>,
    hotkeys: Map<Seq<char>, Hotkey>,
    i: int,
    kind: TriggerKind,
    code: u16,
    held: Set<u16>,
) -> bool {
    hotkeys.contains_key(characters[i]) && hotkeys[characters[i]].fires(kind, code, held)
}

/// Among the first `n` characters, the one whose fired binding lists the most
/// modifiers; the first of several.
pub open spec fn best_character(
    characters: Seq<Seq<char>>,
    hotkeys: Map<Seq<char>, Hotkey>,
    n: nat,
    kind: TriggerKind,
    code: u16,
    held: Set<u16>,
) -> Option<int>
    decreases n,
{
    if n == 0 {
        None
    } else {
        let front = best_character(characters, hotkeys, (n - 1) as nat, kind, code, held);
        if character_fires(characters, hotkeys, n - 1, kind, code, held) && (front matches Some(b)
            ==> hotkeys[characters[n - 1]].mods@.len() > hotkeys[characters[b]].mods@.len()) {
            Some(n - 1)
        } else {
            front
        }
    }
}

/// The action of a mouse or wheel trigger: the toggle before backward before
/// forward before the characters. A key is no such trigger.
pub open spec fn mouse_action(
    kind: TriggerKind,
    code: u16,
    held: Set<u16>,
    forward: Hotkey,
    backward: Hotkey,
    toggle: Hotkey,
    characters: Seq<Seq<char>>,
    hotkeys: Map<Seq<char>, Hotkey>,
) -> Option<MouseHotkeyAction> {
    if kind == TriggerKind::Key {
        None
    } else if toggle.fires(kind, code, held) {
        Some(MouseHotkeyAction::ToggleOverlay)
    } else if backward.fires(kind, code, held) {
        Some(MouseHotkeyAction::CycleBackward)
    } else if forward.fires(kind, code, held) {
        Some(MouseHotkeyAction::CycleForward)
    } else {
        match best_character(characters, hotkeys, characters.len(), kind, code, held) {
            Some(i) => Some(MouseHotkeyAction::SwitchCharacter(i as usize)),
            None => None,
        }
    }
}

proof fn lemma_best_in_range(
    characters: Seq<Seq<char>>,
    hotkeys: Map<Seq<char>, Hotkey>,
    n: nat,
    kind: TriggerKind,
    code: u16,
    held: Set<u16>,
)
    ensures
        best_character(characters, hotkeys, n, kind, code, held) matches Some(i) ==> 0 <= i < n
            && character_fires(characters, hotkeys, i, kind, code, held),
    decreases n,
{
    if n > 0 {
        lemma_best_in_range(characters, hotkeys, (n - 1) as nat, kind, code, held);
    }
}

/// Resolves a mouse or wheel trigger to an action.
pub fn resolve_mouse_action(
    kind: TriggerKind,
    code: u16,
    held: &HashSet<u16>,
    forward: &Hotkey,
    backward: &Hotkey,
    toggle: &Hotkey,
    characters: &Vec<String>,
    character_hotkeys: &NameMap<Hotkey>,
) -> (r: Option<MouseHotkeyAction>)
    ensures
        r == mouse_action(
            kind,
            code,
            held@,
            *forward,
            *backward,
            *toggle,
            text::views(characters@),
            character_hotkeys@,
        ),
{
    if kind == TriggerKind::Key {
        return None;
    }
    if toggle.matches(kind, code, held) {
        return Some(MouseHotkeyAction::ToggleOverlay);
    }
    if backward.matches(kind, code, held) {
        return Some(MouseHotkeyAction::CycleBackward);
    }
    if forward.matches(kind, code, held) {
        return Some(MouseHotkeyAction::CycleForward);
    }
    let ghost names = text::views(characters@);
    let ghost hks = character_hotkeys@;
    let mut best: Option<(usize, usize)> = None;
    let mut i: usize = 0;
    while i < characters.len()
        invariant
            i <= characters.len(),
            names == text::views(characters@),
            hks == character_hotkeys@,
            match best_character(names, hks, i as nat, kind, code, held@) {
                Some(b) => best matches Some((at, n)) && at == b && n == hks[names[b]].mods@.len(),
                None => best is None,
            },
        decreases characters.len() - i,
    {
        assert(names[i as int] == characters@[i as int]@);
        if let Some(hk) = character_hotkeys.get(characters[i].as_str()) {
            let better: bool = match best {
                Some((_, n)) => hk.mods.len() > n,
                None => true,
            };
            if better && hk.matches(kind, code, held) {
                best = Some((i, hk.mods.len()));
            }
        }
        i = i + 1;
    }
    proof {
        lemma_best_in_range(names, hks, names.len(), kind, code, held@);
    }
    match best {
        Some((at, _)) => Some(MouseHotkeyAction::SwitchCharacter(at)),
        None => None,
    }
}

/// A mouse or wheel trigger never switches to a character whose binding is a
/// key, nor to one without a binding.
pub proof fn law_switch_fires_a_mouse_binding(
    kind: TriggerKind,
    code: u16,
    held: Set<u16>,
    forward: Hotkey,
    backward: Hotkey,
    toggle: Hotkey,
    characters: Seq<Seq<char>>,
    hotkeys: Map<Seq<char>, Hotkey>,
    i: usize,
)
    requires
        characters.len() <= usize::MAX,
        mouse_action(kind, code, held, forward, backward, toggle, characters, hotkeys) == Some(
            MouseHotkeyAction::SwitchCharacter(i),
        ),
    ensures
        i < characters.len(),
        hotkeys.contains_key(characters[i as int]),
        hotkeys[characters[i as int]].kind != TriggerKind::Key,
        hotkeys[characters[i as int]].fires(kind, code, held),
{
    lemma_best_in_range(characters, hotkeys, characters.len(), kind, code, held);
}

/// A modifier is among the kinds exactly where one of its keys is among the
/// codes.
pub proof fn law_kinds_are_those_of_the_codes(mods: Seq<u16>, kind: ModifierKind)
    ensures
        kinds_of(mods).contains(kind) == (exists|i: int|
            0 <= i < mods.len() && modifier_of(#[trigger] mods[i]) == Some(kind)),
        kinds_of(mods).len() <= mods.len(),
    decreases mods.len(),
{
    if mods.len() > 0 {
        let front = kinds_of(mods.drop_last());
        let all = kinds_of(mods);
        law_kinds_are_those_of_the_codes(mods.drop_last(), kind);
        if all.contains(kind) {
            let k = choose|k: int| 0 <= k < all.len() && all[k] == kind;
            if k < front.len() {
                assert(front[k] == kind);
                let i = choose|i: int|
                    0 <= i < mods.drop_last().len() && modifier_of(#[trigger] mods.drop_last()[i])
                        == Some(kind);
                assert(modifier_of(mods[i]) == Some(kind));
            } else {
                assert(modifier_of(mods[mods.len() - 1]) == Some(kind));
            }
        }
        if exists|i: int| 0 <= i < mods.len() && modifier_of(#[trigger] mods[i]) == Some(kind) {
            let i = choose|i: int|
                0 <= i < mods.len() && modifier_of(#[trigger] mods[i]) == Some(kind);
            if i < mods.len() - 1 {
                assert(modifier_of(mods.drop_last()[i]) == Some(kind));
                let k = choose|k: int| 0 <= k < front.len() && front[k] == kind;
                assert(all[k] == kind);
            } else {
                assert(all[all.len() - 1] == kind);
            }
        }
    }
}

/// Either key of a modifier, left or right, counts as the modifier, and so
/// does the code for both.
pub proof fn law_either_side_is_the_modifier()
    ensures
        modifier_of(0xA0) == modifier_of(0x10) && modifier_of(0xA1) == modifier_of(0x10)
            && modifier_of(0x10) == Some(ModifierKind::Shift),
        modifier_of(0xA2) == modifier_of(0x11) && modifier_of(0xA3) == modifier_of(0x11)
            && modifier_of(0x11) == Some(ModifierKind::Ctrl),
        modifier_of(0xA4) == modifier_of(0x12) && modifier_of(0xA5) == modifier_of(0x12)
            && modifier_of(0x12) == Some(ModifierKind::Alt),
        modifier_of(0x5B) == modifier_of(0x5C) && modifier_of(0x5B) == Some(ModifierKind::Win),
{
}

/// A binding is registered under the identifier it was given, with its own key
/// and its own modifiers, exactly where it is a key.
pub proof fn law_binding_is_registered(hk: Hotkey, id: i32)
    ensures
        hk.kind == TriggerKind::Key && hk.code != 0 ==> cycle_plan_of(hk, id).len() == 1
            && cycle_plan_of(hk, id)[0].0 == id && cycle_plan_of(hk, id)[0].2 == hk.code
            && cycle_plan_of(hk, id)[0].1 == kinds_of(hk.mods@),
        hk.kind != TriggerKind::Key || hk.code == 0 ==> cycle_plan_of(hk, id).len() == 0,
{
}

/// Every listed character whose binding is a key is registered with that key
/// and those modifiers.
pub proof fn law_bound_character_is_registered(
    characters: Seq<Seq<char>>,
    hotkeys: Map<Seq<char>, Hotkey>,
    base_id: int,
    j: int,
) -> (k: int)
    requires
        0 <= j < characters.len(),
        hotkeys.contains_key(characters[j]),
        hotkeys[characters[j]].kind == TriggerKind::Key,
        hotkeys[characters[j]].code != 0,
    ensures
        0 <= k < character_plans(characters, hotkeys, base_id).len(),
        character_plans(characters, hotkeys, base_id)[k].1 == characters[j],
        character_plans(characters, hotkeys, base_id)[k].2 == kinds_of(
            hotkeys[characters[j]].mods@,
        ),
        character_plans(characters, hotkeys, base_id)[k].3 == hotkeys[characters[j]].code,
    decreases characters.len(),
{
    let front = character_plans(characters.drop_last(), hotkeys, base_id);
    if j == characters.len() - 1 {
        front.len() as int
    } else {
        assert(characters.drop_last()[j] == characters[j]);
        law_bound_character_is_registered(characters.drop_last(), hotkeys, base_id, j)
    }
}

/// What is registered for a character is that character's own binding.
pub proof fn law_registered_character_is_bound(
    characters: Seq<Seq<char>>,
    hotkeys: Map<Seq<char>, Hotkey>,
    base_id: int,
    k: int,
)
    requires
        0 <= k < character_plans(characters, hotkeys, base_id).len(),
    ensures
        ({
            let plan = character_plans(characters, hotkeys, base_id)[k];
            &&& characters.contains(plan.1)
            &&& hotkeys.contains_key(plan.1)
            &&& hotkeys[plan.1].kind == TriggerKind::Key
            &&& hotkeys[plan.1].code == plan.3
            &&& plan.3 != 0
            &&& plan.2 == kinds_of(hotkeys[plan.1].mods@)
        }),
        character_plans(characters, hotkeys, base_id).len() <= characters.len(),
    decreases characters.len(),
{
    let front = character_plans(characters.drop_last(), hotkeys, base_id);
    let plan = character_plans(characters, hotkeys, base_id)[k];
    if k < front.len() {
        law_registered_character_is_bound(characters.drop_last(), hotkeys, base_id, k);
        let j = choose|j: int|
            0 <= j < characters.drop_last().len() && characters.drop_last()[j] == plan.1;
        assert(characters[j] == plan.1);
    } else {
        assert(characters[characters.len() - 1] == plan.1);
        if front.len() > 0 {
            law_registered_character_is_bound(characters.drop_last(), hotkeys, base_id, 0);
        }
    }
}

/// Among the characters whose binding fires, the one with the most modifiers
/// is chosen, and the first of several; one is chosen wherever one fires.
pub proof fn law_longest_chord_wins(
    characters: Seq<Seq<char>>,
    hotkeys: Map<Seq<char>, Hotkey>,
    n: nat,
    kind: TriggerKind,
    code: u16,
    held: Set<u16>,
    i: int,
)
    requires
        0 <= i < n <= characters.len(),
        hotkeys.contains_key(characters[i]),
        hotkeys[characters[i]].fires(kind, code, held),
    ensures
        best_character(characters, hotkeys, n, kind, code, held) matches Some(b) && 0 <= b < n
            && hotkeys.contains_key(characters[b]) && hotkeys[characters[b]].fires(
            kind,
            code,
            held,
        ) && hotkeys[characters[i]].mods@.len() <= hotkeys[characters[b]].mods@.len() && (i < b
            ==> hotkeys[characters[i]].mods@.len() < hotkeys[characters[b]].mods@.len()),
    decreases n,
{
    lemma_best_in_range(characters, hotkeys, n, kind, code, held);
    if i < n - 1 {
        law_longest_chord_wins(characters, hotkeys, (n - 1) as nat, kind, code, held, i);
    } else {
        lemma_best_in_range(characters, hotkeys, (n - 1) as nat, kind, code, held);
    }
}

/// A mouse or wheel trigger does what the binding that fires is bound to: the
/// toggle before backward before forward before the characters.
pub proof fn law_mouse_trigger_does_what_it_is_bound_to(
    kind: TriggerKind,
    code: u16,
    held: Set<u16>,
    forward: Hotkey,
    backward: Hotkey,
    toggle: Hotkey,
    characters: Seq<Seq<char>>,
    hotkeys: Map<Seq<char>, Hotkey>,
)
    ensures
        ({
            let action = mouse_action(
                kind,
                code,
                held,
                forward,
                backward,
                toggle,
                characters,
                hotkeys,
            );
            let t = toggle.fires(kind, code, held);
            let b = backward.fires(kind, code, held);
            let f = forward.fires(kind, code, held);
            &&& kind == TriggerKind::Key ==> action is None
            &&& kind != TriggerKind::Key && t ==> action == Some(MouseHotkeyAction::ToggleOverlay)
            &&& kind != TriggerKind::Key && !t && b ==> action == Some(
                MouseHotkeyAction::CycleBackward,
            )
            &&& kind != TriggerKind::Key && !t && !b && f ==> action == Some(
                MouseHotkeyAction::CycleForward,
            )
            &&& action == Some(MouseHotkeyAction::CycleForward) ==> f
            &&& action == Some(MouseHotkeyAction::CycleBackward) ==> b
            &&& action == Some(MouseHotkeyAction::ToggleOverlay) ==> t
        }),
{
}

/// A trigger that fires no cycle or toggle binding switches to a character
/// wherever one of theirs fires.
pub proof fn law_character_trigger_switches(
    kind: TriggerKind,
    code: u16,
    held: Set<u16>,
    forward: Hotkey,
    backward: Hotkey,
    toggle: Hotkey,
    characters: Seq<Seq<char>>,
    hotkeys: Map<Seq<char>, Hotkey>,
    i: int,
)
    requires
        kind != TriggerKind::Key,
        !toggle.fires(kind, code, held),
        !backward.fires(kind, code, held),
        !forward.fires(kind, code, held),
        characters.len() <= usize::MAX,
        0 <= i < characters.len(),
        hotkeys.contains_key(characters[i]),
        hotkeys[characters[i]].fires(kind, code, held),
    ensures
        mouse_action(
            kind,
            code,
            held,
            forward,
            backward,
            toggle,
            characters,
            hotkeys,
        ) matches Some(MouseHotkeyAction::SwitchCharacter(b)) && b < characters.len()
            && hotkeys.contains_key(characters[b as int]) && hotkeys[characters[b as int]].fires(
            kind,
            code,
            held,
        ) && hotkeys[characters[i]].mods@.len() <= hotkeys[characters[b as int]].mods@.len(),
{
    law_longest_chord_wins(characters, hotkeys, characters.len(), kind, code, held, i);
}

} // verus!
