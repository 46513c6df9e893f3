//! Which client is current, and how the focus moves between clients.
use vstd::prelude::*;
use std::time::Instant;
use crate::clock;
use crate::clock::Clock;
use crate::numerals;
use crate::search;
use crate::text;
use crate::window_manager::{EveWindow, Request, WindowId, WindowManager, WmError};
use crate::windows_helpers::CycleDirection;

verus! {

/// For this many milliseconds after an activation of our own, the reported
/// focus may still be the previous client's: the compositor commits focus
/// asynchronously. A report is not believed until they have passed.
pub const ACTIVATION_GRACE: u128 = 300;

/// Why a focus change was refused or failed.
#[derive(Debug)]
pub enum CycleError {
    /// The configured order has no entry with this number.
    NoSuchEntry { target: usize, configured: usize },
    /// There is no window with this number.
    NoSuchWindow { target: usize, windows: usize },
    /// The character is not logged in.
    NotLoggedIn { name: String },
    /// The window manager failed.
    Manager(WmError),
}

impl CycleError {
    /// The message for the user.
    pub open spec fn text(&self) -> Seq<char> {
        match self {
            CycleError::NoSuchEntry { target, configured } => "Target "@ + numerals::decimal(
                *target as nat,
            ) + " is out of range (only "@ + numerals::decimal(*configured as nat)
                + " characters configured)"@,
            CycleError::NoSuchWindow { target, windows } => "Target "@ + numerals::decimal(
                *target as nat,
            ) + " is out of range (only "@ + numerals::decimal(*windows as nat) + " windows)"@,
            CycleError::NotLoggedIn { name } => "Character '"@ + name@
                + "' not found in active windows"@,
            CycleError::Manager(e) => e.message@,
        }
    }

    pub fn message(&self) -> (r: String)
        ensures
            r@ == self.text(),
    {
        match self {
            CycleError::NoSuchEntry { target, configured } => {
                out_of_range(*target, *configured, " characters configured)")
            },
            CycleError::NoSuchWindow { target, windows } => {
                out_of_range(*target, *windows, " windows)")
            },
            CycleError::NotLoggedIn { name } => {
                text::joined(
                    text::joined("Character '", name.as_str()).as_str(),
                    "' not found in active windows",
                )
            },
            CycleError::Manager(e) => e.message.clone(),
        }
    }
}

fn out_of_range(target: usize, count: usize, what: &str) -> (r: String)
    ensures
        r@ == "Target "@ + numerals::decimal(target as nat) + " is out of range (only "@
            + numerals::decimal(count as nat) + what@,
{
    let a: String = text::joined("Target ", numerals::write_decimal(target as u64).as_str());
    let b: String = text::joined(a.as_str(), " is out of range (only ");
    let c: String = text::joined(b.as_str(), numerals::write_decimal(count as u64).as_str());
    text::joined(c.as_str(), what)
}

// ---------------------------------------------------------------------
// The model: windows, order and index as mathematical values
// ---------------------------------------------------------------------

/// The first window with this identifier.
pub open spec fn window_with_id(ws: Seq<EveWindow>, id: WindowId) -> Option<int> {
    search::first_index(ws.len(), |i: int| ws[i].id == id)
}

/// The first window with this title.
pub open spec fn window_titled(ws: Seq<EveWindow>, name: Seq<char>) -> Option<int> {
    search::first_index(ws.len(), |i: int| ws[i].title@ == name)
}

/// The windows of the listed characters that are logged in, in list order.
pub open spec fn listed_windows(ws: Seq<EveWindow>, names: Seq<Seq<char>>) -> Seq<int>
    decreases names.len(),
{
    if names.len() == 0 {
        Seq::empty()
    } else {
        let front = listed_windows(ws, names.drop_last());
        match window_titled(ws, names.last()) {
            Some(i) => front.push(i),
            None => front,
        }
    }
}

/// The windows that cycling visits, in the order it visits them: those of
/// the listed characters where there is a list, else all of them.
pub open spec fn cycle_of(ws: Seq<EveWindow>, order: Option<Seq<Seq<char>>>) -> Seq<int> {
    match order {
        Some(names) => listed_windows(ws, names),
        None => Seq::new(ws.len(), |i: int| i),
    }
}

/// Where in `cycle` the step from position `p` ends, around either end.
pub open spec fn step_from(len: int, p: int, step: CycleDirection) -> int {
    match step {
        CycleDirection::Forward => (p + 1) % len,
        CycleDirection::Backward => (p - 1) % len,
    }
}

/// Where in the cycle window `index` comes first.
pub open spec fn position_in(cycle: Seq<int>, index: int) -> Option<int> {
    cycle.index_of_first(index)
}

proof fn lemma_position_in(cycle: Seq<int>, index: int, at: int)
    requires
        0 <= at <= cycle.len(),
        at < cycle.len() ==> cycle[at] == index,
        forall|k: int| 0 <= k < at ==> cycle[k] != index,
    ensures
        at < cycle.len() ==> position_in(cycle, index) == Some(at),
        at == cycle.len() ==> position_in(cycle, index) is None,
{
    cycle.index_of_first_ensures(index);
    if at < cycle.len() {
        assert(cycle.contains(index));
    }
}

/// The window that a step from window `index` goes to. From a window outside
/// the cycle it goes to the cycle's first or last.
pub open spec fn stepped(cycle: Seq<int>, index: int, step: CycleDirection) -> Option<int> {
    if cycle.len() == 0 {
        None
    } else {
        match position_in(cycle, index) {
            Some(p) => Some(cycle[step_from(cycle.len() as int, p, step)]),
            None => match step {
                CycleDirection::Forward => Some(cycle[0]),
                CycleDirection::Backward => Some(cycle.last()),
            },
        }
    }
}

/// What the window manager is asked for a focus change to `id`, away from
/// `previous`, where the activation is answered `answer`.
pub open spec fn focus_requests(
    id: WindowId,
    previous: Option<WindowId>,
    restore: bool,
    answer: Result<(), WmError>,
) -> Seq<Request> {
    let before = if restore {
        seq![Request::Restore(id)]
    } else {
        Seq::empty()
    };
    let after = match previous {
        Some(p) if answer is Ok => seq![Request::Minimize(p)],
        _ => Seq::empty(),
    };
    before.push(Request::Activate(id, answer)) + after
}

/// The identifier of the window at `i`, where one is asked for.
pub open spec fn id_at(ws: Seq<EveWindow>, asked: bool, i: int) -> Option<WindowId> {
    if asked {
        Some(ws[i].id)
    } else {
        None
    }
}

/// The result of a focus change whose activation was answered `answer`.
pub open spec fn focus_result(answer: Result<(), WmError>) -> Result<(), CycleError> {
    match answer {
        Ok(()) => Ok(()),
        Err(e) => Err(CycleError::Manager(e)),
    }
}

proof fn lemma_listed_in_range(ws: Seq<EveWindow>, names: Seq<Seq<char>>)
    ensures
        listed_windows(ws, names).len() <= names.len(),
        forall|k: int|
            0 <= k < listed_windows(ws, names).len() ==> 0 <= #[trigger] listed_windows(
                ws,
                names,
            )[k] < ws.len(),
    decreases names.len(),
{
    if names.len() > 0 {
        lemma_listed_in_range(ws, names.drop_last());
        search::lemma_first_index(ws.len(), |i: int| ws[i].title@ == names.last());
    }
}

/// Cycling visits windows that there are.
pub proof fn law_cycle_is_in_range(ws: Seq<EveWindow>, order: Option<Seq<Seq<char>>>)
    ensures
        forall|k: int| 0 <= k < cycle_of(ws, order).len() ==> 0 <= #[trigger] cycle_of(ws, order)[k]
            < ws.len(),
{
    if let Some(names) = order {
        lemma_listed_in_range(ws, names);
    }
}

/// With a list, cycling visits listed characters only: every window it
/// visits is titled with a name of the list.
pub proof fn law_cycle_visits_listed_only(ws: Seq<EveWindow>, names: Seq<Seq<char>>, k: int)
    requires
        0 <= k < listed_windows(ws, names).len(),
    ensures
        names.contains(ws[listed_windows(ws, names)[k]].title@),
    decreases names.len(),
{
    let front = listed_windows(ws, names.drop_last());
    search::lemma_first_index(ws.len(), |i: int| ws[i].title@ == names.last());
    if k < front.len() {
        law_cycle_visits_listed_only(ws, names.drop_last(), k);
        let t = ws[front[k]].title@;
        let j = choose|j: int| 0 <= j < names.len() - 1 && names.drop_last()[j] == t;
        assert(names[j] == t);
    } else {
        assert(names[names.len() - 1] == names.last());
    }
}

/// With a list, cycling visits every listed character that is logged in.
pub proof fn law_cycle_visits_all_listed(ws: Seq<EveWindow>, names: Seq<Seq<char>>, j: int)
    requires
        0 <= j < names.len(),
        window_titled(ws, names[j]) is Some,
    ensures
        listed_windows(ws, names).contains(window_titled(ws, names[j]).unwrap()),
    decreases names.len(),
{
    let front = listed_windows(ws, names.drop_last());
    let all = listed_windows(ws, names);
    let i = window_titled(ws, names[j]).unwrap();
    if j == names.len() - 1 {
        assert(all.last() == i);
    } else {
        law_cycle_visits_all_listed(ws, names.drop_last(), j);
        let k = choose|k: int| 0 <= k < front.len() && front[k] == i;
        assert(all[k] == i);
    }
}

proof fn lemma_position(cycle: Seq<int>, p: int)
    requires
        cycle.no_duplicates(),
        0 <= p < cycle.len(),
    ensures
        position_in(cycle, cycle[p]) == Some(p),
{
    lemma_position_in(cycle, cycle[p], p);
}

proof fn lemma_step_in_range(len: int, p: int, step: CycleDirection)
    requires
        0 <= p < len,
    ensures
        0 <= step_from(len, p, step) < len,
        step == CycleDirection::Forward ==> step_from(len, p, step) == (if p + 1 == len {
            0
        } else {
            p + 1
        }),
        step == CycleDirection::Backward ==> step_from(len, p, step) == (if p == 0 {
            len - 1
        } else {
            p - 1
        }),
{
    if p + 1 < len {
        vstd::arithmetic::div_mod::lemma_small_mod((p + 1) as nat, len as nat);
    } else {
        vstd::arithmetic::div_mod::lemma_mod_self_0(len);
    }
    if p > 0 {
        vstd::arithmetic::div_mod::lemma_small_mod((p - 1) as nat, len as nat);
    } else {
        vstd::arithmetic::div_mod::lemma_mod_add_multiples_vanish(-1, len);
        vstd::arithmetic::div_mod::lemma_small_mod((len - 1) as nat, len as nat);
        assert(len + (-1) == len - 1);
    }
}

/// Backward undoes forward, and forward undoes backward, from any window of
/// a cycle that visits no window twice.
pub proof fn law_backward_undoes_forward(cycle: Seq<int>, index: int)
    requires
        cycle.no_duplicates(),
        cycle.contains(index),
    ensures
        stepped(cycle, index, CycleDirection::Forward) matches Some(i) && stepped(cycle, i, CycleDirection::Backward)
            == Some(index),
        stepped(cycle, index, CycleDirection::Backward) matches Some(i) && stepped(cycle, i, CycleDirection::Forward)
            == Some(index),
{
    let p = choose|p: int| 0 <= p < cycle.len() && cycle[p] == index;
    let len = cycle.len() as int;
    lemma_position(cycle, p);
    lemma_step_in_range(len, p, CycleDirection::Forward);
    lemma_step_in_range(len, p, CycleDirection::Backward);
    let f = step_from(len, p, CycleDirection::Forward);
    let b = step_from(len, p, CycleDirection::Backward);
    lemma_position(cycle, f);
    lemma_position(cycle, b);
    lemma_step_in_range(len, f, CycleDirection::Backward);
    lemma_step_in_range(len, b, CycleDirection::Forward);
}

/// The window after `n` steps forward.
pub open spec fn stepped_times(cycle: Seq<int>, index: int, n: nat) -> int
    decreases n,
{
    if n == 0 {
        index
    } else {
        stepped(cycle, stepped_times(cycle, index, (n - 1) as nat), CycleDirection::Forward).unwrap()
    }
}

/// Steps forward go through the cycle in its order: the `n`-th window after
/// the one at position `p` is the one at position `p + n`, around the end. So
/// as many steps as the cycle is long visit every window once and come back.
pub proof fn law_forward_goes_round(cycle: Seq<int>, p: int, n: nat)
    requires
        cycle.no_duplicates(),
        0 <= p < cycle.len(),
    ensures
        stepped_times(cycle, cycle[p], n) == cycle[(p + n) % (cycle.len() as int)],
        stepped_times(cycle, cycle[p], cycle.len()) == cycle[p],
    decreases n,
{
    lemma_forward_goes_round(cycle, p, n);
    lemma_forward_goes_round(cycle, p, cycle.len());
    let len = cycle.len() as int;
    vstd::arithmetic::div_mod::lemma_mod_add_multiples_vanish(p, len);
    vstd::arithmetic::div_mod::lemma_small_mod(p as nat, len as nat);
}

proof fn lemma_forward_goes_round(cycle: Seq<int>, p: int, n: nat)
    requires
        cycle.no_duplicates(),
        0 <= p < cycle.len(),
    ensures
        stepped_times(cycle, cycle[p], n) == cycle[(p + n) % (cycle.len() as int)],
    decreases n,
{
    let len = cycle.len() as int;
    if n == 0 {
        vstd::arithmetic::div_mod::lemma_small_mod(p as nat, len as nat);
    } else {
        lemma_forward_goes_round(cycle, p, (n - 1) as nat);
        let q = (p + n - 1) % len;
        vstd::arithmetic::div_mod::lemma_mod_bound(p + n - 1, len);
        lemma_position(cycle, q);
        vstd::arithmetic::div_mod::lemma_add_mod_noop(p + n - 1, 1, len);
        lemma_step_in_range(len, q, CycleDirection::Forward);
        vstd::arithmetic::div_mod::lemma_add_mod_noop_right(1, p + n - 1, len);
        assert((q + 1) % len == (p + n) % len);
    }
}

proof fn lemma_listed_distinct(ws: Seq<EveWindow>, names: Seq<Seq<char>>)
    requires
        names.no_duplicates(),
    ensures
        listed_windows(ws, names).no_duplicates(),
    decreases names.len(),
{
    if names.len() > 0 {
        let front_names = names.drop_last();
        let front = listed_windows(ws, front_names);
        let all = listed_windows(ws, names);
        lemma_listed_distinct(ws, front_names);
        search::lemma_first_index(ws.len(), |i: int| ws[i].title@ == names.last());
        assert forall|a: int, b: int| 0 <= a < all.len() && 0 <= b < all.len() && a != b implies all[a]
            != all[b] by {
            if a < front.len() && b < front.len() {
            } else {
                let c = if a < front.len() {
                    a
                } else {
                    b
                };
                law_cycle_visits_listed_only(ws, front_names, c);
                let j = choose|j: int|
                    0 <= j < front_names.len() && front_names[j] == ws[front[c]].title@;
                assert(names[j] != names[names.len() - 1]);
            }
        }
    }
}

/// Cycling visits no window twice, unless the list names a character twice.
pub proof fn law_cycle_has_no_duplicates(ws: Seq<EveWindow>, order: Option<Seq<Seq<char>>>)
    requires
        order matches Some(names) ==> names.no_duplicates(),
    ensures
        cycle_of(ws, order).no_duplicates(),
{
    if let Some(names) = order {
        lemma_listed_distinct(ws, names);
    }
}

// ---------------------------------------------------------------------
// The state
// ---------------------------------------------------------------------

/// The clients, the current one among them, and the order of cycling.
pub struct CycleState {
    current_index: usize,
    windows: Vec<EveWindow>,
    character_order: Option<Vec<String>>,
    last_activated: Option<Instant>,
    clock: Clock,
}

/// The index after the window list is replaced: the same client's, where it
/// is still there; else the old index, or 0 where that is out of range.
pub open spec fn remapped(old_ws: Seq<EveWindow>, index: int, ws: Seq<EveWindow>) -> int {
    let same = if 0 <= index < old_ws.len() {
        window_with_id(ws, old_ws[index].id)
    } else {
        None
    };
    match same {
        Some(i) => i,
        None => if index >= ws.len() && ws.len() > 0 {
            0
        } else {
            index
        },
    }
}

/// The index after the focus is reported to be on window `active`.
pub open spec fn reported(ws: Seq<EveWindow>, index: int, active: WindowId) -> int {
    match window_with_id(ws, active) {
        Some(i) => i,
        None => index,
    }
}

/// An activation so few milliseconds ago that a report is not believed.
pub open spec fn in_grace(since_activation: Option<u128>) -> bool {
    since_activation matches Some(ms) && ms < ACTIVATION_GRACE
}

/// Why a target is refused.
pub enum Refusal {
    /// The order has no entry with this number.
    NoSuchEntry(usize, nat),
    /// There is no window with this number.
    NoSuchWindow(usize, nat),
    /// The character is not logged in.
    NotLoggedIn(Seq<char>),
}

/// The error that reports a refusal.
pub open spec fn reports(e: CycleError, why: Refusal) -> bool {
    match why {
        Refusal::NoSuchEntry(n, count) => e matches CycleError::NoSuchEntry { target, configured }
            && target == n && configured == count,
        Refusal::NoSuchWindow(n, count) => e matches CycleError::NoSuchWindow { target, windows }
            && target == n && windows == count,
        Refusal::NotLoggedIn(who) => e matches CycleError::NotLoggedIn { name } && name@ == who,
    }
}

/// What `switch_to` decides before it asks the window manager anything.
pub enum SwitchTarget {
    /// Nothing to do.
    Stay,
    /// Go to this window.
    Go(int),
    /// Refuse.
    Refuse(Refusal),
}

/// Target numbers start at 1. They count the entries of `order` where there
/// is one, else the windows. No windows, target 0 and the current client's
/// own number change nothing.
pub open spec fn switch_target(
    ws: Seq<EveWindow>,
    index: int,
    order: Option<Seq<Seq<char>>>,
    target: usize,
) -> SwitchTarget {
    if ws.len() == 0 || target == 0 {
        SwitchTarget::Stay
    } else {
        match order {
            Some(names) => if target > names.len() {
                SwitchTarget::Refuse(Refusal::NoSuchEntry(target, names.len()))
            } else {
                match window_titled(ws, names[target - 1]) {
                    Some(i) => if i == index {
                        SwitchTarget::Stay
                    } else {
                        SwitchTarget::Go(i)
                    },
                    None => SwitchTarget::Refuse(Refusal::NotLoggedIn(names[target - 1])),
                }
            },
            None => if target > ws.len() {
                SwitchTarget::Refuse(Refusal::NoSuchWindow(target, ws.len()))
            } else if target - 1 == index {
                SwitchTarget::Stay
            } else {
                SwitchTarget::Go(target - 1)
            },
        }
    }
}

impl CycleState {
    /// The clients.
    pub closed spec fn clients(&self) -> Seq<EveWindow> {
        self.windows@
    }

    /// The position of the current client.
    pub closed spec fn index(&self) -> int {
        self.current_index as int
    }

    /// The configured order, by name.
    pub closed spec fn order(&self) -> Option<Seq<Seq<char>>> {
        match self.character_order {
            Some(names) => Some(text::views(names@)),
            None => None,
        }
    }

    /// When the last activation of our own was made.
    pub closed spec fn activated(&self) -> Option<Instant> {
        self.last_activated
    }

    /// What was read from the clock, in order: one reading for each activation
    /// of our own that succeeded.
    pub closed spec fn readings(&self) -> Seq<Instant> {
        self.clock.readings()
    }

    /// The same record of activations.
    pub open spec fn same_record(&self, other: &CycleState) -> bool {
        self.activated() == other.activated() && self.readings() == other.readings()
    }

    /// `self` has the record of an activation more than `before`: it is the
    /// last one, and its time was read now.
    pub open spec fn records_activation(&self, before: &CycleState) -> bool {
        self.activated() matches Some(now) && self.readings() == before.readings().push(now)
    }

    /// The current client is one of the clients, where there are any.
    pub open spec fn wf(&self) -> bool {
        0 <= self.index() && (self.clients().len() > 0 ==> self.index() < self.clients().len())
    }

    /// The windows that cycling visits.
    pub open spec fn cycle(&self) -> Seq<int> {
        cycle_of(self.clients(), self.order())
    }

    /// The same clients in the same order of cycling.
    pub open spec fn same_clients(&self, other: &CycleState) -> bool {
        self.clients() == other.clients() && self.order() == other.order()
    }

    pub fn new() -> (r: Self)
        ensures
            r.wf(),
            r.index() == 0,
            r.clients() == Seq::<EveWindow>::empty(),
            r.order() is None,
            r.activated() is None,
            r.readings() == Seq::<Instant>::empty(),
    {
        CycleState {
            current_index: 0,
            windows: Vec::new(),
            character_order: None,
            last_activated: None,
            clock: Clock::new(),
        }
    }

    pub fn set_character_order(&mut self, order: Option<Vec<String>>)
        ensures
            final(self).order() == (match order {
                Some(names) => Some(text::views(names@)),
                None => None,
            }),
            final(self).index() == old(self).index(),
            final(self).clients() == old(self).clients(),
            final(self).same_record(old(self)),
    {
        self.character_order = order;
    }

    /// The configured cycle order, as it is now.
    pub fn character_order(&self) -> (r: Option<&Vec<String>>)
        ensures
            self.order() == (match r {
                Some(names) => Some(text::views(names@)),
                None => None,
            }),
    {
        match &self.character_order {
            Some(names) => Some(names),
            None => None,
        }
    }

    fn position_titled(&self, name: &str) -> (r: Option<usize>)
        ensures
            r matches Some(i) ==> window_titled(self.clients(), name@) == Some(i as int) && i
                < self.windows@.len(),
            r is None ==> window_titled(self.clients(), name@) is None,
    {
        let ghost p = |i: int| self.windows@[i].title@ == name@;
        let mut i: usize = 0;
        while i < self.windows.len()
            invariant
                i <= self.windows.len(),
                p == (|i: int| self.windows@[i].title@ == name@),
                forall|k: int| 0 <= k < i ==> !#[trigger] p(k),
            decreases self.windows.len() - i,
        {
            assert(p(i as int) == (self.windows@[i as int].title@ == name@));
            if text::same(self.windows[i].title.as_str(), name) {
                proof {
                    search::lemma_is_first_index(self.windows@.len(), p, i as int);
                }
                return Some(i);
            }
            i = i + 1;
        }
        proof {
            search::lemma_no_first_index(self.windows@.len(), p);
        }
        None
    }

    fn cycle_indices(&self) -> (r: Vec<usize>)
        ensures
            r@.len() == self.cycle().len(),
            forall|k: int| 0 <= k < r@.len() ==> (#[trigger] r@[k]) as int == self.cycle()[k],
            forall|k: int| 0 <= k < r@.len() ==> (#[trigger] r@[k]) < self.windows@.len(),
    {
        proof {
            law_cycle_is_in_range(self.clients(), self.order());
        }
        let mut out: Vec<usize> = Vec::new();
        match &self.character_order {
            Some(names) => {
                let ghost all = text::views(names@);
                let mut i: usize = 0;
                while i < names.len()
                    invariant
                        i <= names.len(),
                        all == text::views(names@),
                        out@.len() == listed_windows(self.clients(), all.take(i as int)).len(),
                        forall|k: int|
                            0 <= k < out@.len() ==> (#[trigger] out@[k]) as int == listed_windows(
                                self.clients(),
                                all.take(i as int),
                            )[k],
                    decreases names.len() - i,
                {
                    assert(all.take(i + 1).drop_last() == all.take(i as int));
                    assert(all.take(i + 1).last() == names@[i as int]@);
                    if let Some(at) = self.position_titled(names[i].as_str()) {
                        out.push(at);
                    }
                    i = i + 1;
                }
                assert(all.take(i as int) == all);
            },
            None => {
                let mut i: usize = 0;
                while i < self.windows.len()
                    invariant
                        i <= self.windows.len(),
                        out@.len() == i,
                        forall|k: int| 0 <= k < out@.len() ==> (#[trigger] out@[k]) as int == k,
                    decreases self.windows.len() - i,
                {
                    out.push(i);
                    i = i + 1;
                }
            },
        }
        assert forall|k: int| 0 <= k < out@.len() implies (#[trigger] out@[k]) < self.windows@.len() by {
            assert(out@[k] as int == self.cycle()[k]);
        }
        out
    }

    /// Replaces the window list. The current client stays current as long as
    /// it is in the list, wherever it stands there.
    pub fn update_windows(&mut self, windows: Vec<EveWindow>)
        requires
            old(self).wf(),
        ensures
            final(self).wf(),
            final(self).clients() == windows@,
            final(self).index() == remapped(old(self).clients(), old(self).index(), windows@),
            final(self).order() == old(self).order(),
            final(self).same_record(old(self)),
    {
        let current: Option<WindowId> = if self.current_index < self.windows.len() {
            Some(self.windows[self.current_index].id)
        } else {
            None
        };
        self.windows = windows;
        if let Some(id) = current {
            if let Some(at) = self.position_with_id(id) {
                self.current_index = at;
                return;
            }
        }
        if self.current_index >= self.windows.len() && self.windows.len() > 0 {
            self.current_index = 0;
        }
    }

    fn position_with_id(&self, id: WindowId) -> (r: Option<usize>)
        ensures
            r matches Some(i) ==> window_with_id(self.clients(), id) == Some(i as int) && i
                < self.windows@.len() && self.windows@[i as int].id == id,
            r is None ==> window_with_id(self.clients(), id) is None,
    {
        let ghost p = |i: int| self.windows@[i].id == id;
        let mut i: usize = 0;
        while i < self.windows.len()
            invariant
                i <= self.windows.len(),
                p == (|i: int| self.windows@[i].id == id),
                forall|k: int| 0 <= k < i ==> !#[trigger] p(k),
            decreases self.windows.len() - i,
        {
            assert(p(i as int) == (self.windows@[i as int].id == id));
            if self.windows[i].id == id {
                proof {
                    search::lemma_is_first_index(self.windows@.len(), p, i as int);
                }
                return Some(i);
            }
            i = i + 1;
        }
        proof {
            search::lemma_no_first_index(self.windows@.len(), p);
        }
        None
    }

    /// The windows in the order of cycling, so that rows stay put as the
    /// focus moves.
    pub fn get_ordered_windows(&self) -> (r: Vec<EveWindow>)
        ensures
            r@ == Seq::new(self.cycle().len(), |k: int| self.clients()[self.cycle()[k]]),
    {
        let cycle: Vec<usize> = self.cycle_indices();
        let mut out: Vec<EveWindow> = Vec::new();
        let mut i: usize = 0;
        while i < cycle.len()
            invariant
                i <= cycle.len(),
                cycle@.len() == self.cycle().len(),
                forall|k: int| 0 <= k < cycle@.len() ==> (#[trigger] cycle@[k]) as int
                    == self.cycle()[k],
                forall|k: int| 0 <= k < cycle@.len() ==> (#[trigger] cycle@[k])
                    < self.windows@.len(),
                out@ == Seq::new(i as nat, |k: int| self.clients()[self.cycle()[k]]),
            decreases cycle.len() - i,
        {
            out.push(self.windows[cycle[i]].clone());
            i = i + 1;
            assert(out@ == Seq::new(i as nat, |k: int| self.clients()[self.cycle()[k]]));
        }
        out
    }

    /// Records that an activation of our own was made now.
    fn record_activation(&mut self)
        ensures
            final(self).records_activation(old(self)),
            final(self).index() == old(self).index(),
            final(self).same_clients(old(self)),
    {
        let now: Instant = self.clock.read();
        self.set_last_activated(Some(now));
    }

    /// Makes the window at `at` current and asks the manager to focus it:
    /// restored before, where `restore`, and the one at `previous` minimized
    /// after.
    fn focus<W: WindowManager>(
        &mut self,
        at: usize,
        wm: &mut W,
        restore: bool,
        previous: Option<usize>,
    ) -> (r: Result<(), CycleError>)
        requires
            at < old(self).clients().len(),
            previous matches Some(p) ==> p < old(self).clients().len(),
        ensures
            final(self).same_clients(old(self)),
            final(self).index() == at,
            exists|answer: Result<(), WmError>|
                {
                    &&& final(wm).requests() == old(wm).requests() + #[trigger] focus_requests(
                        old(self).clients()[at as int].id,
                        id_at(old(self).clients(), previous is Some, previous.unwrap() as int),
                        restore,
                        answer,
                    )
                    &&& r == focus_result(answer)
                    &&& answer is Ok ==> final(self).records_activation(old(self))
                    &&& answer is Err ==> final(self).same_record(old(self))
                },
    {
        let ghost log = wm.requests();
        self.current_index = at;
        let id: WindowId = self.windows[at].id;
        if restore {
            let _ = wm.restore_window(id);
        }
        let answer: Result<(), WmError> = wm.activate_window(id);
        let ghost answered = answer;
        match answer {
            Ok(()) => {},
            Err(e) => {
                assert(wm.requests() =~= log + focus_requests(
                    id,
                    id_at(self.windows@, previous is Some, previous.unwrap() as int),
                    restore,
                    answered,
                ));
                return Err(CycleError::Manager(e));
            },
        }
        self.record_activation();
        if let Some(p) = previous {
            let _ = wm.minimize_window(self.windows[p].id);
        }
        assert(wm.requests() =~= log + focus_requests(
            id,
            id_at(self.windows@, previous is Some, previous.unwrap() as int),
            restore,
            answered,
        ));
        Ok(())
    }

    /// Activates the client whose title is `name`; nothing happens where the
    /// character is not logged in. The current client is activated again, in
    /// case another program took the focus from it.
    pub fn switch_to_character<W: WindowManager>(
        &mut self,
        name: &str,
        wm: &mut W,
        minimize_inactive: bool,
    ) -> (r: Result<(), CycleError>)
        requires
            old(self).wf(),
        ensures
            final(self).wf(),
            final(self).same_clients(old(self)),
            switched_to_character(
                *old(self),
                *final(self),
                old(wm).requests(),
                final(wm).requests(),
                name@,
                minimize_inactive,
                r,
            ),
    {
        match self.position_titled(name) {
            None => Ok(()),
            Some(at) => {
                if at == self.current_index {
                    self.focus(at, wm, false, None)
                } else {
                    let previous: Option<usize> = if minimize_inactive {
                        Some(self.current_index)
                    } else {
                        None
                    };
                    self.focus(at, wm, minimize_inactive, previous)
                }
            },
        }
    }

    pub fn cycle_forward<W: WindowManager>(&mut self, wm: &mut W, minimize_inactive: bool) -> (r:
        Result<(), CycleError>)
        requires
            old(self).wf(),
        ensures
            final(self).wf(),
            final(self).same_clients(old(self)),
            cycled(
                *old(self),
                *final(self),
                old(wm).requests(),
                final(wm).requests(),
                CycleDirection::Forward,
                minimize_inactive,
                r,
            ),
    {
        self.cycle_step(wm, minimize_inactive, CycleDirection::Forward)
    }

    pub fn cycle_backward<W: WindowManager>(&mut self, wm: &mut W, minimize_inactive: bool) -> (r:
        Result<(), CycleError>)
        requires
            old(self).wf(),
        ensures
            final(self).wf(),
            final(self).same_clients(old(self)),
            cycled(
                *old(self),
                *final(self),
                old(wm).requests(),
                final(wm).requests(),
                CycleDirection::Backward,
                minimize_inactive,
                r,
            ),
    {
        self.cycle_step(wm, minimize_inactive, CycleDirection::Backward)
    }

    /// Goes one step through the cycle. Wraps at both ends.
    pub fn cycle_step<W: WindowManager>(
        &mut self,
        wm: &mut W,
        minimize_inactive: bool,
        step: CycleDirection,
    ) -> (r: Result<(), CycleError>)
        requires
            old(self).wf(),
        ensures
            final(self).wf(),
            final(self).same_clients(old(self)),
            cycled(
                *old(self),
                *final(self),
                old(wm).requests(),
                final(wm).requests(),
                step,
                minimize_inactive,
                r,
            ),
    {
        let cycle: Vec<usize> = self.cycle_indices();
        if cycle.len() == 0 {
            return Ok(());
        }
        let ghost c = self.cycle();
        let mut at: usize = 0;
        while at < cycle.len() && cycle[at] != self.current_index
            invariant
                at <= cycle.len(),
                cycle@.len() == c.len(),
                forall|k: int| 0 <= k < cycle@.len() ==> (#[trigger] cycle@[k]) as int == c[k],
                forall|k: int| 0 <= k < at ==> #[trigger] c[k] != self.index(),
            decreases cycle.len() - at,
        {
            at = at + 1;
        }
        let n: usize = cycle.len();
        proof {
            lemma_position_in(c, self.index(), at as int);
        }
        let next: usize = if at < n {
            proof {
                lemma_step_in_range(n as int, at as int, step);
            }
            match step {
                CycleDirection::Forward => if at + 1 == n {
                    0
                } else {
                    at + 1
                },
                CycleDirection::Backward => if at == 0 {
                    n - 1
                } else {
                    at - 1
                },
            }
        } else {
            match step {
                CycleDirection::Forward => 0,
                CycleDirection::Backward => n - 1,
            }
        };
        let target: usize = cycle[next];
        assert(stepped(c, self.index(), step) == Some(target as int));
        let previous: Option<usize> = if minimize_inactive && target != self.current_index {
            Some(self.current_index)
        } else {
            None
        };
        self.focus(target, wm, minimize_inactive, previous)
    }

    pub fn get_windows(&self) -> (r: &Vec<EveWindow>)
        ensures
            r@ == self.clients(),
    {
        &self.windows
    }

    pub fn get_current_index(&self) -> (r: usize)
        ensures
            r == self.index(),
    {
        self.current_index
    }

    /// Makes the window at `index` current, where there is one there or there
    /// are none at all.
    pub fn set_current_index(&mut self, index: usize)
        requires
            old(self).wf(),
        ensures
            final(self).wf(),
            final(self).index() == (if index < old(self).clients().len() || old(
                self,
            ).clients().len() == 0 {
                index as int
            } else {
                old(self).index()
            }),
            final(self).same_clients(old(self)),
            final(self).same_record(old(self)),
    {
        if index < self.windows.len() || self.windows.len() == 0 {
            self.current_index = index;
        }
    }

    pub fn last_activated(&self) -> (r: Option<Instant>)
        ensures
            r == self.activated(),
    {
        self.last_activated
    }

    /// Records when the last activation of our own was made.
    pub fn set_last_activated(&mut self, at: Option<Instant>)
        ensures
            final(self).activated() == at,
            final(self).readings() == old(self).readings(),
            final(self).index() == old(self).index(),
            final(self).same_clients(old(self)),
    {
        self.last_activated = at;
    }

    /// True if we drove an activation within the last `ACTIVATION_GRACE`, by
    /// the clock as it is read now.
    pub fn in_activation_grace(&self) -> (r: bool)
        ensures
            exists|now: Instant| r == in_grace(#[trigger] clock::millis_to(self.activated(), now)),
    {
        grace_holds(clock::millis_since(self.last_activated))
    }

    /// Takes over the reported focus, unless an activation of our own is so
    /// recent that the report may be stale.
    pub fn sync_with_active(&mut self, active_window: WindowId)
        requires
            old(self).wf(),
        ensures
            final(self).wf(),
            final(self).same_clients(old(self)),
            final(self).same_record(old(self)),
            exists|now: Instant|
                final(self).index() == (if in_grace(
                    #[trigger] clock::millis_to(old(self).activated(), now),
                ) {
                    old(self).index()
                } else {
                    reported(old(self).clients(), old(self).index(), active_window)
                }),
    {
        let since: Option<u128> = clock::millis_since(self.last_activated);
        self.sync_after(active_window, since)
    }

    /// Takes over the reported focus, `since_activation` milliseconds after
    /// the last activation of our own.
    pub fn sync_after(&mut self, active_window: WindowId, since_activation: Option<u128>)
        requires
            old(self).wf(),
        ensures
            final(self).wf(),
            final(self).same_clients(old(self)),
            final(self).same_record(old(self)),
            final(self).index() == (if in_grace(since_activation) {
                old(self).index()
            } else {
                reported(old(self).clients(), old(self).index(), active_window)
            }),
    {
        if grace_holds(since_activation) {
            return;
        }
        if let Some(at) = self.position_with_id(active_window) {
            self.current_index = at;
        }
    }

    /// Asks the window manager for the focus and takes over what it reports,
    /// unless an activation of our own is so recent that the report may be
    /// stale.
    pub fn sync_from<W: WindowManager>(&mut self, wm: &mut W)
        requires
            old(self).wf(),
        ensures
            final(self).wf(),
            final(self).same_clients(old(self)),
            exists|since: Option<u128>|
                {
                    &&& clock::can_pass(old(self).activated(), since)
                    &&& #[trigger] asked_focus(
                        *old(self),
                        *final(self),
                        old(wm).requests(),
                        final(wm).requests(),
                        since,
                    )
                },
    {
        let ghost before = *self;
        let answer: Result<WindowId, WmError> = wm.get_active_window();
        let since: Option<u128> = clock::millis_since(self.last_activated);
        if let Ok(active) = answer {
            self.sync_after(active, since);
        }
        assert(asked_focus(before, *self, old(wm).requests(), wm.requests(), since));
    }

    /// The same, but without asking for a report that would not be believed.
    pub fn sync_unless_recent<W: WindowManager>(&mut self, wm: &mut W)
        requires
            old(self).wf(),
        ensures
            final(self).wf(),
            final(self).same_clients(old(self)),
            exists|since: Option<u128>|
                {
                    &&& clock::can_pass(old(self).activated(), since)
                    &&& #[trigger] synced_unless_recent(
                        *old(self),
                        *final(self),
                        old(wm).requests(),
                        final(wm).requests(),
                        since,
                    )
                },
    {
        let since: Option<u128> = clock::millis_since(self.last_activated);
        self.sync_unless_recent_at(wm, since)
    }

    /// The same, `since_activation` milliseconds after the last activation of
    /// our own.
    pub fn sync_unless_recent_at<W: WindowManager>(
        &mut self,
        wm: &mut W,
        since_activation: Option<u128>,
    )
        requires
            old(self).wf(),
        ensures
            final(self).wf(),
            synced_unless_recent(
                *old(self),
                *final(self),
                old(wm).requests(),
                final(wm).requests(),
                since_activation,
            ),
    {
        if grace_holds(since_activation) {
            return;
        }
        let ghost before = *self;
        let answer: Result<WindowId, WmError> = wm.get_active_window();
        if let Ok(active) = answer {
            self.sync_after(active, since_activation);
        }
        assert(asked_focus(before, *self, old(wm).requests(), wm.requests(), since_activation));
    }

    /// Takes over the reported focus, then goes one step.
    pub fn sync_and_cycle<W: WindowManager>(
        &mut self,
        wm: &mut W,
        minimize_inactive: bool,
        step: CycleDirection,
    ) -> (r: Result<(), CycleError>)
        requires
            old(self).wf(),
        ensures
            final(self).wf(),
            final(self).same_clients(old(self)),
            exists|mid: CycleState, log: Seq<Request>, since: Option<u128>|
                {
                    &&& clock::can_pass(old(self).activated(), since)
                    &&& #[trigger] asked_focus(*old(self), mid, old(wm).requests(), log, since)
                    &&& cycled(
                        mid,
                        *final(self),
                        log,
                        final(wm).requests(),
                        step,
                        minimize_inactive,
                        r,
                    )
                },
    {
        self.sync_from(wm);
        self.cycle_step(wm, minimize_inactive, step)
    }

    /// Switches to target number `target`.
    pub fn switch_to<W: WindowManager>(
        &mut self,
        target: usize,
        wm: &mut W,
        minimize_inactive: bool,
        character_order: Option<&Vec<String>>,
    ) -> (r: Result<(), CycleError>)
        requires
            old(self).wf(),
        ensures
            final(self).wf(),
            final(self).same_clients(old(self)),
            switched(
                *old(self),
                *final(self),
                old(wm).requests(),
                final(wm).requests(),
                match character_order {
                    Some(names) => Some(text::views(names@)),
                    None => None,
                },
                target,
                minimize_inactive,
                r,
            ),
    {
        if self.windows.len() == 0 || target == 0 {
            return Ok(());
        }
        let at: usize = match character_order {
            Some(names) => {
                assert(text::views(names@).len() == names@.len());
                if target > names.len() {
                    return Err(CycleError::NoSuchEntry { target, configured: names.len() });
                }
                match self.position_titled(names[target - 1].as_str()) {
                    Some(i) => i,
                    None => {
                        return Err(CycleError::NotLoggedIn { name: names[target - 1].clone() });
                    },
                }
            },
            None => {
                if target > self.windows.len() {
                    return Err(CycleError::NoSuchWindow { target, windows: self.windows.len() });
                }
                target - 1
            },
        };
        if at == self.current_index {
            return Ok(());
        }
        let previous: Option<usize> = if minimize_inactive {
            Some(self.current_index)
        } else {
            None
        };
        self.focus(at, wm, minimize_inactive, previous)
    }
}

/// The manager was asked for the focus and its answer taken over, `since`
/// milliseconds after the last activation of our own.
pub open spec fn asked_focus(
    before: CycleState,
    after: CycleState,
    log: Seq<Request>,
    new_log: Seq<Request>,
    since: Option<u128>,
) -> bool {
    &&& after.same_clients(&before)
    &&& after.same_record(&before)
    &&& exists|answer: Result<WindowId, WmError>|
        {
            &&& new_log == #[trigger] log.push(Request::Active(answer))
            &&& after.index() == (match answer {
                Ok(active) if !in_grace(since) => reported(
                    before.clients(),
                    before.index(),
                    active,
                ),
                _ => before.index(),
            })
        }
}

/// Shortly after an activation of our own nothing happens; later the manager
/// is asked for the focus.
pub open spec fn synced_unless_recent(
    before: CycleState,
    after: CycleState,
    log: Seq<Request>,
    new_log: Seq<Request>,
    since: Option<u128>,
) -> bool {
    if in_grace(since) {
        after == before && new_log == log
    } else {
        asked_focus(before, after, log, new_log, since)
    }
}

/// The focus went to window `i`: it is current, the manager was asked for
/// it, and the result is what the manager answered. Where the activation was
/// refused, the record of the last activation stands.
pub open spec fn moved_focus(
    before: CycleState,
    after: CycleState,
    log: Seq<Request>,
    new_log: Seq<Request>,
    i: int,
    restore: bool,
    minimize: bool,
    r: Result<(), CycleError>,
) -> bool {
    &&& after.same_clients(&before)
    &&& after.index() == i
    &&& exists|answer: Result<(), WmError>|
        {
            &&& new_log == log + #[trigger] focus_requests(
                before.clients()[i].id,
                id_at(before.clients(), minimize, before.index()),
                restore,
                answer,
            )
            &&& r == focus_result(answer)
            &&& answer is Ok ==> after.records_activation(&before)
            &&& answer is Err ==> after.same_record(&before)
        }
}

/// A step through the cycle: nothing happens where the cycle is empty, else
/// the focus goes to the next window. The window that was current is
/// minimized unless it is that one.
pub open spec fn cycled(
    before: CycleState,
    after: CycleState,
    log: Seq<Request>,
    new_log: Seq<Request>,
    step: CycleDirection,
    minimize_inactive: bool,
    r: Result<(), CycleError>,
) -> bool {
    match stepped(before.cycle(), before.index(), step) {
        None => after == before && r is Ok && new_log == log,
        Some(i) => moved_focus(
            before,
            after,
            log,
            new_log,
            i,
            minimize_inactive,
            minimize_inactive && i != before.index(),
            r,
        ),
    }
}

/// A switch to a target number.
pub open spec fn switched(
    before: CycleState,
    after: CycleState,
    log: Seq<Request>,
    new_log: Seq<Request>,
    order: Option<Seq<Seq<char>>>,
    target: usize,
    minimize_inactive: bool,
    r: Result<(), CycleError>,
) -> bool {
    match switch_target(before.clients(), before.index(), order, target) {
        SwitchTarget::Stay => after == before && r is Ok && new_log == log,
        SwitchTarget::Refuse(why) => after == before && (r matches Err(e) && reports(e, why))
            && new_log == log,
        SwitchTarget::Go(i) => moved_focus(
            before,
            after,
            log,
            new_log,
            i,
            minimize_inactive,
            minimize_inactive,
            r,
        ),
    }
}

/// A jump to a character: nothing happens where it is not logged in, else the
/// focus goes to its window. Where that is current already, it is only
/// activated again.
pub open spec fn switched_to_character(
    before: CycleState,
    after: CycleState,
    log: Seq<Request>,
    new_log: Seq<Request>,
    name: Seq<char>,
    minimize_inactive: bool,
    r: Result<(), CycleError>,
) -> bool {
    match window_titled(before.clients(), name) {
        None => after == before && r is Ok && new_log == log,
        Some(i) => moved_focus(
            before,
            after,
            log,
            new_log,
            i,
            minimize_inactive && i != before.index(),
            minimize_inactive && i != before.index(),
            r,
        ),
    }
}

/// Whether an activation of our own, `since_activation` milliseconds ago, is so
/// recent that a report is not believed.
pub fn grace_holds(since_activation: Option<u128>) -> (r: bool)
    ensures
        r == in_grace(since_activation),
{
    match since_activation {
        Some(ms) => ms < ACTIVATION_GRACE,
        None => false,
    }
}

/// The manager carried out an activation.
pub open spec fn activates(request: Request) -> bool {
    request matches Request::Activate(_, answer) && answer is Ok
}

/// The manager carried out an activation while its log grew from `log` to
/// `new_log`.
pub open spec fn activation_succeeded(log: Seq<Request>, new_log: Seq<Request>) -> bool {
    exists|k: int| log.len() <= k < new_log.len() && activates(#[trigger] new_log[k])
}

/// Where an activation succeeded, it is recorded with a reading of the clock;
/// else the record is as it was.
pub open spec fn keeps_record(
    before: CycleState,
    after: CycleState,
    log: Seq<Request>,
    new_log: Seq<Request>,
) -> bool {
    if activation_succeeded(log, new_log) {
        after.records_activation(&before)
    } else {
        after.same_record(&before)
    }
}

proof fn lemma_moved_focus_keeps_record(
    before: CycleState,
    after: CycleState,
    log: Seq<Request>,
    new_log: Seq<Request>,
    i: int,
    restore: bool,
    minimize: bool,
    r: Result<(), CycleError>,
)
    requires
        moved_focus(before, after, log, new_log, i, restore, minimize, r),
    ensures
        keeps_record(before, after, log, new_log),
{
    let id = before.clients()[i].id;
    let previous = id_at(before.clients(), minimize, before.index());
    let answer = choose|answer: Result<(), WmError>|
        {
            &&& new_log == log + #[trigger] focus_requests(id, previous, restore, answer)
            &&& r == focus_result(answer)
            &&& answer is Ok ==> after.records_activation(&before)
            &&& answer is Err ==> after.same_record(&before)
        };
    let asked = focus_requests(id, previous, restore, answer);
    let at: int = if restore {
        1
    } else {
        0
    };
    assert(asked[at] == Request::Activate(id, answer));
    assert(new_log[log.len() + at] == asked[at]);
    assert forall|k: int| log.len() <= k < new_log.len() && activates(
        #[trigger] new_log[k],
    ) implies answer is Ok by {
        assert(new_log[k] == asked[k - log.len()]);
    }
}

/// Only an activation that succeeds starts a time of grace. A step or a switch
/// that changes nothing, one that the manager refuses, and a report of the
/// focus leave the record of the last activation as it was.
pub proof fn law_only_activation_starts_grace(
    before: CycleState,
    after: CycleState,
    log: Seq<Request>,
    new_log: Seq<Request>,
    step: CycleDirection,
    order: Option<Seq<Seq<char>>>,
    target: usize,
    name: Seq<char>,
    minimize_inactive: bool,
    since: Option<u128>,
    r: Result<(), CycleError>,
)
    ensures
        cycled(before, after, log, new_log, step, minimize_inactive, r) ==> keeps_record(
            before,
            after,
            log,
            new_log,
        ),
        switched(before, after, log, new_log, order, target, minimize_inactive, r)
            ==> keeps_record(before, after, log, new_log),
        switched_to_character(before, after, log, new_log, name, minimize_inactive, r)
            ==> keeps_record(before, after, log, new_log),
        synced_unless_recent(before, after, log, new_log, since) ==> keeps_record(
            before,
            after,
            log,
            new_log,
        ),
        asked_focus(before, after, log, new_log, since) ==> keeps_record(
            before,
            after,
            log,
            new_log,
        ),
{
    let m = minimize_inactive;
    if cycled(before, after, log, new_log, step, m, r) {
        if let Some(i) = stepped(before.cycle(), before.index(), step) {
            let minimize = m && i != before.index();
            lemma_moved_focus_keeps_record(before, after, log, new_log, i, m, minimize, r);
        }
    }
    if switched(before, after, log, new_log, order, target, m, r) {
        if let SwitchTarget::Go(i) = switch_target(
            before.clients(),
            before.index(),
            order,
            target,
        ) {
            lemma_moved_focus_keeps_record(before, after, log, new_log, i, m, m, r);
        }
    }
    if switched_to_character(before, after, log, new_log, name, m, r) {
        if let Some(i) = window_titled(before.clients(), name) {
            let other = m && i != before.index();
            lemma_moved_focus_keeps_record(before, after, log, new_log, i, other, other, r);
        }
    }
}

/// What became of a state that had no record of an activation at first, with
/// the manager's log at each point.
pub open spec fn is_history(states: Seq<CycleState>, logs: Seq<Seq<Request>>) -> bool {
    &&& 0 < states.len() == logs.len()
    &&& states[0].activated() is None
    &&& forall|k: int, n: int|
        0 <= k && n == k + 1 && n < states.len() ==> keeps_record(
            #[trigger] states[k],
            #[trigger] states[n],
            logs[k],
            logs[n],
        )
}

/// The reading that was made in the last step of a history in which an
/// activation succeeded; None where there is no such step.
pub open spec fn last_activation(states: Seq<CycleState>, logs: Seq<Seq<Request>>) -> Option<
    Instant,
>
    decreases states.len(),
{
    if states.len() <= 1 {
        None
    } else if activation_succeeded(logs[states.len() - 2], logs[states.len() - 1]) {
        Some(states.last().readings().last())
    } else {
        last_activation(states.drop_last(), logs.drop_last())
    }
}

/// At any reading `now` of the clock the grace holds exactly where an
/// activation of our own succeeded and less than `ACTIVATION_GRACE`
/// milliseconds passed from the reading of the last such one.
pub proof fn law_grace_follows_activation(
    states: Seq<CycleState>,
    logs: Seq<Seq<Request>>,
    now: Instant,
)
    requires
        is_history(states, logs),
    ensures
        states.last().activated() == last_activation(states, logs),
        in_grace(clock::millis_to(states.last().activated(), now)) == (last_activation(
            states,
            logs,
        ) matches Some(t) && clock::millis_between(t, now) < ACTIVATION_GRACE),
    decreases states.len(),
{
    let n = states.len() - 1;
    if n > 0 {
        let front = states.drop_last();
        let front_logs = logs.drop_last();
        assert(is_history(front, front_logs)) by {
            assert forall|k: int, j: int| 0 <= k && j == k + 1 && j < front.len() implies keeps_record(
                #[trigger] front[k],
                #[trigger] front[j],
                front_logs[k],
                front_logs[j],
            ) by {
                assert(front[k] == states[k] && front[j] == states[j]);
            }
        }
        law_grace_follows_activation(front, front_logs, now);
        assert(keeps_record(states[n - 1], states[n], logs[n - 1], logs[n]));
    }
}

/// Replacing the window list keeps the current client current, as long as it
/// is still there.
pub proof fn law_update_keeps_client(old_ws: Seq<EveWindow>, index: int, ws: Seq<EveWindow>, k: int)
    requires
        0 <= index < old_ws.len(),
        0 <= k < ws.len(),
        ws[k].id == old_ws[index].id,
    ensures
        0 <= remapped(old_ws, index, ws) < ws.len(),
        ws[remapped(old_ws, index, ws)].id == old_ws[index].id,
{
    let p = |i: int| ws[i].id == old_ws[index].id;
    search::lemma_first_index(ws.len(), p);
    assert(p(k));
}

/// A report of the focus is believed at most once: the second report of the
/// same window changes nothing.
pub proof fn law_report_is_idempotent(ws: Seq<EveWindow>, index: int, active: WindowId)
    ensures
        reported(ws, reported(ws, index, active), active) == reported(ws, index, active),
{
}

/// Target `n` is the `n`-th entry of the list: wherever that character is
/// logged in and not current, the switch goes to its window.
pub proof fn law_target_is_list_entry(
    ws: Seq<EveWindow>,
    index: int,
    names: Seq<Seq<char>>,
    target: usize,
    i: int,
)
    requires
        1 <= target <= names.len(),
        window_titled(ws, names[target - 1]) == Some(i),
        i != index,
    ensures
        switch_target(ws, index, Some(names), target) == SwitchTarget::Go(i),
        0 <= i < ws.len(),
        ws[i].title@ == names[target - 1],
{
    search::lemma_first_index(ws.len(), |k: int| ws[k].title@ == names[target - 1]);
}

// ---------------------------------------------------------------------
// What the moves are for
// ---------------------------------------------------------------------

/// Window `i` is the first one with the title.
pub open spec fn is_first_titled(ws: Seq<EveWindow>, i: int, name: Seq<char>) -> bool {
    0 <= i < ws.len() && ws[i].title@ == name && forall|k: int|
        0 <= k < i ==> (#[trigger] ws[k]).title@ != name
}

/// No window has the title.
pub open spec fn none_titled(ws: Seq<EveWindow>, name: Seq<char>) -> bool {
    forall|k: int| 0 <= k < ws.len() ==> (#[trigger] ws[k]).title@ != name
}

proof fn lemma_titled(ws: Seq<EveWindow>, name: Seq<char>)
    ensures
        forall|i: int| is_first_titled(ws, i, name) ==> window_titled(ws, name) == Some(i),
        none_titled(ws, name) ==> window_titled(ws, name) is None,
{
    let names = seq![name];
    let p = |i: int| ws[i].title@ == names[0];
    search::lemma_first_index(ws.len(), p);
    assert(window_titled(ws, names[0]) == search::first_index(ws.len(), p));
    assert forall|j: int| is_first_titled(ws, j, name) implies window_titled(ws, name) == Some(
        j,
    ) by {
        assert(p(j));
        let f = window_titled(ws, name).unwrap();
        if f < j {
            assert(ws[f].title@ != name);
        }
    }
    if none_titled(ws, name) {
        if let Some(f) = window_titled(ws, name) {
            assert(ws[f].title@ != name);
        }
    }
}

proof fn lemma_focus_log(
    before: CycleState,
    after: CycleState,
    log: Seq<Request>,
    new_log: Seq<Request>,
    i: int,
    restore: bool,
    minimize: bool,
    r: Result<(), CycleError>,
)
    requires
        moved_focus(before, after, log, new_log, i, restore, minimize, r),
    ensures
        ({
            let id = before.clients()[i].id;
            let at = log.len() + (if restore {
                1int
            } else {
                0
            });
            &&& new_log.len() > at
            &&& new_log.take(log.len() as int) == log
            &&& restore ==> new_log[log.len() as int] == Request::Restore(id)
            &&& new_log[at] matches Request::Activate(w, answer) && w == id && match answer {
                Ok(()) => r is Ok && new_log.len() == at + (if minimize {
                    2int
                } else {
                    1
                }) && (minimize ==> new_log[at + 1] == Request::Minimize(
                    before.clients()[before.index()].id,
                )),
                Err(e) => r == Err::<(), CycleError>(CycleError::Manager(e)) && new_log.len() == at
                    + 1,
            }
        }),
{
    let id = before.clients()[i].id;
    let previous = id_at(before.clients(), minimize, before.index());
    let answer = choose|answer: Result<(), WmError>|
        {
            &&& new_log == log + #[trigger] focus_requests(id, previous, restore, answer)
            &&& r == focus_result(answer)
            &&& answer is Ok ==> after.records_activation(&before)
            &&& answer is Err ==> after.same_record(&before)
        };
    let asked = focus_requests(id, previous, restore, answer);
    let at: int = if restore {
        1
    } else {
        0
    };
    assert(asked[at] == Request::Activate(id, answer));
    assert(new_log[log.len() + at] == asked[at]);
    assert(new_log.take(log.len() as int) =~= log);
    if restore {
        assert(asked[0] == Request::Restore(id));
        assert(new_log[log.len() as int] == asked[0]);
    }
    if minimize && answer is Ok {
        assert(asked[at + 1] == Request::Minimize(before.clients()[before.index()].id));
        assert(new_log[log.len() + at + 1] == asked[at + 1]);
    }
}

/// A switch by number that goes to another window focuses that window. Where
/// inactive clients are minimized, it is restored first, and the window that
/// was current is minimized once the focus has moved; else the activation is
/// all that the manager is asked for. Number `n` is the `n`-th window, or the
/// window of the `n`-th listed character.
pub proof fn law_switch_focuses_the_target(
    before: CycleState,
    after: CycleState,
    log: Seq<Request>,
    new_log: Seq<Request>,
    order: Option<Seq<Seq<char>>>,
    target: usize,
    minimize_inactive: bool,
    r: Result<(), CycleError>,
    i: int,
)
    requires
        switched(before, after, log, new_log, order, target, minimize_inactive, r),
        target >= 1,
        0 <= i < before.clients().len(),
        i != before.index(),
        match order {
            None => i == target - 1,
            Some(names) => target <= names.len() && is_first_titled(
                before.clients(),
                i,
                names[target - 1],
            ),
        },
    ensures
        after.index() == i,
        after.clients() == before.clients(),
        after.order() == before.order(),
        ({
            let id = before.clients()[i].id;
            let at = log.len() + (if minimize_inactive {
                1int
            } else {
                0
            });
            &&& new_log.take(log.len() as int) == log
            &&& minimize_inactive ==> new_log[log.len() as int] == Request::Restore(id)
            &&& new_log[at] matches Request::Activate(w, answer) && w == id && match answer {
                Ok(()) => r is Ok && new_log.len() == at + (if minimize_inactive {
                    2int
                } else {
                    1
                }) && (minimize_inactive ==> new_log[at + 1] == Request::Minimize(
                    before.clients()[before.index()].id,
                )),
                Err(e) => r == Err::<(), CycleError>(CycleError::Manager(e)) && new_log.len() == at
                    + 1,
            }
        }),
{
    if let Some(names) = order {
        lemma_titled(before.clients(), names[target - 1]);
    }
    let m = minimize_inactive;
    lemma_focus_log(before, after, log, new_log, i, m, m, r);
}

/// A switch by number that cannot go anywhere changes nothing and asks the
/// manager for nothing: target 0, no windows and the current window's own
/// number are no errors; a number beyond the list or the windows and a
/// character that is not logged in are, each its own.
pub proof fn law_switch_stays_or_refuses(
    before: CycleState,
    after: CycleState,
    log: Seq<Request>,
    new_log: Seq<Request>,
    order: Option<Seq<Seq<char>>>,
    target: usize,
    minimize_inactive: bool,
    r: Result<(), CycleError>,
)
    requires
        switched(before, after, log, new_log, order, target, minimize_inactive, r),
    ensures
        target == 0 || before.clients().len() == 0 ==> r is Ok && after == before && new_log == log,
        target >= 1 && before.clients().len() > 0 ==> match order {
            None => {
                &&& target - 1 == before.index() && target <= before.clients().len() ==> r is Ok
                    && after == before && new_log == log
                &&& target > before.clients().len() ==> after == before && new_log == log && (
                r matches Err(CycleError::NoSuchWindow { target: t, windows }) && t == target
                    && windows == before.clients().len())
            },
            Some(names) => {
                &&& target > names.len() ==> after == before && new_log == log && (
                r matches Err(CycleError::NoSuchEntry { target: t, configured }) && t == target
                    && configured == names.len())
                &&& target <= names.len() && none_titled(before.clients(), names[target - 1])
                    ==> after == before && new_log == log && (
                r matches Err(CycleError::NotLoggedIn { name }) && name@ == names[target - 1])
                &&& target <= names.len() && is_first_titled(
                    before.clients(),
                    before.index(),
                    names[target - 1],
                ) ==> r is Ok && after == before && new_log == log
            },
        },
{
    if let Some(names) = order {
        if 1 <= target <= names.len() {
            lemma_titled(before.clients(), names[target - 1]);
        }
    }
}

/// A jump to a character focuses its first window, as a switch does. Where
/// that window is current already, it is activated again and nothing else; a
/// character that is not logged in changes nothing.
pub proof fn law_jump_focuses_the_character(
    before: CycleState,
    after: CycleState,
    log: Seq<Request>,
    new_log: Seq<Request>,
    name: Seq<char>,
    minimize_inactive: bool,
    r: Result<(), CycleError>,
    i: int,
)
    requires
        switched_to_character(before, after, log, new_log, name, minimize_inactive, r),
    ensures
        none_titled(before.clients(), name) ==> r is Ok && after == before && new_log == log,
        is_first_titled(before.clients(), i, name) ==> ({
            let id = before.clients()[i].id;
            let m = minimize_inactive && i != before.index();
            let at = log.len() + (if m {
                1int
            } else {
                0
            });
            &&& after.index() == i
            &&& after.clients() == before.clients()
            &&& new_log.take(log.len() as int) == log
            &&& m ==> new_log[log.len() as int] == Request::Restore(id)
            &&& new_log[at] matches Request::Activate(w, answer) && w == id && match answer {
                Ok(()) => r is Ok && new_log.len() == at + (if m {
                    2int
                } else {
                    1
                }) && (m ==> new_log[at + 1] == Request::Minimize(
                    before.clients()[before.index()].id,
                )),
                Err(e) => r == Err::<(), CycleError>(CycleError::Manager(e)) && new_log.len() == at
                    + 1,
            }
        }),
{
    lemma_titled(before.clients(), name);
    if is_first_titled(before.clients(), i, name) {
        let m = minimize_inactive && i != before.index();
        lemma_focus_log(before, after, log, new_log, i, m, m, r);
    }
}

/// A step focuses the window that it ends at. Where inactive clients are
/// minimized, that window is restored first, and the one that was current is
/// minimized once the focus has moved away from it. Where there is nothing to
/// cycle through, nothing happens.
pub proof fn law_step_focuses_where_it_ends(
    before: CycleState,
    after: CycleState,
    log: Seq<Request>,
    new_log: Seq<Request>,
    step: CycleDirection,
    minimize_inactive: bool,
    r: Result<(), CycleError>,
)
    requires
        cycled(before, after, log, new_log, step, minimize_inactive, r),
    ensures
        after.clients() == before.clients(),
        after.order() == before.order(),
        before.cycle().len() == 0 ==> r is Ok && after == before && new_log == log,
        before.cycle().len() > 0 ==> ({
            let id = before.clients()[after.index()].id;
            let at = log.len() + (if minimize_inactive {
                1int
            } else {
                0
            });
            let left = minimize_inactive && after.index() != before.index();
            &&& new_log.take(log.len() as int) == log
            &&& minimize_inactive ==> new_log[log.len() as int] == Request::Restore(id)
            &&& new_log[at] matches Request::Activate(w, answer) && w == id && match answer {
                Ok(()) => r is Ok && new_log.len() == at + (if left {
                    2int
                } else {
                    1
                }) && (left ==> new_log[at + 1] == Request::Minimize(
                    before.clients()[before.index()].id,
                )),
                Err(e) => r == Err::<(), CycleError>(CycleError::Manager(e)) && new_log.len() == at
                    + 1,
            }
        }),
{
    if let Some(i) = stepped(before.cycle(), before.index(), step) {
        let m = minimize_inactive;
        lemma_focus_log(before, after, log, new_log, i, m, m && i != before.index(), r);
    }
}

/// Without a list, a step goes to the next window in the manager's order or to
/// the previous one, around the ends.
pub proof fn law_step_without_a_list(
    before: CycleState,
    after: CycleState,
    log: Seq<Request>,
    new_log: Seq<Request>,
    step: CycleDirection,
    minimize_inactive: bool,
    r: Result<(), CycleError>,
)
    requires
        cycled(before, after, log, new_log, step, minimize_inactive, r),
        before.wf(),
        before.order() is None,
    ensures
        before.cycle().len() == before.clients().len(),
        before.clients().len() > 0 && step == CycleDirection::Forward ==> after.index() == (
        if before.index() + 1 < before.clients().len() {
            before.index() + 1
        } else {
            0
        }),
        before.clients().len() > 0 && step == CycleDirection::Backward ==> after.index() == (
        if before.index() > 0 {
            before.index() - 1
        } else {
            before.clients().len() - 1
        }),
{
    let cycle = before.cycle();
    if before.clients().len() > 0 {
        lemma_position(cycle, before.index());
        lemma_step_in_range(cycle.len() as int, before.index(), step);
    }
}

proof fn lemma_listed_prefix(ws: Seq<EveWindow>, names: Seq<Seq<char>>, k: int)
    requires
        0 <= k <= names.len(),
    ensures
        listed_windows(ws, names.take(k)).is_prefix_of(listed_windows(ws, names)),
    decreases names.len() - k,
{
    if k == names.len() {
        assert(names.take(k) == names);
    } else {
        lemma_listed_prefix(ws, names, k + 1);
        assert(names.take(k + 1).drop_last() == names.take(k));
    }
}

proof fn lemma_listed_next(ws: Seq<EveWindow>, names: Seq<Seq<char>>, j: int, i: int)
    requires
        0 <= j < names.len(),
        is_first_titled(ws, i, names[j]),
    ensures
        listed_windows(ws, names.take(j + 1)) == listed_windows(ws, names.take(j)).push(i),
        ({
            let p = listed_windows(ws, names.take(j)).len();
            p < listed_windows(ws, names).len() && listed_windows(ws, names)[p as int] == i
        }),
{
    assert(names.take(j + 1).drop_last() == names.take(j));
    assert(names.take(j + 1).last() == names[j]);
    lemma_titled(ws, names[j]);
    lemma_listed_prefix(ws, names, j + 1);
    let upto = listed_windows(ws, names.take(j + 1));
    assert(upto[upto.len() - 1] == i);
}

proof fn lemma_none_listed(ws: Seq<EveWindow>, names: Seq<Seq<char>>, a: int, b: int)
    requires
        0 <= a <= b <= names.len(),
        forall|t: int| a <= t < b ==> none_titled(ws, #[trigger] names[t]),
    ensures
        listed_windows(ws, names.take(b)) == listed_windows(ws, names.take(a)),
    decreases b - a,
{
    if a < b {
        lemma_none_listed(ws, names, a, b - 1);
        assert(names.take(b).drop_last() == names.take(b - 1));
        assert(names.take(b).last() == names[b - 1]);
        lemma_titled(ws, names[b - 1]);
    }
}

/// With a list, steps follow it: from the window of the `j`-th character a
/// step forward goes to that of the next listed character who is logged in,
/// the `q`-th, and a step backward from there goes back.
pub proof fn law_step_follows_the_list(
    before: CycleState,
    after: CycleState,
    log: Seq<Request>,
    new_log: Seq<Request>,
    step: CycleDirection,
    minimize_inactive: bool,
    r: Result<(), CycleError>,
    names: Seq<Seq<char>>,
    j: int,
    q: int,
    i: int,
    w: int,
)
    requires
        cycled(before, after, log, new_log, step, minimize_inactive, r),
        before.order() == Some(names),
        names.no_duplicates(),
        0 <= j < q < names.len(),
        is_first_titled(before.clients(), i, names[j]),
        is_first_titled(before.clients(), w, names[q]),
        forall|t: int| j < t < q ==> none_titled(before.clients(), #[trigger] names[t]),
    ensures
        before.index() == i && step == CycleDirection::Forward ==> after.index() == w,
        before.index() == w && step == CycleDirection::Backward ==> after.index() == i,
{
    let ws = before.clients();
    let cycle = before.cycle();
    let p = listed_windows(ws, names.take(j)).len() as int;
    lemma_listed_next(ws, names, j, i);
    lemma_listed_next(ws, names, q, w);
    lemma_none_listed(ws, names, j + 1, q);
    lemma_listed_distinct(ws, names);
    assert(cycle[p] == i && cycle[p + 1] == w);
    lemma_position(cycle, p);
    lemma_position(cycle, p + 1);
    lemma_step_in_range(cycle.len() as int, p, CycleDirection::Forward);
    lemma_step_in_range(cycle.len() as int, p + 1, CycleDirection::Backward);
}

/// The list is a ring: `q` is the first listed character who is logged in and
/// `j` the last one. A step forward from the last goes to the first, and one
/// backward from the first to the last. A current window that is not listed
/// enters the ring at the first going forward and at the last going backward.
pub proof fn law_list_is_a_ring(
    before: CycleState,
    after: CycleState,
    log: Seq<Request>,
    new_log: Seq<Request>,
    step: CycleDirection,
    minimize_inactive: bool,
    r: Result<(), CycleError>,
    names: Seq<Seq<char>>,
    j: int,
    q: int,
    i: int,
    w: int,
)
    requires
        cycled(before, after, log, new_log, step, minimize_inactive, r),
        before.wf(),
        before.order() == Some(names),
        names.no_duplicates(),
        0 <= q <= j < names.len(),
        is_first_titled(before.clients(), i, names[j]),
        is_first_titled(before.clients(), w, names[q]),
        forall|t: int| j < t < names.len() ==> none_titled(before.clients(), #[trigger] names[t]),
        forall|t: int| 0 <= t < q ==> none_titled(before.clients(), #[trigger] names[t]),
    ensures
        step == CycleDirection::Forward && (before.index() == i || !names.contains(
            before.clients()[before.index()].title@,
        )) ==> after.index() == w,
        step == CycleDirection::Backward && (before.index() == w || !names.contains(
            before.clients()[before.index()].title@,
        )) ==> after.index() == i,
{
    let ws = before.clients();
    let cycle = before.cycle();
    let p = listed_windows(ws, names.take(j)).len() as int;
    lemma_listed_next(ws, names, j, i);
    lemma_listed_next(ws, names, q, w);
    lemma_none_listed(ws, names, j + 1, names.len() as int);
    lemma_none_listed(ws, names, 0, q);
    assert(names.take(names.len() as int) == names);
    assert(names.take(0) == Seq::<Seq<char>>::empty());
    lemma_listed_distinct(ws, names);
    assert(cycle.len() == p + 1);
    assert(cycle[p] == i && cycle[0] == w);
    lemma_position(cycle, p);
    lemma_position(cycle, 0);
    lemma_step_in_range(cycle.len() as int, p, CycleDirection::Forward);
    lemma_step_in_range(cycle.len() as int, 0, CycleDirection::Backward);
    if !names.contains(ws[before.index()].title@) {
        assert forall|k: int| 0 <= k < cycle.len() implies cycle[k] != before.index() by {
            law_cycle_visits_listed_only(ws, names, k);
        }
        lemma_position_in(cycle, before.index(), cycle.len() as int);
    }
}

/// The manager is asked for the focus, and where it reports a client's window,
/// that client becomes current, unless our own last activation is less than
/// 300 milliseconds ago. Whatever else it answers leaves the current client.
pub proof fn law_report_moves_the_cycle(
    before: CycleState,
    after: CycleState,
    log: Seq<Request>,
    new_log: Seq<Request>,
    since: Option<u128>,
    i: int,
)
    requires
        asked_focus(before, after, log, new_log, since),
        0 <= i < before.clients().len(),
    ensures
        after.clients() == before.clients(),
        after.order() == before.order(),
        new_log.len() == log.len() + 1,
        new_log.take(log.len() as int) == log,
        new_log[log.len() as int] matches Request::Active(answer) && match answer {
            Ok(active) => {
                &&& (since matches Some(ms) && ms < 300) ==> after.index() == before.index()
                &&& (since matches Some(ms) ==> ms >= 300) && before.clients()[i].id == active && (
                forall|k: int| 0 <= k < i ==> (#[trigger] before.clients()[k]).id != active)
                    ==> after.index() == i
                &&& (forall|k: int|
                    0 <= k < before.clients().len() ==> (#[trigger] before.clients()[k]).id
                        != active) ==> after.index() == before.index()
            },
            Err(_) => after.index() == before.index(),
        },
{
    let ws = before.clients();
    let answer = choose|answer: Result<WindowId, WmError>|
        {
            &&& new_log == #[trigger] log.push(Request::Active(answer))
            &&& after.index() == (match answer {
                Ok(active) if !in_grace(since) => reported(
                    before.clients(),
                    before.index(),
                    active,
                ),
                _ => before.index(),
            })
        };
    assert(new_log.take(log.len() as int) =~= log);
    if let Ok(active) = answer {
        let p = |k: int| ws[k].id == active;
        search::lemma_first_index(ws.len(), p);
        if ws[i].id == active && forall|k: int| 0 <= k < i ==> (#[trigger] ws[k]).id != active {
            assert forall|k: int| 0 <= k < i implies !#[trigger] p(k) by {
                assert(ws[k].id != active);
            }
            search::lemma_is_first_index(ws.len(), p, i);
        }
        if forall|k: int| 0 <= k < ws.len() ==> (#[trigger] ws[k]).id != active {
            assert forall|k: int| 0 <= k < ws.len() implies !#[trigger] p(k) by {
                assert(ws[k].id != active);
            }
            search::lemma_no_first_index(ws.len(), p);
        }
    }
}

/// Shortly after an activation of our own the manager is not even asked.
pub proof fn law_recent_activation_asks_nothing(
    before: CycleState,
    after: CycleState,
    log: Seq<Request>,
    new_log: Seq<Request>,
    since: Option<u128>,
)
    requires
        synced_unless_recent(before, after, log, new_log, since),
    ensures
        (since matches Some(ms) && ms < 300) ==> after == before && new_log == log,
        (since matches Some(ms) ==> ms >= 300) ==> asked_focus(before, after, log, new_log, since)
            && new_log.len() == log.len() + 1,
{
}

/// Where the current client is gone from a new window list, its place stays
/// current if the list has it, and the first window is current if not.
pub proof fn law_update_without_the_client(old_ws: Seq<EveWindow>, index: int, ws: Seq<EveWindow>)
    requires
        0 <= index < old_ws.len(),
        forall|k: int| 0 <= k < ws.len() ==> (#[trigger] ws[k]).id != old_ws[index].id,
    ensures
        index < ws.len() ==> remapped(old_ws, index, ws) == index,
        0 < ws.len() <= index ==> remapped(old_ws, index, ws) == 0,
{
    let p = |i: int| ws[i].id == old_ws[index].id;
    assert forall|k: int| 0 <= k < ws.len() implies !#[trigger] p(k) by {
        assert(ws[k].id != old_ws[index].id);
    }
    search::lemma_no_first_index(ws.len(), p);
}

/// The message of a refusal names what was asked for and how much there is.
pub proof fn law_message_names_the_numbers(target: usize, count: usize)
    ensures
        ({
            let entry = CycleError::NoSuchEntry { target, configured: count }.text();
            let window = CycleError::NoSuchWindow { target, windows: count }.text();
            &&& text::has_substring(entry, numerals::decimal(target as nat))
            &&& text::has_substring(entry, numerals::decimal(count as nat))
            &&& text::has_substring(window, numerals::decimal(target as nat))
            &&& text::has_substring(window, numerals::decimal(count as nat))
            &&& entry != window
        }),
{
    let t = numerals::decimal(target as nat);
    let c = numerals::decimal(count as nat);
    let a = "Target "@;
    let b = " is out of range (only "@;
    reveal_strlit(" characters configured)");
    reveal_strlit(" windows)");
    let entry = CycleError::NoSuchEntry { target, configured: count }.text();
    let window = CycleError::NoSuchWindow { target, windows: count }.text();
    let n = a.len() as int;
    let m = (a.len() + t.len() + b.len()) as int;
    assert(entry.subrange(n, n + t.len()) =~= t);
    assert(window.subrange(n, n + t.len()) =~= t);
    assert(entry.subrange(m, m + c.len()) =~= c);
    assert(window.subrange(m, m + c.len()) =~= c);
    assert(entry.len() != window.len());
}

} // verus!
