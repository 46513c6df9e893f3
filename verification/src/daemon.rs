//! The daemon: commands from other processes, and settings that change while
//! it runs.
use vstd::prelude::*;
use crate::clock;
use crate::config::{Config, LiveSettings, Platform};
use crate::cycle_state;
use crate::cycle_state::{CycleError, CycleState};
use crate::keyboard_listener;
use crate::keyboard_listener::KeyboardConfig;
use crate::mouse_listener::MouseConfig;
use crate::numerals;
use crate::text;
use crate::window_manager::{DisplayServer, EveWindow, Request, WaylandCompositor, WindowManager, WmError};
use crate::windows_helpers::CycleDirection;

verus! {

/// A command to the daemon.
#[derive(Debug, Clone, Copy, PartialEq, Eq, Structural)]
pub enum Command {
    Forward,
    Backward,
    Switch(usize),
    Refresh,
    Stack,
    Quit,
}

/// The command that a line asks for. White space around it does not count.
pub open spec fn command_of(line: Seq<char>) -> Option<Command> {
    let s = text::trimmed(line);
    if s == "forward"@ {
        Some(Command::Forward)
    } else if s == "backward"@ {
        Some(Command::Backward)
    } else if s == "refresh"@ {
        Some(Command::Refresh)
    } else if s == "stack"@ {
        Some(Command::Stack)
    } else if s == "quit"@ {
        Some(Command::Quit)
    } else {
        match text::after_prefix(s, "switch:"@) {
            Some(n) => match numerals::unsigned_to(n, 10, usize::MAX as nat) {
                Some(target) => Some(Command::Switch(target as usize)),
                None => None,
            },
            None => None,
        }
    }
}

impl Command {
    pub fn from_str(s: &str) -> (r: Option<Self>)
        ensures
            r == command_of(s@),
    {
        let t: String = text::trim(s);
        if text::same(t.as_str(), "forward") {
            Some(Command::Forward)
        } else if text::same(t.as_str(), "backward") {
            Some(Command::Backward)
        } else if text::same(t.as_str(), "refresh") {
            Some(Command::Refresh)
        } else if text::same(t.as_str(), "stack") {
            Some(Command::Stack)
        } else if text::same(t.as_str(), "quit") {
            Some(Command::Quit)
        } else {
            match text::strip_prefix(t.as_str(), "switch:") {
                Some(n) => match numerals::parse_usize(n.as_str()) {
                    Some(target) => Some(Command::Switch(target)),
                    None => None,
                },
                None => None,
            }
        }
    }

    /// The line that asks for a command.
    pub open spec fn line(self) -> Seq<char> {
        match self {
            Command::Forward => "forward"@,
            Command::Backward => "backward"@,
            Command::Switch(n) => "switch:"@ + numerals::decimal(n as nat),
            Command::Refresh => "refresh"@,
            Command::Stack => "stack"@,
            Command::Quit => "quit"@,
        }
    }
}

/// The line to send to a running daemon for a command.
pub fn send_command(command: Command) -> (r: String)
    ensures
        r@ == command.line(),
{
    match command {
        Command::Forward => "forward".to_owned(),
        Command::Backward => "backward".to_owned(),
        Command::Switch(n) => text::joined("switch:", numerals::write_decimal(n as u64).as_str()),
        Command::Refresh => "refresh".to_owned(),
        Command::Stack => "stack".to_owned(),
        Command::Quit => "quit".to_owned(),
    }
}

proof fn lemma_not_white(s: Seq<char>)
    requires
        s.len() > 0,
        !text::is_white_space(s[0]),
        !text::is_white_space(s.last()),
    ensures
        text::trimmed(s) == s,
{
}

proof fn lemma_digits_are_graphic(n: nat)
    ensures
        numerals::decimal(n).len() > 0,
        '0' <= numerals::decimal(n).last() <= '9',
{
    if n >= 10 {
        assert(numerals::decimal(n).last() == numerals::digit_char(n % 10, false));
    }
}

/// A command that is sent is the command that is received.
pub proof fn law_sent_command_is_received(command: Command)
    ensures
        command_of(command.line()) == Some(command),
{
    reveal_strlit("forward");
    reveal_strlit("backward");
    reveal_strlit("refresh");
    reveal_strlit("stack");
    reveal_strlit("quit");
    reveal_strlit("switch:");
    let s = command.line();
    match command {
        Command::Switch(n) => {
            let d = numerals::decimal(n as nat);
            lemma_digits_are_graphic(n as nat);
            assert(s[0] == 's');
            assert(s.last() == d.last());
            lemma_not_white(s);
            assert(s[1] == 'w');
            assert(s.take(7) == "switch:"@);
            assert(s.skip(7) == d);
            assert(s != "stack"@) by {
                assert("stack"@[1] == 't');
            }
            assert(s != "forward"@ && s != "backward"@ && s != "refresh"@ && s != "quit"@) by {
                assert("forward"@[0] == 'f');
                assert("backward"@[0] == 'b');
                assert("refresh"@[0] == 'r');
                assert("quit"@[0] == 'q');
            }
            numerals::law_written_number_reads_back(n as nat, 10, false, usize::MAX as nat);
        },
        _ => {
            lemma_not_white(s);
            assert("forward"@[0] == 'f');
            assert("backward"@[0] == 'b');
            assert("refresh"@[0] == 'r');
            assert("stack"@[0] == 's');
            assert("quit"@[0] == 'q');
        },
    }
}

/// The order of cycling: the configured characters where there are any, else
/// the lines of the order file where it has any, else none.
pub open spec fn order_of(characters: Seq<Seq<char>>, order_file: Option<Seq<char>>) -> Option<
    Seq<Seq<char>>,
> {
    if characters.len() > 0 {
        Some(characters)
    } else {
        match order_file {
            Some(f) => if text::lines_of(f).len() > 0 {
                Some(text::lines_of(f))
            } else {
                None
            },
            None => None,
        }
    }
}

/// The names of an order, where there is one.
pub open spec fn names_of(order: Option<Vec<String>>) -> Option<Seq<Seq<char>>> {
    match order {
        Some(v) => Some(text::views(v@)),
        None => None,
    }
}

pub open spec fn str_of(s: Option<&str>) -> Option<Seq<char>> {
    match s {
        Some(t) => Some(t@),
        None => None,
    }
}

pub fn cycle_order(characters: &Vec<String>, order_file: Option<&str>) -> (r: Option<Vec<String>>)
    ensures
        names_of(r) == order_of(text::views(characters@), str_of(order_file)),
{
    assert(text::views(characters@).len() == characters@.len());
    if characters.len() > 0 {
        return Some(text::copy_all(characters));
    }
    match order_file {
        Some(f) => {
            let ls: Vec<String> = text::lines(f);
            assert(text::views(ls@).len() == ls@.len());
            if ls.len() > 0 {
                Some(ls)
            } else {
                None
            }
        },
        None => None,
    }
}

fn copy_order(order: &Option<Vec<String>>) -> (r: Option<Vec<String>>)
    ensures
        names_of(r) == names_of(*order),
{
    match order {
        Some(v) => Some(text::copy_all(v)),
        None => None,
    }
}

fn same_order(a: &Option<Vec<String>>, b: &Option<Vec<String>>) -> (r: bool)
    ensures
        r == (names_of(*a) == names_of(*b)),
{
    match (a, b) {
        (Some(x), Some(y)) => text::same_all(x, y),
        (None, None) => true,
        _ => false,
    }
}

/// What became of a command line.
#[derive(Debug)]
pub enum Outcome {
    /// It was carried out.
    Done,
    /// It is no command.
    Unknown,
    /// Stacking failed.
    RestackFailed(WmError),
    /// The daemon is to end.
    Quit,
}

/// Why a command failed.
#[derive(Debug)]
pub enum DaemonError {
    Cycle(CycleError),
    Manager(WmError),
}

/// What a reload changed.
#[derive(Debug, Clone, Copy, PartialEq, Eq, Structural)]
pub struct ReloadReport {
    pub order_changed: bool,
    pub mouse_changed: bool,
    pub keyboard_changed: bool,
    /// A binding that is registered with the system changed.
    pub hotkeys_changed: bool,
    /// The mouse buttons were switched on or off.
    pub mouse_enabled_changed: bool,
}

/// The daemon's state: the clients, and the settings as of the last reload.
pub struct Daemon {
    pub state: CycleState,
    pub config: Config,
    pub live: LiveSettings,
    pub mouse_config: MouseConfig,
    pub keyboard_config: KeyboardConfig,
    pub last_order: Option<Vec<String>>,
}

/// Whether a binding that is registered with the system differs.
pub open spec fn bindings_differ(a: KeyboardConfig, b: KeyboardConfig) -> bool {
    !(a.enable == b.enable && a.forward_key == b.forward_key && a.backward_key == b.backward_key
        && a.modifier_key == b.modifier_key && a.character_hotkeys@ == b.character_hotkeys@
        && a.toggle_previews_key == b.toggle_previews_key && a.toggle_previews_modifier
        == b.toggle_previews_modifier)
}

fn hotkeys_differ(a: &KeyboardConfig, b: &KeyboardConfig) -> (r: bool)
    ensures
        r == bindings_differ(*a, *b),
{
    !(a.enable == b.enable && a.forward_key == b.forward_key && a.backward_key == b.backward_key
        && a.modifier_key == b.modifier_key && keyboard_listener::same_hotkeys(
        &a.character_hotkeys,
        &b.character_hotkeys,
    ) && a.toggle_previews_key == b.toggle_previews_key && a.toggle_previews_modifier
        == b.toggle_previews_modifier)
}

/// The settings of the mouse listener that a configuration gives.
pub open spec fn is_mouse_config_of(m: MouseConfig, c: Config) -> bool {
    &&& m.enable == c.enable_mouse_buttons
    &&& m.forward_button == c.forward_button
    &&& m.backward_button == c.backward_button
    &&& text::opt_view(m.mouse_device_name) == text::opt_view(c.mouse_device_name)
    &&& text::opt_view(m.mouse_device_path) == text::opt_view(c.mouse_device_path)
    &&& m.minimize_inactive == c.minimize_inactive
}

/// The settings of the keyboard listener that a configuration gives.
pub open spec fn is_keyboard_config_of(k: KeyboardConfig, c: Config) -> bool {
    &&& k.enable == c.enable_keyboard_buttons
    &&& k.forward_key == c.forward_key
    &&& k.backward_key == c.backward_key
    &&& k.modifier_key == c.modifier_key
    &&& text::opt_view(k.keyboard_device_name) == text::opt_view(
        c.keyboard_device_name,
    )
    &&& text::opt_view(k.keyboard_device_path) == text::opt_view(
        c.keyboard_device_path,
    )
    &&& k.minimize_inactive == c.minimize_inactive
    &&& k.character_hotkeys@ == c.character_hotkeys@
    &&& k.toggle_previews_key == c.toggle_previews_key
    &&& k.toggle_previews_modifier == c.toggle_previews_modifier
}

/// The clients after the manager was asked for them: its list, or the old
/// one where it failed.
pub open spec fn relisted(
    before: CycleState,
    after: CycleState,
    answer: Result<Vec<EveWindow>, WmError>,
) -> bool {
    &&& after.order() == before.order()
    &&& after.same_record(&before)
    &&& match answer {
        Ok(ws) => after.clients() == ws@ && after.index() == cycle_state::remapped(
            before.clients(),
            before.index(),
            ws@,
        ),
        Err(_) => after.clients() == before.clients() && after.index() == before.index(),
    }
}

/// What a command does, by the daemon's state and the manager's log.
pub open spec fn carried_out(
    command: Command,
    before: CycleState,
    after: CycleState,
    config: Config,
    log: Seq<Request>,
    new_log: Seq<Request>,
    r: Result<Outcome, DaemonError>,
) -> bool {
    match command {
        Command::Forward => cycled_after_sync(
            before,
            after,
            config.minimize_inactive,
            CycleDirection::Forward,
            log,
            new_log,
            r,
        ),
        Command::Backward => cycled_after_sync(
            before,
            after,
            config.minimize_inactive,
            CycleDirection::Backward,
            log,
            new_log,
            r,
        ),
        Command::Switch(target) => exists|
            mid: CycleState,
            mid_log: Seq<Request>,
            since: Option<u128>,
            c: Result<(), CycleError>,
        |
            {
                &&& clock::can_pass(before.activated(), since)
                &&& #[trigger] cycle_state::asked_focus(before, mid, log, mid_log, since)
                &&& #[trigger] cycle_state::switched(
                    mid,
                    after,
                    mid_log,
                    new_log,
                    before.order(),
                    target,
                    config.minimize_inactive,
                    c,
                )
                &&& answers(r, c)
            },
        Command::Refresh => exists|answer: Result<Vec<EveWindow>, WmError>|
            {
                &&& new_log == #[trigger] log.push(Request::Windows(answer))
                &&& relisted(before, after, answer)
                &&& match answer {
                    Ok(_) => r matches Ok(Outcome::Done),
                    Err(e) => r == Err::<Outcome, DaemonError>(DaemonError::Manager(e)),
                }
            },
        Command::Stack => after == before && exists|answer: Result<Vec<EveWindow>, WmError>|
            stacked(answer, config, log.push(Request::Windows(answer)), new_log, r),
        Command::Quit => after == before && new_log == log && r matches Ok(Outcome::Quit),
    }
}

/// The clients that the manager listed were stacked. Where the list failed,
/// so does the command; where only the stacking failed, that is reported and
/// no failure.
pub open spec fn stacked(
    listed: Result<Vec<EveWindow>, WmError>,
    config: Config,
    log: Seq<Request>,
    new_log: Seq<Request>,
    r: Result<Outcome, DaemonError>,
) -> bool {
    match listed {
        Err(e) => new_log == log && r == Err::<Outcome, DaemonError>(DaemonError::Manager(e)),
        Ok(ws) => exists|answer: Result<(), WmError>|
            {
                &&& new_log == #[trigger] log.push(Request::Stack(ws@, config, answer))
                &&& match answer {
                    Ok(()) => r matches Ok(Outcome::Done),
                    Err(e) => r == Ok::<Outcome, DaemonError>(Outcome::RestackFailed(e)),
                }
            },
    }
}

/// The daemon's answer to a focus change that ended with `c`.
pub open spec fn answers(r: Result<Outcome, DaemonError>, c: Result<(), CycleError>) -> bool {
    match c {
        Ok(()) => r matches Ok(Outcome::Done),
        Err(e) => r == Err::<Outcome, DaemonError>(DaemonError::Cycle(e)),
    }
}

/// The reported focus was taken over, then the cycle went one step.
pub open spec fn cycled_after_sync(
    before: CycleState,
    after: CycleState,
    minimize_inactive: bool,
    step: CycleDirection,
    log: Seq<Request>,
    new_log: Seq<Request>,
    r: Result<Outcome, DaemonError>,
) -> bool {
    exists|
        mid: CycleState,
        mid_log: Seq<Request>,
        since: Option<u128>,
        c: Result<(), CycleError>,
    |
        {
            &&& clock::can_pass(before.activated(), since)
            &&& #[trigger] cycle_state::asked_focus(before, mid, log, mid_log, since)
            &&& #[trigger] cycle_state::cycled(
                mid,
                after,
                mid_log,
                new_log,
                step,
                minimize_inactive,
                c,
            )
            &&& answers(r, c)
        }
}

impl Daemon {
    /// Everything but the clients.
    pub open spec fn same_settings(&self, other: &Daemon) -> bool {
        &&& self.config == other.config
        &&& self.live == other.live
        &&& self.mouse_config == other.mouse_config
        &&& self.keyboard_config == other.keyboard_config
        &&& self.last_order == other.last_order
    }

    /// The order that is cycled through is the order of the last reload.
    pub open spec fn wf(&self) -> bool {
        self.state.wf() && self.state.order() == names_of(self.last_order)
    }

    pub fn new<W: WindowManager>(
        wm: &mut W,
        config: Config,
        live: LiveSettings,
        order_file: Option<&str>,
    ) -> (r: Self)
        ensures
            r.wf(),
            exists|answer: Result<Vec<EveWindow>, WmError>|
                {
                    &&& final(wm).requests() == #[trigger] old(wm).requests().push(
                        Request::Windows(answer),
                    )
                    &&& match answer {
                        Ok(ws) => r.state.clients() == ws@,
                        Err(_) => r.state.clients() == Seq::<EveWindow>::empty(),
                    }
                },
            r.state.index() == 0,
            r.state.activated() is None,
            names_of(r.last_order) == order_of(
                text::views(config.characters@),
                str_of(order_file),
            ),
            r.config == config,
            r.live == live,
            is_mouse_config_of(r.mouse_config, config),
            is_keyboard_config_of(r.keyboard_config, config),
    {
        let mut state: CycleState = CycleState::new();
        let answer: Result<Vec<EveWindow>, WmError> = wm.get_eve_windows();
        if let Ok(ws) = answer {
            state.update_windows(ws);
        }
        let last_order: Option<Vec<String>> = cycle_order(&config.characters, order_file);
        state.set_character_order(copy_order(&last_order));
        let mouse_config: MouseConfig = MouseConfig::from_config(&config);
        let keyboard_config: KeyboardConfig = KeyboardConfig::from_config(&config);
        Daemon { state, config, live, mouse_config, keyboard_config, last_order }
    }

    /// Carries out the command that a line asks for.
    pub fn handle_client<W: WindowManager>(&mut self, wm: &mut W, line: &str) -> (r: Result<
        Outcome,
        DaemonError,
    >)
        requires
            old(self).wf(),
        ensures
            final(self).wf(),
            final(self).same_settings(old(self)),
            match command_of(line@) {
                Some(command) => carried_out(
                    command,
                    old(self).state,
                    final(self).state,
                    old(self).config,
                    old(wm).requests(),
                    final(wm).requests(),
                    r,
                ),
                None => *final(self) == *old(self) && final(wm).requests() == old(wm).requests()
                    && r matches Ok(Outcome::Unknown),
            },
    {
        let command: Command = match Command::from_str(line) {
            Some(c) => c,
            None => {
                return Ok(Outcome::Unknown);
            },
        };
        match command {
            Command::Forward => {
                let c: Result<(), CycleError> = self.state.sync_and_cycle(
                    wm,
                    self.config.minimize_inactive,
                    CycleDirection::Forward,
                );
                done_or(c)
            },
            Command::Backward => {
                let c: Result<(), CycleError> = self.state.sync_and_cycle(
                    wm,
                    self.config.minimize_inactive,
                    CycleDirection::Backward,
                );
                done_or(c)
            },
            Command::Switch(target) => {
                self.state.sync_from(wm);
                let order: Option<Vec<String>> = copy_order(&self.last_order);
                let names: Option<&Vec<String>> = match &order {
                    Some(v) => Some(v),
                    None => None,
                };
                let c: Result<(), CycleError> = self.state.switch_to(
                    target,
                    wm,
                    self.config.minimize_inactive,
                    names,
                );
                done_or(c)
            },
            Command::Refresh => {
                let answer: Result<Vec<EveWindow>, WmError> = wm.get_eve_windows();
                match answer {
                    Ok(ws) => {
                        self.state.update_windows(ws);
                        Ok(Outcome::Done)
                    },
                    Err(e) => Err(DaemonError::Manager(e)),
                }
            },
            Command::Stack => {
                let ghost log = wm.requests();
                let answer: Result<Vec<EveWindow>, WmError> = wm.get_eve_windows();
                let ghost answered = answer;
                let ghost listed_log = wm.requests();
                let r: Result<Outcome, DaemonError> = match answer {
                    Ok(ws) => {
                        match wm.stack_windows(&ws, &self.config) {
                            Ok(()) => Ok(Outcome::Done),
                            Err(e) => Ok(Outcome::RestackFailed(e)),
                        }
                    },
                    Err(e) => Err(DaemonError::Manager(e)),
                };
                assert(stacked(answered, self.config, listed_log, wm.requests(), r));
                r
            },
            Command::Quit => Ok(Outcome::Quit),
        }
    }

    /// The periodic reload: the clients are listed anew, and a configuration
    /// that could be read again replaces the order and the listeners'
    /// settings where it changes them.
    pub fn reload<W: WindowManager>(
        &mut self,
        wm: &mut W,
        fresh: Option<&Config>,
        order_file: Option<&str>,
    ) -> (r: ReloadReport)
        requires
            old(self).wf(),
        ensures
            final(self).wf(),
            final(self).config == old(self).config,
            final(self).live == old(self).live,
            final(self).state.same_record(&old(self).state),
            exists|answer: Result<Vec<EveWindow>, WmError>|
                {
                    &&& final(wm).requests() == #[trigger] old(wm).requests().push(
                        Request::Windows(answer),
                    )
                    &&& match answer {
                        Ok(ws) => final(self).state.clients() == ws@ && final(self).state.index()
                            == cycle_state::remapped(
                            old(self).state.clients(),
                            old(self).state.index(),
                            ws@,
                        ),
                        Err(_) => final(self).state.clients() == old(self).state.clients()
                            && final(self).state.index() == old(self).state.index(),
                    }
                },
            match fresh {
                None => final(self).mouse_config == old(self).mouse_config
                    && final(self).keyboard_config == old(self).keyboard_config
                    && names_of(final(self).last_order) == names_of(old(self).last_order) && r
                    == (ReloadReport {
                    order_changed: false,
                    mouse_changed: false,
                    keyboard_changed: false,
                    hotkeys_changed: false,
                    mouse_enabled_changed: false,
                }),
                Some(c) => is_mouse_config_of(final(self).mouse_config, *c)
                    && is_keyboard_config_of(final(self).keyboard_config, *c) && names_of(
                    final(self).last_order,
                ) == order_of(text::views(c.characters@), str_of(order_file)) && r
                    == (ReloadReport {
                    order_changed: names_of(final(self).last_order) != names_of(
                        old(self).last_order,
                    ),
                    mouse_changed: !final(self).mouse_config.same(&old(self).mouse_config),
                    keyboard_changed: !final(self).keyboard_config.same(
                        &old(self).keyboard_config,
                    ),
                    hotkeys_changed: bindings_differ(
                        old(self).keyboard_config,
                        final(self).keyboard_config,
                    ),
                    mouse_enabled_changed: final(self).mouse_config.enable != old(
                        self,
                    ).mouse_config.enable,
                }),
            },
    {
        let answer: Result<Vec<EveWindow>, WmError> = wm.get_eve_windows();
        if let Ok(ws) = answer {
            self.state.update_windows(ws);
        }
        match fresh {
            None => ReloadReport {
                order_changed: false,
                mouse_changed: false,
                keyboard_changed: false,
                hotkeys_changed: false,
                mouse_enabled_changed: false,
            },
            Some(c) => {
                let new_order: Option<Vec<String>> = cycle_order(&c.characters, order_file);
                let order_changed: bool = !same_order(&new_order, &self.last_order);
                if order_changed {
                    self.state.set_character_order(copy_order(&new_order));
                    self.last_order = new_order;
                }
                let new_mouse: MouseConfig = MouseConfig::from_config(c);
                let mouse_changed: bool = !new_mouse.same_as(&self.mouse_config);
                let mouse_enabled_changed: bool = new_mouse.enable != self.mouse_config.enable;
                if mouse_changed {
                    self.mouse_config = new_mouse;
                }
                let new_keyboard: KeyboardConfig = KeyboardConfig::from_config(c);
                let keyboard_changed: bool = !new_keyboard.same_as(&self.keyboard_config);
                let hotkeys_changed: bool = hotkeys_differ(&self.keyboard_config, &new_keyboard);
                if keyboard_changed {
                    self.keyboard_config = new_keyboard;
                }
                ReloadReport {
                    order_changed,
                    mouse_changed,
                    keyboard_changed,
                    hotkeys_changed,
                    mouse_enabled_changed,
                }
            },
        }
    }
}

fn done_or(c: Result<(), CycleError>) -> (r: Result<Outcome, DaemonError>)
    ensures
        answers(r, c),
{
    match c {
        Ok(()) => Ok(Outcome::Done),
        Err(e) => Err(DaemonError::Cycle(e)),
    }
}

/// A focus change without a daemon.
#[derive(Debug, Clone, Copy, PartialEq, Eq, Structural)]
pub enum CycleOp {
    Forward,
    Backward,
    Switch(usize),
}

/// Carries out one focus change without a daemon: on clients that were just
/// listed, the first of them current unless another has the focus. Nothing
/// happens where there are none.
pub fn run_cycle_direct<W: WindowManager>(
    wm: &mut W,
    config: &Config,
    order_file: Option<&str>,
    op: CycleOp,
) -> (r: Result<(), DaemonError>)
    ensures
        exists|listed: Result<Vec<EveWindow>, WmError>|
            #[trigger] directly_cycled(
                listed,
                *config,
                str_of(order_file),
                op,
                old(wm).requests().push(Request::Windows(listed)),
                final(wm).requests(),
                r,
            ),
{
    let listed: Result<Vec<EveWindow>, WmError> = wm.get_eve_windows();
    let ghost answered = listed;
    let ghost log = wm.requests();
    let windows: Vec<EveWindow> = match listed {
        Ok(ws) => ws,
        Err(e) => {
            let r: Result<(), DaemonError> = Err(DaemonError::Manager(e));
            assert(directly_cycled(
                answered,
                *config,
                str_of(order_file),
                op,
                log,
                wm.requests(),
                r,
            ));
            return r;
        },
    };
    if windows.len() == 0 {
        let r: Result<(), DaemonError> = Ok(());
        assert(directly_cycled(answered, *config, str_of(order_file), op, log, wm.requests(), r));
        return r;
    }
    let order: Option<Vec<String>> = cycle_order(&config.characters, order_file);
    let mut state: CycleState = CycleState::new();
    state.set_character_order(copy_order(&order));
    state.update_windows(windows);
    let ghost start = state;
    state.sync_from(wm);
    let ghost mid = state;
    let ghost mid_log = wm.requests();
    assert(cycle_state::asked_focus(start, mid, log, mid_log, None));
    let c: Result<(), CycleError> = match op {
        CycleOp::Forward => state.cycle_forward(wm, config.minimize_inactive),
        CycleOp::Backward => state.cycle_backward(wm, config.minimize_inactive),
        CycleOp::Switch(target) => {
            let names: Option<&Vec<String>> = match &order {
                Some(v) => Some(v),
                None => None,
            };
            state.switch_to(target, wm, config.minimize_inactive, names)
        },
    };
    let ghost ended = c;
    let r: Result<(), DaemonError> = match c {
        Ok(()) => Ok(()),
        Err(e) => Err(DaemonError::Cycle(e)),
    };
    proof {
        assert(direct_step(start, mid, state, *config, op, log, mid_log, wm.requests(), ended, r));
        assert(directly_cycled(answered, *config, str_of(order_file), op, log, wm.requests(), r));
    }
    r
}

/// One focus change on the clients that were listed, by the manager's log
/// after the listing.
pub open spec fn directly_cycled(
    listed: Result<Vec<EveWindow>, WmError>,
    config: Config,
    order_file: Option<Seq<char>>,
    op: CycleOp,
    log: Seq<Request>,
    new_log: Seq<Request>,
    r: Result<(), DaemonError>,
) -> bool {
    match listed {
        Err(e) => new_log == log && r == Err::<(), DaemonError>(DaemonError::Manager(e)),
        Ok(ws) => if ws@.len() == 0 {
            new_log == log && r is Ok
        } else {
            exists|
                start: CycleState,
                mid: CycleState,
                end: CycleState,
                mid_log: Seq<Request>,
                c: Result<(), CycleError>,
            |
                {
                    &&& start.clients() == ws@
                    &&& start.index() == 0
                    &&& start.activated() is None
                    &&& start.order() == order_of(text::views(config.characters@), order_file)
                    &&& #[trigger] direct_step(
                        start,
                        mid,
                        end,
                        config,
                        op,
                        log,
                        mid_log,
                        new_log,
                        c,
                        r,
                    )
                }
        },
    }
}

/// The focus was taken over, then changed as `op` says.
pub open spec fn direct_step(
    start: CycleState,
    mid: CycleState,
    end: CycleState,
    config: Config,
    op: CycleOp,
    log: Seq<Request>,
    mid_log: Seq<Request>,
    new_log: Seq<Request>,
    c: Result<(), CycleError>,
    r: Result<(), DaemonError>,
) -> bool {
    &&& cycle_state::asked_focus(start, mid, log, mid_log, None)
    &&& match op {
        CycleOp::Forward => cycle_state::cycled(
            mid,
            end,
            mid_log,
            new_log,
            CycleDirection::Forward,
            config.minimize_inactive,
            c,
        ),
        CycleOp::Backward => cycle_state::cycled(
            mid,
            end,
            mid_log,
            new_log,
            CycleDirection::Backward,
            config.minimize_inactive,
            c,
        ),
        CycleOp::Switch(target) => cycle_state::switched(
            mid,
            end,
            mid_log,
            new_log,
            start.order(),
            target,
            config.minimize_inactive,
            c,
        ),
    }
    &&& match c {
        Ok(()) => r is Ok,
        Err(e) => r == Err::<(), DaemonError>(DaemonError::Cycle(e)),
    }
}

// ---------------------------------------------------------------------
// The command line
// ---------------------------------------------------------------------

/// What the command line asks for.
#[derive(Debug, Clone, Copy, PartialEq, Eq, Structural)]
pub enum CliCommand {
    Start,
    Daemon,
    Overlay,
    Stack,
    Forward,
    Backward,
    Stop,
    InitConfig,
    Switch(usize),
    Help,
}

/// The target number that a text gives, and help where it gives none.
pub open spec fn switch_or_help(s: Option<Seq<char>>) -> CliCommand {
    match s {
        Some(t) => match numerals::unsigned_to(t, 10, usize::MAX as nat) {
            Some(n) => CliCommand::Switch(n as usize),
            None => CliCommand::Help,
        },
        None => CliCommand::Help,
    }
}

/// The command of the arguments after the program's name. A number alone is
/// short for `switch` and the number; without arguments the program starts on
/// Windows and prints help elsewhere.
pub open spec fn cli_command(platform: Platform, args: Seq<Seq<char>>) -> CliCommand {
    let cmd = if args.len() > 0 {
        args[0]
    } else {
        ""@
    };
    if cmd == "start"@ {
        CliCommand::Start
    } else if cmd == "daemon"@ {
        CliCommand::Daemon
    } else if cmd == "overlay"@ && platform == Platform::Unix {
        CliCommand::Overlay
    } else if cmd == "stack"@ {
        CliCommand::Stack
    } else if cmd == "cycle-forward"@ || cmd == "forward"@ || cmd == "f"@ {
        CliCommand::Forward
    } else if cmd == "cycle-backward"@ || cmd == "backward"@ || cmd == "b"@ {
        CliCommand::Backward
    } else if cmd == "stop"@ {
        CliCommand::Stop
    } else if cmd == "init-config"@ {
        CliCommand::InitConfig
    } else if cmd == ""@ && platform == Platform::Windows {
        CliCommand::Start
    } else if cmd == "switch"@ {
        switch_or_help(
            if args.len() > 1 {
                Some(args[1])
            } else {
                None
            },
        )
    } else {
        switch_or_help(Some(cmd))
    }
}

fn switch_target_of(s: Option<&str>) -> (r: CliCommand)
    ensures
        r == switch_or_help(str_of(s)),
{
    match s {
        Some(t) => match numerals::parse_usize(t) {
            Some(n) => CliCommand::Switch(n),
            None => CliCommand::Help,
        },
        None => CliCommand::Help,
    }
}

pub fn parse_cli(platform: Platform, args: &Vec<String>) -> (r: CliCommand)
    ensures
        r == cli_command(platform, text::views(args@)),
{
    assert(text::views(args@).len() == args@.len());
    let cmd: &str = if args.len() > 0 {
        args[0].as_str()
    } else {
        ""
    };
    if text::same(cmd, "start") {
        CliCommand::Start
    } else if text::same(cmd, "daemon") {
        CliCommand::Daemon
    } else if text::same(cmd, "overlay") && platform == Platform::Unix {
        CliCommand::Overlay
    } else if text::same(cmd, "stack") {
        CliCommand::Stack
    } else if text::same(cmd, "cycle-forward") || text::same(cmd, "forward") || text::same(
        cmd,
        "f",
    ) {
        CliCommand::Forward
    } else if text::same(cmd, "cycle-backward") || text::same(cmd, "backward") || text::same(
        cmd,
        "b",
    ) {
        CliCommand::Backward
    } else if text::same(cmd, "stop") {
        CliCommand::Stop
    } else if text::same(cmd, "init-config") {
        CliCommand::InitConfig
    } else if text::same(cmd, "") && platform == Platform::Windows {
        CliCommand::Start
    } else if text::same(cmd, "switch") {
        if args.len() > 1 {
            switch_target_of(Some(args[1].as_str()))
        } else {
            switch_target_of(None)
        }
    } else {
        switch_target_of(Some(cmd))
    }
}

/// A number alone on the command line means the same as `switch` with it.
pub proof fn law_number_is_short_for_switch(platform: Platform, n: usize)
    ensures
        cli_command(platform, seq![numerals::decimal(n as nat)]) == CliCommand::Switch(n),
        cli_command(platform, seq!["switch"@, numerals::decimal(n as nat)]) == CliCommand::Switch(
            n,
        ),
{
    let d = numerals::decimal(n as nat);
    lemma_digits_are_graphic(n as nat);
    numerals::law_written_number_reads_back(n as nat, 10, false, usize::MAX as nat);
    reveal_strlit("start");
    reveal_strlit("daemon");
    reveal_strlit("overlay");
    reveal_strlit("stack");
    reveal_strlit("cycle-forward");
    reveal_strlit("forward");
    reveal_strlit("f");
    reveal_strlit("cycle-backward");
    reveal_strlit("backward");
    reveal_strlit("b");
    reveal_strlit("stop");
    reveal_strlit("init-config");
    reveal_strlit("switch");
    reveal_strlit("");
    assert("start"@.last() == 't');
    assert("daemon"@.last() == 'n');
    assert("overlay"@.last() == 'y');
    assert("stack"@.last() == 'k');
    assert("cycle-forward"@.last() == 'd');
    assert("forward"@.last() == 'd');
    assert("f"@.last() == 'f');
    assert("cycle-backward"@.last() == 'd');
    assert("backward"@.last() == 'd');
    assert("b"@.last() == 'b');
    assert("stop"@.last() == 'p');
    assert("init-config"@.last() == 'g');
    assert("switch"@.last() == 'h');
    assert(""@.len() == 0);
    assert("start"@.len() != "switch"@.len());
    assert("daemon"@[0] == 'd' && "switch"@[0] == 's');
}

/// The window-manager backend of a session.
#[derive(Debug, Clone, Copy, PartialEq, Eq, Structural)]
pub enum Backend {
    X11,
    KWin,
    Sway,
    Hyprland,
    Gnome,
}

/// The backend for a session; None for a compositor that none serves.
pub fn backend_for(server: DisplayServer, compositor: WaylandCompositor) -> (r: Option<Backend>)
    ensures
        r == (match server {
            DisplayServer::X11 => Some(Backend::X11),
            DisplayServer::Wayland => match compositor {
                WaylandCompositor::Kde => Some(Backend::KWin),
                WaylandCompositor::Sway => Some(Backend::Sway),
                WaylandCompositor::Hyprland => Some(Backend::Hyprland),
                WaylandCompositor::Gnome => Some(Backend::Gnome),
                WaylandCompositor::Other => None,
            },
        }),
{
    match server {
        DisplayServer::X11 => Some(Backend::X11),
        DisplayServer::Wayland => match compositor {
            WaylandCompositor::Kde => Some(Backend::KWin),
            WaylandCompositor::Sway => Some(Backend::Sway),
            WaylandCompositor::Hyprland => Some(Backend::Hyprland),
            WaylandCompositor::Gnome => Some(Backend::Gnome),
            WaylandCompositor::Other => None,
        },
    }
}

// ---------------------------------------------------------------------
// What the commands are for
// ---------------------------------------------------------------------

/// The client that is current once the manager was asked for the focus: the
/// one that was, or the one whose window the manager reported.
pub open spec fn current_after_report(before: CycleState, log: Seq<Request>, new_log: Seq<Request>, k: int) -> bool {
    &&& 0 <= k < before.clients().len()
    &&& new_log.len() > log.len()
    &&& new_log[log.len() as int] matches Request::Active(answer) && (k == before.index() || (
    answer matches Ok(active) && before.clients()[k].id == active))
}

/// The forward command goes one client forward from the current one and the
/// backward command one backward, in the manager's order where there is no
/// list. The window that the step ends at is activated.
pub proof fn law_cycle_commands_have_their_direction(
    command: Command,
    before: CycleState,
    after: CycleState,
    config: Config,
    log: Seq<Request>,
    new_log: Seq<Request>,
    r: Result<Outcome, DaemonError>,
) -> (k: int)
    requires
        command == Command::Forward || command == Command::Backward,
        carried_out(command, before, after, config, log, new_log, r),
        before.wf(),
        before.order() is None,
        before.clients().len() > 0,
    ensures
        current_after_report(before, log, new_log, k),
        after.clients() == before.clients(),
        command == Command::Forward ==> after.index() == (if k + 1 < before.clients().len() {
            k + 1
        } else {
            0
        }),
        command == Command::Backward ==> after.index() == (if k > 0 {
            k - 1
        } else {
            before.clients().len() - 1
        }),
        ({
            let at = log.len() + 1 + (if config.minimize_inactive {
                1int
            } else {
                0
            });
            &&& new_log.len() > at
            &&& new_log[at] matches Request::Activate(w, answer) && w
                == before.clients()[after.index()].id && match answer {
                Ok(()) => r matches Ok(Outcome::Done),
                Err(e) => r == Err::<Outcome, DaemonError>(
                    DaemonError::Cycle(CycleError::Manager(e)),
                ),
            }
        }),
{
    let step = if command == Command::Forward {
        CycleDirection::Forward
    } else {
        CycleDirection::Backward
    };
    let m = config.minimize_inactive;
    let (mid, mid_log, since, c) = choose|
        mid: CycleState,
        mid_log: Seq<Request>,
        since: Option<u128>,
        c: Result<(), CycleError>,
    |
        {
            &&& clock::can_pass(before.activated(), since)
            &&& #[trigger] cycle_state::asked_focus(before, mid, log, mid_log, since)
            &&& #[trigger] cycle_state::cycled(mid, after, mid_log, new_log, step, m, c)
            &&& answers(r, c)
        };
    let k = mid.index();
    lemma_reported_is_current(before, mid, log, mid_log, since);
    cycle_state::law_step_without_a_list(mid, after, mid_log, new_log, step, m, c);
    cycle_state::law_step_focuses_where_it_ends(mid, after, mid_log, new_log, step, m, c);
    assert(new_log[log.len() as int] == new_log.take(mid_log.len() as int)[log.len() as int]);
    k
}

proof fn lemma_reported_is_current(
    before: CycleState,
    mid: CycleState,
    log: Seq<Request>,
    mid_log: Seq<Request>,
    since: Option<u128>,
)
    requires
        before.wf(),
        before.clients().len() > 0,
        cycle_state::asked_focus(before, mid, log, mid_log, since),
    ensures
        current_after_report(before, log, mid_log, mid.index()),
        mid.clients() == before.clients(),
        mid.order() == before.order(),
        mid.wf(),
        mid_log.len() == log.len() + 1,
        mid_log.take(log.len() as int) == log,
{
    cycle_state::law_report_moves_the_cycle(before, mid, log, mid_log, since, before.index());
    if let Request::Active(Ok(active)) = mid_log[log.len() as int] {
        let ws = before.clients();
        if mid.index() != before.index() {
            assert(mid_log =~= log.push(Request::Active(Ok(active))));
            let i = cycle_state::window_with_id(ws, active);
            crate::search::lemma_first_index(ws.len(), |i: int| ws[i].id == active);
        }
    }
}

/// A switch command focuses the window of its number: the client's in the
/// manager's order where there is no list, else that of the listed character.
/// One to the client that is current already asks for no activation.
pub proof fn law_switch_command_has_its_target(
    target: usize,
    before: CycleState,
    after: CycleState,
    config: Config,
    log: Seq<Request>,
    new_log: Seq<Request>,
    r: Result<Outcome, DaemonError>,
    i: int,
)
    requires
        carried_out(Command::Switch(target), before, after, config, log, new_log, r),
        before.wf(),
        0 <= i < before.clients().len(),
        target >= 1,
        match before.order() {
            None => i == target - 1,
            Some(names) => target <= names.len() && cycle_state::is_first_titled(
                before.clients(),
                i,
                names[target - 1],
            ),
        },
    ensures
        after.index() == i,
        after.clients() == before.clients(),
        new_log.len() > log.len() + 1 ==> ({
            let at = log.len() + 1 + (if config.minimize_inactive {
                1int
            } else {
                0
            });
            new_log[at] matches Request::Activate(w, answer) && w == before.clients()[i].id
                && match answer {
                Ok(()) => r matches Ok(Outcome::Done),
                Err(e) => r == Err::<Outcome, DaemonError>(
                    DaemonError::Cycle(CycleError::Manager(e)),
                ),
            }
        }),
        new_log.len() == log.len() + 1 ==> (r matches Ok(Outcome::Done)) && current_after_report(
            before,
            log,
            new_log,
            i,
        ),
{
    let m = config.minimize_inactive;
    let (mid, mid_log, since, c) = choose|
        mid: CycleState,
        mid_log: Seq<Request>,
        since: Option<u128>,
        c: Result<(), CycleError>,
    |
        {
            &&& clock::can_pass(before.activated(), since)
            &&& #[trigger] cycle_state::asked_focus(before, mid, log, mid_log, since)
            &&& #[trigger] cycle_state::switched(
                mid,
                after,
                mid_log,
                new_log,
                before.order(),
                target,
                m,
                c,
            )
            &&& answers(r, c)
        };
    lemma_reported_is_current(before, mid, log, mid_log, since);
    cycle_state::law_switch_stays_or_refuses(
        mid,
        after,
        mid_log,
        new_log,
        before.order(),
        target,
        m,
        c,
    );
    if i != mid.index() {
        cycle_state::law_switch_focuses_the_target(
            mid,
            after,
            mid_log,
            new_log,
            before.order(),
            target,
            m,
            c,
            i,
        );
    }
}

/// Stacking stacks the clients that the manager lists, by the settings, and
/// touches nothing else; refreshing takes their list over; quitting does
/// nothing more.
pub proof fn law_other_commands_do_what_they_say(
    command: Command,
    before: CycleState,
    after: CycleState,
    config: Config,
    log: Seq<Request>,
    new_log: Seq<Request>,
    r: Result<Outcome, DaemonError>,
)
    requires
        carried_out(command, before, after, config, log, new_log, r),
    ensures
        command == Command::Quit ==> after == before && new_log == log && (
        r matches Ok(Outcome::Quit)),
        command == Command::Stack ==> after == before && new_log.len() > log.len() && (
        new_log[log.len() as int] matches Request::Windows(listed) && match listed {
            Ok(ws) => new_log.len() == log.len() + 2 && (
            new_log[log.len() as int + 1] matches Request::Stack(stacked_ws, by, answer) && stacked_ws
                == ws@ && by == config && match answer {
                Ok(()) => r matches Ok(Outcome::Done),
                Err(e) => r == Ok::<Outcome, DaemonError>(Outcome::RestackFailed(e)),
            }),
            Err(e) => new_log.len() == log.len() + 1 && r == Err::<Outcome, DaemonError>(
                DaemonError::Manager(e),
            ),
        }),
        command == Command::Refresh ==> new_log.len() == log.len() + 1 && (
        new_log[log.len() as int] matches Request::Windows(listed) && match listed {
            Ok(ws) => after.clients() == ws@ && (r matches Ok(Outcome::Done)),
            Err(e) => after.clients() == before.clients() && after.index() == before.index() && r
                == Err::<Outcome, DaemonError>(DaemonError::Manager(e)),
        }),
{
    if command == Command::Stack {
        let answer = choose|answer: Result<Vec<EveWindow>, WmError>|
            stacked(answer, config, log.push(Request::Windows(answer)), new_log, r);
        let listed_log = log.push(Request::Windows(answer));
        assert(listed_log[log.len() as int] == Request::Windows(answer));
    }
}

/// Each command has its own word on the socket, and `switch:` goes with a
/// number.
pub proof fn law_commands_have_their_words(line: Seq<char>, n: usize)
    ensures
        Command::Forward.line() == "forward"@,
        Command::Backward.line() == "backward"@,
        Command::Refresh.line() == "refresh"@,
        Command::Stack.line() == "stack"@,
        Command::Quit.line() == "quit"@,
        text::starts(Command::Switch(n).line(), "switch:"@),
        command_of(line) == Some(Command::Forward) ==> text::trimmed(line) == "forward"@,
        command_of(line) == Some(Command::Backward) ==> text::trimmed(line) == "backward"@,
        command_of(line) == Some(Command::Quit) ==> text::trimmed(line) == "quit"@,
        command_of(line) == Some(Command::Stack) ==> text::trimmed(line) == "stack"@,
        command_of(line) == Some(Command::Refresh) ==> text::trimmed(line) == "refresh"@,
        command_of(line) is Some && command_of(line).unwrap() is Switch ==> text::starts(
            text::trimmed(line),
            "switch:"@,
        ),
{
    let s = Command::Switch(n).line();
    assert(s.take("switch:"@.len() as int) =~= "switch:"@);
}

/// The characters of the settings are the order; without any, the lines of
/// the order file are, and without those there is none.
pub proof fn law_settings_come_before_the_file(
    characters: Seq<Seq<char>>,
    order_file: Option<Seq<char>>,
)
    ensures
        characters.len() > 0 ==> order_of(characters, order_file) == Some(characters),
        characters.len() == 0 && order_file is None ==> order_of(characters, order_file) is None,
        characters.len() == 0 && order_file is Some ==> ({
            let lines = text::lines_of(order_file.unwrap());
            if lines.len() == 0 {
                order_of(characters, order_file) is None
            } else {
                order_of(characters, order_file) == Some(lines)
            }
        }),
{
}

/// The listeners' settings are those of the configuration, and a change of any
/// key binding is noticed.
pub proof fn law_listeners_follow_the_configuration(
    m: MouseConfig,
    k: KeyboardConfig,
    other: KeyboardConfig,
    c: Config,
)
    requires
        is_mouse_config_of(m, c),
        is_keyboard_config_of(k, c),
    ensures
        m.enable == c.enable_mouse_buttons,
        m.forward_button == c.forward_button,
        m.backward_button == c.backward_button,
        m.minimize_inactive == c.minimize_inactive,
        text::opt_view(m.mouse_device_name) == text::opt_view(c.mouse_device_name),
        text::opt_view(m.mouse_device_path) == text::opt_view(c.mouse_device_path),
        k.enable == c.enable_keyboard_buttons,
        k.forward_key == c.forward_key,
        k.backward_key == c.backward_key,
        k.modifier_key == c.modifier_key,
        k.minimize_inactive == c.minimize_inactive,
        k.character_hotkeys@ == c.character_hotkeys@,
        k.toggle_previews_key == c.toggle_previews_key,
        k.toggle_previews_modifier == c.toggle_previews_modifier,
        text::opt_view(k.keyboard_device_name) == text::opt_view(c.keyboard_device_name),
        text::opt_view(k.keyboard_device_path) == text::opt_view(c.keyboard_device_path),
        !bindings_differ(k, k),
        other.forward_key != k.forward_key || other.backward_key != k.backward_key
            || other.modifier_key != k.modifier_key || other.enable != k.enable
            || other.toggle_previews_key != k.toggle_previews_key || other.toggle_previews_modifier
            != k.toggle_previews_modifier || other.character_hotkeys@ != k.character_hotkeys@
            ==> bindings_differ(other, k),
{
}

/// Without a daemon the same things happen on the clients that the manager
/// lists: the first one is current unless the manager reports another, and
/// the step goes in the direction that was asked for. No clients, no step.
pub proof fn law_direct_cycle_has_its_direction(
    ws: Vec<EveWindow>,
    config: Config,
    order_file: Option<Seq<char>>,
    op: CycleOp,
    log: Seq<Request>,
    new_log: Seq<Request>,
    r: Result<(), DaemonError>,
) -> (k: int)
    requires
        op == CycleOp::Forward || op == CycleOp::Backward,
        directly_cycled(Ok(ws), config, order_file, op, log, new_log, r),
        config.characters@.len() == 0,
        order_file is None,
        ws@.len() > 0,
    ensures
        0 <= k < ws@.len(),
        new_log[log.len() as int] matches Request::Active(answer) && (k == 0 || (
        answer matches Ok(active) && ws@[k].id == active)),
        ({
            let to = if op == CycleOp::Forward {
                if k + 1 < ws@.len() {
                    k + 1
                } else {
                    0
                }
            } else if k > 0 {
                k - 1
            } else {
                ws@.len() - 1
            };
            let at = log.len() + 1 + (if config.minimize_inactive {
                1int
            } else {
                0
            });
            new_log[at] matches Request::Activate(w, answer) && w == ws@[to].id && match answer {
                Ok(()) => r is Ok,
                Err(e) => r == Err::<(), DaemonError>(DaemonError::Cycle(CycleError::Manager(e))),
            }
        }),
{
    let m = config.minimize_inactive;
    let step = if op == CycleOp::Forward {
        CycleDirection::Forward
    } else {
        CycleDirection::Backward
    };
    let (start, mid, end, mid_log, c) = choose|
        start: CycleState,
        mid: CycleState,
        end: CycleState,
        mid_log: Seq<Request>,
        c: Result<(), CycleError>,
    |
        {
            &&& start.clients() == ws@
            &&& start.index() == 0
            &&& start.activated() is None
            &&& start.order() == order_of(text::views(config.characters@), order_file)
            &&& #[trigger] direct_step(
                start,
                mid,
                end,
                config,
                op,
                log,
                mid_log,
                new_log,
                c,
                r,
            )
        };
    lemma_reported_is_current(start, mid, log, mid_log, None);
    cycle_state::law_step_without_a_list(mid, end, mid_log, new_log, step, m, c);
    cycle_state::law_step_focuses_where_it_ends(mid, end, mid_log, new_log, step, m, c);
    assert(new_log[log.len() as int] == new_log.take(mid_log.len() as int)[log.len() as int]);
    mid.index()
}

/// Without a daemon a switch goes to the window of its number, and where the
/// manager lists no client or fails to list them, nothing is activated.
pub proof fn law_direct_switch_has_its_target(
    listed: Result<Vec<EveWindow>, WmError>,
    config: Config,
    order_file: Option<Seq<char>>,
    target: usize,
    log: Seq<Request>,
    new_log: Seq<Request>,
    r: Result<(), DaemonError>,
)
    requires
        directly_cycled(listed, config, order_file, CycleOp::Switch(target), log, new_log, r),
        config.characters@.len() == 0,
        order_file is None,
    ensures
        listed matches Err(e) ==> new_log == log && r == Err::<(), DaemonError>(
            DaemonError::Manager(e),
        ),
        (listed matches Ok(ws) && ws@.len() == 0) ==> new_log == log && r is Ok,
        (listed matches Ok(ws) && 1 <= target <= ws@.len() && new_log.len() > log.len() + 1) ==> ({
            let ws = listed->Ok_0;
            let at = log.len() + 1 + (if config.minimize_inactive {
                1int
            } else {
                0
            });
            new_log[at] matches Request::Activate(w, answer) && w == ws@[target - 1].id && (
            answer is Ok ==> r is Ok)
        }),
        (listed matches Ok(ws) && 0 < ws@.len() < target) ==> (
        r matches Err(DaemonError::Cycle(CycleError::NoSuchWindow { target: t, windows })) && t
            == target && windows == listed->Ok_0@.len()) && new_log.len() == log.len() + 1,
{
    if let Ok(ws) = listed {
        if ws@.len() > 0 {
            let m = config.minimize_inactive;
            let (start, mid, end, mid_log, c) = choose|
                start: CycleState,
                mid: CycleState,
                end: CycleState,
                mid_log: Seq<Request>,
                c: Result<(), CycleError>,
            |
                {
                    &&& start.clients() == ws@
                    &&& start.index() == 0
                    &&& start.activated() is None
                    &&& start.order() == order_of(text::views(config.characters@), order_file)
                    &&& #[trigger] direct_step(
                        start,
                        mid,
                        end,
                        config,
                        CycleOp::Switch(target),
                        log,
                        mid_log,
                        new_log,
                        c,
                        r,
                    )
                };
            lemma_reported_is_current(start, mid, log, mid_log, None);
            cycle_state::law_switch_stays_or_refuses(
                mid,
                end,
                mid_log,
                new_log,
                start.order(),
                target,
                m,
                c,
            );
            if 1 <= target <= ws@.len() && target - 1 != mid.index() {
                cycle_state::law_switch_focuses_the_target(
                    mid,
                    end,
                    mid_log,
                    new_log,
                    start.order(),
                    target,
                    m,
                    c,
                    target - 1,
                );
            }
        }
    }
}

/// Each word on the command line asks for what it says, the short forms too.
/// Without a word the program starts on Windows and prints help elsewhere.
pub proof fn law_words_ask_for_what_they_say(platform: Platform, args: Seq<Seq<char>>)
    ensures
        args.len() > 0 && args[0] == "start"@ ==> cli_command(platform, args) == CliCommand::Start,
        args.len() > 0 && args[0] == "daemon"@ ==> cli_command(platform, args)
            == CliCommand::Daemon,
        args.len() > 0 && args[0] == "overlay"@ && platform == Platform::Unix ==> cli_command(
            platform,
            args,
        ) == CliCommand::Overlay,
        args.len() > 0 && args[0] == "stack"@ ==> cli_command(platform, args) == CliCommand::Stack,
        args.len() > 0 && (args[0] == "cycle-forward"@ || args[0] == "forward"@ || args[0] == "f"@)
            ==> cli_command(platform, args) == CliCommand::Forward,
        args.len() > 0 && (args[0] == "cycle-backward"@ || args[0] == "backward"@ || args[0]
            == "b"@) ==> cli_command(platform, args) == CliCommand::Backward,
        args.len() > 0 && args[0] == "stop"@ ==> cli_command(platform, args) == CliCommand::Stop,
        args.len() > 0 && args[0] == "init-config"@ ==> cli_command(platform, args)
            == CliCommand::InitConfig,
        args.len() == 0 ==> cli_command(platform, args) == (if platform == Platform::Windows {
            CliCommand::Start
        } else {
            CliCommand::Help
        }),
{
    reveal_strlit("start");
    reveal_strlit("daemon");
    reveal_strlit("overlay");
    reveal_strlit("stack");
    reveal_strlit("cycle-forward");
    reveal_strlit("forward");
    reveal_strlit("f");
    reveal_strlit("cycle-backward");
    reveal_strlit("backward");
    reveal_strlit("b");
    reveal_strlit("stop");
    reveal_strlit("init-config");
    reveal_strlit("switch");
    reveal_strlit("");
    assert("start"@[4] == 't' && "stack"@[4] == 'k');
    assert("daemon"@[0] == 'd' && "switch"@[0] == 's');
    assert("overlay"@[0] == 'o' && "forward"@[0] == 'f');
    assert(numerals::unsigned(""@, 10) is None);
}

/// A word that is neither a command nor a number, and a switch without a
/// number, ask for help.
pub proof fn law_other_words_ask_for_help(platform: Platform, args: Seq<Seq<char>>)
    ensures
        args.len() > 0 && args[0].len() > 0 && numerals::unsigned_to(args[0], 10, usize::MAX as nat)
            is None && cli_command(platform, args) is Switch ==> args[0] == "switch"@,
        args.len() == 1 && args[0] == "switch"@ ==> cli_command(platform, args) == CliCommand::Help,
        args.len() > 1 && args[0] == "switch"@ && numerals::unsigned_to(
            args[1],
            10,
            usize::MAX as nat,
        ) is None ==> cli_command(platform, args) == CliCommand::Help,
        args.len() > 0 && args[0] == "overlay"@ && platform == Platform::Windows ==> cli_command(
            platform,
            args,
        ) == CliCommand::Help,
        args.len() > 0 && args[0] == "help"@ ==> cli_command(platform, args) == CliCommand::Help,
{
    reveal_strlit("start");
    reveal_strlit("daemon");
    reveal_strlit("overlay");
    reveal_strlit("stack");
    reveal_strlit("cycle-forward");
    reveal_strlit("forward");
    reveal_strlit("f");
    reveal_strlit("cycle-backward");
    reveal_strlit("backward");
    reveal_strlit("b");
    reveal_strlit("stop");
    reveal_strlit("init-config");
    reveal_strlit("switch");
    reveal_strlit("help");
    reveal_strlit("");
    assert("switch"@[0] == 's' && "switch"@[1] == 'w' && "switch"@.len() == 6);
    assert("daemon"@[0] == 'd' && "overlay"@[0] == 'o');
    assert("help"@[0] == 'h' && "help"@.len() == 4 && "stop"@[0] == 's');
    assert("overlay"@.len() == 7 && "forward"@[0] == 'f');
    numerals::law_what_is_no_number("overlay"@, 10, usize::MAX as nat, 0);
    numerals::law_what_is_no_number("help"@, 10, usize::MAX as nat, 0);
}

/// A refresh stays with the client that was current, wherever the new list has
/// it, and begins with the first one where the list has become too short.
pub proof fn law_refresh_stays_with_the_client(
    before: CycleState,
    after: CycleState,
    config: Config,
    log: Seq<Request>,
    new_log: Seq<Request>,
    r: Result<Outcome, DaemonError>,
    ws: Vec<EveWindow>,
    k: int,
)
    requires
        carried_out(Command::Refresh, before, after, config, log, new_log, r),
        new_log.last() == Request::Windows(Ok(ws)),
        before.wf(),
    ensures
        after.clients() == ws@,
        after.order() == before.order(),
        0 <= before.index() < before.clients().len() && 0 <= k < ws@.len() && ws@[k].id
            == before.clients()[before.index()].id ==> 0 <= after.index() < ws@.len()
            && ws@[after.index()].id == before.clients()[before.index()].id,
        ws@.len() > 0 && (forall|j: int|
            0 <= j < ws@.len() && before.index() < before.clients().len() ==> (
            #[trigger] ws@[j]).id != before.clients()[before.index()].id) ==> after.index() == (
        if before.index() >= ws@.len() {
            0
        } else {
            before.index()
        }),
{
    let index = before.index();
    let old_ws = before.clients();
    if 0 <= index < old_ws.len() && 0 <= k < ws@.len() && ws@[k].id == old_ws[index].id {
        cycle_state::law_update_keeps_client(old_ws, index, ws@, k);
    }
    if index < old_ws.len() && forall|j: int|
        0 <= j < ws@.len() && index < old_ws.len() ==> (#[trigger] ws@[j]).id != old_ws[index].id {
        cycle_state::law_update_without_the_client(old_ws, index, ws@);
    }
}

/// A command leaves every setting as it was: the configuration, what applies
/// at once, the listeners' settings and the order of the characters.
pub proof fn law_commands_change_no_setting(before: Daemon, after: Daemon)
    requires
        after.same_settings(&before),
    ensures
        after == (Daemon { state: after.state, ..before }),
{
}

/// The cycle goes by the order that was last read, and its index is that of a
/// client wherever there is one.
pub proof fn law_daemon_cycles_in_its_order(daemon: Daemon, i: int)
    requires
        daemon.wf(),
    ensures
        daemon.last_order is Some <==> daemon.state.order() is Some,
        daemon.last_order matches Some(names) ==> (daemon.state.order() matches Some(order)
            && order.len() == names@.len() && (0 <= i < names@.len() ==> order[i] == names@[i]@)),
        daemon.state.clients().len() > 0 ==> 0 <= daemon.state.index()
            < daemon.state.clients().len(),
{
}

} // verus!
