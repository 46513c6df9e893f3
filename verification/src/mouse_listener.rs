//! What mouse side buttons do: cycling, once per physical press.
use vstd::prelude::*;
use crate::text;
use crate::clock;
use crate::config::Config;
use crate::cycle_state;
use crate::cycle_state::{CycleError, CycleState};
use crate::evdev_util;
use crate::evdev_util::{rescan_due, EventDeviceHelper, ListenerStep, ScanDevicesResult};
use crate::window_manager::{Request, WindowManager};
use crate::windows_helpers::CycleDirection;

verus! {

/// The settings of the mouse listener.
#[derive(Debug)]
pub struct MouseConfig {
    pub enable: bool,
    pub forward_button: u16,
    pub backward_button: u16,
    pub mouse_device_name: Option<String>,
    pub mouse_device_path: Option<String>,
    pub minimize_inactive: bool,
}

impl Clone for MouseConfig {
    fn clone(&self) -> (r: Self)
        ensures
            r.same(self),
    {
        MouseConfig {
            enable: self.enable,
            forward_button: self.forward_button,
            backward_button: self.backward_button,
            mouse_device_name: self.mouse_device_name.clone(),
            mouse_device_path: self.mouse_device_path.clone(),
            minimize_inactive: self.minimize_inactive,
        }
    }
}

impl MouseConfig {
    /// The same settings.
    pub open spec fn same(&self, other: &MouseConfig) -> bool {
        &&& self.enable == other.enable
        &&& self.forward_button == other.forward_button
        &&& self.backward_button == other.backward_button
        &&& text::opt_view(self.mouse_device_name) == text::opt_view(
            other.mouse_device_name,
        )
        &&& text::opt_view(self.mouse_device_path) == text::opt_view(
            other.mouse_device_path,
        )
        &&& self.minimize_inactive == other.minimize_inactive
    }

    pub fn same_as(&self, other: &MouseConfig) -> (r: bool)
        ensures
            r == self.same(other),
    {
        self.enable == other.enable && self.forward_button == other.forward_button
            && self.backward_button == other.backward_button && text::same_opt(
            &self.mouse_device_name,
            &other.mouse_device_name,
        ) && text::same_opt(&self.mouse_device_path, &other.mouse_device_path)
            && self.minimize_inactive == other.minimize_inactive
    }

    pub fn from_config(c: &Config) -> (r: Self)
        ensures
            r.enable == c.enable_mouse_buttons,
            r.forward_button == c.forward_button,
            r.backward_button == c.backward_button,
            text::opt_view(r.mouse_device_name) == text::opt_view(
                c.mouse_device_name,
            ),
            text::opt_view(r.mouse_device_path) == text::opt_view(
                c.mouse_device_path,
            ),
            r.minimize_inactive == c.minimize_inactive,
    {
        MouseConfig {
            enable: c.enable_mouse_buttons,
            forward_button: c.forward_button,
            backward_button: c.backward_button,
            mouse_device_name: c.mouse_device_name.clone(),
            mouse_device_path: c.mouse_device_path.clone(),
            minimize_inactive: c.minimize_inactive,
        }
    }
}

/// A second trigger within this many milliseconds is dropped: some mice
/// report one press on two devices.
pub const CYCLE_DEBOUNCE_MS: u128 = 30;

/// The direction that a button event asks for: presses (value 1) of a bound
/// button only. Where one button is bound to both directions, it is forward.
pub open spec fn button_direction(c: MouseConfig, code: u16, value: i32) -> Option<CycleDirection> {
    if value != 1 {
        None
    } else if code == c.forward_button {
        Some(CycleDirection::Forward)
    } else if code == c.backward_button {
        Some(CycleDirection::Backward)
    } else {
        None
    }
}

/// The listener's memory: what was announced.
#[derive(Debug)]
pub struct MouseListener {
    pub announced_listening: bool,
    pub announced_idle: bool,
}

impl MouseListener {
    pub fn new() -> (r: Self)
        ensures
            !r.announced_listening,
            !r.announced_idle,
    {
        MouseListener { announced_listening: false, announced_idle: false }
    }

    /// Nothing to listen for. The result says whether to announce it: once,
    /// until the listener works again.
    fn idle(&mut self) -> (r: bool)
        ensures
            r == !old(self).announced_idle,
            final(self).announced_idle,
            final(self).announced_listening == (old(self).announced_idle && old(
                self,
            ).announced_listening),
    {
        let announce: bool = !self.announced_idle;
        if announce {
            self.announced_idle = true;
            self.announced_listening = false;
        }
        announce
    }

    /// A scan ended. Where it changed the devices, both announcements are due
    /// again.
    fn scanned(&mut self, result: &ScanDevicesResult)
        ensures
            ({
                let changed = result.removed_devices || result.new_devices@.len() > 0;
                &&& final(self).announced_listening == (old(self).announced_listening && !changed)
                &&& final(self).announced_idle == (old(self).announced_idle && !changed)
            }),
    {
        if result.removed_devices || result.new_devices.len() > 0 {
            self.announced_idle = false;
            self.announced_listening = false;
        }
    }

    /// Whether to announce that the listener listens: once, until it is due
    /// again.
    fn announce_listening(&mut self) -> (r: bool)
        ensures
            r == !old(self).announced_listening,
            final(self).announced_listening,
            final(self).announced_idle == old(self).announced_idle,
    {
        let announce: bool = !self.announced_listening;
        self.announced_listening = true;
        announce
    }

    /// Decides what to do next under the current settings, `since_rescan`
    /// milliseconds after the last scan. While the buttons are off the devices
    /// are let go. Else the pinned device is taken over from the settings, and
    /// a scan that is due comes before reading events.
    pub fn next_step(
        &mut self,
        c: &MouseConfig,
        devices: &mut EventDeviceHelper,
        since_rescan: Option<u128>,
    ) -> (r: ListenerStep)
        ensures
            if !c.enable {
                &&& r == (ListenerStep::Idle { announce: !old(self).announced_idle })
                &&& final(devices).is_reset(old(devices).device_type)
                &&& final(self).announced_idle
                &&& final(self).announced_listening == (old(self).announced_idle && old(
                    self,
                ).announced_listening)
            } else {
                &&& old(devices).pinned_to(
                    text::opt_view(c.mouse_device_name),
                    text::opt_view(c.mouse_device_path),
                    final(devices),
                )
                &&& final(self).announced_idle == old(self).announced_idle
                &&& if evdev_util::scan_is_due(final(devices).wants_scan(), since_rescan) {
                    r == ListenerStep::Scan && *final(self) == *old(self)
                } else {
                    &&& r == (ListenerStep::Poll { announce: !old(self).announced_listening })
                    &&& final(self).announced_listening
                }
            },
    {
        if !c.enable {
            devices.reset();
            return ListenerStep::Idle { announce: self.idle() };
        }
        devices.check_update_pinned_device(&c.mouse_device_name, &c.mouse_device_path);
        if rescan_due(devices.needs_scan(), since_rescan) {
            return ListenerStep::Scan;
        }
        ListenerStep::Poll { announce: self.announce_listening() }
    }

    /// Decides what to do after a scan that left `num_devices` devices. The
    /// result is None where the scan failed. A scan that changed the devices
    /// makes both announcements due again.
    pub fn after_scan(&mut self, result: Option<&ScanDevicesResult>, num_devices: usize) -> (r:
        ListenerStep)
        ensures
            match result {
                None => r == (ListenerStep::Retry { failed: true }) && *final(self) == *old(self),
                Some(res) => {
                    let changed = res.removed_devices || res.new_devices@.len() > 0;
                    &&& final(self).announced_idle == (old(self).announced_idle && !changed)
                    &&& if num_devices == 0 {
                        &&& r == (ListenerStep::Retry { failed: false })
                        &&& final(self).announced_listening == (old(self).announced_listening
                            && !changed)
                    } else {
                        &&& r == (ListenerStep::Poll { announce: changed || !old(self).announced_listening })
                        &&& final(self).announced_listening
                    }
                },
            },
    {
        match result {
            None => ListenerStep::Retry { failed: true },
            Some(res) => {
                self.scanned(res);
                if num_devices == 0 {
                    return ListenerStep::Retry { failed: false };
                }
                ListenerStep::Poll { announce: self.announce_listening() }
            },
        }
    }

    /// A round of events ended. Where devices were dropped, the announcement
    /// is due again.
    pub fn end_round(&mut self, num_devices_dropped: usize)
        ensures
            final(self).announced_listening == (old(self).announced_listening
                && num_devices_dropped == 0),
            final(self).announced_idle == old(self).announced_idle,
    {
        if num_devices_dropped > 0 {
            self.announced_listening = false;
        }
    }

    /// The cycle step that a button event triggers, `since_cycle`
    /// milliseconds after the last one that was taken. The caller takes the
    /// time of a step that is returned.
    pub fn trigger(c: &MouseConfig, code: u16, value: i32, since_cycle: Option<u128>) -> (r: Option<
        CycleDirection,
    >)
        ensures
            r == trigger_of(*c, code, value, since_cycle),
    {
        if value != 1 {
            return None;
        }
        if code != c.forward_button && code != c.backward_button {
            return None;
        }
        if let Some(ms) = since_cycle {
            if ms < CYCLE_DEBOUNCE_MS {
                return None;
            }
        }
        if code == c.forward_button {
            Some(CycleDirection::Forward)
        } else {
            Some(CycleDirection::Backward)
        }
    }

    /// Cycles one step, after taking over the focus unless an activation of
    /// our own is recent.
    pub fn run_cycle<W: WindowManager>(
        wm: &mut W,
        state: &mut CycleState,
        minimize_inactive: bool,
        step: CycleDirection,
    ) -> (r: Result<(), CycleError>)
        requires
            old(state).wf(),
        ensures
            final(state).wf(),
            exists|mid: CycleState, log: Seq<Request>, since: Option<u128>|
                {
                    &&& clock::can_pass(old(state).activated(), since)
                    &&& #[trigger] cycle_state::synced_unless_recent(
                        *old(state),
                        mid,
                        old(wm).requests(),
                        log,
                        since,
                    )
                    &&& cycle_state::cycled(
                        mid,
                        *final(state),
                        log,
                        final(wm).requests(),
                        step,
                        minimize_inactive,
                        r,
                    )
                },
    {
        state.sync_unless_recent(wm);
        state.cycle_step(wm, minimize_inactive, step)
    }
}

/// What `MouseListener::trigger` decides.
pub open spec fn trigger_of(c: MouseConfig, code: u16, value: i32, since_cycle: Option<u128>) -> Option<
    CycleDirection,
> {
    if since_cycle matches Some(ms) && ms < CYCLE_DEBOUNCE_MS {
        None
    } else {
        button_direction(c, code, value)
    }
}

/// One press that two devices report within the window cycles once: the
/// second report is dropped, whatever it is.
pub proof fn law_echo_is_dropped(c: MouseConfig, code: u16, value: i32, ms: u128)
    requires
        ms < CYCLE_DEBOUNCE_MS,
    ensures
        trigger_of(c, code, value, Some(ms)) is None,
{
}

/// A press of the forward button goes forward and one of a backward button of
/// its own goes backward, unless the last cycle is less than 30 milliseconds
/// ago.
pub proof fn law_each_button_has_its_direction(c: MouseConfig, since_cycle: Option<u128>)
    requires
        since_cycle matches Some(ms) ==> ms >= 30,
    ensures
        trigger_of(c, c.forward_button, 1, since_cycle) == Some(CycleDirection::Forward),
        c.backward_button != c.forward_button ==> trigger_of(c, c.backward_button, 1, since_cycle)
            == Some(CycleDirection::Backward),
{
}

/// Nothing else goes anywhere: not a release or a repeat, not another button,
/// and not an echo.
pub proof fn law_nothing_else_cycles(
    c: MouseConfig,
    code: u16,
    value: i32,
    since_cycle: Option<u128>,
)
    requires
        value != 1 || (code != c.forward_button && code != c.backward_button) || (
        since_cycle matches Some(ms) && ms < 30),
    ensures
        trigger_of(c, code, value, since_cycle) is None,
{
}

/// Two configurations are the same where nothing differs, and a difference in
/// any setting is noticed.
pub proof fn law_every_mouse_setting_counts(a: MouseConfig, b: MouseConfig)
    ensures
        a.same(&a),
        a.same(&b) ==> b.same(&a),
        a.enable != b.enable || a.forward_button != b.forward_button || a.backward_button
            != b.backward_button || a.minimize_inactive != b.minimize_inactive ==> !a.same(&b),
        text::opt_view(a.mouse_device_name) != text::opt_view(b.mouse_device_name) ==> !a.same(&b),
        text::opt_view(a.mouse_device_path) != text::opt_view(b.mouse_device_path) ==> !a.same(&b),
        a == b ==> a.same(&b),
{
}

} // verus!
