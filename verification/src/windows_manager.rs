//! How a window is brought to the foreground on Windows.
use vstd::prelude::*;
use crate::text;
use crate::window_manager::WindowId;
use crate::windows_helpers;

verus! {

/// The window manager of Windows sessions. It has no state of its own.
#[derive(Debug, Clone, Copy, PartialEq, Eq, Structural)]
pub struct WindowsManager;

/// What an activation does first.
#[derive(Debug, Clone, Copy, PartialEq, Eq, Structural)]
pub enum Activation {
    /// The window has the foreground already.
    Nothing,
    /// The window is asked to the foreground, after it was restored where it
    /// is minimized.
    Raise {
        restore: bool,
    },
}

/// Which threads' input queues are attached while the foreground is forced.
#[derive(Debug, Clone, Copy, PartialEq, Eq, Structural)]
pub struct AttachPlan {
    pub target: bool,
    pub foreground: bool,
}

/// The plan for three threads: the target's and the foreground's queue, each
/// where it is another thread's than ours, and none of them twice.
pub open spec fn attach_plan(target: u32, foreground: u32, current: u32) -> AttachPlan {
    AttachPlan {
        target: target != 0 && target != current,
        foreground: foreground != 0 && foreground != current && foreground != target,
    }
}

impl WindowsManager {
    pub fn new() -> (r: Self)
        ensures
            r == WindowsManager,
    {
        WindowsManager
    }

    /// What is done first to bring `target` to the foreground. A window that
    /// has it is left alone, so that nothing flickers.
    pub fn activation(foreground: WindowId, target: WindowId, is_minimized: bool) -> (r: Activation)
        ensures
            r == (if foreground == target {
                Activation::Nothing
            } else {
                Activation::Raise { restore: is_minimized }
            }),
    {
        if foreground == target {
            Activation::Nothing
        } else {
            Activation::Raise { restore: is_minimized }
        }
    }

    /// Which input queues are attached when the system refused the plain
    /// request.
    pub fn attachments(target: u32, foreground: u32, current: u32) -> (r: AttachPlan)
        ensures
            r == attach_plan(target, foreground, current),
    {
        let none: [u32; 0] = [];
        let target_only: [u32; 1] = [target];
        proof {
            assert(none@ =~= Seq::<u32>::empty());
            assert(target_only@ =~= seq![target]);
            assert(target_only@[0] == target);
        }
        AttachPlan {
            target: windows_helpers::should_attach_thread_input(target, current, &none),
            foreground: windows_helpers::should_attach_thread_input(
                foreground,
                current,
                &target_only,
            ),
        }
    }
}

/// A window's title from the buffer it was copied to, of which the first
/// `copied` units are the title. There is none where nothing was copied.
pub fn read_window_title(buffer: &Vec<u16>, copied: i32) -> (r: String)
    requires
        copied <= buffer@.len(),
    ensures
        r@ == (if copied <= 0 {
            Seq::empty()
        } else {
            text::lossy_utf16(buffer@.take(copied as int))
        }),
{
    if copied <= 0 {
        return String::new();
    }
    let n: usize = copied as usize;
    let units: &[u16] = vstd::slice::slice_subrange(buffer.as_slice(), 0, n);
    assert(units@ == buffer@.take(copied as int));
    text::from_utf16_lossy(units)
}

/// The units before the first zero.
pub open spec fn until_zero(units: Seq<u16>) -> Seq<u16>
    decreases units.len(),
{
    if units.len() == 0 || units[0] == 0 {
        Seq::empty()
    } else {
        seq![units[0]] + until_zero(units.skip(1))
    }
}

/// The text in a buffer that ends with the first zero, or is full.
pub fn text_until_zero(units: &Vec<u16>) -> (r: String)
    ensures
        r@ == text::lossy_utf16(until_zero(units@)),
{
    let mut n: usize = 0;
    assert(units@.skip(0) == units@);
    assert(units@.take(0) + until_zero(units@) == until_zero(units@));
    while n < units.len() && units[n] != 0
        invariant
            n <= units.len(),
            until_zero(units@) == units@.take(n as int) + until_zero(units@.skip(n as int)),
        decreases units.len() - n,
    {
        proof {
            assert(units@.skip(n as int).skip(1) == units@.skip(n + 1));
            assert(units@.take(n + 1) + until_zero(units@.skip(n + 1)) =~= units@.take(n as int) + (
            seq![units@[n as int]] + until_zero(units@.skip(n + 1))));
        }
        n = n + 1;
    }
    assert(until_zero(units@) =~= units@.take(n as int));
    let text_units: &[u16] = vstd::slice::slice_subrange(units.as_slice(), 0, n);
    assert(text_units@ == units@.take(n as int));
    text::from_utf16_lossy(text_units)
}

/// Our own queue is never attached to itself, and no queue twice.
pub proof fn law_attachments_are_distinct(target: u32, foreground: u32, current: u32)
    ensures
        attach_plan(target, foreground, current).target ==> target != current,
        attach_plan(target, foreground, current).foreground ==> foreground != current,
        attach_plan(target, foreground, current).target && attach_plan(
            target,
            foreground,
            current,
        ).foreground ==> target != foreground,
{
}

/// Input is attached to every thread that is there, once, and never to the
/// program's own.
pub proof fn law_every_other_thread_is_attached_once(target: u32, foreground: u32, current: u32)
    ensures
        target != 0 && target != current ==> attach_plan(target, foreground, current).target,
        target == 0 || target == current ==> !attach_plan(target, foreground, current).target,
        foreground != 0 && foreground != current && foreground != target ==> attach_plan(
            target,
            foreground,
            current,
        ).foreground,
        foreground == 0 || foreground == current || foreground == target ==> !attach_plan(
            target,
            foreground,
            current,
        ).foreground,
{
}

/// A text ends before its first zero, or with the buffer where there is none.
pub proof fn law_text_ends_before_the_first_zero(units: Seq<u16>)
    ensures
        until_zero(units).len() <= units.len(),
        until_zero(units) == units.take(until_zero(units).len() as int),
        forall|i: int| 0 <= i < until_zero(units).len() ==> #[trigger] units[i] != 0,
        until_zero(units).len() < units.len() ==> units[until_zero(units).len() as int] == 0,
    decreases units.len(),
{
    if units.len() > 0 && units[0] != 0 {
        let rest = units.skip(1);
        law_text_ends_before_the_first_zero(rest);
        assert(until_zero(units) =~= units.take(until_zero(units).len() as int));
        assert forall|i: int| 0 <= i < until_zero(units).len() implies #[trigger] units[i] != 0 by {
            if i > 0 {
                assert(units[i] == rest[i - 1]);
            }
        }
    } else {
        assert(until_zero(units) =~= units.take(0));
    }
}

} // verus!
