//! The pointer nudge: a move that leaves the pointer where it is, so that
//! the compositor looks again at what is under it.
use vstd::prelude::*;

verus! {

/// How long after an activation the pointer is nudged.
pub const NUDGE_DELAY_MS: u128 = 5;

/// The moves of a nudge.
pub open spec fn nudge() -> Seq<i32> {
    seq![1i32, (-1) as i32]
}

/// Where relative moves lead.
pub open spec fn displacement(moves: Seq<i32>) -> int
    decreases moves.len(),
{
    if moves.len() == 0 {
        0
    } else {
        displacement(moves.drop_last()) + moves.last()
    }
}

/// A nudge leaves the pointer on the pixel where it was, though it moves.
pub proof fn law_nudge_is_net_zero()
    ensures
        displacement(nudge()) == 0,
        nudge()[0] != 0,
{
    reveal_with_fuel(displacement, 3);
    assert(nudge().drop_last() =~= seq![1i32]);
    assert(nudge().drop_last().drop_last() =~= Seq::<i32>::empty());
}

/// Nudges that were asked for and not yet made.
#[derive(Debug, Clone, Copy, PartialEq, Eq, Structural)]
pub struct PointerNudger {
    pub scheduled: bool,
}

impl PointerNudger {
    pub fn new() -> (r: Self)
        ensures
            !r.scheduled,
    {
        PointerNudger { scheduled: false }
    }

    /// Asks for a nudge after an activation.
    pub fn schedule(&mut self)
        ensures
            final(self).scheduled,
    {
        self.scheduled = true;
    }

    /// The moves to make, `waited` milliseconds after a nudge was asked for:
    /// one nudge for all that were asked for until then.
    pub fn fire(&mut self, waited: u128) -> (r: Vec<i32>)
        ensures
            old(self).scheduled && waited >= NUDGE_DELAY_MS ==> r@ == nudge(),
            old(self).scheduled && waited >= NUDGE_DELAY_MS ==> !final(self).scheduled,
            !(old(self).scheduled && waited >= NUDGE_DELAY_MS) ==> r@.len() == 0 && *final(self)
                == *old(self),
    {
        if self.scheduled && waited >= NUDGE_DELAY_MS {
            self.scheduled = false;
            return vec![1i32, -1];
        }
        Vec::new()
    }
}

/// The nudge is one pixel there and one pixel back.
pub proof fn law_nudge_is_one_pixel()
    ensures
        nudge().len() == 2,
        nudge()[0] == 1,
        nudge()[1] == -nudge()[0],
{
}

/// Moves add up, one after the other.
pub proof fn law_moves_add_up(moves: Seq<i32>, by: i32)
    ensures
        displacement(moves.push(by)) == displacement(moves) + by,
        displacement(Seq::<i32>::empty()) == 0,
{
    assert(moves.push(by).drop_last() =~= moves);
}

} // verus!
