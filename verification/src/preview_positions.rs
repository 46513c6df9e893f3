//! Where the user left the preview windows and the list window.
use vstd::prelude::*;
use crate::name_map::NameMap;

verus! {

/// Per-character preview positions and the position of the list window.
#[derive(Debug)]
pub struct PreviewPositions {
    pub positions: NameMap<(i32, i32)>,
    /// Last known position of the list window.
    pub list_position: Option<(i32, i32)>,
}

impl Default for PreviewPositions {
    fn default() -> (r: Self)
        ensures
            r.positions@ == Map::<Seq<char>, (i32, i32)>::empty(),
            r.list_position is None,
    {
        PreviewPositions { positions: NameMap::new(), list_position: None }
    }
}

impl PreviewPositions {
    /// The position kept for a character.
    pub fn get(&self, name: &str) -> (r: Option<(i32, i32)>)
        ensures
            r == (if self.positions@.contains_key(name@) {
                Some(self.positions@[name@])
            } else {
                None
            }),
    {
        match self.positions.get(name) {
            Some(p) => Some(*p),
            None => None,
        }
    }

    /// Keeps a position for a character; the others' stay.
    pub fn set(&mut self, name: String, x: i32, y: i32)
        ensures
            final(self).positions@ == old(self).positions@.insert(name@, (x, y)),
            final(self).list_position == old(self).list_position,
    {
        self.positions.insert(name, (x, y));
    }
}

/// What `get` finds for a name among positions.
pub open spec fn position_of(positions: Map<Seq<char>, (i32, i32)>, name: Seq<char>) -> Option<
    (i32, i32),
> {
    if positions.contains_key(name) {
        Some(positions[name])
    } else {
        None
    }
}

/// A position that was set is found again, and setting one character's
/// leaves every other's as it was.
pub proof fn law_set_position_is_found(
    before: Map<Seq<char>, (i32, i32)>,
    name: Seq<char>,
    x: i32,
    y: i32,
    other: Seq<char>,
)
    ensures
        position_of(before.insert(name, (x, y)), name) == Some((x, y)),
        other != name ==> position_of(before.insert(name, (x, y)), other) == position_of(
            before,
            other,
        ),
{
}

} // verus!
