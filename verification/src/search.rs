//! Where in a list a property first holds.
use vstd::prelude::*;

verus! {

/// The first of the positions below `n` at which `p` holds.
pub open spec fn first_index(n: nat, p: spec_fn(int) -> bool) -> Option<int>
    decreases n,
{
    if n == 0 {
        None
    } else {
        match first_index((n - 1) as nat, p) {
            Some(i) => Some(i),
            None => if p(n - 1) {
                Some(n - 1)
            } else {
                None
            },
        }
    }
}

/// A first position is in range, has the property, and none before it does;
/// where there is none, no position has it.
pub proof fn lemma_first_index(n: nat, p: spec_fn(int) -> bool)
    ensures
        first_index(n, p) matches Some(i) ==> 0 <= i < n && p(i) && forall|k: int|
            0 <= k < i ==> !#[trigger] p(k),
        first_index(n, p) is None ==> forall|k: int| 0 <= k < n ==> !#[trigger] p(k),
    decreases n,
{
    if n > 0 {
        lemma_first_index((n - 1) as nat, p);
    }
}

/// The position in range that has the property, with none before it that
/// does, is the first.
pub proof fn lemma_is_first_index(n: nat, p: spec_fn(int) -> bool, i: int)
    requires
        0 <= i < n,
        p(i),
        forall|k: int| 0 <= k < i ==> !#[trigger] p(k),
    ensures
        first_index(n, p) == Some(i),
{
    lemma_first_index(n, p);
}

pub proof fn lemma_no_first_index(n: nat, p: spec_fn(int) -> bool)
    requires
        forall|k: int| 0 <= k < n ==> !#[trigger] p(k),
    ensures
        first_index(n, p) is None,
{
    lemma_first_index(n, p);
}

/// Positions in a list of the given length, in ascending order.
pub open spec fn positions(at: Seq<int>, n: nat) -> bool {
    &&& forall|i: int| 0 <= i < at.len() ==> 0 <= #[trigger] at[i] < n
    &&& forall|i: int, j: int| 0 <= i < j < at.len() ==> #[trigger] at[i] < #[trigger] at[j]
}

/// One position more at the end is still in order.
pub proof fn lemma_next_position(at: Seq<int>, n: nat)
    requires
        positions(at, n),
    ensures
        positions(at, n + 1),
        positions(at.push(n as int), n + 1),
        at.push(n as int).contains(n as int),
        forall|i: int| at.contains(i) ==> #[trigger] at.push(n as int).contains(i),
{
    let longer = at.push(n as int);
    assert(longer[at.len() as int] == n);
    assert forall|i: int| at.contains(i) implies #[trigger] longer.contains(i) by {
        let k = choose|k: int| 0 <= k < at.len() && at[k] == i;
        assert(longer[k] == i);
    }
}

} // verus!
