//! Lists of numbers in strictly ascending order.
use vstd::prelude::*;

verus! {

/// Every member is smaller than each that follows it.
pub open spec fn ascending(s: Seq<u16>) -> bool {
    forall|i: int, j: int| 0 <= i < j < s.len() ==> #[trigger] s[i] < #[trigger] s[j]
}

/// Two ascending lists with the same members are the same list.
pub proof fn lemma_ascending_unique(a: Seq<u16>, b: Seq<u16>)
    requires
        ascending(a),
        ascending(b),
        forall|x: u16| a.contains(x) == b.contains(x),
    ensures
        a == b,
    decreases a.len(),
{
    if a.len() == 0 {
        if b.len() > 0 {
            assert(b.contains(b[0]));
        }
        assert(a =~= b);
    } else {
        assert(a.contains(a.last()));
        assert(b.contains(a.last()));
        assert(b.contains(b.last()));
        assert(a.contains(b.last()));
        let i = choose|i: int| 0 <= i < b.len() && b[i] == a.last();
        let j = choose|j: int| 0 <= j < a.len() && a[j] == b.last();
        assert(a.last() == b.last());
        let x = a.drop_last();
        let y = b.drop_last();
        assert forall|v: u16| x.contains(v) == y.contains(v) by {
            if x.contains(v) {
                let k = choose|k: int| 0 <= k < x.len() && x[k] == v;
                assert(a[k] == v);
                assert(a.contains(v));
                let m = choose|m: int| 0 <= m < b.len() && b[m] == v;
                assert(m != b.len() - 1);
                assert(y[m] == v);
            }
            if y.contains(v) {
                let k = choose|k: int| 0 <= k < y.len() && y[k] == v;
                assert(b[k] == v);
                assert(b.contains(v));
                let m = choose|m: int| 0 <= m < a.len() && a[m] == v;
                assert(m != a.len() - 1);
                assert(x[m] == v);
            }
        }
        lemma_ascending_unique(x, y);
        assert(a == x.push(a.last()));
        assert(b == y.push(b.last()));
    }
}

/// The members of `v`, each once, in ascending order.
pub fn sorted_distinct(v: &Vec<u16>) -> (r: Vec<u16>)
    ensures
        ascending(r@),
        forall|x: u16| r@.contains(x) == v@.contains(x),
{
    let mut out: Vec<u16> = Vec::new();
    let mut i: usize = 0;
    while i < v.len()
        invariant
            i <= v.len(),
            ascending(out@),
            forall|x: u16| out@.contains(x) == v@.take(i as int).contains(x),
        decreases v.len() - i,
    {
        insert_ascending(&mut out, v[i]);
        proof {
            let before = v@.take(i as int);
            let after = v@.take(i + 1);
            assert(after == before.push(v@[i as int]));
            assert forall|x: u16| after.contains(x) == (before.contains(x) || x == v@[i as int]) by {
                if before.contains(x) {
                    let k = choose|k: int| 0 <= k < before.len() && before[k] == x;
                    assert(after[k] == x);
                }
                assert(after[before.len() as int] == v@[i as int]);
            }
        }
        i = i + 1;
    }
    assert(v@.take(i as int) == v@);
    out
}

/// Puts `x` where it belongs, unless it is there already.
fn insert_ascending(out: &mut Vec<u16>, x: u16)
    requires
        ascending(old(out)@),
    ensures
        ascending(final(out)@),
        forall|y: u16| final(out)@.contains(y) == (old(out)@.contains(y) || y == x),
{
    let ghost before = out@;
    let mut at: usize = 0;
    while at < out.len() && out[at] < x
        invariant
            at <= out.len(),
            out@ == before,
            forall|k: int| 0 <= k < at ==> out@[k] < x,
        decreases out.len() - at,
    {
        at = at + 1;
    }
    if at < out.len() && out[at] == x {
        assert(out@.contains(x));
        return;
    }
    out.insert(at, x);
    assert(out@[at as int] == x);
    assert forall|y: u16| out@.contains(y) == (before.contains(y) || y == x) by {
        if before.contains(y) {
            let k = choose|k: int| 0 <= k < before.len() && before[k] == y;
            assert(out@[if k < at {
                k
            } else {
                k + 1
            }] == y);
        }
        if out@.contains(y) && y != x {
            let k = choose|k: int| 0 <= k < out@.len() && out@[k] == y;
            assert(before[if k < at {
                k
            } else {
                k - 1
            }] == y);
        }
    }
}

} // verus!
