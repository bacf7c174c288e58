//! Lists.

use vstd::prelude::*;

verus! {

/// A list turned round, so that its elements can be taken from the end.
pub fn turned<T>(v: Vec<T>) -> (r: Vec<T>)
    ensures
        r@ == v@.reverse(),
{
    let ghost all = v@;
    let mut rest = v;
    let mut out: Vec<T> = Vec::new();
    let count = rest.len();
    let mut k: usize = 0;
    while k < count
        invariant
            k <= count,
            count == all.len(),
            rest@ == all.take(count - k),
            out@.len() == k,
            forall|j: int| 0 <= j < k ==> #[trigger] out@[j] == all[count - 1 - j],
        decreases count - k,
    {
        match rest.pop() {
            Some(x) => {
                out.push(x);
            },
            None => {},
        }
        k += 1;
        assert(rest@ =~= all.take(count - k));
    }
    assert(out@ =~= all.reverse());
    out
}

// ── Laws ────────────────────────────────────────────────────────────────────

/// A list that is turned round holds what it held, from the end.
pub proof fn law_turned_lists_run_backwards<T>(v: Vec<T>, r: Vec<T>, i: int)
    requires
        call_ensures(turned::<T>, (v,), r),
    ensures
        r@.len() == v@.len(),
        0 <= i < v@.len() ==> r@[i] == v@[v@.len() - 1 - i],
{
}

} // verus!
