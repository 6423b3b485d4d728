//! Stable ordering of selected items by an integer key.

use vstd::prelude::*;

verus! {

/// Item `a` comes before item `b`: smaller key first, equal keys in their
/// original order.
pub open spec fn before(keys: Seq<i128>, a: int, b: int) -> bool {
    keys[a] < keys[b] || (keys[a] == keys[b] && a < b)
}

/// `perm` lists indices in strictly increasing (key, index) order.
pub open spec fn sorted_by(keys: Seq<i128>, perm: Seq<usize>) -> bool {
    forall|i: int, j: int|
        0 <= i < j < perm.len() ==> before(keys, #[trigger] perm[i] as int, #[trigger] perm[j] as int)
}

/// The indices `idx`, stably sorted by `keys`: the same indices, each once,
/// in increasing (key, index) order.
pub fn stable_sort(keys: &Vec<i128>, idx: &Vec<usize>) -> (r: Vec<usize>)
    requires
        forall|i: int| 0 <= i < idx.len() ==> (#[trigger] idx@[i]) < keys.len(),
        forall|i: int, j: int| 0 <= i < j < idx.len() ==> (#[trigger] idx@[i]) < (#[trigger] idx@[j]),
    ensures
        sorted_by(keys@, r@),
        forall|x: usize| r@.contains(x) <==> idx@.contains(x),
        r@.len() == idx@.len(),
        forall|i: int| 0 <= i < r.len() ==> (#[trigger] r@[i]) < keys.len(),
{
    let mut out: Vec<usize> = Vec::new();
    let mut i: usize = 0;
    while i < idx.len()
        invariant
            i <= idx.len(),
            forall|k: int| 0 <= k < idx.len() ==> (#[trigger] idx@[k]) < keys.len(),
            forall|a: int, b: int| 0 <= a < b < idx.len() ==> (#[trigger] idx@[a]) < (#[trigger] idx@[b]),
            sorted_by(keys@, out@),
            forall|x: usize| out@.contains(x) <==> idx@.take(i as int).contains(x),
            out@.len() == i,
            forall|k: int| 0 <= k < out.len() ==> (#[trigger] out@[k]) < keys.len(),
        decreases idx.len() - i,
    {
        let x = idx[i];
        proof {
            let t0 = idx@.take(i as int);
            if out@.contains(x) {
                let k2 = choose|k2: int| 0 <= k2 < t0.len() && t0[k2] == x;
                assert(idx@[k2] < idx@[i as int]);
            }
        }
        // position of the first element that must come after x
        let mut p: usize = 0;
        while p < out.len() && (keys[out[p]] < keys[x] || (keys[out[p]] == keys[x] && out[p] < x))
            invariant
                p <= out.len(),
                x < keys.len(),
                forall|k: int| 0 <= k < out.len() ==> (#[trigger] out@[k]) < keys.len(),
                forall|k: int| 0 <= k < p ==> before(keys@, #[trigger] out@[k] as int, x as int),
            decreases out.len() - p,
        {
            p = p + 1;
        }
        let ghost old_out = out@;
        proof {
            if p < old_out.len() {
                assert(!before(keys@, old_out[p as int] as int, x as int));
                assert(old_out[p as int] != x);
            }
        }
        out.insert(p, x);
        proof {
            assert(out@ =~= old_out.take(p as int).push(x) + old_out.skip(p as int));
            assert forall|a: int, b: int| 0 <= a < b < out@.len() implies before(
                keys@,
                #[trigger] out@[a] as int,
                #[trigger] out@[b] as int,
            ) by {
                if a < p && b == p {
                    assert(out@[a] == old_out[a]);
                } else if a < p && b > p {
                    assert(out@[a] == old_out[a]);
                    assert(out@[b] == old_out[b - 1]);
                } else if a == p {
                    assert(out@[b] == old_out[b - 1]);
                    if p < old_out.len() {
                        assert(!before(keys@, old_out[p as int] as int, x as int));
                        if b - 1 > p {
                            assert(before(keys@, old_out[p as int] as int, old_out[b - 1] as int));
                        }
                    }
                } else if a > p {
                    assert(out@[a] == old_out[a - 1]);
                    assert(out@[b] == old_out[b - 1]);
                } else {
                    assert(out@[a] == old_out[a]);
                    assert(out@[b] == old_out[b]);
                }
            }
            let t1 = idx@.take(i + 1);
            let t0 = idx@.take(i as int);
            assert forall|y: usize| out@.contains(y) <==> t1.contains(y) by {
                if out@.contains(y) {
                    let k = choose|k: int| 0 <= k < out@.len() && out@[k] == y;
                    if k < p {
                        assert(old_out[k] == y);
                    } else if k > p {
                        assert(old_out[k - 1] == y);
                    }
                    if y != x {
                        assert(old_out.contains(y));
                        let k2 = choose|k2: int| 0 <= k2 < t0.len() && t0[k2] == y;
                        assert(t1[k2] == y);
                    } else {
                        assert(t1[i as int] == x);
                    }
                }
                if t1.contains(y) {
                    let k = choose|k: int| 0 <= k < t1.len() && t1[k] == y;
                    if k < i {
                        assert(t0[k] == y);
                        assert(old_out.contains(y));
                        let k3 = choose|k3: int| 0 <= k3 < old_out.len() && old_out[k3] == y;
                        if k3 < p {
                            assert(out@[k3] == y);
                        } else {
                            assert(out@[k3 + 1] == y);
                        }
                    } else {
                        assert(out@[p as int] == x);
                    }
                }
            }
            assert forall|k: int| 0 <= k < out.len() implies (#[trigger] out@[k]) < keys.len() by {
                if k < p {
                    assert(out@[k] == old_out[k]);
                } else if k > p {
                    assert(out@[k] == old_out[k - 1]);
                }
            }
        }
        i = i + 1;
    }
    proof {
        assert(idx@.take(idx.len() as int) =~= idx@);
    }
    out
}

} // verus!
