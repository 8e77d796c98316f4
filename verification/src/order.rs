//! Stable ordering by a key.

use vstd::prelude::*;

verus! {

/// Whether key `a` sorts before or like key `b`.
pub open spec fn key_le(a: (i128, u64), b: (i128, u64)) -> bool {
    a.0 < b.0 || (a.0 == b.0 && a.1 <= b.1)
}

/// Whether position `i` goes in front of position `j`: by key, and equal keys
/// as they stand.
pub open spec fn goes_before(keys: Seq<(i128, u64)>, i: int, j: int) -> bool {
    key_le(keys[i], keys[j]) && (keys[i] == keys[j] ==> i < j)
}

/// Whether `p` lists every position of `keys` once, in stable order of the keys.
pub open spec fn is_stable_order(keys: Seq<(i128, u64)>, p: Seq<usize>) -> bool {
    &&& p.len() == keys.len()
    &&& forall|i: int| 0 <= i < p.len() ==> #[trigger] p[i] < keys.len()
    &&& forall|k: usize| k < keys.len() ==> #[trigger] p.contains(k)
    &&& forall|i: int, j: int|
        #![trigger p[i], p[j]]
        0 <= i < j < p.len() ==> goes_before(keys, p[i] as int, p[j] as int)
}

fn at_most(a: &(i128, u64), b: &(i128, u64)) -> (res: bool)
    ensures
        res == key_le(*a, *b),
{
    a.0 < b.0 || (a.0 == b.0 && a.1 <= b.1)
}

/// The positions of `keys` in stable order.
pub fn stable_order(keys: &Vec<(i128, u64)>) -> (p: Vec<usize>)
    ensures
        is_stable_order(keys@, p@),
{
    let mut p: Vec<usize> = Vec::new();
    let mut k: usize = 0;
    while k < keys.len()
        invariant
            k <= keys@.len(),
            p@.len() == k,
            forall|i: int| 0 <= i < p@.len() ==> #[trigger] p@[i] < k,
            forall|v: usize| v < k ==> #[trigger] p@.contains(v),
            forall|i: int, j: int|
                #![trigger p@[i], p@[j]]
                0 <= i < j < p@.len() ==> goes_before(keys@, p@[i] as int, p@[j] as int),
        decreases keys@.len() - k,
    {
        let mut lo: usize = 0;
        let mut hi: usize = p.len();
        while lo < hi
            invariant
                k < keys@.len(),
                p@.len() == k,
                0 <= lo <= hi <= p@.len(),
                forall|i: int| 0 <= i < p@.len() ==> #[trigger] p@[i] < k,
                forall|i: int, j: int|
                    #![trigger p@[i], p@[j]]
                    0 <= i < j < p@.len() ==> goes_before(keys@, p@[i] as int, p@[j] as int),
                forall|i: int|
                    0 <= i < lo ==> key_le(keys@[#[trigger] p@[i] as int], keys@[k as int]),
                forall|i: int|
                    hi <= i < p@.len() ==> !key_le(
                        keys@[#[trigger] p@[i] as int],
                        keys@[k as int],
                    ),
            decreases hi - lo,
        {
            let mid: usize = lo + (hi - lo) / 2;
            if at_most(&keys[p[mid]], &keys[k]) {
                assert forall|i: int| 0 <= i < mid + 1 implies key_le(
                    keys@[#[trigger] p@[i] as int],
                    keys@[k as int],
                ) by {
                    if i < mid {
                        assert(goes_before(keys@, p@[i] as int, p@[mid as int] as int));
                    }
                }
                lo = mid + 1;
            } else {
                assert forall|i: int| mid <= i < p@.len() implies !key_le(
                    keys@[#[trigger] p@[i] as int],
                    keys@[k as int],
                ) by {
                    if i > mid {
                        assert(goes_before(keys@, p@[mid as int] as int, p@[i] as int));
                    }
                }
                hi = mid;
            }
        }
        let ghost before = p@;
        p.insert(lo, k);
        proof {
            assert(p@ == before.insert(lo as int, k));
            assert forall|v: usize| v < k + 1 implies #[trigger] p@.contains(v) by {
                if v == k {
                    assert(p@[lo as int] == k);
                } else {
                    assert(before.contains(v));
                    let i = choose|i: int| 0 <= i < before.len() && before[i] == v;
                    if i < lo {
                        assert(p@[i] == v);
                    } else {
                        assert(p@[i + 1] == v);
                    }
                }
            }
        }
        k = k + 1;
    }
    p
}

} // verus!
