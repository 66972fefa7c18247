//! Lists of ids kept in ascending order: search, and what insertion and
//! removal do to them.

use vstd::prelude::*;

verus! {

/// Each element is smaller than every later one.
pub open spec fn ascending(s: Seq<u64>) -> bool {
    forall|i: int, j: int| 0 <= i < j < s.len() ==> s[i] < s[j]
}

/// Where `id` stands in an ascending list, or where it would have to be put.
///
/// `Ok(i)`: the list holds `id` at index `i`. `Err(i)`: the list does not hold
/// `id`; everything before index `i` is smaller and everything from `i` on is
/// larger.
pub fn search(list: &Vec<u64>, id: u64) -> (found: Result<usize, usize>)
    requires
        ascending(list@),
    ensures
        match found {
            Ok(i) => i < list@.len() && list@[i as int] == id,
            Err(i) => {
                &&& i <= list@.len()
                &&& !list@.contains(id)
                &&& forall|j: int| 0 <= j < i ==> list@[j] < id
                &&& forall|j: int| i <= j < list@.len() ==> id < list@[j]
            },
        },
{
    let mut low: usize = 0;
    let mut high: usize = list.len();
    while low < high
        invariant
            low <= high <= list@.len(),
            ascending(list@),
            forall|j: int| 0 <= j < low ==> list@[j] < id,
            forall|j: int| high <= j < list@.len() ==> id < list@[j],
        decreases high - low,
    {
        let mid = low + (high - low) / 2;
        let probe = list[mid];
        if probe == id {
            return Ok(mid);
        } else if probe < id {
            low = mid + 1;
        } else {
            high = mid;
        }
    }
    Err(low)
}

/// Removing one element of an ascending list leaves an ascending list that
/// holds the same ids but the removed one.
pub proof fn lemma_remove_ascending(s: Seq<u64>, at: int)
    requires
        ascending(s),
        0 <= at < s.len(),
    ensures
        ascending(s.remove(at)),
        s.remove(at).len() == s.len() - 1,
        forall|id: u64| s.remove(at).contains(id) <==> (s.contains(id) && id != s[at]),
{
    let r = s.remove(at);
    assert forall|id: u64| r.contains(id) <==> (s.contains(id) && id != s[at]) by {
        if r.contains(id) {
            let k = choose|k: int| 0 <= k < r.len() && r[k] == id;
            if k < at {
                assert(s[k] == id);
            } else {
                assert(s[k + 1] == id);
            }
        }
        if s.contains(id) && id != s[at] {
            let k = choose|k: int| 0 <= k < s.len() && s[k] == id;
            if k < at {
                assert(r[k] == id);
            } else {
                assert(r[k - 1] == id);
            }
        }
    }
}

/// Putting an id into an ascending list at the place that `search` names
/// leaves an ascending list that holds the same ids and the new one.
pub proof fn lemma_insert_ascending(s: Seq<u64>, at: int, new: u64)
    requires
        ascending(s),
        0 <= at <= s.len(),
        forall|j: int| 0 <= j < at ==> s[j] < new,
        forall|j: int| at <= j < s.len() ==> new < s[j],
    ensures
        ascending(s.insert(at, new)),
        s.insert(at, new).len() == s.len() + 1,
        forall|id: u64| s.insert(at, new).contains(id) <==> (s.contains(id) || id == new),
{
    let r = s.insert(at, new);
    assert forall|id: u64| r.contains(id) <==> (s.contains(id) || id == new) by {
        if r.contains(id) {
            let k = choose|k: int| 0 <= k < r.len() && r[k] == id;
            if k < at {
                assert(s[k] == id);
            } else if k > at {
                assert(s[k - 1] == id);
            }
        }
        if s.contains(id) {
            let k = choose|k: int| 0 <= k < s.len() && s[k] == id;
            if k < at {
                assert(r[k] == id);
            } else {
                assert(r[k + 1] == id);
            }
        }
        if id == new {
            assert(r[at] == id);
        }
    }
}

/// An ascending list is fixed by the ids it holds.
pub proof fn lemma_ascending_unique(a: Seq<u64>, b: Seq<u64>)
    requires
        ascending(a),
        ascending(b),
        forall|id: u64| a.contains(id) <==> b.contains(id),
    ensures
        a == b,
    decreases a.len(),
{
    if a.len() == 0 {
        if b.len() > 0 {
            assert(b.contains(b[0]));
        }
        assert(a =~= b);
    } else {
        let top = a.last();
        assert(a.contains(top));
        assert(b.contains(top));
        assert(b.len() > 0);
        assert(b.contains(b.last()));
        assert(a.contains(b.last()));
        let ka = choose|k: int| 0 <= k < a.len() && a[k] == b.last();
        let kb = choose|k: int| 0 <= k < b.len() && b[k] == top;
        assert(b.last() == top);
        let a0 = a.drop_last();
        let b0 = b.drop_last();
        assert forall|id: u64| a0.contains(id) <==> b0.contains(id) by {
            if a0.contains(id) {
                let k = choose|k: int| 0 <= k < a0.len() && a0[k] == id;
                assert(a[k] == id);
                assert(a.contains(id));
                let m = choose|m: int| 0 <= m < b.len() && b[m] == id;
                assert(id < top);
                assert(b0[m] == id);
            }
            if b0.contains(id) {
                let k = choose|k: int| 0 <= k < b0.len() && b0[k] == id;
                assert(b[k] == id);
                assert(b.contains(id));
                let m = choose|m: int| 0 <= m < a.len() && a[m] == id;
                assert(id < top);
                assert(a0[m] == id);
            }
        }
        lemma_ascending_unique(a0, b0);
        assert(a =~= a0.push(top));
        assert(b =~= b0.push(top));
    }
}

/// An ascending list of ids between 1 and `top` has at most `top` elements,
/// and fewer if one such id is missing from it.
pub proof fn lemma_ascending_bounded(s: Seq<u64>, top: u64)
    requires
        ascending(s),
        forall|i: int| 0 <= i < s.len() ==> 1 <= #[trigger] s[i] && s[i] <= top,
    ensures
        s.len() <= top,
        forall|id: u64| 1 <= id <= top && !s.contains(id) ==> s.len() < top,
{
    lemma_ascending_floor(s, s.len() as int);
    if s.len() > 0 {
        assert(s[s.len() - 1] >= s.len());
    }
    assert forall|id: u64| 1 <= id <= top && !s.contains(id) implies s.len() < top by {
        if s.len() == top {
            lemma_ascending_ceiling(s, top, 0);
            lemma_ascending_floor(s, s.len() as int);
            assert(s[id - 1] == id);
        }
    }
}

/// In an ascending list of positive ids the element at index `i` is larger
/// than `i`.
proof fn lemma_ascending_floor(s: Seq<u64>, upto: int)
    requires
        ascending(s),
        0 <= upto <= s.len(),
        forall|i: int| 0 <= i < s.len() ==> 1 <= #[trigger] s[i],
    ensures
        forall|i: int| 0 <= i < upto ==> #[trigger] s[i] >= i + 1,
    decreases upto,
{
    if upto > 0 {
        lemma_ascending_floor(s, upto - 1);
        if upto >= 2 {
            assert(s[upto - 2] < s[upto - 1]);
        }
    }
}

/// In an ascending list of ids up to `top` the element at index `i` leaves
/// room for those behind it.
proof fn lemma_ascending_ceiling(s: Seq<u64>, top: u64, from: int)
    requires
        ascending(s),
        0 <= from <= s.len(),
        forall|i: int| 0 <= i < s.len() ==> #[trigger] s[i] <= top,
    ensures
        forall|i: int| from <= i < s.len() ==> #[trigger] s[i] + (s.len() - 1 - i) <= top,
    decreases s.len() - from,
{
    if from < s.len() {
        lemma_ascending_ceiling(s, top, from + 1);
        if from + 1 < s.len() {
            assert(s[from] < s[from + 1]);
        }
    }
}

} // verus!
