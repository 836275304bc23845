//! Small facts about sequences viewed as sets, used by the stores that keep
//! unique rows in vectors.

use vstd::prelude::*;

verus! {

/// Appending an element to a sequence inserts it into the sequence's set.
pub proof fn lemma_to_set_push<T>(s: Seq<T>, x: T)
    ensures
        s.push(x).to_set() == s.to_set().insert(x),
{
    let out = s.push(x);
    assert forall|y: T| out.to_set().contains(y) implies s.to_set().insert(x).contains(y) by {
        let j = choose|j: int| 0 <= j < out.len() && out[j] == y;
        if j < s.len() {
            assert(s[j] == y);
        }
    }
    assert forall|y: T| s.to_set().insert(x).contains(y) implies out.to_set().contains(y) by {
        if y == x {
            assert(out[out.len() - 1] == y);
        } else {
            let j = choose|j: int| 0 <= j < s.len() && s[j] == y;
            assert(out[j] == y);
        }
    }
    assert(out.to_set() =~= s.to_set().insert(x));
}

/// Appending a fresh element keeps a duplicate-free sequence duplicate-free.
pub proof fn lemma_push_no_duplicates<T>(s: Seq<T>, x: T)
    requires
        s.no_duplicates(),
        !s.contains(x),
    ensures
        s.push(x).no_duplicates(),
{
    let out = s.push(x);
    assert forall|p: int, q: int| 0 <= p < q < out.len() implies out[p] != out[q] by {
        if q == out.len() - 1 {
            assert(out[p] == s[p]);
        } else {
            assert(out[p] == s[p]);
            assert(out[q] == s[q]);
        }
    }
}

/// Removing position `i` from a duplicate-free sequence keeps it
/// duplicate-free and removes exactly that element.
pub proof fn lemma_remove_no_duplicates<T>(s: Seq<T>, i: int)
    requires
        0 <= i < s.len(),
        s.no_duplicates(),
    ensures
        s.remove(i).no_duplicates(),
        !s.remove(i).contains(s[i]),
{
    let out = s.remove(i);
    assert forall|p: int, q: int| 0 <= p < q < out.len() implies out[p] != out[q] by {
        let p0 = if p < i {
            p
        } else {
            p + 1
        };
        let q0 = if q < i {
            q
        } else {
            q + 1
        };
        assert(out[p] == s[p0]);
        assert(out[q] == s[q0]);
    }
    assert forall|j: int| 0 <= j < out.len() implies out[j] != s[i] by {
        let j0 = if j < i {
            j
        } else {
            j + 1
        };
        assert(out[j] == s[j0]);
    }
}

/// Inserting an element at any position adds exactly it to the members.
pub proof fn lemma_insert_contains<T>(s: Seq<T>, p: int, x: T)
    requires
        0 <= p <= s.len(),
    ensures
        forall|y: T| #[trigger] s.insert(p, x).contains(y) <==> (s.contains(y) || y == x),
{
    let out = s.insert(p, x);
    assert forall|y: T| #[trigger] out.contains(y) implies (s.contains(y) || y == x) by {
        let k = choose|k: int| 0 <= k < out.len() && out[k] == y;
        if k < p {
            assert(s[k] == y);
        } else if k > p {
            assert(s[k - 1] == y);
        }
    }
    assert forall|y: T| s.contains(y) || y == x implies #[trigger] out.contains(y) by {
        if y == x {
            assert(out[p] == y);
        } else {
            let k = choose|k: int| 0 <= k < s.len() && s[k] == y;
            if k < p {
                assert(out[k] == y);
            } else {
                assert(out[k + 1] == y);
            }
        }
    }
}

/// Removing position `i` from a duplicate-free sequence removes the element
/// from the sequence's set.
pub proof fn lemma_to_set_remove<T>(s: Seq<T>, i: int)
    requires
        0 <= i < s.len(),
        s.no_duplicates(),
    ensures
        s.remove(i).to_set() == s.to_set().remove(s[i]),
{
    let out = s.remove(i);
    assert forall|x: T| out.to_set().contains(x) implies s.to_set().remove(s[i]).contains(x) by {
        let j = choose|j: int| 0 <= j < out.len() && out[j] == x;
        let j0 = if j < i {
            j
        } else {
            j + 1
        };
        assert(s[j0] == x);
        assert(j0 != i);
    }
    assert forall|x: T| s.to_set().remove(s[i]).contains(x) implies out.to_set().contains(x) by {
        let j0 = choose|j0: int| 0 <= j0 < s.len() && s[j0] == x;
        assert(j0 != i);
        let j = if j0 < i {
            j0
        } else {
            j0 - 1
        };
        assert(out[j] == x);
    }
    assert(out.to_set() =~= s.to_set().remove(s[i]));
}

} // verus!
