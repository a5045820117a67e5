//! The order in which a frame saves and restores registers.
use vstd::prelude::*;
use vstd::relations::*;
use vstd::seq_lib::*;

verus! {

broadcast use group_to_multiset_ensures;

/// `a` before `b` in ascending register order.
pub open spec fn ascending() -> spec_fn(u8, u8) -> bool {
    |a: u8, b: u8| a <= b
}

/// `a` before `b` in descending register order.
pub open spec fn descending() -> spec_fn(u8, u8) -> bool {
    |a: u8, b: u8| a >= b
}

/// `s` with every run of equal neighbours cut down to one element.
pub open spec fn dedup(s: Seq<u8>) -> Seq<u8>
    decreases s.len(),
{
    if s.len() <= 1 {
        s
    } else if s[s.len() - 1] == s[s.len() - 2] {
        dedup(s.drop_last())
    } else {
        dedup(s.drop_last()).push(s.last())
    }
}

pub proof fn lemma_orders_total()
    ensures
        total_ordering(ascending()),
        total_ordering(descending()),
{
    let a = ascending();
    let d = descending();
    assert(reflexive(a));
    assert(antisymmetric(a));
    assert(transitive(a));
    assert(strongly_connected(a));
    assert(reflexive(d));
    assert(antisymmetric(d));
    assert(transitive(d));
    assert(strongly_connected(d));
}

/// A sorted rearrangement of `s` is the sorted sequence of `s`.
pub proof fn lemma_sorted_rearrangement(s: Seq<u8>, t: Seq<u8>, leq: spec_fn(u8, u8) -> bool)
    requires
        leq == ascending() || leq == descending(),
        sorted_by(t, leq),
        t.to_multiset() == s.to_multiset(),
    ensures
        t == s.sort_by(leq),
{
    lemma_orders_total();
    s.lemma_sort_by_ensures(leq);
    lemma_sorted_unique(t, s.sort_by(leq), leq);
}

/// Reversing a sequence sorted in descending order sorts it in ascending order.
pub proof fn lemma_reverse_descending(s: Seq<u8>)
    requires
        sorted_by(s, descending()),
    ensures
        sorted_by(s.reverse(), ascending()),
        s.reverse().to_multiset() == s.to_multiset(),
{
    s.lemma_reverse_to_multiset();
    let r = s.reverse();
    assert forall|i: int, j: int| 0 <= i < j < r.len() implies #[trigger] (ascending())(r[i], r[j]) by {
        assert((descending())(s[s.len() - 1 - j], s[s.len() - 1 - i]));
    }
}

/// Sorting a sequence in descending order gives the reverse of sorting it in
/// ascending order.
pub proof fn lemma_descending_is_reverse(s: Seq<u8>)
    ensures
        s.sort_by(ascending()) == s.sort_by(descending()).reverse(),
{
    lemma_orders_total();
    let d = s.sort_by(descending());
    s.lemma_sort_by_ensures(descending());
    lemma_reverse_descending(d);
    lemma_sorted_rearrangement(s, d.reverse(), ascending());
}

/// `v` with every run of equal neighbours cut down to one element.
pub fn dedup_registers(v: &Vec<u8>) -> (r: Vec<u8>)
    ensures
        r@ == dedup(v@),
{
    let mut out: Vec<u8> = Vec::new();
    let n = v.len();
    for i in 0..n
        invariant
            n == v@.len(),
            out@ == dedup(v@.take(i as int)),
    {
        let ghost before = v@.take(i as int);
        let ghost after = v@.take(i + 1);
        assert(after.drop_last() =~= before);
        if i == 0 || v[i] != v[i - 1] {
            out.push(v[i]);
        }
        proof {
            if i == 0 {
                assert(out@ =~= after);
            }
        }
    }
    assert(v@.take(n as int) =~= v@);
    out
}

/// The elements of `v` in ascending order.
pub fn sort_ascending(v: &Vec<u8>) -> (r: Vec<u8>)
    ensures
        sorted_by(r@, ascending()),
        r@.to_multiset() == v@.to_multiset(),
{
    let mut out: Vec<u8> = Vec::new();
    let n = v.len();
    for i in 0..n
        invariant
            n == v@.len(),
            sorted_by(out@, ascending()),
            out@.to_multiset() == v@.take(i as int).to_multiset(),
    {
        let x = v[i];
        let mut j: usize = 0;
        while j < out.len() && out[j] <= x
            invariant
                j <= out@.len(),
                forall|k: int| 0 <= k < j ==> out@[k] <= x,
            decreases out@.len() - j,
        {
            j = j + 1;
        }
        let ghost old_out = out@;
        assert(forall|k: int| j <= k < old_out.len() ==> x < old_out[k]) by {
            assert forall|k: int| j <= k < old_out.len() implies x < old_out[k] by {
                assert((ascending())(old_out[j as int], old_out[k]) || j == k);
            }
        }
        out.insert(j, x);
        proof {
            old_out.insert_ensures(j as int, x);
            assert(out@ == old_out.insert(j as int, x));
            assert forall|p: int, q: int| 0 <= p < q < out@.len() implies #[trigger] (ascending())(
                out@[p],
                out@[q],
            ) by {
                if q < j {
                    assert((ascending())(old_out[p], old_out[q]));
                } else if q == j {
                } else if p < j {
                    assert(out@[q] == old_out[q - 1]);
                } else if p == j {
                    assert(out@[q] == old_out[q - 1]);
                } else {
                    assert((ascending())(old_out[p - 1], old_out[q - 1]));
                }
            }
            assert(v@.take(i + 1) =~= v@.take(i as int).push(x));
        }
    }
    assert(v@.take(n as int) =~= v@);
    out
}

/// The elements of `v` in reverse order.
pub fn reverse_registers(v: &Vec<u8>) -> (r: Vec<u8>)
    ensures
        r@ == v@.reverse(),
{
    let mut out: Vec<u8> = Vec::new();
    let n = v.len();
    for i in 0..n
        invariant
            n == v@.len(),
            out@.len() == i,
            forall|k: int| 0 <= k < i ==> out@[k] == v@[n - 1 - k],
    {
        out.push(v[n - 1 - i]);
    }
    assert(out@ =~= v@.reverse());
    out
}

} // verus!
