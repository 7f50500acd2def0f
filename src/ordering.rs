use vstd::prelude::*;

verus! {

broadcast use vstd::seq_lib::group_to_multiset_ensures;

/// The entries are in nondecreasing order of their index.
pub open spec fn sorted_by_index<T>(s: Seq<(usize, T)>) -> bool {
    forall|i: int, j: int| 0 <= i < j < s.len() ==> s[i].0 <= s[j].0
}

/// The indices of the entries are exactly `0 .. s.len()`, each once: one
/// result per catalog entry.
pub open spec fn one_per_position<T>(s: Seq<(usize, T)>) -> bool {
    &&& forall|i: int| 0 <= i < s.len() ==> (#[trigger] s[i]).0 < s.len()
    &&& forall|i: int, j: int| 0 <= i < j < s.len() ==> s[i].0 != s[j].0
}

/// Puts results tagged with the position of the task that produced them into
/// the order of those positions, whatever order they were collected in.
pub fn order_by_index<T>(results: Vec<(usize, T)>) -> (out: Vec<(usize, T)>)
    ensures
        sorted_by_index(out@),
        out@.to_multiset() == results@.to_multiset(),
        one_per_position(results@) ==> forall|i: int| 0 <= i < out@.len() ==> out@[i].0 == i,
{
    let ghost all = results@;
    let ghost n = results@.len();
    let mut rest = results;
    let mut out: Vec<(usize, T)> = Vec::new();
    while rest.len() > 0
        invariant
            rest@.len() <= n,
            rest@ == all.subrange(0, rest@.len() as int),
            out@.to_multiset() == all.subrange(rest@.len() as int, n as int).to_multiset(),
            all.len() == n,
            sorted_by_index(out@),
            one_per_position(all) ==> forall|i: int, j: int|
                0 <= i < j < out@.len() ==> out@[i].0 < out@[j].0,
        decreases rest.len(),
    {
        let ghost k = rest@.len() - 1;
        let ghost prev = rest@;
        let item = rest.pop().unwrap();
        proof {
            assert(item == all[k]);
            assert(all.subrange(k, n as int) =~= all.subrange(k + 1, n as int).insert(0, item));
            assert(rest@ =~= all.subrange(0, k));
            // every entry already placed came from a later position than `item`
            assert forall|i: int| 0 <= i < out@.len() implies exists|m: int|
                k < m < n && all[m] == #[trigger] out@[i] by {
                assert(out@.to_multiset().count(out@[i]) > 0);
                let later = all.subrange(k + 1, n as int);
                assert(later.contains(out@[i]));
                let m = choose|m: int| 0 <= m < later.len() && later[m] == out@[i];
                assert(all[k + 1 + m] == out@[i]);
            }
        }
        let key = item.0;
        let mut j: usize = 0;
        while j < out.len() && out[j].0 <= key
            invariant
                j <= out@.len(),
                forall|i: int| 0 <= i < j ==> out@[i].0 <= key,
            decreases out.len() - j,
        {
            j += 1;
        }
        let ghost before = out@;
        out.insert(j, item);
        proof {
            assert(out@ == before.insert(j as int, item));
            assert forall|a: int, b: int| 0 <= a < b < out@.len() implies out@[a].0 <= out@[b].0 by {
                if j < before.len() {
                    assert(before[j as int].0 > key);
                }
            }
            if one_per_position(all) {
                assert forall|a: int, b: int| 0 <= a < b < out@.len() implies out@[a].0
                    < out@[b].0 by {
                    if a == j {
                        let m = choose|m: int| k < m < n && all[m] == #[trigger] before[b - 1];
                        assert(all[k] == item);
                    } else if b == j {
                        let m = choose|m: int| k < m < n && all[m] == #[trigger] before[a];
                        assert(all[k] == item);
                    }
                }
            }
        }
    }
    proof {
        assert(all.subrange(0, n as int) =~= all);
        assert(out@.len() == n) by {
            assert(out@.to_multiset().len() == all.to_multiset().len());
        }
        if one_per_position(all) {
            assert forall|i: int| 0 <= i < out@.len() implies out@[i].0 < n by {
                assert(out@.to_multiset().count(out@[i]) > 0);
                assert(all.contains(out@[i]));
            }
            lemma_increasing_positions(out@, n);
        }
    }
    out
}

/// A strictly increasing sequence of `n` indices, all below `n`, lists
/// `0 .. n` in order.
proof fn lemma_increasing_positions<T>(s: Seq<(usize, T)>, n: nat)
    requires
        s.len() == n,
        forall|i: int| 0 <= i < s.len() ==> (#[trigger] s[i]).0 < n,
        forall|i: int, j: int| 0 <= i < j < s.len() ==> s[i].0 < s[j].0,
    ensures
        forall|i: int| 0 <= i < s.len() ==> (#[trigger] s[i]).0 == i,
{
    assert forall|i: int| 0 <= i < s.len() implies (#[trigger] s[i]).0 == i by {
        lemma_at_least_position(s, i);
        lemma_at_most_position(s, n, i);
    }
}

proof fn lemma_at_least_position<T>(s: Seq<(usize, T)>, i: int)
    requires
        0 <= i < s.len(),
        forall|a: int, b: int| 0 <= a < b < s.len() ==> s[a].0 < s[b].0,
    ensures
        s[i].0 >= i,
    decreases i,
{
    if i > 0 {
        lemma_at_least_position(s, i - 1);
    }
}

proof fn lemma_at_most_position<T>(s: Seq<(usize, T)>, n: nat, i: int)
    requires
        0 <= i < s.len() == n,
        forall|a: int| 0 <= a < s.len() ==> (#[trigger] s[a]).0 < n,
        forall|a: int, b: int| 0 <= a < b < s.len() ==> s[a].0 < s[b].0,
    ensures
        s[i].0 <= i,
    decreases n - i,
{
    if i + 1 < n {
        lemma_at_most_position(s, n, i + 1);
    }
}

} // verus!
