//! Ranking of the cycles found: the most profitable first.

use vstd::prelude::*;
use vstd::multiset::{lemma_multiset_empty_len, Multiset};
use vstd::seq_lib::{to_multiset_build, to_multiset_insert, to_multiset_len};
use crate::cycle::{cycle_views, ArbitrageCycle, CycleView};

verus! {

/// No cycle is followed by a more profitable one.
pub open spec fn ranked(cycles: Seq<CycleView>) -> bool {
    forall|i: int, j: int|
        0 <= i < j < cycles.len() ==> (#[trigger] cycles[i]).net_profit >= (
        #[trigger] cycles[j]).net_profit
}

/// Orders `cycles` by net profit, highest first. The result holds the same
/// cycles, each as often as before.
pub fn rank_cycles(cycles: Vec<ArbitrageCycle>) -> (r: Vec<ArbitrageCycle>)
    ensures
        ranked(cycle_views(r@)),
        cycle_views(r@).to_multiset() == cycle_views(cycles@).to_multiset(),
        r.len() == cycles.len(),
{
    let ghost given = cycle_views(cycles@);
    let mut rest = cycles;
    let mut out: Vec<ArbitrageCycle> = Vec::new();
    proof {
        lemma_no_cycles(cycle_views(out@));
    }
    while rest.len() > 0
        invariant
            ranked(cycle_views(out@)),
            out.len() + rest.len() == given.len(),
            cycle_views(out@).to_multiset().add(cycle_views(rest@).to_multiset())
                == given.to_multiset(),
        decreases rest.len(),
    {
        let ghost rest_before = cycle_views(rest@);
        let ghost out_before = cycle_views(out@);
        let c = rest.pop().unwrap();
        proof {
            assert(rest_before =~= cycle_views(rest@).push(c@));
            to_multiset_build(cycle_views(rest@), c@);
        }
        let mut j: usize = 0;
        while j < out.len() && out[j].net_profit >= c.net_profit
            invariant
                j <= out.len(),
                forall|k: int| 0 <= k < j ==> (#[trigger] out[k]).net_profit >= c.net_profit,
            decreases out.len() - j,
        {
            j += 1;
        }
        out.insert(j, c);
        proof {
            assert(cycle_views(out@) =~= out_before.insert(j as int, c@));
            to_multiset_insert(out_before, j as int, c@);
            assert(cycle_views(out@).to_multiset().add(cycle_views(rest@).to_multiset())
                =~= given.to_multiset());
            assert forall|a: int, b: int| 0 <= a < b < out.len() implies (#[trigger] cycle_views(
                out@,
            )[a]).net_profit >= (#[trigger] cycle_views(out@)[b]).net_profit by {
                let before_a = if a < j { a } else { a - 1 };
                let before_b = if b < j { b } else { b - 1 };
                if a != j && b != j {
                    assert(out_before[before_a].net_profit >= out_before[before_b].net_profit);
                } else if a == j {
                    if j < out_before.len() {
                        assert(out_before[j as int].net_profit < c@.net_profit);
                        if before_b > j {
                            assert(out_before[j as int].net_profit
                                >= out_before[before_b].net_profit);
                        }
                    }
                }
            }
        }
    }
    proof {
        lemma_no_cycles(cycle_views(rest@));
    }
    out
}

/// An empty list adds nothing to a collection.
proof fn lemma_no_cycles(cycles: Seq<CycleView>)
    requires
        cycles.len() == 0,
    ensures
        forall|m: Multiset<CycleView>|
            #![trigger m.add(cycles.to_multiset())]
            #![trigger cycles.to_multiset().add(m)]
            m.add(cycles.to_multiset()) == m && cycles.to_multiset().add(m) == m,
{
    to_multiset_len(cycles);
    lemma_multiset_empty_len(cycles.to_multiset());
    assert forall|m: Multiset<CycleView>|
        #![trigger m.add(cycles.to_multiset())]
        #![trigger cycles.to_multiset().add(m)]
        m.add(cycles.to_multiset()) == m && cycles.to_multiset().add(m) == m by {
        assert(m.add(cycles.to_multiset()) =~= m);
        assert(cycles.to_multiset().add(m) =~= m);
    }
}

} // verus!
