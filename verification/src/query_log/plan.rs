//! The compute time that an execution plan reports.

use vstd::arithmetic::div_mod::lemma_add_mod_noop;
use vstd::arithmetic::div_mod::lemma_small_mod;
use vstd::prelude::*;

verus! {

broadcast use vstd::std_specs::vec::axiom_vec_index_decreases;

/// A node of an execution plan: the compute time it reports for itself, if
/// it reports any, and the nodes below it.
#[derive(Debug)]
pub struct PlanNode {
    /// The compute time of the node alone, in nanoseconds.
    pub elapsed_compute: Option<usize>,
    /// The inputs of the node.
    pub children: Vec<PlanNode>,
}

/// The compute time that a node reports for itself; 0 where it reports
/// none.
pub open spec fn spec_own_nanos(node: PlanNode) -> nat {
    match node.elapsed_compute {
        Some(nanos) => nanos as nat,
        None => 0,
    }
}

/// The compute time of a whole plan: that of the node and of every node
/// below it.
pub open spec fn spec_compute_nanos(node: PlanNode) -> nat
    decreases node, node.children.len() + 1,
{
    spec_own_nanos(node) + spec_children_nanos(node, node.children.len() as int)
}

/// The compute time of the plans below the first `count` children of a
/// node.
pub open spec fn spec_children_nanos(node: PlanNode, count: int) -> nat
    decreases node, count,
{
    if count <= 0 || count > node.children.len() {
        0
    } else {
        spec_children_nanos(node, count - 1) + spec_compute_nanos(node.children[count - 1])
    }
}

/// The low 64 bits of a count of nanoseconds: what is left of a duration
/// once it is kept in one word.
pub open spec fn spec_low_word(nanos: nat) -> u64 {
    (nanos % 0x1_0000_0000_0000_0000) as u64
}

/// Adding two low words and taking the low word of the sum is taking the
/// low word of the sum of what they came from.
proof fn lemma_low_word_add(a: nat, b: nat)
    ensures
        spec_low_word(spec_low_word(a) as nat + spec_low_word(b) as nat) == spec_low_word(a + b),
{
    lemma_add_mod_noop(a as int, b as int, 0x1_0000_0000_0000_0000);
}

/// Sums the compute time of a plan, in nanoseconds.
///
/// The sum is kept in one word: where it does not fit, its low 64 bits are
/// returned.
pub fn collect_compute_duration(plan: &PlanNode) -> (total: u64)
    ensures
        total == spec_low_word(spec_compute_nanos(*plan)),
    decreases plan,
{
    let mut total: u64 = match plan.elapsed_compute {
        Some(nanos) => nanos as u64,
        None => 0,
    };
    proof {
        lemma_small_mod(spec_own_nanos(*plan), 0x1_0000_0000_0000_0000);
    }
    let mut i: usize = 0;
    while i < plan.children.len()
        invariant
            i <= plan.children.len(),
            total == spec_low_word(spec_own_nanos(*plan) + spec_children_nanos(*plan, i as int)),
        decreases plan.children.len() - i,
    {
        let below = collect_compute_duration(&plan.children[i]);
        proof {
            lemma_low_word_add(
                spec_own_nanos(*plan) + spec_children_nanos(*plan, i as int),
                spec_compute_nanos(plan.children[i as int]),
            );
        }
        total = total.wrapping_add(below);
        i = i + 1;
    }
    total
}

} // verus!
