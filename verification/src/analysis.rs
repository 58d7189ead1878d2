//! Context analysis: whether a sequence of assertions is jointly
//! satisfiable under a constraint graph.
//!
//! An assertion sequence is satisfiable when no two assertions collide.
//! Two assertions collide when they are two different values of one
//! single-valued key, when a mutual-exclusion edge connects them, or
//! when one of them triggers an aggregator restriction that the other
//! falls outside of.  The analysis walks the context in order and
//! reports the first assertion whose addition breaks satisfiability.
//!
//! Results for partial states are memoized under a canonical key: the
//! assertions evaluated so far, sorted.  Equivalent sets of assertions
//! therefore share one key regardless of push order.

use vstd::prelude::*;
use vstd::multiset::Multiset;
use vstd::relations::sorted_by;
use vstd::seq_lib::lemma_sorted_unique;
use crate::values::{DirValue, DirKeyKind, key_of, num_compatible};
use crate::values::num_values_compatible;
use crate::graph::{
    ConstraintGraph,
    GraphModel,
    NodeKind,
    NodeKindModel,
    Edge,
    EdgeKind,
    DomainDescription,
    find_node,
    find_domain,
    key_exclusive,
};
use crate::context::{Context, ContextValue, dir_values_of};
use crate::order::{dir_value_leq, insert_sorted, lemma_dir_value_total_order, dir_value_vec_eq};

verus! {

// ---------------------------------------------------------------------
// What it means for assertions to collide.
// ---------------------------------------------------------------------

/// Whether the node under `id` asserts exactly the value `v`.
pub open spec fn asserts_value(m: GraphModel, id: u64, v: DirValue) -> bool {
    match find_node(m.nodes, id) {
        Some(n) => n.kind == NodeKindModel::Assertion(v),
        None => false,
    }
}

/// The key and permitted values of the aggregator under `id`, if the
/// node exists and aggregates.
pub open spec fn aggregator_at(m: GraphModel, id: u64) -> Option<(DirKeyKind, Seq<DirValue>)> {
    match find_node(m.nodes, id) {
        Some(n) => match n.kind {
            NodeKindModel::Aggregator { key, allowed } => Some((key, allowed)),
            _ => None,
        },
        None => None,
    }
}

/// Two concrete values of one key that cannot hold together: different
/// values of a single-valued key, or two incompatible numeric
/// comparisons.
pub open spec fn values_conflict(m: GraphModel, a: DirValue, b: DirValue) -> bool {
    key_of(a) == key_of(b) && match (a, b) {
        (DirValue::PaymentAmount(n1), DirValue::PaymentAmount(n2)) => !num_compatible(n1, n2),
        _ => a != b && key_exclusive(m, key_of(a)),
    }
}

/// Whether one edge witnesses a mutual exclusion of `x` and `y`: it is
/// an exclusion edge from a node asserting `x` to a node asserting `y`.
pub open spec fn excl_witness(m: GraphModel, e: Edge, x: DirValue, y: DirValue) -> bool {
    e.kind == EdgeKind::Excludes && asserts_value(m, e.lhs, x) && asserts_value(m, e.rhs, y)
}

/// Whether one edge witnesses a restriction of `y` triggered by `x`: it
/// is an implication edge from a node asserting `x` to an aggregator of
/// `y`'s key whose permitted values do not include `y`.
pub open spec fn restr_witness(m: GraphModel, e: Edge, x: DirValue, y: DirValue) -> bool {
    e.kind == EdgeKind::Implies && asserts_value(m, e.lhs, x) && match aggregator_at(m, e.rhs) {
        Some(ka) => key_of(y) == ka.0 && !ka.1.contains(y),
        None => false,
    }
}

/// Some mutual-exclusion edge runs from a node asserting `x` to a node
/// asserting `y`.
pub open spec fn exclusion_edge(m: GraphModel, x: DirValue, y: DirValue) -> bool {
    exists|i: int| 0 <= i < m.edges.len() && excl_witness(m, #[trigger] m.edges[i], x, y)
}

/// Asserting `x` triggers an aggregator restriction that `y` falls
/// outside of.
pub open spec fn restriction_violated(m: GraphModel, x: DirValue, y: DirValue) -> bool {
    exists|i: int| 0 <= i < m.edges.len() && restr_witness(m, #[trigger] m.edges[i], x, y)
}

/// Two assertions collide under the graph.
pub open spec fn pair_violation(m: GraphModel, x: DirValue, y: DirValue) -> bool {
    ||| values_conflict(m, x, y)
    ||| exclusion_edge(m, x, y)
    ||| exclusion_edge(m, y, x)
    ||| restriction_violated(m, x, y)
    ||| restriction_violated(m, y, x)
}

/// One assertion collides with itself alone: it excludes itself, or
/// triggers a restriction of its own key that it falls outside of.
pub open spec fn self_violation(m: GraphModel, x: DirValue) -> bool {
    exclusion_edge(m, x, x) || restriction_violated(m, x, x)
}

/// The whole sequence of assertions is jointly satisfiable.
pub open spec fn ctx_ok(m: GraphModel, s: Seq<DirValue>) -> bool {
    &&& forall|i: int, j: int|
        0 <= i < j < s.len() ==> !pair_violation(m, #[trigger] s[i], #[trigger] s[j])
    &&& forall|i: int| 0 <= i < s.len() ==> !self_violation(m, #[trigger] s[i])
}

/// Adding `v` on top of the satisfiable prefix keeps it satisfiable.
pub open spec fn step_ok(m: GraphModel, prefix: Seq<DirValue>, v: DirValue) -> bool {
    &&& !self_violation(m, v)
    &&& forall|k: int| 0 <= k < prefix.len() ==> !pair_violation(m, #[trigger] prefix[k], v)
}

/// Colliding is symmetric in the two assertions.
pub proof fn lemma_pair_violation_symmetric(m: GraphModel, x: DirValue, y: DirValue)
    ensures
        pair_violation(m, x, y) == pair_violation(m, y, x),
{
    assert(num_compatible_symm(x, y));
}

/// Numeric compatibility does not depend on the order of the operands.
spec fn num_compatible_symm(x: DirValue, y: DirValue) -> bool {
    match (x, y) {
        (DirValue::PaymentAmount(n1), DirValue::PaymentAmount(n2)) => num_compatible(n1, n2)
            == num_compatible(n2, n1),
        _ => true,
    }
}

/// Satisfiability of one more assertion decomposes into satisfiability
/// of the prefix and one step.
pub proof fn lemma_step_extend(m: GraphModel, s: Seq<DirValue>, i: int)
    requires
        0 <= i < s.len(),
    ensures
        ctx_ok(m, s.take(i + 1)) == (ctx_ok(m, s.take(i)) && step_ok(m, s.take(i), s[i])),
{
    let p = s.take(i);
    let t = s.take(i + 1);
    assert(forall|k: int| 0 <= k < i ==> t[k] == #[trigger] s[k] && p[k] == s[k]);
    assert(t[i as int] == s[i]);
    if ctx_ok(m, p) && step_ok(m, p, s[i]) {
        assert forall|a: int, b: int| 0 <= a < b < t.len() implies !pair_violation(
            m,
            #[trigger] t[a],
            #[trigger] t[b],
        ) by {
            if b < i {
                assert(!pair_violation(m, p[a], p[b]));
            } else {
                assert(b == i);
                assert(!pair_violation(m, p[a], s[i]));
            }
        }
        assert forall|a: int| 0 <= a < t.len() implies !self_violation(m, #[trigger] t[a]) by {
            if a < i {
                assert(!self_violation(m, p[a]));
            }
        }
    }
    if ctx_ok(m, t) {
        assert forall|a: int, b: int| 0 <= a < b < p.len() implies !pair_violation(
            m,
            #[trigger] p[a],
            #[trigger] p[b],
        ) by {
            assert(!pair_violation(m, t[a], t[b]));
        }
        assert forall|a: int| 0 <= a < p.len() implies !self_violation(m, #[trigger] p[a]) by {
            assert(!self_violation(m, t[a]));
        }
        assert forall|k: int| 0 <= k < p.len() implies !pair_violation(m, #[trigger] p[k], s[i]) by {
            assert(!pair_violation(m, t[k], t[i as int]));
        }
        assert(!self_violation(m, t[i as int]));
    }
}

// ---------------------------------------------------------------------
// Satisfiability depends only on the multiset of assertions.
// ---------------------------------------------------------------------

/// Satisfiability stated over an unordered collection of assertions.
pub open spec fn multiset_ok(m: GraphModel, ms: Multiset<DirValue>) -> bool {
    &&& forall|x: DirValue| #[trigger] ms.count(x) > 0 ==> !self_violation(m, x)
    &&& forall|x: DirValue, y: DirValue|
        #[trigger] ms.count(x) > 0 && #[trigger] ms.count(y) > 0 && x != y ==> !pair_violation(
            m,
            x,
            y,
        )
    &&& forall|x: DirValue| #[trigger] ms.count(x) >= 2 ==> !pair_violation(m, x, x)
}

/// A value counted at least twice occupies two distinct positions.
proof fn lemma_count_two_indices(s: Seq<DirValue>, x: DirValue)
    requires
        s.to_multiset().count(x) >= 2,
    ensures
        exists|i: int, j: int| 0 <= i < j < s.len() && s[i] == x && s[j] == x,
    decreases s.len(),
{
    broadcast use vstd::seq_lib::group_to_multiset_ensures;

    assert(s.to_multiset().len() >= 2);
    assert(s.len() >= 2);
    let rest = s.drop_first();
    assert(s.remove(0) =~= rest);
    assert(rest.to_multiset() == s.to_multiset().remove(s[0]));
    if s[0] == x {
        assert(rest.to_multiset().count(x) >= 1);
        assert(rest.contains(x));
        let k = choose|k: int| 0 <= k < rest.len() && rest[k] == x;
        assert(s[k + 1] == x);
        assert(0 <= 0 < k + 1 < s.len() && s[0] == x && s[k + 1] == x);
    } else {
        assert(rest.to_multiset().count(x) >= 2);
        lemma_count_two_indices(rest, x);
        let (i, j) = choose|i: int, j: int| 0 <= i < j < rest.len() && rest[i] == x && rest[j] == x;
        assert(s[i + 1] == x && s[j + 1] == x);
        assert(0 <= i + 1 < j + 1 < s.len());
    }
}

/// A value at two distinct positions is counted at least twice.
proof fn lemma_two_indices_count(s: Seq<DirValue>, i: int, j: int)
    requires
        0 <= i < j < s.len(),
        s[i] == s[j],
    ensures
        s.to_multiset().count(s[i]) >= 2,
{
    broadcast use vstd::seq_lib::group_to_multiset_ensures;

    let t = s.remove(j);
    assert(t.to_multiset() == s.to_multiset().remove(s[j]));
    assert(t[i] == s[i]);
    assert(t.contains(s[i]));
    assert(t.to_multiset().count(s[i]) > 0);
}

/// Satisfiability of a sequence is satisfiability of its multiset.
pub proof fn lemma_ctx_ok_multiset(m: GraphModel, s: Seq<DirValue>)
    ensures
        ctx_ok(m, s) == multiset_ok(m, s.to_multiset()),
{
    broadcast use vstd::seq_lib::group_to_multiset_ensures;

    let ms = s.to_multiset();
    if ctx_ok(m, s) {
        assert forall|x: DirValue| #[trigger] ms.count(x) > 0 implies !self_violation(m, x) by {
            assert(s.contains(x));
            let i = choose|i: int| 0 <= i < s.len() && s[i] == x;
            assert(!self_violation(m, s[i]));
        }
        assert forall|x: DirValue, y: DirValue|
            #[trigger] ms.count(x) > 0 && #[trigger] ms.count(y) > 0 && x != y implies
        !pair_violation(m, x, y) by {
            assert(s.contains(x));
            assert(s.contains(y));
            let i = choose|i: int| 0 <= i < s.len() && s[i] == x;
            let j = choose|j: int| 0 <= j < s.len() && s[j] == y;
            if i < j {
                assert(!pair_violation(m, s[i], s[j]));
            } else {
                assert(!pair_violation(m, s[j], s[i]));
                lemma_pair_violation_symmetric(m, x, y);
            }
        }
        assert forall|x: DirValue| #[trigger] ms.count(x) >= 2 implies !pair_violation(m, x, x) by {
            lemma_count_two_indices(s, x);
            let (i, j) = choose|i: int, j: int| 0 <= i < j < s.len() && s[i] == x && s[j] == x;
            assert(!pair_violation(m, s[i], s[j]));
        }
        assert(multiset_ok(m, ms));
    }
    if multiset_ok(m, ms) {
        assert forall|i: int, j: int| 0 <= i < j < s.len() implies !pair_violation(
            m,
            #[trigger] s[i],
            #[trigger] s[j],
        ) by {
            assert(s.contains(s[i]));
            assert(s.contains(s[j]));
            assert(ms.count(s[i]) > 0);
            assert(ms.count(s[j]) > 0);
            if s[i] == s[j] {
                lemma_two_indices_count(s, i, j);
            }
        }
        assert forall|i: int| 0 <= i < s.len() implies !self_violation(m, #[trigger] s[i]) by {
            assert(s.contains(s[i]));
            assert(ms.count(s[i]) > 0);
        }
        assert(ctx_ok(m, s));
    }
}

/// Satisfiability is invariant under reordering of the assertions.
pub proof fn lemma_ctx_ok_permutation(m: GraphModel, s1: Seq<DirValue>, s2: Seq<DirValue>)
    requires
        s1.to_multiset() == s2.to_multiset(),
    ensures
        ctx_ok(m, s1) == ctx_ok(m, s2),
{
    lemma_ctx_ok_multiset(m, s1);
    lemma_ctx_ok_multiset(m, s2);
}

/// Two sorted keys over one and the same set of assertions are equal:
/// the canonical memoization key does not depend on push order.
pub proof fn lemma_canonical_key_unique(k1: Seq<DirValue>, k2: Seq<DirValue>)
    requires
        sorted_by(k1, dir_value_leq()),
        sorted_by(k2, dir_value_leq()),
        k1.to_multiset() == k2.to_multiset(),
    ensures
        k1 == k2,
{
    lemma_dir_value_total_order();
    lemma_sorted_unique(k1, k2, dir_value_leq());
}

/// A satisfiable sequence stays satisfiable when cut short.
pub proof fn lemma_ctx_ok_take(m: GraphModel, s: Seq<DirValue>, j: int)
    requires
        0 <= j <= s.len(),
        ctx_ok(m, s),
    ensures
        ctx_ok(m, s.take(j)),
{
    let p = s.take(j);
    assert forall|a: int, b: int| 0 <= a < b < p.len() implies !pair_violation(
        m,
        #[trigger] p[a],
        #[trigger] p[b],
    ) by {
        assert(!pair_violation(m, s[a], s[b]));
    }
    assert forall|a: int| 0 <= a < p.len() implies !self_violation(m, #[trigger] p[a]) by {
        assert(!self_violation(m, s[a]));
    }
}

// ---------------------------------------------------------------------
// The analysis error.
// ---------------------------------------------------------------------

/// Why the cited assertion broke satisfiability, naming the conflicting
/// prior assertion or domain rule.
#[derive(Clone, Copy, Debug, PartialEq, Eq, Structural)]
pub enum AnalysisReason {
    /// The assertion and an earlier one are two different values of one
    /// single-valued key.
    DomainExclusion { prior_index: usize },
    /// A mutual-exclusion edge connects the assertion with the one at
    /// `other_index` (itself, when the two indices coincide).
    ExclusionEdge { other_index: usize },
    /// The assertion at `trigger_index` triggers an aggregator
    /// restriction that the cited assertion falls outside of, or the
    /// other way round.
    AggregatorRestriction { trigger_index: usize },
}

/// The first unsatisfiable assertion, with the conflict that broke it.
#[derive(Clone, Copy, Debug, PartialEq, Eq, Structural)]
pub struct AnalysisError {
    /// Position of the assertion in the analyzed context.
    pub index: usize,
    /// The assertion itself.
    pub value: DirValue,
    /// The conflict.
    pub reason: AnalysisReason,
}

/// The error's indices point at a real conflict in the context.
pub open spec fn reason_valid(m: GraphModel, s: Seq<DirValue>, e: AnalysisError) -> bool {
    &&& (e.index as int) < s.len()
    &&& e.value == s[e.index as int]
    &&& !step_ok(m, s.take(e.index as int), s[e.index as int])
    &&& match e.reason {
        AnalysisReason::DomainExclusion { prior_index } => prior_index < e.index
            && values_conflict(m, s[prior_index as int], s[e.index as int]),
        AnalysisReason::ExclusionEdge { other_index } => other_index <= e.index && (exclusion_edge(
            m,
            s[other_index as int],
            s[e.index as int],
        ) || exclusion_edge(m, s[e.index as int], s[other_index as int])),
        AnalysisReason::AggregatorRestriction { trigger_index } => trigger_index <= e.index && (
        restriction_violated(m, s[trigger_index as int], s[e.index as int]) || restriction_violated(
            m,
            s[e.index as int],
            s[trigger_index as int],
        )),
    }
}

/// Full validity of a reported error: the assertions before the cited
/// one are jointly satisfiable, and the cited one breaks them.
pub open spec fn analysis_error_valid(m: GraphModel, s: Seq<DirValue>, e: AnalysisError) -> bool {
    reason_valid(m, s, e) && ctx_ok(m, s.take(e.index as int))
}

// ---------------------------------------------------------------------
// Executable decision procedures.
// ---------------------------------------------------------------------

/// Which collision a pair of assertions ran into.
#[derive(Clone, Copy, Debug, PartialEq, Eq, Structural)]
enum PairCause {
    Domain,
    Exclusion,
    Restriction,
}

/// Decides whether a value sequence holds a value.
fn values_contain(vs: &Vec<DirValue>, x: &DirValue) -> (r: bool)
    ensures
        r == vs@.contains(*x),
{
    let mut i: usize = 0;
    while i < vs.len()
        invariant
            i <= vs@.len(),
            forall|k: int| 0 <= k < i ==> vs@[k] != *x,
        decreases vs@.len() - i,
    {
        if vs[i] == *x {
            return true;
        }
        i = i + 1;
    }
    false
}

impl ConstraintGraph {
    /// Decides whether a key is single valued under this graph.
    fn key_exclusive_exec(&self, k: DirKeyKind) -> (r: bool)
        ensures
            r == key_exclusive(self.model(), k),
    {
        let ghost ds = self.model().domains;
        let mut i: usize = 0;
        proof {
            assert(ds.skip(0) =~= ds);
        }
        while i < self.domains.len()
            invariant
                ds == self.model().domains,
                i <= ds.len(),
                find_domain(ds, k) == find_domain(ds.skip(i as int), k),
            decreases ds.len() - i,
        {
            proof {
                assert(ds.skip(i as int).len() > 0);
                assert(ds.skip(i as int)[0] == ds[i as int]);
                assert(ds.skip(i as int).drop_first() =~= ds.skip(i as int + 1));
            }
            if self.domains[i].key == k {
                return self.domains[i].exclusive;
            }
            i = i + 1;
        }
        proof {
            assert(ds.skip(i as int) =~= Seq::<DomainDescription>::empty());
        }
        true
    }

    /// Finds the position of the node carrying `id`, if any.
    fn find_node_index(&self, id: u64) -> (r: Option<usize>)
        ensures
            match r {
                Some(i) => i < self.nodes@.len() && find_node(self.model().nodes, id) == Some(
                    self.model().nodes[i as int],
                ) && self.model().nodes[i as int].id == id,
                None => find_node(self.model().nodes, id) is None,
            },
    {
        let ghost ns = self.model().nodes;
        let mut i: usize = 0;
        proof {
            assert(ns.skip(0) =~= ns);
        }
        while i < self.nodes.len()
            invariant
                ns == self.model().nodes,
                ns.len() == self.nodes@.len(),
                i <= ns.len(),
                find_node(ns, id) == find_node(ns.skip(i as int), id),
            decreases ns.len() - i,
        {
            proof {
                assert(ns.skip(i as int).len() > 0);
                assert(ns.skip(i as int)[0] == ns[i as int]);
                assert(ns.skip(i as int).drop_first() =~= ns.skip(i as int + 1));
                assert(ns[i as int] == crate::graph::node_model(self.nodes@[i as int]));
            }
            if self.nodes[i].id == id {
                return Some(i);
            }
            i = i + 1;
        }
        proof {
            assert(ns.skip(i as int) =~= Seq::<crate::graph::NodeModel>::empty());
        }
        None
    }

    /// Decides whether the node under `id` asserts exactly `x`.
    fn value_asserted(&self, id: u64, x: &DirValue) -> (r: bool)
        ensures
            r == asserts_value(self.model(), id, *x),
    {
        match self.find_node_index(id) {
            None => false,
            Some(i) => {
                proof {
                    assert(self.model().nodes[i as int] == crate::graph::node_model(
                        self.nodes@[i as int],
                    ));
                }
                match &self.nodes[i].kind {
                    NodeKind::Assertion(v) => *v == *x,
                    NodeKind::Aggregator { .. } => false,
                }
            },
        }
    }

    /// Classifies the collision between a prior assertion `a` and a new
    /// assertion `b`, if the pair collides at all.
    fn classify_pair(&self, a: &DirValue, b: &DirValue) -> (r: Option<PairCause>)
        ensures
            r is None ==> !pair_violation(self.model(), *a, *b),
            r == Some(PairCause::Domain) ==> values_conflict(self.model(), *a, *b),
            r == Some(PairCause::Exclusion) ==> exclusion_edge(self.model(), *a, *b)
                || exclusion_edge(self.model(), *b, *a),
            r == Some(PairCause::Restriction) ==> restriction_violated(self.model(), *a, *b)
                || restriction_violated(self.model(), *b, *a),
    {
        let ghost m = self.model();
        // Domain exclusivity.
        let domain_conflict: bool = if a.get_key() == b.get_key() {
            match (a, b) {
                (DirValue::PaymentAmount(n1), DirValue::PaymentAmount(n2)) => {
                    !num_values_compatible(n1, n2)
                },
                _ => *a != *b && self.key_exclusive_exec(a.get_key()),
            }
        } else {
            false
        };
        proof {
            assert(domain_conflict == values_conflict(m, *a, *b));
        }
        if domain_conflict {
            return Some(PairCause::Domain);
        }
        // Mutual-exclusion edges, in either direction.
        let mut i: usize = 0;
        while i < self.edges.len()
            invariant
                m == self.model(),
                i <= m.edges.len(),
                forall|j: int|
                    0 <= j < i ==> !excl_witness(m, #[trigger] m.edges[j], *a, *b) && !excl_witness(
                        m,
                        m.edges[j],
                        *b,
                        *a,
                    ),
            decreases m.edges.len() - i,
        {
            let e = self.edges[i];
            if matches!(e.kind, EdgeKind::Excludes) {
                if self.value_asserted(e.lhs, a) && self.value_asserted(e.rhs, b) {
                    proof {
                        assert(excl_witness(m, m.edges[i as int], *a, *b));
                    }
                    return Some(PairCause::Exclusion);
                }
                if self.value_asserted(e.lhs, b) && self.value_asserted(e.rhs, a) {
                    proof {
                        assert(excl_witness(m, m.edges[i as int], *b, *a));
                    }
                    return Some(PairCause::Exclusion);
                }
            }
            i = i + 1;
        }
        proof {
            assert(!exclusion_edge(m, *a, *b));
            assert(!exclusion_edge(m, *b, *a));
        }
        // Aggregator restrictions, triggered by either value.
        let mut i: usize = 0;
        while i < self.edges.len()
            invariant
                m == self.model(),
                i <= m.edges.len(),
                forall|j: int|
                    0 <= j < i ==> !restr_witness(m, #[trigger] m.edges[j], *a, *b)
                        && !restr_witness(m, m.edges[j], *b, *a),
            decreases m.edges.len() - i,
        {
            let e = self.edges[i];
            if matches!(e.kind, EdgeKind::Implies) {
                let lhs_a = self.value_asserted(e.lhs, a);
                let lhs_b = self.value_asserted(e.lhs, b);
                if lhs_a || lhs_b {
                    match self.find_node_index(e.rhs) {
                        None => {
                            proof {
                                assert(aggregator_at(m, e.rhs) is None);
                            }
                        },
                        Some(ni) => {
                            proof {
                                assert(m.nodes[ni as int] == crate::graph::node_model(
                                    self.nodes@[ni as int],
                                ));
                            }
                            match &self.nodes[ni].kind {
                                NodeKind::Assertion(_) => {
                                    proof {
                                        assert(aggregator_at(m, e.rhs) is None);
                                    }
                                },
                                NodeKind::Aggregator { key, allowed } => {
                                    proof {
                                        assert(aggregator_at(m, e.rhs) == Some(
                                            (*key, allowed@),
                                        ));
                                    }
                                    if lhs_a && b.get_key() == *key && !values_contain(allowed, b) {
                                        proof {
                                            assert(restr_witness(m, m.edges[i as int], *a, *b));
                                        }
                                        return Some(PairCause::Restriction);
                                    }
                                    if lhs_b && a.get_key() == *key && !values_contain(allowed, a) {
                                        proof {
                                            assert(restr_witness(m, m.edges[i as int], *b, *a));
                                        }
                                        return Some(PairCause::Restriction);
                                    }
                                },
                            }
                        },
                    }
                }
            }
            i = i + 1;
        }
        proof {
            assert(!restriction_violated(m, *a, *b));
            assert(!restriction_violated(m, *b, *a));
        }
        None
    }

    /// Checks whether the assertion at position `i` collides with the
    /// assertions before it, or with itself alone, and names the
    /// conflict if so.
    fn check_step(&self, ctx: &Context, i: usize) -> (r: Option<AnalysisError>)
        requires
            i < ctx@.len(),
        ensures
            (r is None) == step_ok(
                self.model(),
                ctx.asserted().take(i as int),
                ctx.asserted()[i as int],
            ),
            r matches Some(e) ==> reason_valid(self.model(), ctx.asserted(), e) && e.index == i,
    {
        let ghost m = self.model();
        let ghost s = ctx.asserted();
        let v = ctx.get(i).value;
        proof {
            assert(s[i as int] == ctx@[i as int].value);
        }
        // The assertion against itself alone.
        match self.classify_pair(&v, &v) {
            None => {
                proof {
                    assert(!self_violation(m, v));
                }
            },
            Some(PairCause::Domain) => {
                proof {
                    crate::values::lemma_num_self_satisfiable_all();
                    assert(!values_conflict(m, v, v));
                    assert(false);
                }
                return None;
            },
            Some(PairCause::Exclusion) => {
                return Some(
                    AnalysisError {
                        index: i,
                        value: v,
                        reason: AnalysisReason::ExclusionEdge { other_index: i },
                    },
                );
            },
            Some(PairCause::Restriction) => {
                return Some(
                    AnalysisError {
                        index: i,
                        value: v,
                        reason: AnalysisReason::AggregatorRestriction { trigger_index: i },
                    },
                );
            },
        }
        // The assertion against each earlier one.
        let mut j: usize = 0;
        while j < i
            invariant
                m == self.model(),
                s == ctx.asserted(),
                i < s.len(),
                ctx@.len() == s.len(),
                j <= i,
                v == s[i as int],
                !self_violation(m, v),
                forall|k: int| 0 <= k < j ==> !pair_violation(m, #[trigger] s[k], v),
            decreases i - j,
        {
            let u = ctx.get(j).value;
            proof {
                assert(s[j as int] == ctx@[j as int].value);
            }
            match self.classify_pair(&u, &v) {
                None => {},
                Some(PairCause::Domain) => {
                    proof {
                        assert(s.take(i as int)[j as int] == s[j as int]);
                        assert(pair_violation(m, s[j as int], v));
                        assert(!step_ok(m, s.take(i as int), s[i as int]));
                    }
                    return Some(
                        AnalysisError {
                            index: i,
                            value: v,
                            reason: AnalysisReason::DomainExclusion { prior_index: j },
                        },
                    );
                },
                Some(PairCause::Exclusion) => {
                    proof {
                        assert(s.take(i as int)[j as int] == s[j as int]);
                        assert(pair_violation(m, s[j as int], v));
                        assert(!step_ok(m, s.take(i as int), s[i as int]));
                    }
                    return Some(
                        AnalysisError {
                            index: i,
                            value: v,
                            reason: AnalysisReason::ExclusionEdge { other_index: j },
                        },
                    );
                },
                Some(PairCause::Restriction) => {
                    proof {
                        assert(s.take(i as int)[j as int] == s[j as int]);
                        assert(pair_violation(m, s[j as int], v));
                        assert(!step_ok(m, s.take(i as int), s[i as int]));
                    }
                    return Some(
                        AnalysisError {
                            index: i,
                            value: v,
                            reason: AnalysisReason::AggregatorRestriction { trigger_index: j },
                        },
                    );
                },
            }
            j = j + 1;
        }
        proof {
            assert forall|k: int| 0 <= k < s.take(i as int).len() implies !pair_violation(
                m,
                #[trigger] s.take(i as int)[k],
                v,
            ) by {
                assert(s.take(i as int)[k] == s[k]);
            }
        }
        None
    }
}

// ---------------------------------------------------------------------
// Memoization.
// ---------------------------------------------------------------------

/// One cached partial result: a canonical (sorted) assertion set and
/// whether it was satisfiable.
struct MemoEntry {
    key: Vec<DirValue>,
    satisfiable: bool,
}

/// The per-call memoization cache of partial analysis results.
///
/// A cache is sound for one graph only: its well-formedness ties every
/// cached verdict to satisfiability under that graph, and the analysis
/// requires it.  A fresh cache is sound for every graph.
pub struct Memoization {
    entries: Vec<MemoEntry>,
}

impl Memoization {
    /// Every cached verdict agrees with satisfiability under `m`.
    pub closed spec fn wf(self, m: GraphModel) -> bool {
        forall|i: int|
            0 <= i < self.entries@.len() ==> (#[trigger] self.entries@[i]).satisfiable
                == multiset_ok(m, self.entries@[i].key@.to_multiset())
    }

    /// An empty cache, sound for every graph.
    pub fn new() -> (r: Memoization)
        ensures
            forall|m: GraphModel| #[trigger] r.wf(m),
    {
        Memoization { entries: Vec::new() }
    }

    /// The cached verdict under the given canonical key, if any.
    fn lookup(&self, key: &Vec<DirValue>) -> (r: Option<bool>)
        ensures
            r matches Some(b) ==> exists|i: int|
                0 <= i < self.entries@.len() && (#[trigger] self.entries@[i]).key@ == key@
                    && self.entries@[i].satisfiable == b,
    {
        let mut i: usize = 0;
        while i < self.entries.len()
            invariant
                i <= self.entries@.len(),
            decreases self.entries@.len() - i,
        {
            if dir_value_vec_eq(&self.entries[i].key, key) {
                return Some(self.entries[i].satisfiable);
            }
            i = i + 1;
        }
        None
    }

    /// Caches one verdict.
    fn record(&mut self, key: Vec<DirValue>, satisfiable: bool)
        ensures
            forall|m: GraphModel|
                old(self).wf(m) && satisfiable == multiset_ok(m, key@.to_multiset())
                    ==> #[trigger] final(self).wf(m),
    {
        self.entries.push(MemoEntry { key, satisfiable });
        proof {
            assert forall|m: GraphModel|
                old(self).wf(m) && satisfiable == multiset_ok(
                    m,
                    self.entries@.last().key@.to_multiset(),
                ) implies #[trigger] self.wf(m) by {
                assert(forall|i: int|
                    0 <= i < old(self).entries@.len() ==> self.entries@[i] == old(
                        self,
                    ).entries@[i]);
            }
        }
    }
}

/// A fresh copy of a value vector.
fn copy_values(src: &Vec<DirValue>) -> (r: Vec<DirValue>)
    ensures
        r@ == src@,
{
    let mut r: Vec<DirValue> = Vec::new();
    let mut i: usize = 0;
    while i < src.len()
        invariant
            i <= src@.len(),
            r@ =~= src@.take(i as int),
        decreases src@.len() - i,
    {
        r.push(src[i]);
        proof {
            assert(r@ =~= src@.take(i as int + 1));
        }
        i = i + 1;
    }
    proof {
        assert(r@ =~= src@);
    }
    r
}

// ---------------------------------------------------------------------
// The analysis itself.
// ---------------------------------------------------------------------

impl ConstraintGraph {
    /// Walks the context's assertions in order and verifies that each is
    /// consistent with all assertions before it.  Returns the first
    /// assertion whose addition breaks satisfiability, naming the
    /// conflicting prior assertion or domain rule; the analysis
    /// short-circuits there.  Partial results are cached in `memo`
    /// under canonical keys.
    pub fn perform_context_analysis(&self, ctx: &Context, memo: &mut Memoization) -> (r: Result<
        (),
        AnalysisError,
    >)
        requires
            old(memo).wf(self.model()),
        ensures
            final(memo).wf(self.model()),
            (r is Ok) == ctx_ok(self.model(), ctx.asserted()),
            r matches Err(e) ==> analysis_error_valid(self.model(), ctx.asserted(), e),
    {
        let ghost m = self.model();
        let ghost s = ctx.asserted();
        let n = ctx.len();
        let mut key: Vec<DirValue> = Vec::new();
        let mut i: usize = 0;
        proof {
            assert(s.take(0) =~= Seq::<DirValue>::empty());
            broadcast use vstd::seq_lib::group_to_multiset_ensures;

            assert(key@.to_multiset() =~= s.take(0).to_multiset());
        }
        while i < n
            invariant
                memo.wf(m),
                m == self.model(),
                s == ctx.asserted(),
                ctx@.len() == s.len(),
                n == s.len(),
                i <= n,
                sorted_by(key@, dir_value_leq()),
                key@.to_multiset() == s.take(i as int).to_multiset(),
                ctx_ok(m, s.take(i as int)),
            decreases n - i,
        {
            let v = ctx.get(i).value;
            proof {
                assert(s[i as int] == ctx@[i as int].value);
            }
            insert_sorted(&mut key, v);
            proof {
                broadcast use vstd::seq_lib::group_to_multiset_ensures;

                assert(s.take(i as int + 1) =~= s.take(i as int).push(s[i as int]));
                assert(key@.to_multiset() == s.take(i as int + 1).to_multiset());
            }
            let cached = memo.lookup(&key);
            match cached {
                Some(true) => {
                    proof {
                        lemma_ctx_ok_multiset(m, s.take(i as int + 1));
                        assert(ctx_ok(m, s.take(i as int + 1)));
                    }
                },
                Some(false) => {
                    proof {
                        lemma_ctx_ok_multiset(m, s.take(i as int + 1));
                        assert(!ctx_ok(m, s.take(i as int + 1)));
                        lemma_step_extend(m, s, i as int);
                        assert(!step_ok(m, s.take(i as int), s[i as int]));
                    }
                    match self.check_step(ctx, i) {
                        Some(err) => {
                            proof {
                                if ctx_ok(m, s) {
                                    lemma_ctx_ok_take(m, s, i as int + 1);
                                }
                            }
                            return Err(err);
                        },
                        None => {
                            proof {
                                assert(false);
                            }
                            return Ok(());
                        },
                    }
                },
                None => {
                    match self.check_step(ctx, i) {
                        None => {
                            proof {
                                lemma_step_extend(m, s, i as int);
                                assert(ctx_ok(m, s.take(i as int + 1)));
                                lemma_ctx_ok_multiset(m, s.take(i as int + 1));
                            }
                            let key_copy = copy_values(&key);
                            memo.record(key_copy, true);
                        },
                        Some(err) => {
                            proof {
                                lemma_step_extend(m, s, i as int);
                                assert(!ctx_ok(m, s.take(i as int + 1)));
                                lemma_ctx_ok_multiset(m, s.take(i as int + 1));
                            }
                            let key_copy = copy_values(&key);
                            memo.record(key_copy, false);
                            proof {
                                if ctx_ok(m, s) {
                                    lemma_ctx_ok_take(m, s, i as int + 1);
                                }
                            }
                            return Err(err);
                        },
                    }
                },
            }
            i = i + 1;
        }
        proof {
            assert(s.take(n as int) =~= s);
        }
        Ok(())
    }
}

} // verus!
