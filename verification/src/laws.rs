//! Proved statements relating the engine's pieces: what evaluation
//! returns on an always-true rule, when exclusive domains conflict,
//! that evaluation is deterministic, that the candidate loop restores
//! its context, and that graph combination preserves edges and local
//! analysis results.

use vstd::prelude::*;
use crate::values::{DirValue, DirKeyKind, ConnectorChoice, key_of};
use crate::context::{ContextValue, dir_values_of};
use crate::graph::{
    GraphModel,
    model_wf,
    edge_wf,
    find_node,
    find_domain,
    key_exclusive,
    combined_model,
    has_node_collision,
    lemma_find_node_concat,
    lemma_find_domain_concat,
    lemma_find_node_some,
};
use crate::analysis::{
    ctx_ok,
    pair_violation,
    self_violation,
    values_conflict,
    exclusion_edge,
    restriction_violated,
    excl_witness,
    restr_witness,
};
use crate::ast::{LoweredRuleModel, RuleModel, lowering_of, all_resolve, pos_valid, comparison_at,
    lower_comparison_spec};
use crate::state_machine::{flat_clauses, clause_context};
use crate::evaluator::{
    eval_contexts,
    context_excludes,
    connector_invalid,
    valid_connectors_spec,
};

verus! {

// ---------------------------------------------------------------------
// An always-true rule over an unconstrained graph keeps every
// candidate.
// ---------------------------------------------------------------------

/// A filter whose predicate holds of every element keeps the sequence.
proof fn lemma_filter_all_true(s: Seq<ConnectorChoice>, pred: spec_fn(ConnectorChoice) -> bool)
    requires
        forall|i: int| 0 <= i < s.len() ==> pred(#[trigger] s[i]),
    ensures
        s.filter(pred) == s,
    decreases s.len(),
{
    reveal(Seq::filter);
    if s.len() > 0 {
        lemma_filter_all_true(s.drop_last(), pred);
        assert(pred(s[s.len() - 1]));
        assert(s.filter(pred) =~= s);
    } else {
        assert(s.filter(pred) =~= s);
    }
}

/// A rule whose only branch is an empty clause — the always-true
/// default branch — evaluated over a graph without edges returns the
/// candidate connector list unchanged, in order.
pub proof fn lemma_default_rule_selects_all(
    m: GraphModel,
    l: LoweredRuleModel,
    conns: Seq<ConnectorChoice>,
)
    requires
        m.edges.len() == 0,
        l.statements.len() == 1,
        l.statements[0].clauses.len() == 1,
        l.statements[0].clauses[0].len() == 0,
    ensures
        valid_connectors_spec(m, l, conns) == conns,
{
    let ctxs = eval_contexts(l);
    assert(l.statements.drop_first() =~= Seq::<crate::ast::LoweredStatementModel>::empty());
    assert(flat_clauses(l.statements) == l.statements[0].clauses + flat_clauses(
        l.statements.drop_first(),
    ));
    assert(flat_clauses(l.statements) =~= l.statements[0].clauses);
    assert(ctxs.len() == 1);
    assert forall|c: ConnectorChoice| !connector_invalid(m, l, c) by {
        if connector_invalid(m, l, c) {
            let k = choose|k: int| 0 <= k < ctxs.len() && #[trigger] context_excludes(m, l, k, c);
            assert(k == 0);
            let bare = dir_values_of(ctxs[0]);
            let pushed = bare.push(DirValue::Connector(c));
            assert forall|i: int, j: int| 0 <= i < j < pushed.len() implies !pair_violation(
                m,
                #[trigger] pushed[i],
                #[trigger] pushed[j],
            ) by {
                assert(ctxs[0] == clause_context(
                    Seq::<ContextValue>::empty(),
                    l.statements[0].clauses[0],
                ));
                assert(bare.len() == 0);
            }
            assert forall|i: int| 0 <= i < pushed.len() implies !self_violation(
                m,
                #[trigger] pushed[i],
            ) by {
                if exclusion_edge(m, pushed[i], pushed[i]) {
                    let e = choose|e: int|
                        0 <= e < m.edges.len() && excl_witness(m, #[trigger] m.edges[e], pushed[i], pushed[i]);
                }
                if restriction_violated(m, pushed[i], pushed[i]) {
                    let e = choose|e: int|
                        0 <= e < m.edges.len() && restr_witness(m, #[trigger] m.edges[e], pushed[i], pushed[i]);
                }
            }
            assert(ctx_ok(m, pushed));
        }
    }
    lemma_filter_all_true(conns, |c: ConnectorChoice| !connector_invalid(m, l, c));
}

/// The surface form of the same statement: a rule holding one
/// statement with one empty clause always lowers, and evaluating it
/// over a graph without edges keeps every candidate.
pub proof fn lemma_default_rule_evaluation(m: GraphModel, r: RuleModel, conns: Seq<ConnectorChoice>)
    requires
        m.edges.len() == 0,
        r.statements.len() == 1,
        r.statements[0].condition.len() == 1,
        r.statements[0].condition[0].len() == 0,
    ensures
        all_resolve(r),
        valid_connectors_spec(m, lowering_of(r), conns) == conns,
{
    assert forall|s: int, c: int, k: int| pos_valid(r, s, c, k) implies #[trigger] lower_comparison_spec(
        comparison_at(r, s, c, k),
    ) is Ok by {
        assert(false);
    }
    let l = lowering_of(r);
    assert(l.statements.len() == 1);
    assert(l.statements[0].clauses.len() == 1);
    assert(l.statements[0].clauses[0].len() == 0);
    lemma_default_rule_selects_all(m, l, conns);
}

// ---------------------------------------------------------------------
// Two different values of one single-valued key never analyze.
// ---------------------------------------------------------------------

/// A context asserting two different enumerated values of one
/// single-valued key, without an aggregator relation for that key, is
/// unsatisfiable: context analysis on it reports an error.
pub proof fn lemma_exclusive_key_conflict(m: GraphModel, s: Seq<DirValue>, i: int, j: int)
    requires
        0 <= i < j < s.len(),
        key_of(s[i]) == key_of(s[j]),
        s[i] != s[j],
        key_exclusive(m, key_of(s[i])),
        key_of(s[i]) != DirKeyKind::PaymentAmount,
    ensures
        !ctx_ok(m, s),
{
    assert(values_conflict(m, s[i], s[j]));
    assert(pair_violation(m, s[i], s[j]));
}

// ---------------------------------------------------------------------
// Evaluation is a function of its inputs.
// ---------------------------------------------------------------------

/// Evaluating one and the same (graph, rule, candidate list) triple
/// twice yields identical output lists.
pub proof fn lemma_evaluation_idempotent(
    m: GraphModel,
    l: LoweredRuleModel,
    conns: Seq<ConnectorChoice>,
    r1: Seq<ConnectorChoice>,
    r2: Seq<ConnectorChoice>,
)
    requires
        r1 == valid_connectors_spec(m, l, conns),
        r2 == valid_connectors_spec(m, l, conns),
    ensures
        r1 == r2,
{
}

// ---------------------------------------------------------------------
// Push/pop symmetry.
// ---------------------------------------------------------------------

/// Pushing one assertion and popping it restores the context's
/// assertion sequence exactly; the candidate loop of the evaluator
/// promises the same of a whole candidate list in its contract.
pub proof fn lemma_push_pop_symmetry(s: Seq<ContextValue>, v: ContextValue)
    ensures
        s.push(v).drop_last() == s,
        s.push(v).drop_last().len() == s.len(),
{
    assert(s.push(v).drop_last() =~= s);
}

// ---------------------------------------------------------------------
// Combination preserves edges and local analysis.
// ---------------------------------------------------------------------

/// A successful combination carries every edge of both inputs, the
/// left graph's first, unchanged.
pub proof fn lemma_combine_preserves_edges(a: GraphModel, b: GraphModel)
    ensures
        combined_model(a, b).edges.len() == a.edges.len() + b.edges.len(),
        forall|i: int|
            0 <= i < a.edges.len() ==> #[trigger] combined_model(a, b).edges[i] == a.edges[i],
        forall|i: int|
            0 <= i < b.edges.len() ==> #[trigger] combined_model(a, b).edges[a.edges.len() + i]
                == b.edges[i],
{
}

/// A node found in the right graph resolves identically in the
/// combination, namespaces being disjoint.
proof fn lemma_right_node_resolution(a: GraphModel, b: GraphModel, id: u64)
    requires
        !has_node_collision(a, b),
        find_node(b.nodes, id) is Some,
    ensures
        find_node(combined_model(a, b).nodes, id) == find_node(b.nodes, id),
{
    lemma_find_node_concat(a.nodes, b.nodes, id);
    if find_node(a.nodes, id) is Some {
        lemma_find_node_some(a.nodes, id);
        lemma_find_node_some(b.nodes, id);
        assert(false);
    }
}

/// Mutual exclusion under the combination decomposes into the two
/// sides.
proof fn lemma_exclusion_combined(a: GraphModel, b: GraphModel, x: DirValue, y: DirValue)
    requires
        model_wf(a),
        model_wf(b),
        !has_node_collision(a, b),
    ensures
        exclusion_edge(combined_model(a, b), x, y) == (exclusion_edge(a, x, y) || exclusion_edge(
            b,
            x,
            y,
        )),
{
    let c = combined_model(a, b);
    if exclusion_edge(a, x, y) {
        let i = choose|i: int| 0 <= i < a.edges.len() && excl_witness(a, #[trigger] a.edges[i], x, y);
        let e = a.edges[i];
        assert(edge_wf(a, e));
        lemma_find_node_concat(a.nodes, b.nodes, e.lhs);
        lemma_find_node_concat(a.nodes, b.nodes, e.rhs);
        assert(c.edges[i] == e);
        assert(excl_witness(c, c.edges[i], x, y));
    }
    if exclusion_edge(b, x, y) {
        let i = choose|i: int| 0 <= i < b.edges.len() && excl_witness(b, #[trigger] b.edges[i], x, y);
        let e = b.edges[i];
        assert(edge_wf(b, e));
        lemma_right_node_resolution(a, b, e.lhs);
        lemma_right_node_resolution(a, b, e.rhs);
        assert(c.edges[a.edges.len() + i] == e);
        assert(excl_witness(c, c.edges[a.edges.len() + i], x, y));
    }
    if exclusion_edge(c, x, y) {
        let i = choose|i: int| 0 <= i < c.edges.len() && excl_witness(c, #[trigger] c.edges[i], x, y);
        let e = c.edges[i];
        if i < a.edges.len() {
            assert(e == a.edges[i]);
            assert(edge_wf(a, e));
            lemma_find_node_concat(a.nodes, b.nodes, e.lhs);
            lemma_find_node_concat(a.nodes, b.nodes, e.rhs);
            assert(excl_witness(a, a.edges[i], x, y));
        } else {
            assert(e == b.edges[i - a.edges.len()]);
            assert(edge_wf(b, e));
            lemma_right_node_resolution(a, b, e.lhs);
            lemma_right_node_resolution(a, b, e.rhs);
            assert(excl_witness(b, b.edges[i - a.edges.len()], x, y));
        }
    }
}

/// Aggregator restriction under the combination decomposes into the
/// two sides.
proof fn lemma_restriction_combined(a: GraphModel, b: GraphModel, x: DirValue, y: DirValue)
    requires
        model_wf(a),
        model_wf(b),
        !has_node_collision(a, b),
    ensures
        restriction_violated(combined_model(a, b), x, y) == (restriction_violated(a, x, y)
            || restriction_violated(b, x, y)),
{
    let c = combined_model(a, b);
    if restriction_violated(a, x, y) {
        let i = choose|i: int| 0 <= i < a.edges.len() && restr_witness(a, #[trigger] a.edges[i], x, y);
        let e = a.edges[i];
        assert(edge_wf(a, e));
        lemma_find_node_concat(a.nodes, b.nodes, e.lhs);
        lemma_find_node_concat(a.nodes, b.nodes, e.rhs);
        assert(c.edges[i] == e);
        assert(restr_witness(c, c.edges[i], x, y));
    }
    if restriction_violated(b, x, y) {
        let i = choose|i: int| 0 <= i < b.edges.len() && restr_witness(b, #[trigger] b.edges[i], x, y);
        let e = b.edges[i];
        assert(edge_wf(b, e));
        lemma_right_node_resolution(a, b, e.lhs);
        lemma_right_node_resolution(a, b, e.rhs);
        assert(c.edges[a.edges.len() + i] == e);
        assert(restr_witness(c, c.edges[a.edges.len() + i], x, y));
    }
    if restriction_violated(c, x, y) {
        let i = choose|i: int| 0 <= i < c.edges.len() && restr_witness(c, #[trigger] c.edges[i], x, y);
        let e = c.edges[i];
        if i < a.edges.len() {
            assert(e == a.edges[i]);
            assert(edge_wf(a, e));
            lemma_find_node_concat(a.nodes, b.nodes, e.lhs);
            lemma_find_node_concat(a.nodes, b.nodes, e.rhs);
            assert(restr_witness(a, a.edges[i], x, y));
        } else {
            assert(e == b.edges[i - a.edges.len()]);
            assert(edge_wf(b, e));
            lemma_right_node_resolution(a, b, e.lhs);
            lemma_right_node_resolution(a, b, e.rhs);
            assert(restr_witness(b, b.edges[i - a.edges.len()], x, y));
        }
    }
}

/// Domain exclusivity under the combination agrees with the left graph
/// wherever the right graph does not describe the key.
proof fn lemma_exclusive_combined(a: GraphModel, b: GraphModel, k: DirKeyKind)
    requires
        find_domain(b.domains, k) is None || find_domain(a.domains, k) is Some,
    ensures
        key_exclusive(combined_model(a, b), k) == key_exclusive(a, k),
{
    lemma_find_domain_concat(a.domains, b.domains, k);
}

/// Combining two well-formed graphs under disjoint node identifier
/// namespaces leaves analysis results unchanged for assertions confined
/// to the left graph: a context whose values the right graph's edges do
/// not mention, over keys whose domains the right graph does not
/// describe away from the left, is satisfiable under the combination
/// exactly when it is under the left graph alone.
pub proof fn lemma_combine_preserves_local_analysis(
    a: GraphModel,
    b: GraphModel,
    s: Seq<DirValue>,
)
    requires
        model_wf(a),
        model_wf(b),
        !has_node_collision(a, b),
        forall|x: DirValue|
            #[trigger] s.contains(x) ==> (find_domain(b.domains, key_of(x)) is None || find_domain(
                a.domains,
                key_of(x),
            ) is Some),
        forall|x: DirValue, y: DirValue|
            #[trigger] s.contains(x) && #[trigger] s.contains(y) ==> !exclusion_edge(b, x, y)
                && !restriction_violated(b, x, y),
    ensures
        ctx_ok(combined_model(a, b), s) == ctx_ok(a, s),
{
    let c = combined_model(a, b);
    assert forall|i: int, j: int| 0 <= i < s.len() && 0 <= j < s.len() implies pair_violation(
        c,
        #[trigger] s[i],
        #[trigger] s[j],
    ) == pair_violation(a, s[i], s[j]) by {
        assert(s.contains(s[i]));
        assert(s.contains(s[j]));
        lemma_exclusion_combined(a, b, s[i], s[j]);
        lemma_exclusion_combined(a, b, s[j], s[i]);
        lemma_restriction_combined(a, b, s[i], s[j]);
        lemma_restriction_combined(a, b, s[j], s[i]);
        lemma_exclusive_combined(a, b, key_of(s[i]));
        assert(values_conflict(c, s[i], s[j]) == values_conflict(a, s[i], s[j]));
    }
    assert forall|i: int| 0 <= i < s.len() implies self_violation(c, #[trigger] s[i])
        == self_violation(a, s[i]) by {
        assert(s.contains(s[i]));
        lemma_exclusion_combined(a, b, s[i], s[i]);
        lemma_restriction_combined(a, b, s[i], s[i]);
    }
    if ctx_ok(a, s) {
        assert(ctx_ok(c, s));
    }
    if ctx_ok(c, s) {
        assert(ctx_ok(a, s));
    }
}

} // verus!
