//! The routing evaluator: given a constraint graph with a merchant's
//! connector capabilities baked in and a rule, computes the subset of
//! candidate connectors for which the rule can be satisfied.
//!
//! For every conjunctive context of the rule, in rule-priority order:
//! a context that is unsatisfiable on its own selects nothing and is
//! skipped; against a satisfiable context, every candidate connector not
//! already excluded is tried by pushing a connector assertion, running a
//! full analysis under a fresh memoization scope, and popping the
//! assertion again whatever the outcome.  A connector failing under any
//! such context is excluded for the whole evaluation.  The result is
//! the candidate list, in its original order, with the excluded
//! connectors removed.

use vstd::prelude::*;
use crate::values::{DirValue, ConnectorChoice};
use crate::context::{Context, ContextValue, dir_values_of};
use crate::graph::{ConstraintGraph, GraphModel};
use crate::analysis::{ctx_ok, Memoization, AnalysisError, analysis_error_valid};
use crate::ast::{Rule, LoweredRuleModel, lower_rule, lowering_of, lemma_lowering_unique,
    all_resolve, pos_valid, pos_earlier, comparison_at, lower_comparison_spec, LoweringError};
use crate::state_machine::{RuleContextManager, rule_contexts};

verus! {

/// The contexts a rule is evaluated under: one per conjunctive branch,
/// with no fixed pre-assertions.
pub open spec fn eval_contexts(l: LoweredRuleModel) -> Seq<Seq<ContextValue>> {
    rule_contexts(l, Seq::empty())
}

/// Whether branch `k` excludes connector `c`: the branch's context is
/// satisfiable on its own, and becomes unsatisfiable once `c` is
/// asserted.
pub open spec fn context_excludes(
    m: GraphModel,
    l: LoweredRuleModel,
    k: int,
    c: ConnectorChoice,
) -> bool {
    &&& ctx_ok(m, dir_values_of(eval_contexts(l)[k]))
    &&& !ctx_ok(m, dir_values_of(eval_contexts(l)[k]).push(DirValue::Connector(c)))
}

/// Whether some branch among the first `p` excludes connector `c`.
pub open spec fn invalid_up_to(m: GraphModel, l: LoweredRuleModel, c: ConnectorChoice, p: int) -> bool {
    exists|k: int| 0 <= k < p && #[trigger] context_excludes(m, l, k, c)
}

/// Whether the whole rule excludes connector `c`.
pub open spec fn connector_invalid(m: GraphModel, l: LoweredRuleModel, c: ConnectorChoice) -> bool {
    invalid_up_to(m, l, c, eval_contexts(l).len() as int)
}

/// The connectors the rule admits, in candidate order.
pub open spec fn valid_connectors_spec(
    m: GraphModel,
    l: LoweredRuleModel,
    conns: Seq<ConnectorChoice>,
) -> Seq<ConnectorChoice> {
    conns.filter(|c: ConnectorChoice| !connector_invalid(m, l, c))
}

/// Decides membership of a connector in a list.
fn contains_connector(vs: &Vec<ConnectorChoice>, c: &ConnectorChoice) -> (r: bool)
    ensures
        r == vs@.contains(*c),
{
    let mut i: usize = 0;
    while i < vs.len()
        invariant
            i <= vs@.len(),
            forall|k: int| 0 <= k < i ==> vs@[k] != *c,
        decreases vs@.len() - i,
    {
        if vs[i] == *c {
            return true;
        }
        i = i + 1;
    }
    false
}

/// Tries every candidate connector not yet excluded against one
/// satisfiable context: pushes the connector assertion, analyzes under
/// a fresh memoization scope, pops the assertion again whatever the
/// outcome, and excludes the connector on failure.
///
/// Push/pop symmetry: after the whole candidate list has been
/// processed, the context's assertion sequence is exactly what it was
/// before.
pub fn check_candidates(
    graph: &ConstraintGraph,
    ctx: &mut Context,
    candidates: &Vec<ConnectorChoice>,
    invalid: &mut Vec<ConnectorChoice>,
)
    ensures
        final(ctx)@ == old(ctx)@,
        forall|c: ConnectorChoice|
            final(invalid)@.contains(c) <==> old(invalid)@.contains(c) || (candidates@.contains(c)
                && !ctx_ok(
                graph.model(),
                dir_values_of(old(ctx)@).push(DirValue::Connector(c)),
            )),
{
    let ghost m = graph.model();
    let ghost base = ctx@;
    let mut i: usize = 0;
    while i < candidates.len()
        invariant
            m == graph.model(),
            ctx@ == base,
            i <= candidates@.len(),
            forall|c: ConnectorChoice|
                invalid@.contains(c) <==> old(invalid)@.contains(c) || (candidates@.take(
                    i as int,
                ).contains(c) && !ctx_ok(m, dir_values_of(base).push(DirValue::Connector(c)))),
        decreases candidates@.len() - i,
    {
        let c = candidates[i];
        if !contains_connector(invalid, &c) {
            ctx.push(ContextValue::assertion(DirValue::Connector(c)));
            proof {
                assert(dir_values_of(ctx@) =~= dir_values_of(base).push(DirValue::Connector(c)));
            }
            let mut memo = Memoization::new();
            let res = graph.perform_context_analysis(ctx, &mut memo);
            ctx.pop();
            proof {
                assert(ctx@ =~= base);
            }
            if res.is_err() {
                let ghost prev_inv = invalid@;
                invalid.push(c);
                proof {
                    broadcast use vstd::seq_lib::lemma_seq_contains_after_push;

                    assert(invalid@ == prev_inv.push(c));
                    assert(forall|x: ConnectorChoice|
                        invalid@.contains(x) <==> prev_inv.contains(x) || x == c);
                }
            }
        }
        proof {
            broadcast use vstd::seq_lib::lemma_seq_contains_after_push;

            assert(candidates@.take(i as int + 1) =~= candidates@.take(i as int).push(
                candidates@[i as int],
            ));
            assert forall|x: ConnectorChoice|
                invalid@.contains(x) <==> old(invalid)@.contains(x) || (candidates@.take(
                    i as int + 1,
                ).contains(x) && !ctx_ok(
                    m,
                    dir_values_of(base).push(DirValue::Connector(x)),
                )) by {
                if candidates@.take(i as int + 1).contains(x) && !candidates@.take(
                    i as int,
                ).contains(x) {
                    assert(x == candidates@[i as int]);
                }
            }
        }
        i = i + 1;
    }
    proof {
        assert(candidates@.take(candidates@.len() as int) =~= candidates@);
    }
}

/// Computes the candidate connectors that the rule admits under the
/// graph, in candidate order.  Fails when the rule does not lower; no
/// analysis is performed then.
pub fn get_valid_connectors_for_rule(
    graph: &ConstraintGraph,
    rule: &Rule,
    connectors: &Vec<ConnectorChoice>,
) -> (r: Result<Vec<ConnectorChoice>, LoweringError>)
    ensures
        (r is Ok) == all_resolve(rule@),
        r matches Ok(v) ==> v@ == valid_connectors_spec(
            graph.model(),
            lowering_of(rule@),
            connectors@,
        ),
        r matches Err(e) ==> {
            &&& pos_valid(rule@, e.statement as int, e.clause as int, e.comparison as int)
            &&& lower_comparison_spec(
                comparison_at(rule@, e.statement as int, e.clause as int, e.comparison as int),
            ) == Err::<DirValue, crate::ast::LowerFailKind>(e.kind)
            &&& forall|s: int, c: int, k: int|
                pos_valid(rule@, s, c, k) && pos_earlier(
                    s,
                    c,
                    k,
                    e.statement as int,
                    e.clause as int,
                    e.comparison as int,
                ) ==> #[trigger] lower_comparison_spec(comparison_at(rule@, s, c, k)) is Ok
        },
{
    let lowered = match lower_rule(rule) {
        Ok(l) => l,
        Err(e) => {
            return Err(e);
        },
    };
    proof {
        lemma_lowering_unique(rule@, lowered@);
    }
    let ghost m = graph.model();
    let ghost lm = lowering_of(rule@);
    let ghost ctxs = eval_contexts(lm);
    let mut invalid: Vec<ConnectorChoice> = Vec::new();
    let mut mgr = RuleContextManager::new(&lowered, Vec::new());
    proof {
        assert(mgr.fixed_model() =~= Seq::<ContextValue>::empty());
    }
    loop
        invariant
            m == graph.model(),
            lm == lowered@,
            ctxs == eval_contexts(lm),
            mgr.wf(),
            mgr.rule_model() == lm,
            mgr.fixed_model() == Seq::<ContextValue>::empty(),
            0 <= mgr.produced() <= ctxs.len(),
            forall|c: ConnectorChoice|
                invalid@.contains(c) <==> connectors@.contains(c) && invalid_up_to(
                    m,
                    lm,
                    c,
                    mgr.produced(),
                ),
        ensures
            forall|c: ConnectorChoice|
                invalid@.contains(c) <==> connectors@.contains(c) && connector_invalid(m, lm, c),
        decreases ctxs.len() - mgr.produced(),
    {
        let ghost kidx = mgr.produced();
        let cres = mgr.advance();
        match cres {
            None => {
                proof {
                    assert(kidx == ctxs.len());
                }
                break;
            },
            Some(mut ctx) => {
                proof {
                    assert(kidx < ctxs.len());
                    assert(ctx@ == ctxs[kidx]);
                }
                let mut memo = Memoization::new();
                let bare = graph.perform_context_analysis(&ctx, &mut memo);
                if bare.is_err() {
                    // This branch can select no connector: skip it.
                    proof {
                        assert(!ctx_ok(m, dir_values_of(ctxs[kidx])));
                        assert forall|c: ConnectorChoice|
                            invalid_up_to(m, lm, c, kidx + 1) == invalid_up_to(m, lm, c, kidx) by {
                            if invalid_up_to(m, lm, c, kidx + 1) {
                                let k = choose|k: int|
                                    0 <= k < kidx + 1 && #[trigger] context_excludes(m, lm, k, c);
                                assert(k != kidx);
                            }
                        }
                    }
                } else {
                    check_candidates(graph, &mut ctx, connectors, &mut invalid);
                    proof {
                        assert(ctx_ok(m, dir_values_of(ctxs[kidx])));
                        assert forall|c: ConnectorChoice|
                            invalid@.contains(c) <==> connectors@.contains(c) && invalid_up_to(
                                m,
                                lm,
                                c,
                                kidx + 1,
                            ) by {
                            if connectors@.contains(c) && invalid_up_to(m, lm, c, kidx + 1)
                                && !invalid_up_to(m, lm, c, kidx) {
                                let k = choose|k: int|
                                    0 <= k < kidx + 1 && #[trigger] context_excludes(m, lm, k, c);
                                assert(k == kidx);
                                assert(!ctx_ok(
                                    m,
                                    dir_values_of(ctxs[kidx]).push(DirValue::Connector(c)),
                                ));
                            }
                            if invalid@.contains(c) && !(connectors@.contains(c) && invalid_up_to(
                                m,
                                lm,
                                c,
                                kidx,
                            ))  {
                                assert(connectors@.contains(c));
                                assert(context_excludes(m, lm, kidx, c));
                            }
                        }
                    }
                }
            },
        }
    }
    // The result: candidates minus the excluded set, in original order.
    let mut result: Vec<ConnectorChoice> = Vec::new();
    let ghost pred = |c: ConnectorChoice| !connector_invalid(m, lm, c);
    let mut i: usize = 0;
    while i < connectors.len()
        invariant
            m == graph.model(),
            lm == lowering_of(rule@),
            i <= connectors@.len(),
            forall|c: ConnectorChoice|
                invalid@.contains(c) <==> connectors@.contains(c) && connector_invalid(m, lm, c),
            result@ == connectors@.take(i as int).filter(pred),
            pred == (|c: ConnectorChoice| !connector_invalid(m, lm, c)),
        decreases connectors@.len() - i,
    {
        let c = connectors[i];
        let ghost t = connectors@.take(i as int + 1);
        proof {
            reveal(Seq::filter);
            assert(connectors@.contains(connectors@[i as int]));
            assert(t.len() == i + 1);
            assert(t.drop_last() =~= connectors@.take(i as int));
            assert(t.last() == connectors@[i as int]);
        }
        if !contains_connector(&invalid, &c) {
            result.push(c);
            proof {
                reveal(Seq::filter);
                assert(pred(connectors@[i as int]));
                assert(t.filter(pred) == t.drop_last().filter(pred).push(t.last()));
            }
        } else {
            proof {
                reveal(Seq::filter);
                assert(!pred(connectors@[i as int]));
                assert(t.filter(pred) == t.drop_last().filter(pred));
            }
        }
        i = i + 1;
    }
    proof {
        assert(connectors@.take(connectors@.len() as int) =~= connectors@);
    }
    Ok(result)
}

/// Why a rule fails program analysis.
#[derive(Clone, Copy, Debug, PartialEq, Eq, Structural)]
pub enum AnalyzeError {
    /// The rule did not lower.
    Lowering(LoweringError),
    /// The conjunctive branch at `context_index` is unsatisfiable on
    /// its own.
    Analysis { context_index: usize, error: AnalysisError },
}

/// Checks a whole rule against the graph: every conjunctive branch
/// must be satisfiable on its own.  Returns the first branch, in rule
/// order, that is not, with the conflict that broke it.
pub fn analyze_program(graph: &ConstraintGraph, rule: &Rule) -> (r: Result<(), AnalyzeError>)
    requires
        eval_contexts(lowering_of(rule@)).len() <= usize::MAX,
    ensures
        (r is Ok) == (all_resolve(rule@) && forall|k: int|
            0 <= k < eval_contexts(lowering_of(rule@)).len() ==> ctx_ok(
                graph.model(),
                dir_values_of(#[trigger] eval_contexts(lowering_of(rule@))[k]),
            )),
        r matches Err(AnalyzeError::Lowering(e)) ==> !all_resolve(rule@) && pos_valid(
            rule@,
            e.statement as int,
            e.clause as int,
            e.comparison as int,
        ) && lower_comparison_spec(
            comparison_at(rule@, e.statement as int, e.clause as int, e.comparison as int),
        ) == Err::<DirValue, crate::ast::LowerFailKind>(e.kind),
        r matches Err(AnalyzeError::Analysis { context_index, error }) ==> {
            &&& all_resolve(rule@)
            &&& (context_index as int) < eval_contexts(lowering_of(rule@)).len()
            &&& analysis_error_valid(
                graph.model(),
                dir_values_of(eval_contexts(lowering_of(rule@))[context_index as int]),
                error,
            )
            &&& forall|k: int|
                0 <= k < context_index as int ==> ctx_ok(
                    graph.model(),
                    dir_values_of(#[trigger] eval_contexts(lowering_of(rule@))[k]),
                )
        },
{
    let lowered = match lower_rule(rule) {
        Ok(l) => l,
        Err(e) => {
            return Err(AnalyzeError::Lowering(e));
        },
    };
    proof {
        lemma_lowering_unique(rule@, lowered@);
    }
    let ghost m = graph.model();
    let ghost lm = lowering_of(rule@);
    let ghost ctxs = eval_contexts(lm);
    let mut mgr = RuleContextManager::new(&lowered, Vec::new());
    proof {
        assert(mgr.fixed_model() =~= Seq::<ContextValue>::empty());
    }
    let mut checked: usize = 0;
    loop
        invariant
            m == graph.model(),
            lm == lowered@,
            lm == lowering_of(rule@),
            all_resolve(rule@),
            ctxs == eval_contexts(lm),
            mgr.wf(),
            mgr.rule_model() == lm,
            mgr.fixed_model() == Seq::<ContextValue>::empty(),
            0 <= mgr.produced() <= ctxs.len(),
            ctxs.len() <= usize::MAX,
            checked as int == mgr.produced(),
            forall|k: int|
                0 <= k < mgr.produced() ==> ctx_ok(m, dir_values_of(#[trigger] ctxs[k])),
        ensures
            forall|k: int| 0 <= k < ctxs.len() ==> ctx_ok(m, dir_values_of(#[trigger] ctxs[k])),
        decreases ctxs.len() - mgr.produced(),
    {
        let ghost kidx = mgr.produced();
        let cres = mgr.advance();
        match cres {
            None => {
                proof {
                    assert(kidx == ctxs.len());
                }
                break;
            },
            Some(ctx) => {
                proof {
                    assert(kidx < ctxs.len());
                    assert(ctx@ == ctxs[kidx]);
                }
                let mut memo = Memoization::new();
                match graph.perform_context_analysis(&ctx, &mut memo) {
                    Ok(_) => {},
                    Err(err) => {
                        proof {
                            assert(ctx.asserted() == dir_values_of(ctxs[kidx]));
                            assert(checked as int == kidx);
                            assert(eval_contexts(lowering_of(rule@))[kidx] == ctxs[kidx]);
                            assert(!ctx_ok(
                                m,
                                dir_values_of(eval_contexts(lowering_of(rule@))[kidx]),
                            ));
                            assert(analysis_error_valid(
                                graph.model(),
                                dir_values_of(eval_contexts(lowering_of(rule@))[kidx]),
                                err,
                            ));
                            assert forall|k: int| 0 <= k < kidx implies ctx_ok(
                                graph.model(),
                                dir_values_of(#[trigger] eval_contexts(lowering_of(rule@))[k]),
                            ) by {
                                assert(ctx_ok(m, dir_values_of(ctxs[k])));
                            }
                        }
                        return Err(
                            AnalyzeError::Analysis { context_index: checked, error: err },
                        );
                    },
                }
                checked = checked + 1;
            },
        }
    }
    Ok(())
}

} // verus!
