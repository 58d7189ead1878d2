//! The rule context manager: a stateful cursor advancing through a
//! lowered rule's conjunctive branches one at a time.
//!
//! Each call to `advance` produces the analysis context of the current
//! (statement, clause) pair — the fixed pre-assertions passed at
//! construction, then one assertion per comparison of the clause — and
//! moves the cursor to the next clause, crossing statement boundaries
//! and skipping statements without clauses.  Once every branch has been
//! produced, `advance` signals exhaustion by returning nothing.

use vstd::prelude::*;
use crate::values::DirValue;
use crate::context::{Context, ContextValue};
use crate::ast::{LoweredRule, LoweredRuleModel, LoweredStatementModel};

verus! {

/// The clauses of all statements, flattened in statement order.
pub open spec fn flat_clauses(stmts: Seq<LoweredStatementModel>) -> Seq<Seq<DirValue>>
    decreases stmts.len(),
{
    if stmts.len() == 0 {
        Seq::empty()
    } else {
        stmts[0].clauses + flat_clauses(stmts.drop_first())
    }
}

/// The analysis context of one clause: the fixed pre-assertions, then
/// one assertion per clause value.
pub open spec fn clause_context(fixed: Seq<ContextValue>, clause: Seq<DirValue>) -> Seq<
    ContextValue,
> {
    fixed + clause.map_values(|v: DirValue| ContextValue { value: v, weight: None })
}

/// Every context the manager will produce, in rule-priority order.
pub open spec fn rule_contexts(l: LoweredRuleModel, fixed: Seq<ContextValue>) -> Seq<
    Seq<ContextValue>,
> {
    flat_clauses(l.statements).map_values(|c: Seq<DirValue>| clause_context(fixed, c))
}

/// Flattening splits at any statement boundary.
pub proof fn lemma_flat_decompose(stmts: Seq<LoweredStatementModel>, si: int)
    requires
        0 <= si <= stmts.len(),
    ensures
        flat_clauses(stmts) == flat_clauses(stmts.take(si)) + flat_clauses(stmts.skip(si)),
    decreases si,
{
    if si == 0 {
        assert(stmts.take(0) =~= Seq::<LoweredStatementModel>::empty());
        assert(stmts.skip(0) =~= stmts);
        assert(flat_clauses(stmts.take(0)) =~= Seq::<Seq<DirValue>>::empty());
        assert(flat_clauses(stmts) =~= flat_clauses(stmts.take(0)) + flat_clauses(stmts.skip(0)));
    } else {
        let d = stmts.drop_first();
        lemma_flat_decompose(d, si - 1);
        assert(stmts.take(si).len() > 0);
        assert(stmts.take(si)[0] == stmts[0]);
        assert(stmts.take(si).drop_first() =~= d.take(si - 1));
        assert(stmts.skip(si) =~= d.skip(si - 1));
        assert(flat_clauses(stmts.take(si)) == stmts[0].clauses + flat_clauses(d.take(si - 1)));
        assert(flat_clauses(stmts) == stmts[0].clauses + flat_clauses(d));
        assert(stmts[0].clauses + (flat_clauses(d.take(si - 1)) + flat_clauses(d.skip(si - 1)))
            =~= (stmts[0].clauses + flat_clauses(d.take(si - 1))) + flat_clauses(d.skip(si - 1)));
    }
}

/// Flattening one more statement appends its clauses.
pub proof fn lemma_flat_take_succ(stmts: Seq<LoweredStatementModel>, si: int)
    requires
        0 <= si < stmts.len(),
    ensures
        flat_clauses(stmts.take(si + 1)) == flat_clauses(stmts.take(si)) + stmts[si].clauses,
{
    let t = stmts.take(si + 1);
    lemma_flat_decompose(t, si);
    assert(t.take(si) =~= stmts.take(si));
    assert(t.skip(si) =~= seq![stmts[si]]);
    assert(seq![stmts[si]].drop_first() =~= Seq::<LoweredStatementModel>::empty());
    assert(flat_clauses(seq![stmts[si]]) == stmts[si].clauses + flat_clauses(
        Seq::<LoweredStatementModel>::empty(),
    ));
    assert(stmts[si].clauses + Seq::<Seq<DirValue>>::empty() =~= stmts[si].clauses);
    assert(flat_clauses(t.take(si)) + flat_clauses(t.skip(si)) =~= flat_clauses(stmts.take(si))
        + stmts[si].clauses);
}

/// The flat position of one (statement, clause) pair.
pub open spec fn count_before(l: LoweredRuleModel, si: int, ci: int) -> int {
    flat_clauses(l.statements.take(si)).len() + ci
}

/// The flattened clause at one (statement, clause) pair.
pub proof fn lemma_flat_index(stmts: Seq<LoweredStatementModel>, si: int, ci: int)
    requires
        0 <= si < stmts.len(),
        0 <= ci < stmts[si].clauses.len(),
    ensures
        flat_clauses(stmts.take(si)).len() + ci < flat_clauses(stmts).len(),
        flat_clauses(stmts)[flat_clauses(stmts.take(si)).len() + ci] == stmts[si].clauses[ci],
{
    lemma_flat_decompose(stmts, si);
    let rest = stmts.skip(si);
    assert(rest.len() > 0);
    assert(rest[0] == stmts[si]);
    assert(flat_clauses(rest) == stmts[si].clauses + flat_clauses(rest.drop_first()));
    assert(flat_clauses(rest)[ci] == stmts[si].clauses[ci]);
}

/// A stateful cursor over the conjunctive branches of one lowered rule.
pub struct RuleContextManager<'a> {
    rule: &'a LoweredRule,
    fixed: Vec<ContextValue>,
    statement_idx: usize,
    clause_idx: usize,
}

impl<'a> RuleContextManager<'a> {
    /// The lowered rule the cursor walks.
    pub closed spec fn rule_model(self) -> LoweredRuleModel {
        (*self.rule)@
    }

    /// The fixed pre-assertions laid beneath every produced context.
    pub closed spec fn fixed_model(self) -> Seq<ContextValue> {
        self.fixed@
    }

    /// How many contexts have been produced so far.
    pub closed spec fn produced(self) -> int {
        count_before(self.rule_model(), self.statement_idx as int, self.clause_idx as int)
    }

    /// The cursor either points at a real clause or stands exhausted
    /// past the last statement.
    pub closed spec fn wf(self) -> bool {
        let l = self.rule_model();
        &&& self.statement_idx <= l.statements.len()
        &&& (self.statement_idx as int == l.statements.len() ==> self.clause_idx == 0)
        &&& ((self.statement_idx as int) < l.statements.len() ==> (self.clause_idx as int)
            < l.statements[self.statement_idx as int].clauses.len())
    }

    /// A cursor at the first branch of the rule, with the given fixed
    /// pre-assertions as a base layer beneath every context.
    pub fn new(rule: &'a LoweredRule, fixed: Vec<ContextValue>) -> (r: RuleContextManager<'a>)
        ensures
            r.wf(),
            r.rule_model() == rule@,
            r.fixed_model() == fixed@,
            r.produced() == 0,
    {
        let ghost l = rule@;
        let mut si: usize = 0;
        proof {
            assert(flat_clauses(l.statements.take(0)) =~= Seq::<Seq<DirValue>>::empty());
        }
        while si < rule.statements.len() && rule.statements[si].clauses.len() == 0
            invariant
                l == rule@,
                l.statements.len() == rule.statements@.len(),
                si <= l.statements.len(),
                flat_clauses(l.statements.take(si as int)).len() == 0,
            decreases l.statements.len() - si,
        {
            proof {
                lemma_flat_take_succ(l.statements, si as int);
                assert(l.statements[si as int] == rule.statements@[si as int]@);
            }
            si = si + 1;
        }
        proof {
            if si < rule.statements.len() {
                assert(l.statements[si as int] == rule.statements@[si as int]@);
            }
        }
        RuleContextManager { rule, fixed, statement_idx: si, clause_idx: 0 }
    }

    /// Produces the context of the current branch and moves the cursor
    /// on; signals exhaustion once every branch has been produced.
    pub fn advance(&mut self) -> (r: Option<Context>)
        requires
            old(self).wf(),
        ensures
            final(self).wf(),
            final(self).rule_model() == old(self).rule_model(),
            final(self).fixed_model() == old(self).fixed_model(),
            old(self).produced() < rule_contexts(
                old(self).rule_model(),
                old(self).fixed_model(),
            ).len() ==> {
                &&& r matches Some(c) && c@ == rule_contexts(
                    old(self).rule_model(),
                    old(self).fixed_model(),
                )[old(self).produced()]
                &&& final(self).produced() == old(self).produced() + 1
            },
            old(self).produced() >= rule_contexts(
                old(self).rule_model(),
                old(self).fixed_model(),
            ).len() ==> r is None && final(self).produced() == old(self).produced(),
    {
        let ghost l = self.rule_model();
        let ghost fm = self.fixed@;
        let ghost ctxs = rule_contexts(l, fm);
        if self.statement_idx >= self.rule.statements.len() {
            proof {
                assert(l.statements.take(l.statements.len() as int) =~= l.statements);
                assert(self.produced() == flat_clauses(l.statements).len());
            }
            return None;
        }
        let ghost si0 = self.statement_idx as int;
        let ghost ci0 = self.clause_idx as int;
        proof {
            assert(l.statements[si0] == self.rule.statements@[si0]@);
            lemma_flat_index(l.statements, si0, ci0);
        }
        let stmt = &self.rule.statements[self.statement_idx];
        let clause = &stmt.clauses[self.clause_idx];
        proof {
            assert(l.statements[si0].clauses[ci0] == stmt.clauses@[ci0]@);
        }
        // Build the context: the fixed base layer, then the clause.
        let mut vals: Vec<ContextValue> = Vec::new();
        let mut i: usize = 0;
        while i < self.fixed.len()
            invariant
                fm == self.fixed@,
                i <= fm.len(),
                vals@ =~= fm.take(i as int),
            decreases fm.len() - i,
        {
            vals.push(self.fixed[i]);
            proof {
                assert(vals@ =~= fm.take(i as int + 1));
            }
            i = i + 1;
        }
        proof {
            assert(vals@ =~= fm);
        }
        let ghost cl = clause@;
        let mut k: usize = 0;
        while k < clause.values.len()
            invariant
                cl == clause@,
                cl.len() == clause.values@.len(),
                k <= cl.len(),
                vals@ =~= fm + cl.take(k as int).map_values(
                    |v: DirValue| ContextValue { value: v, weight: None },
                ),
            decreases cl.len() - k,
        {
            vals.push(ContextValue { value: clause.values[k], weight: None });
            proof {
                assert(cl.take(k as int + 1) =~= cl.take(k as int).push(cl[k as int]));
                assert(cl.take(k as int + 1).map_values(
                    |v: DirValue| ContextValue { value: v, weight: None },
                ) =~= cl.take(k as int).map_values(
                    |v: DirValue| ContextValue { value: v, weight: None },
                ).push(ContextValue { value: cl[k as int], weight: None }));
            }
            k = k + 1;
        }
        proof {
            assert(cl.take(cl.len() as int) =~= cl);
            assert(vals@ =~= clause_context(fm, cl));
            assert(ctxs[old(self).produced()] == clause_context(
                fm,
                flat_clauses(l.statements)[old(self).produced()],
            ));
            assert(flat_clauses(l.statements)[old(self).produced()] == l.statements[si0].clauses[
                ci0
            ]);
        }
        let ctx = Context::from_values(vals);
        // Move the cursor to the next branch.
        let n_clauses = stmt.clauses.len();
        proof {
            assert(l.statements[si0].clauses.len() == stmt.clauses@.len());
            assert(self.clause_idx < n_clauses);
        }
        if self.clause_idx + 1 < n_clauses {
            self.clause_idx = self.clause_idx + 1;
        } else {
            let mut nsi: usize = self.statement_idx + 1;
            proof {
                lemma_flat_take_succ(l.statements, si0);
                assert(flat_clauses(l.statements.take(si0 + 1)).len() == count_before(l, si0, ci0)
                    + 1);
            }
            while nsi < self.rule.statements.len() && self.rule.statements[nsi].clauses.len() == 0
                invariant
                    l == self.rule_model(),
                    l.statements.len() == self.rule.statements@.len(),
                    nsi <= l.statements.len(),
                    flat_clauses(l.statements.take(nsi as int)).len() == count_before(l, si0, ci0)
                        + 1,
                decreases l.statements.len() - nsi,
            {
                proof {
                    lemma_flat_take_succ(l.statements, nsi as int);
                    assert(l.statements[nsi as int] == self.rule.statements@[nsi as int]@);
                }
                nsi = nsi + 1;
            }
            proof {
                if nsi < self.rule.statements.len() {
                    assert(l.statements[nsi as int] == self.rule.statements@[nsi as int]@);
                }
            }
            self.statement_idx = nsi;
            self.clause_idx = 0;
        }
        Some(ctx)
    }
}

} // verus!
