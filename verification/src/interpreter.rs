//! Direct execution of a rule against one concrete transaction.
//!
//! The transaction is a typed assignment of directive attributes.  A
//! comparison holds when the assigned value satisfies it; a clause
//! matches when all its comparisons hold; a statement matches when any
//! of its clauses does.  The first matching statement, in order, wins
//! and supplies the output payload; when no statement matches, the
//! rule's default payload is returned.

use vstd::prelude::*;
use crate::values::{
    DirValue,
    NumValue,
    NumRelation,
    PaymentMethod,
    CardNetwork,
    CaptureMethod,
    Country,
    Currency,
    AuthenticationType,
    num_holds,
};
use crate::ast::{
    Rule,
    LoweredRule,
    LoweredStatementModel,
    ConnectorSelection,
    lower_rule,
    lowering_of,
    lemma_lowering_unique,
    all_resolve,
    pos_valid,
    pos_earlier,
    comparison_at,
    lower_comparison_spec,
    LoweringError,
    LowerFailKind,
};

verus! {

/// One concrete transaction: the attributes known about it.
#[derive(Clone, Copy, Debug)]
pub struct BackendInput {
    pub payment_method: Option<PaymentMethod>,
    pub card_network: Option<CardNetwork>,
    pub capture_method: Option<CaptureMethod>,
    pub billing_country: Option<Country>,
    pub payment_currency: Option<Currency>,
    pub authentication_type: Option<AuthenticationType>,
    pub payment_amount: Option<i64>,
}

impl BackendInput {
    /// A transaction with no attribute known.
    pub fn empty() -> (r: BackendInput)
        ensures
            r.payment_method is None,
            r.card_network is None,
            r.capture_method is None,
            r.billing_country is None,
            r.payment_currency is None,
            r.authentication_type is None,
            r.payment_amount is None,
    {
        BackendInput {
            payment_method: None,
            card_network: None,
            capture_method: None,
            billing_country: None,
            payment_currency: None,
            authentication_type: None,
            payment_amount: None,
        }
    }
}

/// Whether the transaction satisfies one lowered comparison.  A
/// comparison on an attribute the transaction does not carry fails, and
/// so does a connector assertion: the transaction names no connector.
pub open spec fn comparison_holds(input: BackendInput, v: DirValue) -> bool {
    match v {
        DirValue::PaymentMethod(x) => input.payment_method == Some(x),
        DirValue::CardNetwork(x) => input.card_network == Some(x),
        DirValue::CaptureMethod(x) => input.capture_method == Some(x),
        DirValue::BillingCountry(x) => input.billing_country == Some(x),
        DirValue::PaymentCurrency(x) => input.payment_currency == Some(x),
        DirValue::AuthenticationType(x) => input.authentication_type == Some(x),
        DirValue::PaymentAmount(n) => match input.payment_amount {
            Some(a) => num_holds(a as int, n),
            None => false,
        },
        DirValue::Connector(_) => false,
    }
}

/// Whether all comparisons of a clause hold.
pub open spec fn clause_matches(input: BackendInput, clause: Seq<DirValue>) -> bool {
    forall|k: int| 0 <= k < clause.len() ==> comparison_holds(input, #[trigger] clause[k])
}

/// Whether any clause of a statement's condition holds.
pub open spec fn statement_matches(input: BackendInput, stmt: LoweredStatementModel) -> bool {
    exists|j: int| 0 <= j < stmt.clauses.len() && clause_matches(input, #[trigger] stmt.clauses[j])
}

/// The first matching statement at or after position `i`.
pub open spec fn first_match_from(
    stmts: Seq<LoweredStatementModel>,
    input: BackendInput,
    i: int,
) -> Option<int>
    decreases stmts.len() - i,
{
    if i < 0 || i >= stmts.len() {
        None
    } else if statement_matches(input, stmts[i]) {
        Some(i)
    } else {
        first_match_from(stmts, input, i + 1)
    }
}

/// Skipping over non-matching statements does not change the first
/// match.
proof fn lemma_first_match_skip(stmts: Seq<LoweredStatementModel>, input: BackendInput, i: int)
    requires
        0 <= i <= stmts.len(),
        forall|j: int| 0 <= j < i ==> !statement_matches(input, #[trigger] stmts[j]),
    ensures
        first_match_from(stmts, input, 0) == first_match_from(stmts, input, i),
    decreases i,
{
    if i > 0 {
        lemma_first_match_skip(stmts, input, i - 1);
        assert(!statement_matches(input, stmts[i - 1]));
    }
}

/// What running the rule returns.
#[derive(Debug)]
pub struct BackendOutput {
    /// The payload of the first matching statement, or the rule's
    /// default payload.
    pub connector_selection: ConnectorSelection,
    /// The rule's name, when one of its statements matched.
    pub rule_name: Option<String>,
}

/// Decides whether the transaction satisfies one lowered comparison.
fn value_matches(input: &BackendInput, v: &DirValue) -> (r: bool)
    ensures
        r == comparison_holds(*input, *v),
{
    match v {
        DirValue::PaymentMethod(x) => match &input.payment_method {
            Some(y) => *x == *y,
            None => false,
        },
        DirValue::CardNetwork(x) => match &input.card_network {
            Some(y) => *x == *y,
            None => false,
        },
        DirValue::CaptureMethod(x) => match &input.capture_method {
            Some(y) => *x == *y,
            None => false,
        },
        DirValue::BillingCountry(x) => match &input.billing_country {
            Some(y) => *x == *y,
            None => false,
        },
        DirValue::PaymentCurrency(x) => match &input.payment_currency {
            Some(y) => *x == *y,
            None => false,
        },
        DirValue::AuthenticationType(x) => match &input.authentication_type {
            Some(y) => *x == *y,
            None => false,
        },
        DirValue::PaymentAmount(n) => match &input.payment_amount {
            Some(a) => match n.relation {
                NumRelation::Equal => *a == n.number,
                NumRelation::NotEqual => *a != n.number,
                NumRelation::GreaterThan => *a > n.number,
                NumRelation::GreaterThanEqual => *a >= n.number,
                NumRelation::LessThan => *a < n.number,
                NumRelation::LessThanEqual => *a <= n.number,
            },
            None => false,
        },
        DirValue::Connector(_) => false,
    }
}

/// Decides whether all comparisons of a lowered clause hold.
fn clause_matches_exec(input: &BackendInput, clause: &crate::ast::LoweredClause) -> (r: bool)
    ensures
        r == clause_matches(*input, clause@),
{
    let mut k: usize = 0;
    while k < clause.values.len()
        invariant
            k <= clause.values@.len(),
            forall|x: int| 0 <= x < k ==> comparison_holds(*input, #[trigger] clause.values@[x]),
        decreases clause.values@.len() - k,
    {
        if !value_matches(input, &clause.values[k]) {
            return false;
        }
        k = k + 1;
    }
    true
}

/// Decides whether any clause of a lowered statement matches.
fn statement_matches_exec(input: &BackendInput, stmt: &crate::ast::LoweredStatement) -> (r: bool)
    ensures
        r == statement_matches(*input, stmt@),
{
    let mut j: usize = 0;
    while j < stmt.clauses.len()
        invariant
            j <= stmt.clauses@.len(),
            forall|x: int| 0 <= x < j ==> !clause_matches(*input, #[trigger] stmt@.clauses[x]),
        decreases stmt.clauses@.len() - j,
    {
        proof {
            assert(stmt@.clauses[j as int] == stmt.clauses@[j as int]@);
        }
        if clause_matches_exec(input, &stmt.clauses[j]) {
            proof {
                assert(clause_matches(*input, stmt@.clauses[j as int]));
            }
            return true;
        }
        j = j + 1;
    }
    false
}

/// Lowers the rule and runs it against one transaction: the first
/// statement whose condition the transaction satisfies supplies the
/// payload, under the rule's name; when no statement matches, the
/// default payload is returned without a name.  Fails when the rule
/// does not lower.
pub fn run_program(rule: &Rule, input: &BackendInput) -> (r: Result<BackendOutput, LoweringError>)
    ensures
        (r is Ok) == all_resolve(rule@),
        r matches Ok(o) ==> match first_match_from(lowering_of(rule@).statements, *input, 0) {
            Some(s) => {
                &&& o.connector_selection@ == lowering_of(rule@).statements[s].selection
                &&& o.rule_name matches Some(n) && n@ == rule@.name
            },
            None => {
                &&& o.connector_selection@ == rule@.default_selection
                &&& o.rule_name is None
            },
        },
        r matches Err(e) ==> {
            &&& pos_valid(rule@, e.statement as int, e.clause as int, e.comparison as int)
            &&& lower_comparison_spec(
                comparison_at(rule@, e.statement as int, e.clause as int, e.comparison as int),
            ) == Err::<DirValue, LowerFailKind>(e.kind)
            &&& forall|s: int, c: int, k: int|
                pos_valid(rule@, s, c, k) && pos_earlier(
                    s,
                    c,
                    k,
                    e.statement as int,
                    e.clause as int,
                    e.comparison as int,
                ) ==> #[trigger] lower_comparison_spec(comparison_at(rule@, s, c, k)) is Ok
        },
{
    let lowered = match lower_rule(rule) {
        Ok(l) => l,
        Err(e) => {
            return Err(e);
        },
    };
    proof {
        lemma_lowering_unique(rule@, lowered@);
    }
    let ghost stmts = lowered@.statements;
    let mut s: usize = 0;
    while s < lowered.statements.len()
        invariant
            stmts == lowered@.statements,
            lowered@ == lowering_of(rule@),
            all_resolve(rule@),
            lowered@.name == rule@.name,
            lowered@.default_selection == rule@.default_selection,
            s <= stmts.len(),
            forall|j: int| 0 <= j < s ==> !statement_matches(*input, #[trigger] stmts[j]),
        decreases stmts.len() - s,
    {
        proof {
            assert(stmts[s as int] == lowered.statements@[s as int]@);
        }
        if statement_matches_exec(input, &lowered.statements[s]) {
            proof {
                lemma_first_match_skip(stmts, *input, s as int);
                assert(first_match_from(stmts, *input, s as int) == Some(s as int));
            }
            let selection = copy_selection(&lowered.statements[s].selection);
            let name = clone_rule_name(&lowered.name);
            return Ok(BackendOutput { connector_selection: selection, rule_name: Some(name) });
        }
        s = s + 1;
    }
    proof {
        lemma_first_match_skip(stmts, *input, stmts.len() as int);
        assert(first_match_from(stmts, *input, 0) is None);
    }
    let selection = copy_selection(&lowered.default_selection);
    Ok(BackendOutput { connector_selection: selection, rule_name: None })
}

/// A fresh copy of a connector selection.
fn copy_selection(s: &ConnectorSelection) -> (r: ConnectorSelection)
    ensures
        r@ == s@,
{
    let mut connectors: Vec<crate::values::ConnectorChoice> = Vec::new();
    let mut i: usize = 0;
    while i < s.connectors.len()
        invariant
            i <= s.connectors@.len(),
            connectors@ =~= s.connectors@.take(i as int),
        decreases s.connectors@.len() - i,
    {
        connectors.push(s.connectors[i]);
        proof {
            assert(connectors@ =~= s.connectors@.take(i as int + 1));
        }
        i = i + 1;
    }
    proof {
        assert(connectors@ =~= s.connectors@);
    }
    ConnectorSelection { connectors }
}

/// A fresh copy of the rule's name.
fn clone_rule_name(s: &String) -> (r: String)
    ensures
        r@ == s@,
{
    s.clone()
}

} // verus!
