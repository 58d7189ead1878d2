//! The surface rule representation and its lowering.
//!
//! A rule is a named, ordered sequence of statements; each statement
//! pairs a disjunctive-normal-form condition (an ordered sequence of
//! conjunctive clauses, each clause a set of key/value comparisons) with
//! an output payload, and the rule carries a default payload for when no
//! statement matches.  Lowering translates every comparison from its
//! surface form (key and value names) into a typed directive value,
//! preserving clause and statement order exactly, and fails on the first
//! comparison outside the recognized directive domain.

use vstd::prelude::*;
use crate::values::{DirValue, DirKeyKind, DataType, NumValue, NumRelation, ConnectorChoice,
    domain_kind_of};
use crate::domain::{key_from_name, key_from_name_spec, value_from_name, value_from_name_spec,
    key_enumerable};

verus! {

/// The value side of a surface comparison: a variant name, or a numeric
/// comparison.
#[derive(Debug)]
pub enum ComparisonValue {
    EnumVariant(String),
    Number { number: i64, relation: NumRelation },
}

/// Ghost counterpart of [`ComparisonValue`].
#[verifier::ext_equal]
pub enum ComparisonValueModel {
    EnumVariant(Seq<char>),
    Number { number: i64, relation: NumRelation },
}

impl View for ComparisonValue {
    type V = ComparisonValueModel;

    open spec fn view(&self) -> ComparisonValueModel {
        match self {
            ComparisonValue::EnumVariant(s) => ComparisonValueModel::EnumVariant(s@),
            ComparisonValue::Number { number, relation } => ComparisonValueModel::Number {
                number: *number,
                relation: *relation,
            },
        }
    }
}

/// One surface comparison: a key name against a value.
#[derive(Debug)]
pub struct Comparison {
    pub key: String,
    pub value: ComparisonValue,
}

/// Ghost counterpart of [`Comparison`].
#[verifier::ext_equal]
pub struct ComparisonModel {
    pub key: Seq<char>,
    pub value: ComparisonValueModel,
}

impl View for Comparison {
    type V = ComparisonModel;

    open spec fn view(&self) -> ComparisonModel {
        ComparisonModel { key: self.key@, value: self.value@ }
    }
}

/// One conjunctive clause: comparisons that must all hold.
#[derive(Debug)]
pub struct Clause {
    pub comparisons: Vec<Comparison>,
}

impl View for Clause {
    type V = Seq<ComparisonModel>;

    open spec fn view(&self) -> Seq<ComparisonModel> {
        self.comparisons@.map_values(|c: Comparison| c@)
    }
}

/// The output payload of a statement: connectors in priority order.
#[derive(Debug)]
pub struct ConnectorSelection {
    pub connectors: Vec<ConnectorChoice>,
}

impl View for ConnectorSelection {
    type V = Seq<ConnectorChoice>;

    open spec fn view(&self) -> Seq<ConnectorChoice> {
        self.connectors@
    }
}

/// One rule statement: a disjunctive-normal-form condition with its
/// output payload.  The condition holds when any clause holds; an empty
/// condition with one empty clause always holds.
#[derive(Debug)]
pub struct RuleStatement {
    pub condition: Vec<Clause>,
    pub selection: ConnectorSelection,
}

/// Ghost counterpart of [`RuleStatement`].
#[verifier::ext_equal]
pub struct StatementModel {
    pub condition: Seq<Seq<ComparisonModel>>,
    pub selection: Seq<ConnectorChoice>,
}

impl View for RuleStatement {
    type V = StatementModel;

    open spec fn view(&self) -> StatementModel {
        StatementModel {
            condition: self.condition@.map_values(|c: Clause| c@),
            selection: self.selection@,
        }
    }
}

/// A named rule: ordered statements and a default payload.  Statement
/// order is significant: the first matching statement wins.
#[derive(Debug)]
pub struct Rule {
    pub name: String,
    pub statements: Vec<RuleStatement>,
    pub default_selection: ConnectorSelection,
}

/// Ghost counterpart of [`Rule`].
#[verifier::ext_equal]
pub struct RuleModel {
    pub name: Seq<char>,
    pub statements: Seq<StatementModel>,
    pub default_selection: Seq<ConnectorChoice>,
}

impl View for Rule {
    type V = RuleModel;

    open spec fn view(&self) -> RuleModel {
        RuleModel {
            name: self.name@,
            statements: self.statements@.map_values(|s: RuleStatement| s@),
            default_selection: self.default_selection@,
        }
    }
}

// ---------------------------------------------------------------------
// The lowered form.
// ---------------------------------------------------------------------

/// One lowered conjunctive clause: typed directive values.
#[derive(Debug)]
pub struct LoweredClause {
    pub values: Vec<DirValue>,
}

impl View for LoweredClause {
    type V = Seq<DirValue>;

    open spec fn view(&self) -> Seq<DirValue> {
        self.values@
    }
}

/// One lowered statement.
#[derive(Debug)]
pub struct LoweredStatement {
    pub clauses: Vec<LoweredClause>,
    pub selection: ConnectorSelection,
}

/// Ghost counterpart of [`LoweredStatement`].
#[verifier::ext_equal]
pub struct LoweredStatementModel {
    pub clauses: Seq<Seq<DirValue>>,
    pub selection: Seq<ConnectorChoice>,
}

impl View for LoweredStatement {
    type V = LoweredStatementModel;

    open spec fn view(&self) -> LoweredStatementModel {
        LoweredStatementModel {
            clauses: self.clauses@.map_values(|c: LoweredClause| c@),
            selection: self.selection@,
        }
    }
}

/// A lowered rule: every comparison translated to a directive value,
/// clause and statement order preserved exactly.
#[derive(Debug)]
pub struct LoweredRule {
    pub name: String,
    pub statements: Vec<LoweredStatement>,
    pub default_selection: ConnectorSelection,
}

/// Ghost counterpart of [`LoweredRule`].
#[verifier::ext_equal]
pub struct LoweredRuleModel {
    pub name: Seq<char>,
    pub statements: Seq<LoweredStatementModel>,
    pub default_selection: Seq<ConnectorChoice>,
}

impl View for LoweredRule {
    type V = LoweredRuleModel;

    open spec fn view(&self) -> LoweredRuleModel {
        LoweredRuleModel {
            name: self.name@,
            statements: self.statements@.map_values(|s: LoweredStatement| s@),
            default_selection: self.default_selection@,
        }
    }
}

// ---------------------------------------------------------------------
// Lowering.
// ---------------------------------------------------------------------

/// How one comparison failed to lower.
#[derive(Clone, Copy, Debug, PartialEq, Eq, Structural)]
pub enum LowerFailKind {
    /// The key name is not a directive key.
    UnknownKey,
    /// The value name is not a variant of the key's domain.
    UnknownValue,
    /// The value's shape does not fit the key's domain kind (a number
    /// against an enumerated key, or a variant name against the numeric
    /// key).
    TypeMismatch,
    /// The key's open-string domain carries no assertable values.
    UnsupportedKey,
}

/// A lowering failure, pointing at the first offending comparison in
/// statement order.
#[derive(Clone, Copy, Debug, PartialEq, Eq, Structural)]
pub struct LoweringError {
    pub statement: usize,
    pub clause: usize,
    pub comparison: usize,
    pub kind: LowerFailKind,
}

/// What one comparison lowers to.
pub open spec fn lower_comparison_spec(c: ComparisonModel) -> Result<DirValue, LowerFailKind> {
    match key_from_name_spec(c.key) {
        None => Err(LowerFailKind::UnknownKey),
        Some(k) => match domain_kind_of(k) {
            DataType::EnumVariant => match c.value {
                ComparisonValueModel::EnumVariant(vs) => match value_from_name_spec(k, vs) {
                    Some(v) => Ok(v),
                    None => Err(LowerFailKind::UnknownValue),
                },
                ComparisonValueModel::Number { .. } => Err(LowerFailKind::TypeMismatch),
            },
            DataType::Number => match c.value {
                ComparisonValueModel::Number { number, relation } => Ok(
                    DirValue::PaymentAmount(NumValue { number, relation }),
                ),
                ComparisonValueModel::EnumVariant(_) => Err(LowerFailKind::TypeMismatch),
            },
            DataType::StrValue => Err(LowerFailKind::UnsupportedKey),
        },
    }
}

/// The comparison at one position of a rule.
pub open spec fn comparison_at(r: RuleModel, s: int, c: int, k: int) -> ComparisonModel {
    r.statements[s].condition[c][k]
}

/// Whether a position indexes a real comparison of the rule.
pub open spec fn pos_valid(r: RuleModel, s: int, c: int, k: int) -> bool {
    0 <= s < r.statements.len() && 0 <= c < r.statements[s].condition.len() && 0 <= k
        < r.statements[s].condition[c].len()
}

/// Every comparison of the rule lowers.
pub open spec fn all_resolve(r: RuleModel) -> bool {
    forall|s: int, c: int, k: int|
        pos_valid(r, s, c, k) ==> #[trigger] lower_comparison_spec(comparison_at(r, s, c, k)) is Ok
}

/// The lowered rule translates the surface rule comparison for
/// comparison, preserving order and payloads.
pub open spec fn lowered_matches(r: RuleModel, l: LoweredRuleModel) -> bool {
    &&& l.name == r.name
    &&& l.default_selection == r.default_selection
    &&& l.statements.len() == r.statements.len()
    &&& forall|s: int|
        0 <= s < r.statements.len() ==> (#[trigger] l.statements[s]).selection
            == r.statements[s].selection && l.statements[s].clauses.len()
            == r.statements[s].condition.len()
    &&& forall|s: int, c: int|
        0 <= s < r.statements.len() && 0 <= c < r.statements[s].condition.len() ==> (
        #[trigger] l.statements[s].clauses[c]).len() == r.statements[s].condition[c].len()
    &&& forall|s: int, c: int, k: int|
        pos_valid(r, s, c, k) ==> #[trigger] l.statements[s].clauses[c][k]
            == lower_comparison_spec(comparison_at(r, s, c, k))->Ok_0
}

/// The lowered model a surface rule determines, comparison for
/// comparison.
pub open spec fn lowering_of(r: RuleModel) -> LoweredRuleModel {
    LoweredRuleModel {
        name: r.name,
        statements: Seq::new(
            r.statements.len(),
            |s: int|
                LoweredStatementModel {
                    clauses: Seq::new(
                        r.statements[s].condition.len(),
                        |c: int|
                            Seq::new(
                                r.statements[s].condition[c].len(),
                                |k: int| lower_comparison_spec(comparison_at(r, s, c, k))->Ok_0,
                            ),
                    ),
                    selection: r.statements[s].selection,
                },
        ),
        default_selection: r.default_selection,
    }
}

/// A lowered rule matching a surface rule is exactly its lowering.
pub proof fn lemma_lowering_unique(r: RuleModel, l: LoweredRuleModel)
    requires
        lowered_matches(r, l),
    ensures
        l == lowering_of(r),
{
    let lo = lowering_of(r);
    assert forall|s: int| 0 <= s < r.statements.len() implies l.statements[s] == lo.statements[s] by {
        assert forall|c: int|
            0 <= c < r.statements[s].condition.len() implies l.statements[s].clauses[c]
            =~= lo.statements[s].clauses[c] by {
            assert forall|k: int|
                0 <= k < r.statements[s].condition[c].len() implies l.statements[s].clauses[c][k]
                == lo.statements[s].clauses[c][k] by {
                assert(pos_valid(r, s, c, k));
                assert(l.statements[s].clauses[c][k] == lower_comparison_spec(
                    comparison_at(r, s, c, k),
                )->Ok_0);
            }
        }
        assert(l.statements[s].clauses =~~= lo.statements[s].clauses);
        assert(l.statements[s] =~~= lo.statements[s]);
    }
    assert(l.statements =~~= lo.statements);
    assert(l =~~= lo);
}

/// One position comes strictly before another in statement order.
pub open spec fn pos_earlier(s1: int, c1: int, k1: int, s2: int, c2: int, k2: int) -> bool {
    ||| s1 < s2
    ||| (s1 == s2 && c1 < c2)
    ||| (s1 == s2 && c1 == c2 && k1 < k2)
}

/// Lowers one comparison.
fn lower_comparison(c: &Comparison) -> (r: Result<DirValue, LowerFailKind>)
    ensures
        r == lower_comparison_spec(c@),
{
    match key_from_name(self_key(c)) {
        None => Err(LowerFailKind::UnknownKey),
        Some(k) => match k.get_type() {
            DataType::EnumVariant => match &c.value {
                ComparisonValue::EnumVariant(vs) => match value_from_name(k, vs.as_str()) {
                    Some(v) => Ok(v),
                    None => Err(LowerFailKind::UnknownValue),
                },
                ComparisonValue::Number { .. } => Err(LowerFailKind::TypeMismatch),
            },
            DataType::Number => match &c.value {
                ComparisonValue::Number { number, relation } => Ok(
                    DirValue::PaymentAmount(NumValue { number: *number, relation: *relation }),
                ),
                ComparisonValue::EnumVariant(_) => Err(LowerFailKind::TypeMismatch),
            },
            DataType::StrValue => Err(LowerFailKind::UnsupportedKey),
        },
    }
}

/// The key name of a comparison.
fn self_key(c: &Comparison) -> (r: &str)
    ensures
        r@ == c@.key,
{
    c.key.as_str()
}

/// A fresh copy of a connector selection.
fn copy_selection(s: &ConnectorSelection) -> (r: ConnectorSelection)
    ensures
        r@ == s@,
{
    let mut connectors: Vec<ConnectorChoice> = Vec::new();
    let mut i: usize = 0;
    while i < s.connectors.len()
        invariant
            i <= s.connectors@.len(),
            connectors@ =~= s.connectors@.take(i as int),
        decreases s.connectors@.len() - i,
    {
        connectors.push(s.connectors[i]);
        proof {
            assert(connectors@ =~= s.connectors@.take(i as int + 1));
        }
        i = i + 1;
    }
    proof {
        assert(connectors@ =~= s.connectors@);
    }
    ConnectorSelection { connectors }
}

/// Translates every comparison of the rule into its typed directive
/// value, preserving clause and statement order exactly.  Fails on the
/// first comparison, in statement order, that the directive domain does
/// not recognize; nothing is lowered then.
pub fn lower_rule(rule: &Rule) -> (r: Result<LoweredRule, LoweringError>)
    ensures
        (r is Ok) == all_resolve(rule@),
        r matches Ok(l) ==> lowered_matches(rule@, l@),
        r matches Err(e) ==> {
            &&& pos_valid(rule@, e.statement as int, e.clause as int, e.comparison as int)
            &&& lower_comparison_spec(
                comparison_at(rule@, e.statement as int, e.clause as int, e.comparison as int),
            ) == Err::<DirValue, LowerFailKind>(e.kind)
            &&& forall|s: int, c: int, k: int|
                pos_valid(rule@, s, c, k) && pos_earlier(
                    s,
                    c,
                    k,
                    e.statement as int,
                    e.clause as int,
                    e.comparison as int,
                ) ==> #[trigger] lower_comparison_spec(comparison_at(rule@, s, c, k)) is Ok
        },
{
    let ghost rm = rule@;
    let mut statements: Vec<LoweredStatement> = Vec::new();
    let mut si: usize = 0;
    while si < rule.statements.len()
        invariant
            rm == rule@,
            rm.statements.len() == rule.statements@.len(),
            si <= rm.statements.len(),
            statements@.len() == si,
            forall|s: int, c: int, k: int|
                pos_valid(rm, s, c, k) && s < si ==> #[trigger] lower_comparison_spec(
                    comparison_at(rm, s, c, k),
                ) is Ok,
            forall|s: int|
                0 <= s < si ==> (#[trigger] statements@[s]@).selection == rm.statements[s].selection
                    && statements@[s]@.clauses.len() == rm.statements[s].condition.len(),
            forall|s: int, c: int|
                0 <= s < si && 0 <= c < rm.statements[s].condition.len() ==> (
                #[trigger] statements@[s]@.clauses[c]).len() == rm.statements[s].condition[c].len(),
            forall|s: int, c: int, k: int|
                pos_valid(rm, s, c, k) && s < si ==> #[trigger] statements@[s]@.clauses[c][k]
                    == lower_comparison_spec(comparison_at(rm, s, c, k))->Ok_0,
        decreases rm.statements.len() - si,
    {
        let stmt = &rule.statements[si];
        proof {
            assert(rm.statements[si as int] == rule.statements@[si as int]@);
        }
        let mut clauses: Vec<LoweredClause> = Vec::new();
        let mut ci: usize = 0;
        while ci < stmt.condition.len()
            invariant
                rm == rule@,
                si < rm.statements.len(),
                stmt == &rule.statements@[si as int],
                rm.statements[si as int] == rule.statements@[si as int]@,
                rm.statements[si as int].condition.len() == stmt.condition@.len(),
                ci <= stmt.condition@.len(),
                clauses@.len() == ci,
                forall|s: int, c: int, k: int|
                    pos_valid(rm, s, c, k) && s < si ==> #[trigger] lower_comparison_spec(
                        comparison_at(rm, s, c, k),
                    ) is Ok,
                forall|c: int, k: int|
                    0 <= c < ci && 0 <= k < rm.statements[si as int].condition[c].len()
                        ==> #[trigger] lower_comparison_spec(
                        comparison_at(rm, si as int, c, k),
                    ) is Ok,
                forall|c: int|
                    0 <= c < ci ==> (#[trigger] clauses@[c]@).len() == rm.statements[
                        si as int
                    ].condition[c].len(),
                forall|c: int, k: int|
                    0 <= c < ci && 0 <= k < rm.statements[si as int].condition[c].len()
                        ==> #[trigger] (clauses@[c]@[k]) == lower_comparison_spec(
                        comparison_at(rm, si as int, c, k),
                    )->Ok_0,
            decreases stmt.condition@.len() - ci,
        {
            let clause = &stmt.condition[ci];
            proof {
                assert(rm.statements[si as int].condition[ci as int] == stmt.condition@[ci as int]@);
            }
            let mut values: Vec<DirValue> = Vec::new();
            let mut ki: usize = 0;
            while ki < clause.comparisons.len()
                invariant
                    rm == rule@,
                    si < rm.statements.len(),
                    ci < rm.statements[si as int].condition.len(),
                    clause == &rule.statements@[si as int].condition@[ci as int],
                    rm.statements[si as int].condition[ci as int] == clause@,
                    rm.statements[si as int].condition[ci as int].len()
                        == clause.comparisons@.len(),
                    ki <= clause.comparisons@.len(),
                    values@.len() == ki,
                    forall|s: int, c: int, k: int|
                        pos_valid(rm, s, c, k) && s < si ==> #[trigger] lower_comparison_spec(
                            comparison_at(rm, s, c, k),
                        ) is Ok,
                    forall|c: int, k: int|
                        0 <= c < ci && 0 <= k < rm.statements[si as int].condition[c].len()
                            ==> #[trigger] lower_comparison_spec(
                            comparison_at(rm, si as int, c, k),
                        ) is Ok,
                    forall|k: int|
                        0 <= k < ki ==> #[trigger] lower_comparison_spec(
                            comparison_at(rm, si as int, ci as int, k),
                        ) is Ok,
                    forall|k: int|
                        0 <= k < ki ==> #[trigger] values@[k] == lower_comparison_spec(
                            comparison_at(rm, si as int, ci as int, k),
                        )->Ok_0,
                decreases clause.comparisons@.len() - ki,
            {
                let comp = &clause.comparisons[ki];
                proof {
                    assert(comparison_at(rm, si as int, ci as int, ki as int) == clause.comparisons@[
                        ki as int
                    ]@);
                }
                match lower_comparison(comp) {
                    Ok(v) => {
                        values.push(v);
                    },
                    Err(kind) => {
                        proof {
                            assert forall|s: int, c: int, k: int|
                                pos_valid(rm, s, c, k) && pos_earlier(
                                    s,
                                    c,
                                    k,
                                    si as int,
                                    ci as int,
                                    ki as int,
                                ) implies #[trigger] lower_comparison_spec(
                                comparison_at(rm, s, c, k),
                            ) is Ok by {
                                if s == si as int && c == ci as int {
                                    assert(0 <= k < ki as int);
                                } else if s == si as int {
                                    assert(0 <= c < ci as int);
                                    assert(0 <= k < rm.statements[si as int].condition[c].len());
                                } else {
                                    assert(0 <= s < si as int);
                                }
                            }
                        }
                        return Err(
                            LoweringError { statement: si, clause: ci, comparison: ki, kind },
                        );
                    },
                }
                ki = ki + 1;
            }
            clauses.push(LoweredClause { values });
            ci = ci + 1;
        }
        let lowered_stmt = LoweredStatement { clauses, selection: copy_selection(&stmt.selection) };
        proof {
            assert(lowered_stmt@.selection == rm.statements[si as int].selection);
            assert(lowered_stmt@.clauses.len() == rm.statements[si as int].condition.len());
        }
        statements.push(lowered_stmt);
        si = si + 1;
    }
    let name = clone_string(&rule.name);
    let default_selection = copy_selection(&rule.default_selection);
    let lowered = LoweredRule { name, statements, default_selection };
    proof {
        assert(lowered@.statements.len() == rm.statements.len());
        assert forall|s: int| 0 <= s < rm.statements.len() implies (
        #[trigger] lowered@.statements[s]).selection == rm.statements[s].selection
            && lowered@.statements[s].clauses.len() == rm.statements[s].condition.len() by {
            assert(lowered@.statements[s] == statements@[s]@);
        }
        assert forall|s: int, c: int|
            0 <= s < rm.statements.len() && 0 <= c < rm.statements[s].condition.len() implies (
        #[trigger] lowered@.statements[s].clauses[c]).len()
            == rm.statements[s].condition[c].len() by {
            assert(lowered@.statements[s] == statements@[s]@);
        }
        assert forall|s: int, c: int, k: int| pos_valid(rm, s, c, k) implies
        #[trigger] lowered@.statements[s].clauses[c][k] == lower_comparison_spec(
            comparison_at(rm, s, c, k),
        )->Ok_0 by {
            assert(lowered@.statements[s] == statements@[s]@);
        }
        assert(lowered_matches(rm, lowered@));
    }
    Ok(lowered)
}

/// A fresh copy of a string.
fn clone_string(s: &String) -> (r: String)
    ensures
        r@ == s@,
{
    s.clone()
}

} // verus!
