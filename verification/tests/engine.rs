//! End-to-end tests of the routing engine: seeding, analysis,
//! evaluation, and the rule state machine.

use routing_engine::analysis::{AnalysisReason, Memoization};
use routing_engine::ast::{
    Clause, Comparison, ComparisonValue, ConnectorSelection, LowerFailKind, Rule, RuleStatement,
    lower_rule,
};
use routing_engine::context::{Context, ContextValue};
use routing_engine::evaluator::{check_candidates, get_valid_connectors_for_rule};
use routing_engine::graph::{ConstraintGraph, DomainDescription, Edge, EdgeKind, GraphError, Node, NodeKind};
use routing_engine::seeder::{
    ConnectorAccount, default_analysis_graph, make_connector_graph, seed_knowledge_graph,
};
use routing_engine::values::{
    AuthenticationType, CaptureMethod, CardNetwork, ConnectorChoice, DirKeyKind, DirValue,
    NumRelation, NumValue, PaymentMethod, RoutableConnector,
};

fn choice(c: RoutableConnector) -> ConnectorChoice {
    ConnectorChoice { connector: c }
}

fn comparison(key: &str, value: &str) -> Comparison {
    Comparison {
        key: String::from(key),
        value: ComparisonValue::EnumVariant(String::from(value)),
    }
}

fn selection(cs: Vec<RoutableConnector>) -> ConnectorSelection {
    ConnectorSelection { connectors: cs.into_iter().map(choice).collect() }
}

/// A statement with a single clause of the given comparisons; an empty
/// list makes the always-true default branch.
fn statement(comparisons: Vec<Comparison>) -> RuleStatement {
    RuleStatement {
        condition: vec![Clause { comparisons }],
        selection: selection(vec![]),
    }
}

fn account(
    c: RoutableConnector,
    pms: Vec<PaymentMethod>,
    networks: Vec<CardNetwork>,
) -> ConnectorAccount {
    ConnectorAccount { connector: choice(c), payment_methods: pms, card_networks: networks }
}

/// An always-true rule over an edge-free graph keeps the full
/// candidate list unchanged, in order.
#[test]
fn default_rule_keeps_all_candidates() {
    let graph = ConstraintGraph::new();
    let rule = Rule {
        name: String::from("always"),
        statements: vec![statement(vec![])],
        default_selection: selection(vec![]),
    };
    let candidates = vec![
        choice(RoutableConnector::Adyen),
        choice(RoutableConnector::Stripe),
        choice(RoutableConnector::Klarna),
    ];
    let result = get_valid_connectors_for_rule(&graph, &rule, &candidates).unwrap();
    assert_eq!(result, candidates);
}

/// Two different values of a single-valued key make a context
/// unsatisfiable, and the error cites the conflicting pair.
#[test]
fn exclusive_key_conflict_is_reported() {
    let graph = ConstraintGraph::new();
    let mut ctx = Context::new();
    ctx.push(ContextValue::assertion(DirValue::CardNetwork(CardNetwork::Visa)));
    ctx.push(ContextValue::assertion(DirValue::CardNetwork(CardNetwork::Mastercard)));
    let mut memo = Memoization::new();
    let err = graph.perform_context_analysis(&ctx, &mut memo).unwrap_err();
    assert_eq!(err.index, 1);
    assert_eq!(err.value, DirValue::CardNetwork(CardNetwork::Mastercard));
    assert_eq!(err.reason, AnalysisReason::DomainExclusion { prior_index: 0 });
}

/// Numeric comparisons conflict only when jointly unsatisfiable.
#[test]
fn numeric_comparisons_conflict_by_interval() {
    let graph = ConstraintGraph::new();
    // amount > 100 and amount < 50: impossible.
    let mut ctx = Context::new();
    ctx.push(ContextValue::assertion(DirValue::PaymentAmount(NumValue {
        number: 100,
        relation: NumRelation::GreaterThan,
    })));
    ctx.push(ContextValue::assertion(DirValue::PaymentAmount(NumValue {
        number: 50,
        relation: NumRelation::LessThan,
    })));
    let mut memo = Memoization::new();
    assert!(graph.perform_context_analysis(&ctx, &mut memo).is_err());
    // amount > 100 and amount < 200: fine.
    let mut ctx2 = Context::new();
    ctx2.push(ContextValue::assertion(DirValue::PaymentAmount(NumValue {
        number: 100,
        relation: NumRelation::GreaterThan,
    })));
    ctx2.push(ContextValue::assertion(DirValue::PaymentAmount(NumValue {
        number: 200,
        relation: NumRelation::LessThan,
    })));
    let mut memo2 = Memoization::new();
    assert!(graph.perform_context_analysis(&ctx2, &mut memo2).is_ok());
    // amount > 100 and amount < 102: only 101 remains.
    let mut ctx3 = Context::new();
    ctx3.push(ContextValue::assertion(DirValue::PaymentAmount(NumValue {
        number: 100,
        relation: NumRelation::GreaterThan,
    })));
    ctx3.push(ContextValue::assertion(DirValue::PaymentAmount(NumValue {
        number: 102,
        relation: NumRelation::LessThan,
    })));
    let mut memo3 = Memoization::new();
    assert!(graph.perform_context_analysis(&ctx3, &mut memo3).is_ok());
    // amount > 100 and amount < 101: nothing remains.
    let mut ctx4 = Context::new();
    ctx4.push(ContextValue::assertion(DirValue::PaymentAmount(NumValue {
        number: 100,
        relation: NumRelation::GreaterThan,
    })));
    ctx4.push(ContextValue::assertion(DirValue::PaymentAmount(NumValue {
        number: 101,
        relation: NumRelation::LessThan,
    })));
    let mut memo4 = Memoization::new();
    assert!(graph.perform_context_analysis(&ctx4, &mut memo4).is_err());
}

/// Evaluating the same (graph, rule, candidate list) twice yields
/// identical output lists.
#[test]
fn evaluation_is_idempotent() {
    let accounts = vec![
        account(RoutableConnector::Stripe, vec![PaymentMethod::Card], vec![CardNetwork::Visa]),
        account(RoutableConnector::Adyen, vec![PaymentMethod::Card], vec![CardNetwork::Mastercard]),
    ];
    let global = default_analysis_graph();
    let seed = seed_knowledge_graph(&accounts, &global).unwrap();
    let rule = Rule {
        name: String::from("visa only"),
        statements: vec![statement(vec![comparison("card_network", "Visa")])],
        default_selection: selection(vec![]),
    };
    let first = get_valid_connectors_for_rule(&seed.cgraph, &rule, &seed.connectors).unwrap();
    let second = get_valid_connectors_for_rule(&seed.cgraph, &rule, &seed.connectors).unwrap();
    assert_eq!(first, second);
    assert_eq!(first, vec![choice(RoutableConnector::Stripe)]);
}

/// After a full candidate pass, the context holds exactly the
/// assertions it held before.
#[test]
fn candidate_pass_restores_context() {
    let accounts = vec![
        account(RoutableConnector::Stripe, vec![PaymentMethod::Card], vec![CardNetwork::Visa]),
    ];
    let graph = make_connector_graph(&accounts);
    let mut ctx = Context::new();
    ctx.push(ContextValue::assertion(DirValue::CardNetwork(CardNetwork::Visa)));
    let len_before = ctx.len();
    let candidates = vec![choice(RoutableConnector::Stripe), choice(RoutableConnector::Adyen)];
    let mut invalid: Vec<ConnectorChoice> = Vec::new();
    check_candidates(&graph, &mut ctx, &candidates, &mut invalid);
    assert_eq!(ctx.len(), len_before);
    assert_eq!(ctx.get(0).value, DirValue::CardNetwork(CardNetwork::Visa));
}

/// Combining two graphs under disjoint identifier namespaces preserves
/// all original edges, and analysis confined to one side is unchanged.
#[test]
fn combine_preserves_edges_and_local_analysis() {
    let accounts_a = vec![
        account(RoutableConnector::Stripe, vec![PaymentMethod::Card], vec![CardNetwork::Visa]),
    ];
    let part_a = make_connector_graph(&accounts_a);
    let part_b = default_analysis_graph();
    let combined = ConstraintGraph::combine(&part_a, &part_b).unwrap();
    assert_eq!(combined.edges.len(), part_a.edges.len() + part_b.edges.len());
    assert_eq!(combined.nodes.len(), part_a.nodes.len() + part_b.nodes.len());
    // A context confined to the first graph's concerns analyzes
    // identically under the combination.
    let mut ctx = Context::new();
    ctx.push(ContextValue::assertion(DirValue::Connector(choice(RoutableConnector::Stripe))));
    ctx.push(ContextValue::assertion(DirValue::CardNetwork(CardNetwork::Mastercard)));
    let mut memo_one = Memoization::new();
    let alone = part_a.perform_context_analysis(&ctx, &mut memo_one);
    let mut memo_two = Memoization::new();
    let merged = combined.perform_context_analysis(&ctx, &mut memo_two);
    assert_eq!(alone.is_err(), merged.is_err());
    assert!(alone.is_err());
}

/// Combining two graphs that share a node identifier fails.
#[test]
fn combine_rejects_node_id_collision() {
    let accounts = vec![
        account(RoutableConnector::Stripe, vec![PaymentMethod::Card], vec![CardNetwork::Visa]),
    ];
    let a = make_connector_graph(&accounts);
    let b = make_connector_graph(&accounts);
    match ConstraintGraph::combine(&a, &b) {
        Err(GraphError::NodeIdCollision(_)) => {}
        other => panic!("expected a node identifier collision, got {:?}", other.is_ok()),
    }
}

/// Combining two graphs that describe one key's domain differently
/// fails with a domain collision.
#[test]
fn combine_rejects_conflicting_domain_descriptions() {
    let a = ConstraintGraph {
        nodes: vec![],
        edges: vec![],
        domains: vec![DomainDescription { key: DirKeyKind::CardNetwork, exclusive: true }],
    };
    let b = ConstraintGraph {
        nodes: vec![],
        edges: vec![],
        domains: vec![DomainDescription { key: DirKeyKind::CardNetwork, exclusive: false }],
    };
    match ConstraintGraph::combine(&a, &b) {
        Err(GraphError::DomainIdCollision(key)) => {
            assert_eq!(key, DirKeyKind::CardNetwork);
        }
        other => panic!("expected a domain collision, got ok={:?}", other.is_ok()),
    }
    // Agreeing descriptions merge fine.
    let c = ConstraintGraph {
        nodes: vec![],
        edges: vec![],
        domains: vec![DomainDescription { key: DirKeyKind::CardNetwork, exclusive: true }],
    };
    assert!(ConstraintGraph::combine(&a, &c).is_ok());
}

/// A mutual-exclusion edge forbids asserting both of its endpoint
/// values, in either push order.
#[test]
fn exclusion_edge_forbids_the_pair() {
    // Manual capture and strong authentication declared mutually
    // exclusive.
    let graph = ConstraintGraph {
        nodes: vec![
            Node {
                id: 1,
                kind: NodeKind::Assertion(DirValue::CaptureMethod(CaptureMethod::Manual)),
            },
            Node {
                id: 2,
                kind: NodeKind::Assertion(DirValue::AuthenticationType(
                    AuthenticationType::ThreeDs,
                )),
            },
        ],
        edges: vec![Edge { lhs: 1, rhs: 2, kind: EdgeKind::Excludes }],
        domains: vec![],
    };
    let mut ctx = Context::new();
    ctx.push(ContextValue::assertion(DirValue::CaptureMethod(CaptureMethod::Manual)));
    ctx.push(ContextValue::assertion(DirValue::AuthenticationType(AuthenticationType::ThreeDs)));
    let err = graph_err(&graph, &ctx);
    assert_eq!(err.index, 1);
    assert_eq!(err.reason, AnalysisReason::ExclusionEdge { other_index: 0 });
    assert_eq!(
        err.explain(&ctx),
        "authentication_type == ThreeDs is mutually exclusive with capture_method == Manual"
    );
    // The same pair in the other order is rejected too.
    let mut swapped = Context::new();
    swapped.push(ContextValue::assertion(DirValue::AuthenticationType(
        AuthenticationType::ThreeDs,
    )));
    swapped.push(ContextValue::assertion(DirValue::CaptureMethod(CaptureMethod::Manual)));
    assert!(graph_err(&graph, &swapped).index == 1);
    // Either value alone is fine.
    let mut alone = Context::new();
    alone.push(ContextValue::assertion(DirValue::CaptureMethod(CaptureMethod::Manual)));
    let mut memo = Memoization::new();
    assert!(graph.perform_context_analysis(&alone, &mut memo).is_ok());
}

/// A memoization cache may serve several analyses against one and the
/// same graph, with unchanged verdicts.
#[test]
fn memoization_reuse_keeps_verdicts() {
    let graph = ConstraintGraph::new();
    let mut ctx = Context::new();
    ctx.push(ContextValue::assertion(DirValue::CardNetwork(CardNetwork::Visa)));
    ctx.push(ContextValue::assertion(DirValue::CardNetwork(CardNetwork::Mastercard)));
    let mut memo = Memoization::new();
    let first = graph.perform_context_analysis(&ctx, &mut memo);
    let second = graph.perform_context_analysis(&ctx, &mut memo);
    assert_eq!(first.is_err(), second.is_err());
    assert_eq!(first.unwrap_err().index, second.unwrap_err().index);
    let mut ok_ctx = Context::new();
    ok_ctx.push(ContextValue::assertion(DirValue::CardNetwork(CardNetwork::Visa)));
    assert!(graph.perform_context_analysis(&ok_ctx, &mut memo).is_ok());
    assert!(graph.perform_context_analysis(&ok_ctx, &mut memo).is_ok());
}

/// A connector that conflicts under a satisfiable branch is excluded
/// for the whole evaluation, also when a later always-true branch
/// imposes no constraint.
#[test]
fn conflicting_connector_is_excluded_permanently() {
    let accounts = vec![
        // This connector does not support Visa.
        account(RoutableConnector::Adyen, vec![PaymentMethod::Card], vec![CardNetwork::Mastercard]),
        account(RoutableConnector::Stripe, vec![PaymentMethod::Card], vec![CardNetwork::Visa]),
    ];
    let seed = seed_knowledge_graph(&accounts, &default_analysis_graph()).unwrap();
    let rule = Rule {
        name: String::from("visa first, then anything"),
        statements: vec![
            statement(vec![comparison("card_network", "Visa")]),
            statement(vec![]),
        ],
        default_selection: selection(vec![]),
    };
    let result = get_valid_connectors_for_rule(&seed.cgraph, &rule, &seed.connectors).unwrap();
    assert_eq!(result, vec![choice(RoutableConnector::Stripe)]);
}

/// A branch that is unsatisfiable on its own marks nothing: a
/// connector is excluded only for failing a context that was itself
/// satisfiable and where it specifically conflicted, not for a branch
/// that was merely skipped.
#[test]
fn skipped_branch_marks_no_connector() {
    let accounts = vec![
        // This connector does not support Visa.
        account(RoutableConnector::Adyen, vec![PaymentMethod::Card], vec![CardNetwork::Mastercard]),
    ];
    let seed = seed_knowledge_graph(&accounts, &default_analysis_graph()).unwrap();
    // The first branch contradicts itself (two card networks for one
    // single-valued key), so it is skipped; the second branch imposes
    // no constraint.  The connector is never marked invalid.
    let rule = Rule {
        name: String::from("impossible first, then anything"),
        statements: vec![
            statement(vec![
                comparison("card_network", "Visa"),
                comparison("card_network", "Mastercard"),
            ]),
            statement(vec![]),
        ],
        default_selection: selection(vec![]),
    };
    let result = get_valid_connectors_for_rule(&seed.cgraph, &rule, &seed.connectors).unwrap();
    assert_eq!(result, vec![choice(RoutableConnector::Adyen)]);
}

/// Lowering a rule that references an unrecognized value fails with a
/// lowering error and never reaches graph analysis.
#[test]
fn unknown_value_fails_lowering() {
    let rule = Rule {
        name: String::from("bad value"),
        statements: vec![statement(vec![comparison("card_network", "Unobtainium")])],
        default_selection: selection(vec![]),
    };
    let err = lower_rule(&rule).unwrap_err();
    assert_eq!(err.kind, LowerFailKind::UnknownValue);
    assert_eq!(err.statement, 0);
    assert_eq!(err.clause, 0);
    assert_eq!(err.comparison, 0);
    // The evaluator reports the same failure instead of analyzing.
    let graph = ConstraintGraph::new();
    let candidates = vec![choice(RoutableConnector::Stripe)];
    let eval_err = get_valid_connectors_for_rule(&graph, &rule, &candidates).unwrap_err();
    assert_eq!(eval_err, err);
}

/// Lowering reports the first offending comparison in statement order.
#[test]
fn lowering_reports_first_error() {
    let rule = Rule {
        name: String::from("two bad comparisons"),
        statements: vec![
            statement(vec![comparison("card_network", "Visa")]),
            statement(vec![
                comparison("no_such_key", "Visa"),
                comparison("card_network", "Unobtainium"),
            ]),
        ],
        default_selection: selection(vec![]),
    };
    let err = lower_rule(&rule).unwrap_err();
    assert_eq!(err.kind, LowerFailKind::UnknownKey);
    assert_eq!(err.statement, 1);
    assert_eq!(err.clause, 0);
    assert_eq!(err.comparison, 0);
}

/// A number against an enumerated key, and a variant name against the
/// numeric key, are type mismatches; the open-string key carries no
/// assertable values.
#[test]
fn lowering_rejects_mismatched_shapes() {
    let number = Comparison {
        key: String::from("card_network"),
        value: ComparisonValue::Number { number: 3, relation: NumRelation::Equal },
    };
    let rule = Rule {
        name: String::from("number against enum"),
        statements: vec![statement(vec![number])],
        default_selection: selection(vec![]),
    };
    assert_eq!(lower_rule(&rule).unwrap_err().kind, LowerFailKind::TypeMismatch);

    let name_against_amount = comparison("payment_amount", "Visa");
    let rule2 = Rule {
        name: String::from("name against number"),
        statements: vec![statement(vec![name_against_amount])],
        default_selection: selection(vec![]),
    };
    assert_eq!(lower_rule(&rule2).unwrap_err().kind, LowerFailKind::TypeMismatch);

    let meta = comparison("metadata", "anything");
    let rule3 = Rule {
        name: String::from("metadata"),
        statements: vec![statement(vec![meta])],
        default_selection: selection(vec![]),
    };
    assert_eq!(lower_rule(&rule3).unwrap_err().kind, LowerFailKind::UnsupportedKey);
}

/// An amount clause lowers into a numeric directive value and the
/// evaluator honors it.
#[test]
fn amount_clause_lowers_and_evaluates() {
    let amount = Comparison {
        key: String::from("payment_amount"),
        value: ComparisonValue::Number { number: 500, relation: NumRelation::GreaterThan },
    };
    let rule = Rule {
        name: String::from("large payments"),
        statements: vec![statement(vec![amount])],
        default_selection: selection(vec![]),
    };
    let lowered = lower_rule(&rule).unwrap();
    assert_eq!(lowered.statements.len(), 1);
    assert_eq!(lowered.statements[0].clauses.len(), 1);
    assert_eq!(
        lowered.statements[0].clauses[0].values,
        vec![DirValue::PaymentAmount(NumValue { number: 500, relation: NumRelation::GreaterThan })]
    );
    let graph = ConstraintGraph::new();
    let candidates = vec![choice(RoutableConnector::Stripe)];
    let result = get_valid_connectors_for_rule(&graph, &rule, &candidates).unwrap();
    assert_eq!(result, candidates);
}

/// The global analysis graph forbids card networks beside non-card
/// payment methods.
#[test]
fn global_graph_forbids_network_without_card() {
    let global = default_analysis_graph();
    let mut ctx = Context::new();
    ctx.push(ContextValue::assertion(DirValue::PaymentMethod(PaymentMethod::Crypto)));
    ctx.push(ContextValue::assertion(DirValue::CardNetwork(CardNetwork::Visa)));
    let mut memo = Memoization::new();
    let err = graph_err(&global, &ctx);
    assert_eq!(err.index, 1);
    assert!(matches!(err.reason, AnalysisReason::AggregatorRestriction { trigger_index: 0 }));
    // Card payments may carry a network.
    let mut ctx2 = Context::new();
    ctx2.push(ContextValue::assertion(DirValue::PaymentMethod(PaymentMethod::Card)));
    ctx2.push(ContextValue::assertion(DirValue::CardNetwork(CardNetwork::Visa)));
    assert!(global.perform_context_analysis(&ctx2, &mut memo).is_ok());
}

fn graph_err(
    graph: &ConstraintGraph,
    ctx: &Context,
) -> routing_engine::analysis::AnalysisError {
    let mut memo = Memoization::new();
    graph.perform_context_analysis(ctx, &mut memo).unwrap_err()
}

/// Analysis errors explain themselves, naming the failing assertion
/// and the conflicting prior one.
#[test]
fn analysis_errors_explain_themselves() {
    let graph = ConstraintGraph::new();
    let mut ctx = Context::new();
    ctx.push(ContextValue::assertion(DirValue::CardNetwork(CardNetwork::Visa)));
    ctx.push(ContextValue::assertion(DirValue::CardNetwork(CardNetwork::Mastercard)));
    let err = graph_err(&graph, &ctx);
    assert_eq!(
        err.explain(&ctx),
        "card_network == Mastercard conflicts with the earlier assertion \
         card_network == Visa under a single-valued key"
    );
    // An aggregator restriction names its trigger.
    let accounts = vec![
        account(RoutableConnector::Klarna, vec![PaymentMethod::PayLater], vec![]),
    ];
    let agg_graph = make_connector_graph(&accounts);
    let mut ctx2 = Context::new();
    ctx2.push(ContextValue::assertion(DirValue::Connector(choice(RoutableConnector::Klarna))));
    ctx2.push(ContextValue::assertion(DirValue::PaymentMethod(PaymentMethod::Card)));
    let err2 = graph_err(&agg_graph, &ctx2);
    assert_eq!(
        err2.explain(&ctx2),
        "payment_method == Card falls outside the values permitted beside \
         connector == Klarna"
    );
    // Numbers render in the explanation.
    let mut ctx3 = Context::new();
    ctx3.push(ContextValue::assertion(DirValue::PaymentAmount(NumValue {
        number: 100,
        relation: NumRelation::GreaterThan,
    })));
    ctx3.push(ContextValue::assertion(DirValue::PaymentAmount(NumValue {
        number: -5,
        relation: NumRelation::LessThan,
    })));
    let err3 = graph_err(&graph, &ctx3);
    assert_eq!(
        err3.explain(&ctx3),
        "payment_amount < -5 conflicts with the earlier assertion \
         payment_amount > 100 under a single-valued key"
    );
}

/// The state machine walks clauses in statement order, skipping
/// statements without clauses, and signals exhaustion at the end.
#[test]
fn context_manager_walks_branches_in_order() {
    let rule = Rule {
        name: String::from("three branches"),
        statements: vec![
            RuleStatement {
                condition: vec![
                    Clause { comparisons: vec![comparison("card_network", "Visa")] },
                    Clause { comparisons: vec![comparison("card_network", "Mastercard")] },
                ],
                selection: selection(vec![]),
            },
            RuleStatement { condition: vec![], selection: selection(vec![]) },
            RuleStatement {
                condition: vec![Clause { comparisons: vec![comparison("payment_method", "Card")] }],
                selection: selection(vec![]),
            },
        ],
        default_selection: selection(vec![]),
    };
    let lowered = lower_rule(&rule).unwrap();
    let mut mgr = routing_engine::state_machine::RuleContextManager::new(&lowered, Vec::new());
    let first = mgr.advance().unwrap();
    assert_eq!(first.len(), 1);
    assert_eq!(first.get(0).value, DirValue::CardNetwork(CardNetwork::Visa));
    let second = mgr.advance().unwrap();
    assert_eq!(second.get(0).value, DirValue::CardNetwork(CardNetwork::Mastercard));
    let third = mgr.advance().unwrap();
    assert_eq!(third.get(0).value, DirValue::PaymentMethod(PaymentMethod::Card));
    assert!(mgr.advance().is_none());
    assert!(mgr.advance().is_none());
}

/// Fixed pre-assertions form the base layer of every produced context.
#[test]
fn context_manager_lays_fixed_assertions_first() {
    let rule = Rule {
        name: String::from("one branch"),
        statements: vec![statement(vec![comparison("card_network", "Visa")])],
        default_selection: selection(vec![]),
    };
    let lowered = lower_rule(&rule).unwrap();
    let fixed = vec![ContextValue::weighted(DirValue::PaymentMethod(PaymentMethod::Card), 7)];
    let mut mgr = routing_engine::state_machine::RuleContextManager::new(&lowered, fixed);
    let ctx = mgr.advance().unwrap();
    assert_eq!(ctx.len(), 2);
    assert_eq!(ctx.get(0).value, DirValue::PaymentMethod(PaymentMethod::Card));
    assert_eq!(ctx.get(0).weight, Some(7));
    assert_eq!(ctx.get(1).value, DirValue::CardNetwork(CardNetwork::Visa));
    assert_eq!(ctx.get(1).weight, None);
}

/// Seeding derives the candidate list from the accounts, in order.
#[test]
fn seeding_extracts_candidates_in_order() {
    let accounts = vec![
        account(RoutableConnector::Klarna, vec![PaymentMethod::PayLater], vec![]),
        account(RoutableConnector::Stripe, vec![PaymentMethod::Card], vec![CardNetwork::Visa]),
    ];
    let seed = seed_knowledge_graph(&accounts, &default_analysis_graph()).unwrap();
    assert_eq!(
        seed.connectors,
        vec![choice(RoutableConnector::Klarna), choice(RoutableConnector::Stripe)]
    );
}

/// A connector account restricts the payment methods assertable beside
/// its connector.
#[test]
fn account_restricts_payment_methods() {
    let accounts = vec![
        account(RoutableConnector::Klarna, vec![PaymentMethod::PayLater], vec![]),
    ];
    let graph = make_connector_graph(&accounts);
    let mut ctx = Context::new();
    ctx.push(ContextValue::assertion(DirValue::PaymentMethod(PaymentMethod::Card)));
    ctx.push(ContextValue::assertion(DirValue::Connector(choice(RoutableConnector::Klarna))));
    let err = graph_err(&graph, &ctx);
    assert_eq!(err.index, 1);
    let mut ctx2 = Context::new();
    ctx2.push(ContextValue::assertion(DirValue::PaymentMethod(PaymentMethod::PayLater)));
    ctx2.push(ContextValue::assertion(DirValue::Connector(choice(RoutableConnector::Klarna))));
    let mut memo = Memoization::new();
    assert!(graph.perform_context_analysis(&ctx2, &mut memo).is_ok());
}
