//! Tests of the directive value domain by name, numeric compatibility,
//! the interpreter, and whole-rule analysis.

use routing_engine::ast::{
    Clause, Comparison, ComparisonValue, ConnectorSelection, Rule, RuleStatement,
};
use routing_engine::domain::{
    DomainError, connector_from_name, get_all_connectors, get_all_keys, get_key_type,
    get_variant_values, key_from_name, value_from_name,
};
use routing_engine::evaluator::{AnalyzeError, analyze_program};
use routing_engine::graph::ConstraintGraph;
use routing_engine::interpreter::{BackendInput, run_program};
use routing_engine::values::{
    CardNetwork, ConnectorChoice, DirKeyKind, DirValue, NumRelation, NumValue, PaymentMethod,
    RoutableConnector, num_values_compatible,
};

fn comparison(key: &str, value: &str) -> Comparison {
    Comparison {
        key: String::from(key),
        value: ComparisonValue::EnumVariant(String::from(value)),
    }
}

fn selection(cs: Vec<RoutableConnector>) -> ConnectorSelection {
    ConnectorSelection {
        connectors: cs.into_iter().map(|c| ConnectorChoice { connector: c }).collect(),
    }
}

fn statement(comparisons: Vec<Comparison>, sel: Vec<RoutableConnector>) -> RuleStatement {
    RuleStatement { condition: vec![Clause { comparisons }], selection: selection(sel) }
}

#[test]
fn key_names_resolve_to_typed_keys() {
    assert_eq!(key_from_name("payment_method"), Some(DirKeyKind::PaymentMethod));
    assert_eq!(key_from_name("card_network"), Some(DirKeyKind::CardNetwork));
    assert_eq!(key_from_name("payment_amount"), Some(DirKeyKind::PaymentAmount));
    assert_eq!(key_from_name("metadata"), Some(DirKeyKind::MetaData));
    assert_eq!(key_from_name("connector"), Some(DirKeyKind::Connector));
    assert_eq!(key_from_name("no_such_key"), None);
    assert_eq!(key_from_name("CardNetwork"), None);
}

#[test]
fn variant_names_resolve_within_their_key() {
    assert_eq!(
        value_from_name(DirKeyKind::CardNetwork, "Visa"),
        Some(DirValue::CardNetwork(CardNetwork::Visa))
    );
    assert_eq!(
        value_from_name(DirKeyKind::PaymentMethod, "Card"),
        Some(DirValue::PaymentMethod(PaymentMethod::Card))
    );
    // A variant of another key does not resolve.
    assert_eq!(value_from_name(DirKeyKind::PaymentMethod, "Visa"), None);
    assert_eq!(value_from_name(DirKeyKind::CardNetwork, "Unobtainium"), None);
    // Keys without an enumerable domain resolve nothing.
    assert_eq!(value_from_name(DirKeyKind::PaymentAmount, "Visa"), None);
    assert_eq!(value_from_name(DirKeyKind::MetaData, "anything"), None);
    assert_eq!(
        connector_from_name("Stripe"),
        Some(RoutableConnector::Stripe)
    );
    assert_eq!(connector_from_name("stripe"), None);
}

#[test]
fn key_listing_excludes_connector_identity() {
    let keys = get_all_keys();
    assert_eq!(
        keys,
        vec![
            "payment_method",
            "card_network",
            "capture_method",
            "billing_country",
            "payment_currency",
            "authentication_type",
            "payment_amount",
            "metadata",
        ]
    );
    assert!(!keys.iter().any(|k| k == "connector"));
}

#[test]
fn connector_listing_names_every_connector() {
    let names = get_all_connectors();
    assert_eq!(
        names,
        vec![
            "Stripe",
            "Adyen",
            "Checkout",
            "Worldpay",
            "Cybersource",
            "Braintree",
            "Klarna",
            "Airwallex",
        ]
    );
}

#[test]
fn key_types_name_the_domain_kind() {
    assert_eq!(get_key_type("card_network").unwrap(), "enum_variant");
    assert_eq!(get_key_type("payment_amount").unwrap(), "number");
    assert_eq!(get_key_type("metadata").unwrap(), "str_value");
    assert_eq!(get_key_type("no_such_key").unwrap_err(), DomainError::UnknownKey);
}

#[test]
fn variant_listing_covers_enumerated_keys_only() {
    let networks = get_variant_values("card_network").unwrap();
    assert_eq!(
        networks,
        vec![
            "Visa",
            "Mastercard",
            "AmericanExpress",
            "Discover",
            "DinersClub",
            "JCB",
            "UnionPay",
            "RuPay",
            "Maestro",
            "Interac",
        ]
    );
    let auth = get_variant_values("authentication_type").unwrap();
    assert_eq!(auth, vec!["ThreeDs", "NoThreeDs"]);
    let capture = get_variant_values("capture_method").unwrap();
    assert_eq!(
        capture,
        vec!["Automatic", "Manual", "ManualMultiple", "Scheduled", "SequentialAutomatic"]
    );
    let currencies = get_variant_values("payment_currency").unwrap();
    assert_eq!(currencies.len(), 8);
    assert!(currencies.iter().any(|c| c == "EUR"));
    let countries = get_variant_values("billing_country").unwrap();
    assert_eq!(countries.len(), 10);
    assert!(countries.iter().any(|c| c == "Singapore"));
    assert_eq!(get_variant_values("payment_amount").unwrap_err(), DomainError::UnknownKey);
    assert_eq!(get_variant_values("metadata").unwrap_err(), DomainError::UnknownKey);
    assert_eq!(get_variant_values("no_such_key").unwrap_err(), DomainError::UnknownKey);
}

#[test]
fn numeric_compatibility_follows_interval_logic() {
    let eq = |n: i64| NumValue { number: n, relation: NumRelation::Equal };
    let ne = |n: i64| NumValue { number: n, relation: NumRelation::NotEqual };
    let gt = |n: i64| NumValue { number: n, relation: NumRelation::GreaterThan };
    let ge = |n: i64| NumValue { number: n, relation: NumRelation::GreaterThanEqual };
    let lt = |n: i64| NumValue { number: n, relation: NumRelation::LessThan };
    let le = |n: i64| NumValue { number: n, relation: NumRelation::LessThanEqual };
    assert!(num_values_compatible(&eq(5), &eq(5)));
    assert!(!num_values_compatible(&eq(5), &eq(6)));
    assert!(!num_values_compatible(&eq(5), &ne(5)));
    assert!(num_values_compatible(&eq(5), &ne(6)));
    assert!(num_values_compatible(&eq(5), &gt(4)));
    assert!(!num_values_compatible(&eq(5), &gt(5)));
    assert!(num_values_compatible(&gt(10), &lt(12)));
    assert!(!num_values_compatible(&gt(10), &lt(11)));
    assert!(num_values_compatible(&gt(10), &le(11)));
    assert!(!num_values_compatible(&gt(10), &le(10)));
    assert!(num_values_compatible(&ge(10), &le(10)));
    assert!(!num_values_compatible(&ge(11), &le(10)));
    assert!(num_values_compatible(&ne(5), &ne(5)));
    // Comparison semantics range over unbounded integers: two lower or
    // two upper bounds never conflict, however extreme.
    assert!(num_values_compatible(&lt(i64::MIN), &lt(0)));
    assert!(num_values_compatible(&gt(i64::MAX), &gt(0)));
    assert!(!num_values_compatible(&gt(i64::MAX), &lt(i64::MIN)));
}

#[test]
fn first_matching_statement_wins() {
    let rule = Rule {
        name: String::from("routing"),
        statements: vec![
            statement(vec![comparison("card_network", "Visa")], vec![RoutableConnector::Stripe]),
            statement(vec![comparison("payment_method", "Card")], vec![RoutableConnector::Adyen]),
        ],
        default_selection: selection(vec![RoutableConnector::Klarna]),
    };
    // Matches both statements: the first wins.
    let input = BackendInput {
        payment_method: Some(PaymentMethod::Card),
        card_network: Some(CardNetwork::Visa),
        capture_method: None,
        billing_country: None,
        payment_currency: None,
        authentication_type: None,
        payment_amount: None,
    };
    let out = run_program(&rule, &input).unwrap();
    assert_eq!(out.connector_selection.connectors, selection(vec![RoutableConnector::Stripe]).connectors);
    assert_eq!(out.rule_name.as_deref(), Some("routing"));
    // Matches only the second statement.
    let input2 = BackendInput { card_network: Some(CardNetwork::Mastercard), ..input };
    let out2 = run_program(&rule, &input2).unwrap();
    assert_eq!(out2.connector_selection.connectors, selection(vec![RoutableConnector::Adyen]).connectors);
    // Matches nothing: the default payload, without a rule name.
    let empty = BackendInput::empty();
    let out3 = run_program(&rule, &empty).unwrap();
    assert_eq!(out3.connector_selection.connectors, selection(vec![RoutableConnector::Klarna]).connectors);
    assert!(out3.rule_name.is_none());
}

#[test]
fn amount_comparisons_run_against_concrete_amounts() {
    let rule = Rule {
        name: String::from("amounts"),
        statements: vec![RuleStatement {
            condition: vec![Clause {
                comparisons: vec![Comparison {
                    key: String::from("payment_amount"),
                    value: ComparisonValue::Number {
                        number: 1000,
                        relation: NumRelation::GreaterThanEqual,
                    },
                }],
            }],
            selection: selection(vec![RoutableConnector::Worldpay]),
        }],
        default_selection: selection(vec![RoutableConnector::Stripe]),
    };
    let mut input = BackendInput::empty();
    input.payment_amount = Some(1000);
    let out = run_program(&rule, &input).unwrap();
    assert_eq!(out.connector_selection.connectors, selection(vec![RoutableConnector::Worldpay]).connectors);
    input.payment_amount = Some(999);
    let out2 = run_program(&rule, &input).unwrap();
    assert_eq!(out2.connector_selection.connectors, selection(vec![RoutableConnector::Stripe]).connectors);
}

#[test]
fn program_analysis_reports_the_first_broken_branch() {
    let graph = ConstraintGraph::new();
    let fine = Rule {
        name: String::from("fine"),
        statements: vec![statement(vec![comparison("card_network", "Visa")], vec![])],
        default_selection: selection(vec![]),
    };
    assert!(analyze_program(&graph, &fine).is_ok());
    let broken = Rule {
        name: String::from("broken"),
        statements: vec![
            statement(vec![comparison("card_network", "Visa")], vec![]),
            statement(
                vec![
                    comparison("card_network", "Visa"),
                    comparison("card_network", "Mastercard"),
                ],
                vec![],
            ),
        ],
        default_selection: selection(vec![]),
    };
    match analyze_program(&graph, &broken) {
        Err(AnalyzeError::Analysis { context_index, error }) => {
            assert_eq!(context_index, 1);
            assert_eq!(error.index, 1);
        }
        other => panic!("expected an analysis error, got ok={:?}", other.is_ok()),
    }
    let unlowerable = Rule {
        name: String::from("unlowerable"),
        statements: vec![statement(vec![comparison("card_network", "Unobtainium")], vec![])],
        default_selection: selection(vec![]),
    };
    assert!(matches!(
        analyze_program(&graph, &unlowerable),
        Err(AnalyzeError::Lowering(_))
    ));
}
