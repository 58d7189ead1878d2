//! Human-readable explanations of analysis errors: the first
//! unsatisfiable assertion, and the conflicting prior assertion or
//! domain rule, spelled out.

use vstd::prelude::*;
use crate::values::{
    DirValue,
    NumValue,
    NumRelation,
    PaymentMethod,
    CardNetwork,
    CaptureMethod,
    Country,
    Currency,
    AuthenticationType,
    RoutableConnector,
};
use crate::context::Context;
use crate::analysis::{AnalysisError, AnalysisReason};

verus! {

/// The decimal digit character of `d`.
pub open spec fn digit_char(d: int) -> char {
    if d == 0 {
        '0'
    } else if d == 1 {
        '1'
    } else if d == 2 {
        '2'
    } else if d == 3 {
        '3'
    } else if d == 4 {
        '4'
    } else if d == 5 {
        '5'
    } else if d == 6 {
        '6'
    } else if d == 7 {
        '7'
    } else if d == 8 {
        '8'
    } else {
        '9'
    }
}

/// The decimal digits of a non-negative number, most significant
/// first.
pub open spec fn dec_digits(n: int) -> Seq<char>
    decreases n,
{
    if n < 0 {
        Seq::empty()
    } else if n < 10 {
        seq![digit_char(n)]
    } else {
        dec_digits(n / 10).push(digit_char(n % 10))
    }
}

/// The decimal rendering of a number, with a sign when negative.
pub open spec fn int_label(n: int) -> Seq<char> {
    if n < 0 {
        seq!['-'] + dec_digits(-n)
    } else {
        dec_digits(n)
    }
}

/// Appends the decimal digits of `n`.
fn push_digits(out: &mut String, n: u64)
    ensures
        final(out)@ == old(out)@ + dec_digits(n as int),
    decreases n,
{
    if n >= 10 {
        push_digits(out, n / 10);
    }
    let d = n % 10;
    let ds: &str = match d {
        0 => "0",
        1 => "1",
        2 => "2",
        3 => "3",
        4 => "4",
        5 => "5",
        6 => "6",
        7 => "7",
        8 => "8",
        _ => "9",
    };
    proof {
        reveal_strlit("0");
        reveal_strlit("1");
        reveal_strlit("2");
        reveal_strlit("3");
        reveal_strlit("4");
        reveal_strlit("5");
        reveal_strlit("6");
        reveal_strlit("7");
        reveal_strlit("8");
        reveal_strlit("9");
        assert(ds@ =~= seq![digit_char(d as int)]);
    }
    out.append(ds);
    proof {
        if n >= 10 {
            assert(out@ =~= old(out)@ + dec_digits(n as int));
        } else {
            assert(out@ =~= old(out)@ + dec_digits(n as int));
        }
    }
}

/// Renders a number in decimal.
fn append_number(out: &mut String, n: i64)
    ensures
        final(out)@ == old(out)@ + int_label(n as int),
{
    if n < 0 {
        out.append("-");
        let mag: u64 = if n == i64::MIN {
            9223372036854775808u64
        } else {
            (-n) as u64
        };
        proof {
            assert(mag as int == -(n as int));
        }
        push_digits(out, mag);
        proof {
            reveal_strlit("-");
            assert("-"@ =~= seq!['-']);
            assert(out@ =~= old(out)@ + int_label(n as int));
        }
    } else {
        push_digits(out, n as u64);
    }
}

/// The printable label of one directive value: the key, the comparison
/// it imposes, and the value.
pub open spec fn value_label(v: DirValue) -> Seq<char> {
    match v {
        DirValue::PaymentMethod(x) => "payment_method == "@ + (match x {
            PaymentMethod::Card => "Card"@,
            PaymentMethod::Wallet => "Wallet"@,
            PaymentMethod::PayLater => "PayLater"@,
            PaymentMethod::BankRedirect => "BankRedirect"@,
            PaymentMethod::BankDebit => "BankDebit"@,
            PaymentMethod::BankTransfer => "BankTransfer"@,
            PaymentMethod::Crypto => "Crypto"@,
            PaymentMethod::Reward => "Reward"@,
            PaymentMethod::Upi => "Upi"@,
            PaymentMethod::Voucher => "Voucher"@,
            PaymentMethod::GiftCard => "GiftCard"@,
        }),
        DirValue::CardNetwork(x) => "card_network == "@ + (match x {
            CardNetwork::Visa => "Visa"@,
            CardNetwork::Mastercard => "Mastercard"@,
            CardNetwork::AmericanExpress => "AmericanExpress"@,
            CardNetwork::Discover => "Discover"@,
            CardNetwork::DinersClub => "DinersClub"@,
            CardNetwork::JCB => "JCB"@,
            CardNetwork::UnionPay => "UnionPay"@,
            CardNetwork::RuPay => "RuPay"@,
            CardNetwork::Maestro => "Maestro"@,
            CardNetwork::Interac => "Interac"@,
        }),
        DirValue::CaptureMethod(x) => "capture_method == "@ + (match x {
            CaptureMethod::Automatic => "Automatic"@,
            CaptureMethod::Manual => "Manual"@,
            CaptureMethod::ManualMultiple => "ManualMultiple"@,
            CaptureMethod::Scheduled => "Scheduled"@,
            CaptureMethod::SequentialAutomatic => "SequentialAutomatic"@,
        }),
        DirValue::BillingCountry(x) => "billing_country == "@ + (match x {
            Country::UnitedStates => "UnitedStates"@,
            Country::UnitedKingdom => "UnitedKingdom"@,
            Country::Germany => "Germany"@,
            Country::France => "France"@,
            Country::Netherlands => "Netherlands"@,
            Country::India => "India"@,
            Country::Singapore => "Singapore"@,
            Country::Australia => "Australia"@,
            Country::Canada => "Canada"@,
            Country::Japan => "Japan"@,
        }),
        DirValue::PaymentCurrency(x) => "payment_currency == "@ + (match x {
            Currency::USD => "USD"@,
            Currency::EUR => "EUR"@,
            Currency::GBP => "GBP"@,
            Currency::INR => "INR"@,
            Currency::SGD => "SGD"@,
            Currency::AUD => "AUD"@,
            Currency::CAD => "CAD"@,
            Currency::JPY => "JPY"@,
        }),
        DirValue::AuthenticationType(x) => "authentication_type == "@ + (match x {
            AuthenticationType::ThreeDs => "ThreeDs"@,
            AuthenticationType::NoThreeDs => "NoThreeDs"@,
        }),
        DirValue::PaymentAmount(n) => "payment_amount "@ + relation_label(n.relation) + " "@
            + int_label(n.number as int),
        DirValue::Connector(c) => "connector == "@ + (match c.connector {
            RoutableConnector::Stripe => "Stripe"@,
            RoutableConnector::Adyen => "Adyen"@,
            RoutableConnector::Checkout => "Checkout"@,
            RoutableConnector::Worldpay => "Worldpay"@,
            RoutableConnector::Cybersource => "Cybersource"@,
            RoutableConnector::Braintree => "Braintree"@,
            RoutableConnector::Klarna => "Klarna"@,
            RoutableConnector::Airwallex => "Airwallex"@,
        }),
    }
}

/// The printable comparison symbol of a numeric relation.
pub open spec fn relation_label(r: NumRelation) -> Seq<char> {
    match r {
        NumRelation::Equal => "=="@,
        NumRelation::NotEqual => "!="@,
        NumRelation::GreaterThan => ">"@,
        NumRelation::GreaterThanEqual => ">="@,
        NumRelation::LessThan => "<"@,
        NumRelation::LessThanEqual => "<="@,
    }
}

/// Appends the label of one directive value.
fn append_value_label(out: &mut String, v: &DirValue)
    ensures
        final(out)@ == old(out)@ + value_label(*v),
{
    match v {
        DirValue::PaymentMethod(x) => {
            out.append("payment_method == ");
            match x {
                PaymentMethod::Card => out.append("Card"),
                PaymentMethod::Wallet => out.append("Wallet"),
                PaymentMethod::PayLater => out.append("PayLater"),
                PaymentMethod::BankRedirect => out.append("BankRedirect"),
                PaymentMethod::BankDebit => out.append("BankDebit"),
                PaymentMethod::BankTransfer => out.append("BankTransfer"),
                PaymentMethod::Crypto => out.append("Crypto"),
                PaymentMethod::Reward => out.append("Reward"),
                PaymentMethod::Upi => out.append("Upi"),
                PaymentMethod::Voucher => out.append("Voucher"),
                PaymentMethod::GiftCard => out.append("GiftCard"),
            }
        },
        DirValue::CardNetwork(x) => {
            out.append("card_network == ");
            match x {
                CardNetwork::Visa => out.append("Visa"),
                CardNetwork::Mastercard => out.append("Mastercard"),
                CardNetwork::AmericanExpress => out.append("AmericanExpress"),
                CardNetwork::Discover => out.append("Discover"),
                CardNetwork::DinersClub => out.append("DinersClub"),
                CardNetwork::JCB => out.append("JCB"),
                CardNetwork::UnionPay => out.append("UnionPay"),
                CardNetwork::RuPay => out.append("RuPay"),
                CardNetwork::Maestro => out.append("Maestro"),
                CardNetwork::Interac => out.append("Interac"),
            }
        },
        DirValue::CaptureMethod(x) => {
            out.append("capture_method == ");
            match x {
                CaptureMethod::Automatic => out.append("Automatic"),
                CaptureMethod::Manual => out.append("Manual"),
                CaptureMethod::ManualMultiple => out.append("ManualMultiple"),
                CaptureMethod::Scheduled => out.append("Scheduled"),
                CaptureMethod::SequentialAutomatic => out.append("SequentialAutomatic"),
            }
        },
        DirValue::BillingCountry(x) => {
            out.append("billing_country == ");
            match x {
                Country::UnitedStates => out.append("UnitedStates"),
                Country::UnitedKingdom => out.append("UnitedKingdom"),
                Country::Germany => out.append("Germany"),
                Country::France => out.append("France"),
                Country::Netherlands => out.append("Netherlands"),
                Country::India => out.append("India"),
                Country::Singapore => out.append("Singapore"),
                Country::Australia => out.append("Australia"),
                Country::Canada => out.append("Canada"),
                Country::Japan => out.append("Japan"),
            }
        },
        DirValue::PaymentCurrency(x) => {
            out.append("payment_currency == ");
            match x {
                Currency::USD => out.append("USD"),
                Currency::EUR => out.append("EUR"),
                Currency::GBP => out.append("GBP"),
                Currency::INR => out.append("INR"),
                Currency::SGD => out.append("SGD"),
                Currency::AUD => out.append("AUD"),
                Currency::CAD => out.append("CAD"),
                Currency::JPY => out.append("JPY"),
            }
        },
        DirValue::AuthenticationType(x) => {
            out.append("authentication_type == ");
            match x {
                AuthenticationType::ThreeDs => out.append("ThreeDs"),
                AuthenticationType::NoThreeDs => out.append("NoThreeDs"),
            }
        },
        DirValue::PaymentAmount(n) => {
            out.append("payment_amount ");
            match n.relation {
                NumRelation::Equal => out.append("=="),
                NumRelation::NotEqual => out.append("!="),
                NumRelation::GreaterThan => out.append(">"),
                NumRelation::GreaterThanEqual => out.append(">="),
                NumRelation::LessThan => out.append("<"),
                NumRelation::LessThanEqual => out.append("<="),
            }
            out.append(" ");
            append_number(out, n.number);
        },
        DirValue::Connector(c) => {
            out.append("connector == ");
            match c.connector {
                RoutableConnector::Stripe => out.append("Stripe"),
                RoutableConnector::Adyen => out.append("Adyen"),
                RoutableConnector::Checkout => out.append("Checkout"),
                RoutableConnector::Worldpay => out.append("Worldpay"),
                RoutableConnector::Cybersource => out.append("Cybersource"),
                RoutableConnector::Braintree => out.append("Braintree"),
                RoutableConnector::Klarna => out.append("Klarna"),
                RoutableConnector::Airwallex => out.append("Airwallex"),
            }
        },
    }
}

/// The explanation of an analysis error against the context it was
/// reported for.
pub open spec fn explanation(e: AnalysisError, ctx: Seq<crate::context::ContextValue>) -> Seq<
    char,
> {
    match e.reason {
        AnalysisReason::DomainExclusion { prior_index } => value_label(e.value)
            + " conflicts with the earlier assertion "@ + value_label(
            ctx[prior_index as int].value,
        ) + " under a single-valued key"@,
        AnalysisReason::ExclusionEdge { other_index } => value_label(e.value)
            + " is mutually exclusive with "@ + value_label(ctx[other_index as int].value),
        AnalysisReason::AggregatorRestriction { trigger_index } => value_label(e.value)
            + " falls outside the values permitted beside "@ + value_label(
            ctx[trigger_index as int].value,
        ),
    }
}

impl AnalysisError {
    /// A human-readable explanation, naming the first unsatisfiable
    /// assertion and the conflicting prior assertion or domain rule.
    /// The context must be the one the error was reported for.
    pub fn explain(&self, ctx: &Context) -> (r: String)
        requires
            match self.reason {
                AnalysisReason::DomainExclusion { prior_index } => (prior_index as int)
                    < ctx@.len(),
                AnalysisReason::ExclusionEdge { other_index } => (other_index as int) < ctx@.len(),
                AnalysisReason::AggregatorRestriction { trigger_index } => (trigger_index as int)
                    < ctx@.len(),
            },
        ensures
            r@ == explanation(*self, ctx@),
    {
        let mut out = String::new();
        append_value_label(&mut out, &self.value);
        match self.reason {
            AnalysisReason::DomainExclusion { prior_index } => {
                out.append(" conflicts with the earlier assertion ");
                let prior = ctx.get(prior_index);
                append_value_label(&mut out, &prior.value);
                out.append(" under a single-valued key");
            },
            AnalysisReason::ExclusionEdge { other_index } => {
                out.append(" is mutually exclusive with ");
                let other = ctx.get(other_index);
                append_value_label(&mut out, &other.value);
            },
            AnalysisReason::AggregatorRestriction { trigger_index } => {
                out.append(" falls outside the values permitted beside ");
                let trigger = ctx.get(trigger_index);
                append_value_label(&mut out, &trigger.value);
            },
        }
        out
    }
}

} // verus!
