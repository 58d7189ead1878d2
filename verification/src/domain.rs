//! The directive value domain by name.
//!
//! Resolves a directive key name to the typed key, enumerates the legal
//! value variants of a key, and resolves a variant name within a key to
//! the typed directive value.  Keys whose domain is not enumerable (the
//! numeric and open-string keys) have no variants to enumerate.  A fixed
//! set of cross-cutting keys (connector identity) is excluded from
//! general enumeration.

use vstd::prelude::*;
use crate::values::{
    DirKeyKind,
    DirValue,
    DataType,
    PaymentMethod,
    CardNetwork,
    CaptureMethod,
    Country,
    Currency,
    AuthenticationType,
    RoutableConnector,
    ConnectorChoice,
    domain_kind_of,
};

verus! {

/// Failure of a domain lookup: the named key does not exist, or it has
/// no enumerable domain.
#[derive(Clone, Copy, Debug, PartialEq, Eq, Structural)]
pub enum DomainError {
    UnknownKey,
}

/// Decides equality of two strings.
pub fn str_eq(a: &str, b: &str) -> (r: bool)
    ensures
        r == (a@ == b@),
{
    let la = a.unicode_len();
    let lb = b.unicode_len();
    if la != lb {
        return false;
    }
    let mut i: usize = 0;
    while i < la
        invariant
            la == a@.len(),
            lb == b@.len(),
            la == lb,
            i <= la,
            forall|k: int| 0 <= k < i ==> a@[k] == b@[k],
        decreases la - i,
    {
        let ca = a.get_char(i);
        let cb = b.get_char(i);
        if ca != cb {
            return false;
        }
        i = i + 1;
    }
    proof {
        assert(a@ =~= b@);
    }
    true
}

// ---------------------------------------------------------------------
// Key names.
// ---------------------------------------------------------------------

/// The typed key a key name stands for.
pub open spec fn key_from_name_spec(s: Seq<char>) -> Option<DirKeyKind> {
    if s == "payment_method"@ {
        Some(DirKeyKind::PaymentMethod)
    } else if s == "card_network"@ {
        Some(DirKeyKind::CardNetwork)
    } else if s == "capture_method"@ {
        Some(DirKeyKind::CaptureMethod)
    } else if s == "billing_country"@ {
        Some(DirKeyKind::BillingCountry)
    } else if s == "payment_currency"@ {
        Some(DirKeyKind::PaymentCurrency)
    } else if s == "authentication_type"@ {
        Some(DirKeyKind::AuthenticationType)
    } else if s == "payment_amount"@ {
        Some(DirKeyKind::PaymentAmount)
    } else if s == "connector"@ {
        Some(DirKeyKind::Connector)
    } else if s == "metadata"@ {
        Some(DirKeyKind::MetaData)
    } else {
        None
    }
}

/// Resolves a key name to the typed key.
pub fn key_from_name(name: &str) -> (r: Option<DirKeyKind>)
    ensures
        r == key_from_name_spec(name@),
{
    if str_eq(name, "payment_method") {
        Some(DirKeyKind::PaymentMethod)
    } else if str_eq(name, "card_network") {
        Some(DirKeyKind::CardNetwork)
    } else if str_eq(name, "capture_method") {
        Some(DirKeyKind::CaptureMethod)
    } else if str_eq(name, "billing_country") {
        Some(DirKeyKind::BillingCountry)
    } else if str_eq(name, "payment_currency") {
        Some(DirKeyKind::PaymentCurrency)
    } else if str_eq(name, "authentication_type") {
        Some(DirKeyKind::AuthenticationType)
    } else if str_eq(name, "payment_amount") {
        Some(DirKeyKind::PaymentAmount)
    } else if str_eq(name, "connector") {
        Some(DirKeyKind::Connector)
    } else if str_eq(name, "metadata") {
        Some(DirKeyKind::MetaData)
    } else {
        None
    }
}

// ---------------------------------------------------------------------
// Variant names, per enumerated key.
// ---------------------------------------------------------------------

/// The typed value a variant name stands for within a key; nothing for
/// names outside the key's domain and for keys without variants.
pub open spec fn value_from_name_spec(k: DirKeyKind, s: Seq<char>) -> Option<DirValue> {
    match k {
        DirKeyKind::PaymentMethod => match payment_method_from_name_spec(s) {
            Some(x) => Some(DirValue::PaymentMethod(x)),
            None => None,
        },
        DirKeyKind::CardNetwork => match card_network_from_name_spec(s) {
            Some(x) => Some(DirValue::CardNetwork(x)),
            None => None,
        },
        DirKeyKind::CaptureMethod => match capture_method_from_name_spec(s) {
            Some(x) => Some(DirValue::CaptureMethod(x)),
            None => None,
        },
        DirKeyKind::BillingCountry => match country_from_name_spec(s) {
            Some(x) => Some(DirValue::BillingCountry(x)),
            None => None,
        },
        DirKeyKind::PaymentCurrency => match currency_from_name_spec(s) {
            Some(x) => Some(DirValue::PaymentCurrency(x)),
            None => None,
        },
        DirKeyKind::AuthenticationType => match authentication_type_from_name_spec(s) {
            Some(x) => Some(DirValue::AuthenticationType(x)),
            None => None,
        },
        DirKeyKind::Connector => match connector_from_name_spec(s) {
            Some(x) => Some(DirValue::Connector(ConnectorChoice { connector: x })),
            None => None,
        },
        DirKeyKind::PaymentAmount => None,
        DirKeyKind::MetaData => None,
    }
}

/// Resolves a variant name within a key to the typed directive value.
pub fn value_from_name(k: DirKeyKind, name: &str) -> (r: Option<DirValue>)
    ensures
        r == value_from_name_spec(k, name@),
{
    match k {
        DirKeyKind::PaymentMethod => match payment_method_from_name(name) {
            Some(x) => Some(DirValue::PaymentMethod(x)),
            None => None,
        },
        DirKeyKind::CardNetwork => match card_network_from_name(name) {
            Some(x) => Some(DirValue::CardNetwork(x)),
            None => None,
        },
        DirKeyKind::CaptureMethod => match capture_method_from_name(name) {
            Some(x) => Some(DirValue::CaptureMethod(x)),
            None => None,
        },
        DirKeyKind::BillingCountry => match country_from_name(name) {
            Some(x) => Some(DirValue::BillingCountry(x)),
            None => None,
        },
        DirKeyKind::PaymentCurrency => match currency_from_name(name) {
            Some(x) => Some(DirValue::PaymentCurrency(x)),
            None => None,
        },
        DirKeyKind::AuthenticationType => match authentication_type_from_name(name) {
            Some(x) => Some(DirValue::AuthenticationType(x)),
            None => None,
        },
        DirKeyKind::Connector => match connector_from_name(name) {
            Some(x) => Some(DirValue::Connector(ConnectorChoice { connector: x })),
            None => None,
        },
        DirKeyKind::PaymentAmount => None,
        DirKeyKind::MetaData => None,
    }
}

/// The payment method a name stands for.
pub open spec fn payment_method_from_name_spec(s: Seq<char>) -> Option<PaymentMethod> {
    if s == "Card"@ {
        Some(PaymentMethod::Card)
    } else if s == "Wallet"@ {
        Some(PaymentMethod::Wallet)
    } else if s == "PayLater"@ {
        Some(PaymentMethod::PayLater)
    } else if s == "BankRedirect"@ {
        Some(PaymentMethod::BankRedirect)
    } else if s == "BankDebit"@ {
        Some(PaymentMethod::BankDebit)
    } else if s == "BankTransfer"@ {
        Some(PaymentMethod::BankTransfer)
    } else if s == "Crypto"@ {
        Some(PaymentMethod::Crypto)
    } else if s == "Reward"@ {
        Some(PaymentMethod::Reward)
    } else if s == "Upi"@ {
        Some(PaymentMethod::Upi)
    } else if s == "Voucher"@ {
        Some(PaymentMethod::Voucher)
    } else if s == "GiftCard"@ {
        Some(PaymentMethod::GiftCard)
    } else {
        None
    }
}

fn payment_method_from_name(name: &str) -> (r: Option<PaymentMethod>)
    ensures
        r == payment_method_from_name_spec(name@),
{
    if str_eq(name, "Card") {
        Some(PaymentMethod::Card)
    } else if str_eq(name, "Wallet") {
        Some(PaymentMethod::Wallet)
    } else if str_eq(name, "PayLater") {
        Some(PaymentMethod::PayLater)
    } else if str_eq(name, "BankRedirect") {
        Some(PaymentMethod::BankRedirect)
    } else if str_eq(name, "BankDebit") {
        Some(PaymentMethod::BankDebit)
    } else if str_eq(name, "BankTransfer") {
        Some(PaymentMethod::BankTransfer)
    } else if str_eq(name, "Crypto") {
        Some(PaymentMethod::Crypto)
    } else if str_eq(name, "Reward") {
        Some(PaymentMethod::Reward)
    } else if str_eq(name, "Upi") {
        Some(PaymentMethod::Upi)
    } else if str_eq(name, "Voucher") {
        Some(PaymentMethod::Voucher)
    } else if str_eq(name, "GiftCard") {
        Some(PaymentMethod::GiftCard)
    } else {
        None
    }
}

/// The card network a name stands for.
pub open spec fn card_network_from_name_spec(s: Seq<char>) -> Option<CardNetwork> {
    if s == "Visa"@ {
        Some(CardNetwork::Visa)
    } else if s == "Mastercard"@ {
        Some(CardNetwork::Mastercard)
    } else if s == "AmericanExpress"@ {
        Some(CardNetwork::AmericanExpress)
    } else if s == "Discover"@ {
        Some(CardNetwork::Discover)
    } else if s == "DinersClub"@ {
        Some(CardNetwork::DinersClub)
    } else if s == "JCB"@ {
        Some(CardNetwork::JCB)
    } else if s == "UnionPay"@ {
        Some(CardNetwork::UnionPay)
    } else if s == "RuPay"@ {
        Some(CardNetwork::RuPay)
    } else if s == "Maestro"@ {
        Some(CardNetwork::Maestro)
    } else if s == "Interac"@ {
        Some(CardNetwork::Interac)
    } else {
        None
    }
}

fn card_network_from_name(name: &str) -> (r: Option<CardNetwork>)
    ensures
        r == card_network_from_name_spec(name@),
{
    if str_eq(name, "Visa") {
        Some(CardNetwork::Visa)
    } else if str_eq(name, "Mastercard") {
        Some(CardNetwork::Mastercard)
    } else if str_eq(name, "AmericanExpress") {
        Some(CardNetwork::AmericanExpress)
    } else if str_eq(name, "Discover") {
        Some(CardNetwork::Discover)
    } else if str_eq(name, "DinersClub") {
        Some(CardNetwork::DinersClub)
    } else if str_eq(name, "JCB") {
        Some(CardNetwork::JCB)
    } else if str_eq(name, "UnionPay") {
        Some(CardNetwork::UnionPay)
    } else if str_eq(name, "RuPay") {
        Some(CardNetwork::RuPay)
    } else if str_eq(name, "Maestro") {
        Some(CardNetwork::Maestro)
    } else if str_eq(name, "Interac") {
        Some(CardNetwork::Interac)
    } else {
        None
    }
}

/// The capture method a name stands for.
pub open spec fn capture_method_from_name_spec(s: Seq<char>) -> Option<CaptureMethod> {
    if s == "Automatic"@ {
        Some(CaptureMethod::Automatic)
    } else if s == "Manual"@ {
        Some(CaptureMethod::Manual)
    } else if s == "ManualMultiple"@ {
        Some(CaptureMethod::ManualMultiple)
    } else if s == "Scheduled"@ {
        Some(CaptureMethod::Scheduled)
    } else if s == "SequentialAutomatic"@ {
        Some(CaptureMethod::SequentialAutomatic)
    } else {
        None
    }
}

fn capture_method_from_name(name: &str) -> (r: Option<CaptureMethod>)
    ensures
        r == capture_method_from_name_spec(name@),
{
    if str_eq(name, "Automatic") {
        Some(CaptureMethod::Automatic)
    } else if str_eq(name, "Manual") {
        Some(CaptureMethod::Manual)
    } else if str_eq(name, "ManualMultiple") {
        Some(CaptureMethod::ManualMultiple)
    } else if str_eq(name, "Scheduled") {
        Some(CaptureMethod::Scheduled)
    } else if str_eq(name, "SequentialAutomatic") {
        Some(CaptureMethod::SequentialAutomatic)
    } else {
        None
    }
}

/// The country a name stands for.
pub open spec fn country_from_name_spec(s: Seq<char>) -> Option<Country> {
    if s == "UnitedStates"@ {
        Some(Country::UnitedStates)
    } else if s == "UnitedKingdom"@ {
        Some(Country::UnitedKingdom)
    } else if s == "Germany"@ {
        Some(Country::Germany)
    } else if s == "France"@ {
        Some(Country::France)
    } else if s == "Netherlands"@ {
        Some(Country::Netherlands)
    } else if s == "India"@ {
        Some(Country::India)
    } else if s == "Singapore"@ {
        Some(Country::Singapore)
    } else if s == "Australia"@ {
        Some(Country::Australia)
    } else if s == "Canada"@ {
        Some(Country::Canada)
    } else if s == "Japan"@ {
        Some(Country::Japan)
    } else {
        None
    }
}

fn country_from_name(name: &str) -> (r: Option<Country>)
    ensures
        r == country_from_name_spec(name@),
{
    if str_eq(name, "UnitedStates") {
        Some(Country::UnitedStates)
    } else if str_eq(name, "UnitedKingdom") {
        Some(Country::UnitedKingdom)
    } else if str_eq(name, "Germany") {
        Some(Country::Germany)
    } else if str_eq(name, "France") {
        Some(Country::France)
    } else if str_eq(name, "Netherlands") {
        Some(Country::Netherlands)
    } else if str_eq(name, "India") {
        Some(Country::India)
    } else if str_eq(name, "Singapore") {
        Some(Country::Singapore)
    } else if str_eq(name, "Australia") {
        Some(Country::Australia)
    } else if str_eq(name, "Canada") {
        Some(Country::Canada)
    } else if str_eq(name, "Japan") {
        Some(Country::Japan)
    } else {
        None
    }
}

/// The currency a name stands for.
pub open spec fn currency_from_name_spec(s: Seq<char>) -> Option<Currency> {
    if s == "USD"@ {
        Some(Currency::USD)
    } else if s == "EUR"@ {
        Some(Currency::EUR)
    } else if s == "GBP"@ {
        Some(Currency::GBP)
    } else if s == "INR"@ {
        Some(Currency::INR)
    } else if s == "SGD"@ {
        Some(Currency::SGD)
    } else if s == "AUD"@ {
        Some(Currency::AUD)
    } else if s == "CAD"@ {
        Some(Currency::CAD)
    } else if s == "JPY"@ {
        Some(Currency::JPY)
    } else {
        None
    }
}

fn currency_from_name(name: &str) -> (r: Option<Currency>)
    ensures
        r == currency_from_name_spec(name@),
{
    if str_eq(name, "USD") {
        Some(Currency::USD)
    } else if str_eq(name, "EUR") {
        Some(Currency::EUR)
    } else if str_eq(name, "GBP") {
        Some(Currency::GBP)
    } else if str_eq(name, "INR") {
        Some(Currency::INR)
    } else if str_eq(name, "SGD") {
        Some(Currency::SGD)
    } else if str_eq(name, "AUD") {
        Some(Currency::AUD)
    } else if str_eq(name, "CAD") {
        Some(Currency::CAD)
    } else if str_eq(name, "JPY") {
        Some(Currency::JPY)
    } else {
        None
    }
}

/// The authentication type a name stands for.
pub open spec fn authentication_type_from_name_spec(s: Seq<char>) -> Option<AuthenticationType> {
    if s == "ThreeDs"@ {
        Some(AuthenticationType::ThreeDs)
    } else if s == "NoThreeDs"@ {
        Some(AuthenticationType::NoThreeDs)
    } else {
        None
    }
}

fn authentication_type_from_name(name: &str) -> (r: Option<AuthenticationType>)
    ensures
        r == authentication_type_from_name_spec(name@),
{
    if str_eq(name, "ThreeDs") {
        Some(AuthenticationType::ThreeDs)
    } else if str_eq(name, "NoThreeDs") {
        Some(AuthenticationType::NoThreeDs)
    } else {
        None
    }
}

/// The connector a name stands for.
pub open spec fn connector_from_name_spec(s: Seq<char>) -> Option<RoutableConnector> {
    if s == "Stripe"@ {
        Some(RoutableConnector::Stripe)
    } else if s == "Adyen"@ {
        Some(RoutableConnector::Adyen)
    } else if s == "Checkout"@ {
        Some(RoutableConnector::Checkout)
    } else if s == "Worldpay"@ {
        Some(RoutableConnector::Worldpay)
    } else if s == "Cybersource"@ {
        Some(RoutableConnector::Cybersource)
    } else if s == "Braintree"@ {
        Some(RoutableConnector::Braintree)
    } else if s == "Klarna"@ {
        Some(RoutableConnector::Klarna)
    } else if s == "Airwallex"@ {
        Some(RoutableConnector::Airwallex)
    } else {
        None
    }
}

/// Resolves a connector name to its canonical identifier.
pub fn connector_from_name(name: &str) -> (r: Option<RoutableConnector>)
    ensures
        r == connector_from_name_spec(name@),
{
    if str_eq(name, "Stripe") {
        Some(RoutableConnector::Stripe)
    } else if str_eq(name, "Adyen") {
        Some(RoutableConnector::Adyen)
    } else if str_eq(name, "Checkout") {
        Some(RoutableConnector::Checkout)
    } else if str_eq(name, "Worldpay") {
        Some(RoutableConnector::Worldpay)
    } else if str_eq(name, "Cybersource") {
        Some(RoutableConnector::Cybersource)
    } else if str_eq(name, "Braintree") {
        Some(RoutableConnector::Braintree)
    } else if str_eq(name, "Klarna") {
        Some(RoutableConnector::Klarna)
    } else if str_eq(name, "Airwallex") {
        Some(RoutableConnector::Airwallex)
    } else {
        None
    }
}

// ---------------------------------------------------------------------
// Enumeration.
// ---------------------------------------------------------------------

/// The key names offered for rule authoring: every key except the
/// cross-cutting connector-identity key.
pub open spec fn all_key_names_spec() -> Seq<Seq<char>> {
    seq![
        "payment_method"@,
        "card_network"@,
        "capture_method"@,
        "billing_country"@,
        "payment_currency"@,
        "authentication_type"@,
        "payment_amount"@,
        "metadata"@,
    ]
}

/// All key names offered for rule authoring, excluding the
/// connector-identity key.
pub fn get_all_keys() -> (r: Vec<String>)
    ensures
        r@.map_values(|s: String| s@) == all_key_names_spec(),
{
    let mut r: Vec<String> = Vec::new();
    r.push(String::from_str("payment_method"));
    r.push(String::from_str("card_network"));
    r.push(String::from_str("capture_method"));
    r.push(String::from_str("billing_country"));
    r.push(String::from_str("payment_currency"));
    r.push(String::from_str("authentication_type"));
    r.push(String::from_str("payment_amount"));
    r.push(String::from_str("metadata"));
    proof {
        assert(r@.map_values(|s: String| s@) =~= all_key_names_spec());
    }
    r
}

/// The names of every connector that can be routed to.
pub open spec fn all_connector_names_spec() -> Seq<Seq<char>> {
    seq![
        "Stripe"@,
        "Adyen"@,
        "Checkout"@,
        "Worldpay"@,
        "Cybersource"@,
        "Braintree"@,
        "Klarna"@,
        "Airwallex"@,
    ]
}

/// All connector names.
pub fn get_all_connectors() -> (r: Vec<String>)
    ensures
        r@.map_values(|s: String| s@) == all_connector_names_spec(),
{
    let mut r: Vec<String> = Vec::new();
    r.push(String::from_str("Stripe"));
    r.push(String::from_str("Adyen"));
    r.push(String::from_str("Checkout"));
    r.push(String::from_str("Worldpay"));
    r.push(String::from_str("Cybersource"));
    r.push(String::from_str("Braintree"));
    r.push(String::from_str("Klarna"));
    r.push(String::from_str("Airwallex"));
    proof {
        assert(r@.map_values(|s: String| s@) =~= all_connector_names_spec());
    }
    r
}

/// The name of a key's value domain kind.
pub open spec fn type_name_spec(t: DataType) -> Seq<char> {
    match t {
        DataType::EnumVariant => "enum_variant"@,
        DataType::Number => "number"@,
        DataType::StrValue => "str_value"@,
    }
}

/// The value domain kind of the named key, as a printable name.
/// Fails when the key name is not recognized.
pub fn get_key_type(key: &str) -> (r: Result<String, DomainError>)
    ensures
        match r {
            Ok(t) => key_from_name_spec(key@) matches Some(k) && t@ == type_name_spec(
                domain_kind_of(k),
            ),
            Err(e) => key_from_name_spec(key@) is None && e == DomainError::UnknownKey,
        },
{
    match key_from_name(key) {
        None => Err(DomainError::UnknownKey),
        Some(k) => match k.get_type() {
            DataType::EnumVariant => Ok(String::from_str("enum_variant")),
            DataType::Number => Ok(String::from_str("number")),
            DataType::StrValue => Ok(String::from_str("str_value")),
        },
    }
}

/// The variant names of an enumerated key.
pub open spec fn variant_names_spec(k: DirKeyKind) -> Seq<Seq<char>> {
    match k {
        DirKeyKind::PaymentMethod => seq![
            "Card"@,
            "Wallet"@,
            "PayLater"@,
            "BankRedirect"@,
            "BankDebit"@,
            "BankTransfer"@,
            "Crypto"@,
            "Reward"@,
            "Upi"@,
            "Voucher"@,
            "GiftCard"@,
        ],
        DirKeyKind::CardNetwork => seq![
            "Visa"@,
            "Mastercard"@,
            "AmericanExpress"@,
            "Discover"@,
            "DinersClub"@,
            "JCB"@,
            "UnionPay"@,
            "RuPay"@,
            "Maestro"@,
            "Interac"@,
        ],
        DirKeyKind::CaptureMethod => seq![
            "Automatic"@,
            "Manual"@,
            "ManualMultiple"@,
            "Scheduled"@,
            "SequentialAutomatic"@,
        ],
        DirKeyKind::BillingCountry => seq![
            "UnitedStates"@,
            "UnitedKingdom"@,
            "Germany"@,
            "France"@,
            "Netherlands"@,
            "India"@,
            "Singapore"@,
            "Australia"@,
            "Canada"@,
            "Japan"@,
        ],
        DirKeyKind::PaymentCurrency => seq![
            "USD"@,
            "EUR"@,
            "GBP"@,
            "INR"@,
            "SGD"@,
            "AUD"@,
            "CAD"@,
            "JPY"@,
        ],
        DirKeyKind::AuthenticationType => seq!["ThreeDs"@, "NoThreeDs"@],
        DirKeyKind::Connector => all_connector_names_spec(),
        DirKeyKind::PaymentAmount => Seq::empty(),
        DirKeyKind::MetaData => Seq::empty(),
    }
}

/// Whether a key's domain can be enumerated at all.
pub open spec fn key_enumerable(k: DirKeyKind) -> bool {
    domain_kind_of(k) == DataType::EnumVariant
}

/// The legal value variants of the named key.  Fails with an unknown-key
/// error when the name is not recognized, and also when the key has no
/// enumerable domain (the numeric and open-string keys).
pub fn get_variant_values(key: &str) -> (r: Result<Vec<String>, DomainError>)
    ensures
        match r {
            Ok(vs) => key_from_name_spec(key@) matches Some(k) && key_enumerable(k)
                && vs@.map_values(|s: String| s@) == variant_names_spec(k),
            Err(e) => e == DomainError::UnknownKey && match key_from_name_spec(key@) {
                Some(k) => !key_enumerable(k),
                None => true,
            },
        },
{
    let k = match key_from_name(key) {
        None => {
            return Err(DomainError::UnknownKey);
        },
        Some(k) => k,
    };
    let mut r: Vec<String> = Vec::new();
    match k {
        DirKeyKind::PaymentMethod => {
            r.push(String::from_str("Card"));
            r.push(String::from_str("Wallet"));
            r.push(String::from_str("PayLater"));
            r.push(String::from_str("BankRedirect"));
            r.push(String::from_str("BankDebit"));
            r.push(String::from_str("BankTransfer"));
            r.push(String::from_str("Crypto"));
            r.push(String::from_str("Reward"));
            r.push(String::from_str("Upi"));
            r.push(String::from_str("Voucher"));
            r.push(String::from_str("GiftCard"));
        },
        DirKeyKind::CardNetwork => {
            r.push(String::from_str("Visa"));
            r.push(String::from_str("Mastercard"));
            r.push(String::from_str("AmericanExpress"));
            r.push(String::from_str("Discover"));
            r.push(String::from_str("DinersClub"));
            r.push(String::from_str("JCB"));
            r.push(String::from_str("UnionPay"));
            r.push(String::from_str("RuPay"));
            r.push(String::from_str("Maestro"));
            r.push(String::from_str("Interac"));
        },
        DirKeyKind::CaptureMethod => {
            r.push(String::from_str("Automatic"));
            r.push(String::from_str("Manual"));
            r.push(String::from_str("ManualMultiple"));
            r.push(String::from_str("Scheduled"));
            r.push(String::from_str("SequentialAutomatic"));
        },
        DirKeyKind::BillingCountry => {
            r.push(String::from_str("UnitedStates"));
            r.push(String::from_str("UnitedKingdom"));
            r.push(String::from_str("Germany"));
            r.push(String::from_str("France"));
            r.push(String::from_str("Netherlands"));
            r.push(String::from_str("India"));
            r.push(String::from_str("Singapore"));
            r.push(String::from_str("Australia"));
            r.push(String::from_str("Canada"));
            r.push(String::from_str("Japan"));
        },
        DirKeyKind::PaymentCurrency => {
            r.push(String::from_str("USD"));
            r.push(String::from_str("EUR"));
            r.push(String::from_str("GBP"));
            r.push(String::from_str("INR"));
            r.push(String::from_str("SGD"));
            r.push(String::from_str("AUD"));
            r.push(String::from_str("CAD"));
            r.push(String::from_str("JPY"));
        },
        DirKeyKind::AuthenticationType => {
            r.push(String::from_str("ThreeDs"));
            r.push(String::from_str("NoThreeDs"));
        },
        DirKeyKind::Connector => {
            r.push(String::from_str("Stripe"));
            r.push(String::from_str("Adyen"));
            r.push(String::from_str("Checkout"));
            r.push(String::from_str("Worldpay"));
            r.push(String::from_str("Cybersource"));
            r.push(String::from_str("Braintree"));
            r.push(String::from_str("Klarna"));
            r.push(String::from_str("Airwallex"));
        },
        DirKeyKind::PaymentAmount => {
            return Err(DomainError::UnknownKey);
        },
        DirKeyKind::MetaData => {
            return Err(DomainError::UnknownKey);
        },
    }
    proof {
        assert(r@.map_values(|s: String| s@) =~= variant_names_spec(k));
    }
    Ok(r)
}

} // verus!
