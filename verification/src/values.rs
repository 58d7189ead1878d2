//! The typed directive key/value domain.
//!
//! A directive key names one transaction attribute category; every key has
//! exactly one value domain: a closed set of enumerated variants, a numeric
//! comparison, or an open string.  A directive value is one concrete value
//! of a key, and participates in rule clauses, analysis contexts and graph
//! assertions.

use vstd::prelude::*;

verus! {

/// Payment method families a transaction can use.
#[derive(Clone, Copy, Debug, PartialEq, Eq, Structural)]
pub enum PaymentMethod {
    Card,
    Wallet,
    PayLater,
    BankRedirect,
    BankDebit,
    BankTransfer,
    Crypto,
    Reward,
    Upi,
    Voucher,
    GiftCard,
}

/// Card schemes a card transaction can run on.
#[derive(Clone, Copy, Debug, PartialEq, Eq, Structural)]
pub enum CardNetwork {
    Visa,
    Mastercard,
    AmericanExpress,
    Discover,
    DinersClub,
    JCB,
    UnionPay,
    RuPay,
    Maestro,
    Interac,
}

/// How the payment is captured after authorization.
#[derive(Clone, Copy, Debug, PartialEq, Eq, Structural)]
pub enum CaptureMethod {
    Automatic,
    Manual,
    ManualMultiple,
    Scheduled,
    SequentialAutomatic,
}

/// Countries a billing address can be in.
#[derive(Clone, Copy, Debug, PartialEq, Eq, Structural)]
pub enum Country {
    UnitedStates,
    UnitedKingdom,
    Germany,
    France,
    Netherlands,
    India,
    Singapore,
    Australia,
    Canada,
    Japan,
}

/// Currencies a payment can be denominated in.
#[derive(Clone, Copy, Debug, PartialEq, Eq, Structural)]
pub enum Currency {
    USD,
    EUR,
    GBP,
    INR,
    SGD,
    AUD,
    CAD,
    JPY,
}

/// Whether strong customer authentication is requested.
#[derive(Clone, Copy, Debug, PartialEq, Eq, Structural)]
pub enum AuthenticationType {
    ThreeDs,
    NoThreeDs,
}

/// Canonical identifiers of the payment processors that can be routed to.
#[derive(Clone, Copy, Debug, PartialEq, Eq, Structural)]
pub enum RoutableConnector {
    Stripe,
    Adyen,
    Checkout,
    Worldpay,
    Cybersource,
    Braintree,
    Klarna,
    Airwallex,
}

/// One configured connector instance, identified by its canonical
/// connector identifier.
#[derive(Clone, Copy, Debug, PartialEq, Eq, Structural)]
pub struct ConnectorChoice {
    pub connector: RoutableConnector,
}

/// The comparison a numeric directive value imposes on the attribute.
#[derive(Clone, Copy, Debug, PartialEq, Eq, Structural)]
pub enum NumRelation {
    Equal,
    NotEqual,
    GreaterThan,
    GreaterThanEqual,
    LessThan,
    LessThanEqual,
}

/// A numeric directive value: a comparison against one number.
#[derive(Clone, Copy, Debug, PartialEq, Eq, Structural)]
pub struct NumValue {
    pub number: i64,
    pub relation: NumRelation,
}

/// An enumerated tag identifying one transaction attribute category.
#[derive(Clone, Copy, Debug, PartialEq, Eq, Structural)]
pub enum DirKeyKind {
    PaymentMethod,
    CardNetwork,
    CaptureMethod,
    BillingCountry,
    PaymentCurrency,
    AuthenticationType,
    PaymentAmount,
    Connector,
    MetaData,
}

/// The kind of value domain a directive key carries.
#[derive(Clone, Copy, Debug, PartialEq, Eq, Structural)]
pub enum DataType {
    /// A closed set of enumerated string variants.
    EnumVariant,
    /// A numeric comparison.
    Number,
    /// An open string.
    StrValue,
}

/// A concrete value of a directive key.
#[derive(Clone, Copy, Debug, PartialEq, Eq, Structural)]
pub enum DirValue {
    PaymentMethod(PaymentMethod),
    CardNetwork(CardNetwork),
    CaptureMethod(CaptureMethod),
    BillingCountry(Country),
    PaymentCurrency(Currency),
    AuthenticationType(AuthenticationType),
    PaymentAmount(NumValue),
    Connector(ConnectorChoice),
}

/// The key a directive value belongs to.  Every value belongs to exactly
/// one key.
pub open spec fn key_of(v: DirValue) -> DirKeyKind {
    match v {
        DirValue::PaymentMethod(_) => DirKeyKind::PaymentMethod,
        DirValue::CardNetwork(_) => DirKeyKind::CardNetwork,
        DirValue::CaptureMethod(_) => DirKeyKind::CaptureMethod,
        DirValue::BillingCountry(_) => DirKeyKind::BillingCountry,
        DirValue::PaymentCurrency(_) => DirKeyKind::PaymentCurrency,
        DirValue::AuthenticationType(_) => DirKeyKind::AuthenticationType,
        DirValue::PaymentAmount(_) => DirKeyKind::PaymentAmount,
        DirValue::Connector(_) => DirKeyKind::Connector,
    }
}

/// The value domain a directive key carries.  Every key maps to exactly
/// one domain kind.
pub open spec fn domain_kind_of(k: DirKeyKind) -> DataType {
    match k {
        DirKeyKind::PaymentMethod => DataType::EnumVariant,
        DirKeyKind::CardNetwork => DataType::EnumVariant,
        DirKeyKind::CaptureMethod => DataType::EnumVariant,
        DirKeyKind::BillingCountry => DataType::EnumVariant,
        DirKeyKind::PaymentCurrency => DataType::EnumVariant,
        DirKeyKind::AuthenticationType => DataType::EnumVariant,
        DirKeyKind::PaymentAmount => DataType::Number,
        DirKeyKind::Connector => DataType::EnumVariant,
        DirKeyKind::MetaData => DataType::StrValue,
    }
}

impl DirValue {
    /// The key this value belongs to.
    pub fn get_key(&self) -> (k: DirKeyKind)
        ensures
            k == key_of(*self),
    {
        match self {
            DirValue::PaymentMethod(_) => DirKeyKind::PaymentMethod,
            DirValue::CardNetwork(_) => DirKeyKind::CardNetwork,
            DirValue::CaptureMethod(_) => DirKeyKind::CaptureMethod,
            DirValue::BillingCountry(_) => DirKeyKind::BillingCountry,
            DirValue::PaymentCurrency(_) => DirKeyKind::PaymentCurrency,
            DirValue::AuthenticationType(_) => DirKeyKind::AuthenticationType,
            DirValue::PaymentAmount(_) => DirKeyKind::PaymentAmount,
            DirValue::Connector(_) => DirKeyKind::Connector,
        }
    }
}

impl DirKeyKind {
    /// The value domain this key carries.
    pub fn get_type(&self) -> (t: DataType)
        ensures
            t == domain_kind_of(*self),
    {
        match self {
            DirKeyKind::PaymentMethod => DataType::EnumVariant,
            DirKeyKind::CardNetwork => DataType::EnumVariant,
            DirKeyKind::CaptureMethod => DataType::EnumVariant,
            DirKeyKind::BillingCountry => DataType::EnumVariant,
            DirKeyKind::PaymentCurrency => DataType::EnumVariant,
            DirKeyKind::AuthenticationType => DataType::EnumVariant,
            DirKeyKind::PaymentAmount => DataType::Number,
            DirKeyKind::Connector => DataType::EnumVariant,
            DirKeyKind::MetaData => DataType::StrValue,
        }
    }
}

/// Whether the integer `x` satisfies the numeric comparison `n`.
pub open spec fn num_holds(x: int, n: NumValue) -> bool {
    match n.relation {
        NumRelation::Equal => x == n.number,
        NumRelation::NotEqual => x != n.number,
        NumRelation::GreaterThan => x > n.number,
        NumRelation::GreaterThanEqual => x >= n.number,
        NumRelation::LessThan => x < n.number,
        NumRelation::LessThanEqual => x <= n.number,
    }
}

/// Whether two numeric comparisons can hold of one and the same number.
pub open spec fn num_compatible(a: NumValue, b: NumValue) -> bool {
    exists|x: int| num_holds(x, a) && num_holds(x, b)
}

/// Decides whether two numeric comparisons are jointly satisfiable.
pub fn num_values_compatible(a: &NumValue, b: &NumValue) -> (r: bool)
    ensures
        r == num_compatible(*a, *b),
{
    let an = a.number;
    let bn = b.number;
    let r = match (a.relation, b.relation) {
        (NumRelation::Equal, NumRelation::Equal) => an == bn,
        (NumRelation::Equal, NumRelation::NotEqual) => an != bn,
        (NumRelation::Equal, NumRelation::GreaterThan) => an > bn,
        (NumRelation::Equal, NumRelation::GreaterThanEqual) => an >= bn,
        (NumRelation::Equal, NumRelation::LessThan) => an < bn,
        (NumRelation::Equal, NumRelation::LessThanEqual) => an <= bn,
        (NumRelation::NotEqual, NumRelation::Equal) => an != bn,
        (NumRelation::GreaterThan, NumRelation::Equal) => bn > an,
        (NumRelation::GreaterThanEqual, NumRelation::Equal) => bn >= an,
        (NumRelation::LessThan, NumRelation::Equal) => bn < an,
        (NumRelation::LessThanEqual, NumRelation::Equal) => bn <= an,
        (NumRelation::GreaterThan, NumRelation::LessThan) => {
            bn > i64::MIN && an < bn - 1
        },
        (NumRelation::LessThan, NumRelation::GreaterThan) => {
            an > i64::MIN && bn < an - 1
        },
        (NumRelation::GreaterThan, NumRelation::LessThanEqual) => an < bn,
        (NumRelation::LessThanEqual, NumRelation::GreaterThan) => bn < an,
        (NumRelation::GreaterThanEqual, NumRelation::LessThan) => an < bn,
        (NumRelation::LessThan, NumRelation::GreaterThanEqual) => bn < an,
        (NumRelation::GreaterThanEqual, NumRelation::LessThanEqual) => an <= bn,
        (NumRelation::LessThanEqual, NumRelation::GreaterThanEqual) => bn <= an,
        // Both bounded on the same side, or at least one inequation with an
        // unbounded side: always satisfiable.
        (NumRelation::NotEqual, _) => true,
        (_, NumRelation::NotEqual) => true,
        (NumRelation::GreaterThan, NumRelation::GreaterThan) => true,
        (NumRelation::GreaterThan, NumRelation::GreaterThanEqual) => true,
        (NumRelation::GreaterThanEqual, NumRelation::GreaterThan) => true,
        (NumRelation::GreaterThanEqual, NumRelation::GreaterThanEqual) => true,
        (NumRelation::LessThan, NumRelation::LessThan) => true,
        (NumRelation::LessThan, NumRelation::LessThanEqual) => true,
        (NumRelation::LessThanEqual, NumRelation::LessThan) => true,
        (NumRelation::LessThanEqual, NumRelation::LessThanEqual) => true,
    };
    proof {
        lemma_num_compatible_decision(*a, *b, r);
    }
    r
}

/// The decision table of `num_values_compatible` agrees with the
/// existential statement of compatibility.
proof fn lemma_num_compatible_decision(a: NumValue, b: NumValue, r: bool)
    requires
        r == num_decision(a, b),
    ensures
        r == num_compatible(a, b),
{
    let an = a.number as int;
    let bn = b.number as int;
    let lo: int = if an <= bn { an } else { bn };
    let hi: int = if an >= bn { an } else { bn };
    if num_decision(a, b) {
        // Exhibit a witness in every satisfiable case.
        let w: int = witness_for(a, b);
        assert(num_holds(w, a) && num_holds(w, b));
    } else {
        assert(forall|x: int| !(num_holds(x, a) && num_holds(x, b)));
    }
}

/// The decision table, mirrored in specification form.
pub open spec fn num_decision(a: NumValue, b: NumValue) -> bool {
    let an = a.number as int;
    let bn = b.number as int;
    match (a.relation, b.relation) {
        (NumRelation::Equal, NumRelation::Equal) => an == bn,
        (NumRelation::Equal, NumRelation::NotEqual) => an != bn,
        (NumRelation::Equal, NumRelation::GreaterThan) => an > bn,
        (NumRelation::Equal, NumRelation::GreaterThanEqual) => an >= bn,
        (NumRelation::Equal, NumRelation::LessThan) => an < bn,
        (NumRelation::Equal, NumRelation::LessThanEqual) => an <= bn,
        (NumRelation::NotEqual, NumRelation::Equal) => an != bn,
        (NumRelation::GreaterThan, NumRelation::Equal) => bn > an,
        (NumRelation::GreaterThanEqual, NumRelation::Equal) => bn >= an,
        (NumRelation::LessThan, NumRelation::Equal) => bn < an,
        (NumRelation::LessThanEqual, NumRelation::Equal) => bn <= an,
        (NumRelation::GreaterThan, NumRelation::LessThan) => an + 1 < bn,
        (NumRelation::LessThan, NumRelation::GreaterThan) => bn + 1 < an,
        (NumRelation::GreaterThan, NumRelation::LessThanEqual) => an < bn,
        (NumRelation::LessThanEqual, NumRelation::GreaterThan) => bn < an,
        (NumRelation::GreaterThanEqual, NumRelation::LessThan) => an < bn,
        (NumRelation::LessThan, NumRelation::GreaterThanEqual) => bn < an,
        (NumRelation::GreaterThanEqual, NumRelation::LessThanEqual) => an <= bn,
        (NumRelation::LessThanEqual, NumRelation::GreaterThanEqual) => bn <= an,
        (NumRelation::NotEqual, _) => true,
        (_, NumRelation::NotEqual) => true,
        _ => true,
    }
}

/// A witness number for each jointly satisfiable pair of comparisons.
spec fn witness_for(a: NumValue, b: NumValue) -> int {
    let an = a.number as int;
    let bn = b.number as int;
    let lo: int = if an <= bn { an } else { bn };
    let hi: int = if an >= bn { an } else { bn };
    match (a.relation, b.relation) {
        (NumRelation::Equal, _) => an,
        (_, NumRelation::Equal) => bn,
        (NumRelation::GreaterThan, NumRelation::LessThan) => an + 1,
        (NumRelation::LessThan, NumRelation::GreaterThan) => bn + 1,
        (NumRelation::GreaterThan, NumRelation::LessThanEqual) => an + 1,
        (NumRelation::LessThanEqual, NumRelation::GreaterThan) => bn + 1,
        (NumRelation::GreaterThanEqual, NumRelation::LessThan) => an,
        (NumRelation::LessThan, NumRelation::GreaterThanEqual) => bn,
        (NumRelation::GreaterThanEqual, NumRelation::LessThanEqual) => an,
        (NumRelation::LessThanEqual, NumRelation::GreaterThanEqual) => bn,
        (NumRelation::GreaterThan, _) => hi + 1,
        (NumRelation::GreaterThanEqual, _) => hi + 1,
        (NumRelation::LessThan, _) => lo - 1,
        (NumRelation::LessThanEqual, _) => lo - 1,
        (NumRelation::NotEqual, NumRelation::GreaterThan) => hi + 1,
        (NumRelation::NotEqual, NumRelation::GreaterThanEqual) => hi + 1,
        (NumRelation::NotEqual, NumRelation::LessThan) => lo - 1,
        (NumRelation::NotEqual, NumRelation::LessThanEqual) => lo - 1,
        (NumRelation::NotEqual, NumRelation::NotEqual) => hi + 1,
    }
}

/// Every numeric comparison is satisfiable on its own, so a value is
/// never numerically incompatible with itself.
pub proof fn lemma_num_self_satisfiable_all()
    ensures
        forall|n: NumValue| #[trigger] num_compatible(n, n),
{
    assert forall|n: NumValue| #[trigger] num_compatible(n, n) by {
        let w: int = match n.relation {
            NumRelation::Equal => n.number as int,
            NumRelation::NotEqual => n.number as int + 1,
            NumRelation::GreaterThan => n.number as int + 1,
            NumRelation::GreaterThanEqual => n.number as int,
            NumRelation::LessThan => n.number as int - 1,
            NumRelation::LessThanEqual => n.number as int,
        };
        assert(num_holds(w, n));
    }
}

} // verus!
