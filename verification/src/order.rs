//! A total order on directive values.
//!
//! The memoization cache keys a partial analysis state by a canonical
//! encoding of the assertions evaluated so far.  Canonicalization sorts
//! the assertions under this order, so that equivalent sets of
//! assertions produce identical keys regardless of push order.

use vstd::prelude::*;
use vstd::relations::total_ordering;
use crate::values::{DirKeyKind, DirValue, PaymentMethod, CardNetwork, CaptureMethod, Country, Currency, AuthenticationType, RoutableConnector, NumRelation, key_of};

verus! {

/// Rank of a directive key in the ordering.
pub open spec fn key_tag(k: DirKeyKind) -> int {
    match k {
        DirKeyKind::PaymentMethod => 0,
        DirKeyKind::CardNetwork => 1,
        DirKeyKind::CaptureMethod => 2,
        DirKeyKind::BillingCountry => 3,
        DirKeyKind::PaymentCurrency => 4,
        DirKeyKind::AuthenticationType => 5,
        DirKeyKind::PaymentAmount => 6,
        DirKeyKind::Connector => 7,
        DirKeyKind::MetaData => 8,
    }
}

/// Rank of a value within its key: the variant position for enumerated
/// keys, the comparison relation for numeric ones.
pub open spec fn sub_tag(v: DirValue) -> int {
    match v {
        DirValue::PaymentMethod(x) => match x {
            PaymentMethod::Card => 0,
            PaymentMethod::Wallet => 1,
            PaymentMethod::PayLater => 2,
            PaymentMethod::BankRedirect => 3,
            PaymentMethod::BankDebit => 4,
            PaymentMethod::BankTransfer => 5,
            PaymentMethod::Crypto => 6,
            PaymentMethod::Reward => 7,
            PaymentMethod::Upi => 8,
            PaymentMethod::Voucher => 9,
            PaymentMethod::GiftCard => 10,
        },
        DirValue::CardNetwork(x) => match x {
            CardNetwork::Visa => 0,
            CardNetwork::Mastercard => 1,
            CardNetwork::AmericanExpress => 2,
            CardNetwork::Discover => 3,
            CardNetwork::DinersClub => 4,
            CardNetwork::JCB => 5,
            CardNetwork::UnionPay => 6,
            CardNetwork::RuPay => 7,
            CardNetwork::Maestro => 8,
            CardNetwork::Interac => 9,
        },
        DirValue::CaptureMethod(x) => match x {
            CaptureMethod::Automatic => 0,
            CaptureMethod::Manual => 1,
            CaptureMethod::ManualMultiple => 2,
            CaptureMethod::Scheduled => 3,
            CaptureMethod::SequentialAutomatic => 4,
        },
        DirValue::BillingCountry(x) => match x {
            Country::UnitedStates => 0,
            Country::UnitedKingdom => 1,
            Country::Germany => 2,
            Country::France => 3,
            Country::Netherlands => 4,
            Country::India => 5,
            Country::Singapore => 6,
            Country::Australia => 7,
            Country::Canada => 8,
            Country::Japan => 9,
        },
        DirValue::PaymentCurrency(x) => match x {
            Currency::USD => 0,
            Currency::EUR => 1,
            Currency::GBP => 2,
            Currency::INR => 3,
            Currency::SGD => 4,
            Currency::AUD => 5,
            Currency::CAD => 6,
            Currency::JPY => 7,
        },
        DirValue::AuthenticationType(x) => match x {
            AuthenticationType::ThreeDs => 0,
            AuthenticationType::NoThreeDs => 1,
        },
        DirValue::PaymentAmount(n) => match n.relation {
            NumRelation::Equal => 0,
            NumRelation::NotEqual => 1,
            NumRelation::GreaterThan => 2,
            NumRelation::GreaterThanEqual => 3,
            NumRelation::LessThan => 4,
            NumRelation::LessThanEqual => 5,
        },
        DirValue::Connector(c) => match c.connector {
            RoutableConnector::Stripe => 0,
            RoutableConnector::Adyen => 1,
            RoutableConnector::Checkout => 2,
            RoutableConnector::Worldpay => 3,
            RoutableConnector::Cybersource => 4,
            RoutableConnector::Braintree => 5,
            RoutableConnector::Klarna => 6,
            RoutableConnector::Airwallex => 7,
        },
    }
}

/// The numeric payload of a value; zero for non-numeric values.
pub open spec fn num_part(v: DirValue) -> int {
    match v {
        DirValue::PaymentAmount(n) => n.number as int,
        _ => 0,
    }
}

/// The total order: lexicographic on (key rank, variant rank, number).
pub open spec fn dir_value_le(a: DirValue, b: DirValue) -> bool {
    ||| key_tag(key_of(a)) < key_tag(key_of(b))
    ||| (key_tag(key_of(a)) == key_tag(key_of(b)) && sub_tag(a) < sub_tag(b))
    ||| (key_tag(key_of(a)) == key_tag(key_of(b)) && sub_tag(a) == sub_tag(b) && num_part(a)
        <= num_part(b))
}

/// The order as a first-class relation, for vstd's sorting lemmas.
pub open spec fn dir_value_leq() -> spec_fn(DirValue, DirValue) -> bool {
    |a: DirValue, b: DirValue| dir_value_le(a, b)
}

/// Two values equal in rank are the same value.
pub proof fn lemma_rank_injective(a: DirValue, b: DirValue)
    requires
        key_tag(key_of(a)) == key_tag(key_of(b)),
        sub_tag(a) == sub_tag(b),
        num_part(a) == num_part(b),
    ensures
        a == b,
{
}

/// The order is a total order.
pub proof fn lemma_dir_value_total_order()
    ensures
        total_ordering(dir_value_leq()),
{
    let leq = dir_value_leq();
    assert forall|a: DirValue, b: DirValue| #[trigger] leq(a, b) && #[trigger] leq(b, a) implies a
        == b by {
        lemma_rank_injective(a, b);
    }
    assert(forall|a: DirValue, b: DirValue| #[trigger] leq(a, b) || #[trigger] leq(b, a));
    assert(forall|a: DirValue, b: DirValue, c: DirValue|
        #[trigger] leq(a, b) && #[trigger] leq(b, c) ==> leq(a, c));
    assert(forall|a: DirValue| #[trigger] leq(a, a));
}

/// Decides the order on two directive values.
pub fn dir_value_le_exec(a: &DirValue, b: &DirValue) -> (r: bool)
    ensures
        r == dir_value_le(*a, *b),
{
    let ka = key_tag_exec(a);
    let kb = key_tag_exec(b);
    if ka != kb {
        return ka < kb;
    }
    let sa = sub_tag_exec(a);
    let sb = sub_tag_exec(b);
    if sa != sb {
        return sa < sb;
    }
    num_part_exec(a) <= num_part_exec(b)
}

/// Rank of a value's key, executable form.
fn key_tag_exec(v: &DirValue) -> (r: u32)
    ensures
        r as int == key_tag(key_of(*v)),
{
    match v {
        DirValue::PaymentMethod(_) => 0,
        DirValue::CardNetwork(_) => 1,
        DirValue::CaptureMethod(_) => 2,
        DirValue::BillingCountry(_) => 3,
        DirValue::PaymentCurrency(_) => 4,
        DirValue::AuthenticationType(_) => 5,
        DirValue::PaymentAmount(_) => 6,
        DirValue::Connector(_) => 7,
    }
}

/// Rank of a value within its key, executable form.
fn sub_tag_exec(v: &DirValue) -> (r: u32)
    ensures
        r as int == sub_tag(*v),
{
    match v {
        DirValue::PaymentMethod(x) => match x {
            PaymentMethod::Card => 0,
            PaymentMethod::Wallet => 1,
            PaymentMethod::PayLater => 2,
            PaymentMethod::BankRedirect => 3,
            PaymentMethod::BankDebit => 4,
            PaymentMethod::BankTransfer => 5,
            PaymentMethod::Crypto => 6,
            PaymentMethod::Reward => 7,
            PaymentMethod::Upi => 8,
            PaymentMethod::Voucher => 9,
            PaymentMethod::GiftCard => 10,
        },
        DirValue::CardNetwork(x) => match x {
            CardNetwork::Visa => 0,
            CardNetwork::Mastercard => 1,
            CardNetwork::AmericanExpress => 2,
            CardNetwork::Discover => 3,
            CardNetwork::DinersClub => 4,
            CardNetwork::JCB => 5,
            CardNetwork::UnionPay => 6,
            CardNetwork::RuPay => 7,
            CardNetwork::Maestro => 8,
            CardNetwork::Interac => 9,
        },
        DirValue::CaptureMethod(x) => match x {
            CaptureMethod::Automatic => 0,
            CaptureMethod::Manual => 1,
            CaptureMethod::ManualMultiple => 2,
            CaptureMethod::Scheduled => 3,
            CaptureMethod::SequentialAutomatic => 4,
        },
        DirValue::BillingCountry(x) => match x {
            Country::UnitedStates => 0,
            Country::UnitedKingdom => 1,
            Country::Germany => 2,
            Country::France => 3,
            Country::Netherlands => 4,
            Country::India => 5,
            Country::Singapore => 6,
            Country::Australia => 7,
            Country::Canada => 8,
            Country::Japan => 9,
        },
        DirValue::PaymentCurrency(x) => match x {
            Currency::USD => 0,
            Currency::EUR => 1,
            Currency::GBP => 2,
            Currency::INR => 3,
            Currency::SGD => 4,
            Currency::AUD => 5,
            Currency::CAD => 6,
            Currency::JPY => 7,
        },
        DirValue::AuthenticationType(x) => match x {
            AuthenticationType::ThreeDs => 0,
            AuthenticationType::NoThreeDs => 1,
        },
        DirValue::PaymentAmount(n) => match n.relation {
            NumRelation::Equal => 0,
            NumRelation::NotEqual => 1,
            NumRelation::GreaterThan => 2,
            NumRelation::GreaterThanEqual => 3,
            NumRelation::LessThan => 4,
            NumRelation::LessThanEqual => 5,
        },
        DirValue::Connector(c) => match c.connector {
            RoutableConnector::Stripe => 0,
            RoutableConnector::Adyen => 1,
            RoutableConnector::Checkout => 2,
            RoutableConnector::Worldpay => 3,
            RoutableConnector::Cybersource => 4,
            RoutableConnector::Braintree => 5,
            RoutableConnector::Klarna => 6,
            RoutableConnector::Airwallex => 7,
        },
    }
}

/// Numeric payload of a value, executable form.
fn num_part_exec(v: &DirValue) -> (r: i64)
    ensures
        r as int == num_part(*v),
{
    match v {
        DirValue::PaymentAmount(n) => n.number,
        _ => 0,
    }
}

/// Inserting into a sorted sequence at a fitting position keeps it
/// sorted.
proof fn lemma_insert_sorted(s: Seq<DirValue>, i: int, v: DirValue)
    requires
        vstd::relations::sorted_by(s, dir_value_leq()),
        0 <= i <= s.len(),
        forall|k: int| 0 <= k < i ==> dir_value_le(#[trigger] s[k], v),
        i < s.len() ==> dir_value_le(v, s[i]),
    ensures
        vstd::relations::sorted_by(s.insert(i, v), dir_value_leq()),
{
    let t = s.insert(i, v);
    let leq = dir_value_leq();
    assert forall|p: int, q: int| 0 <= p < q < t.len() implies leq(t[p], t[q]) by {
        if p < i && q < i {
            assert(t[p] == s[p] && t[q] == s[q]);
        } else if p < i && q == i {
            assert(t[p] == s[p] && t[q] == v);
        } else if p < i && q > i {
            assert(t[p] == s[p] && t[q] == s[q - 1]);
        } else if p == i && q > i {
            assert(t[p] == v && t[q] == s[q - 1]);
            assert(dir_value_le(v, s[i]));
            assert(leq(s[i], s[q - 1]) || i == q - 1);
        } else {
            assert(t[p] == s[p - 1] && t[q] == s[q - 1]);
        }
    }
}

/// Inserting into a sequence inserts into its multiset.
proof fn lemma_insert_to_multiset(s: Seq<DirValue>, i: int, v: DirValue)
    requires
        0 <= i <= s.len(),
    ensures
        s.insert(i, v).to_multiset() =~= s.to_multiset().insert(v),
{
    broadcast use vstd::seq_lib::group_to_multiset_ensures;

    let t = s.insert(i, v);
    assert(t.remove(i) =~= s);
    assert(t.remove(i).to_multiset() =~= t.to_multiset().remove(t[i]));
    assert(t[i] == v);
    assert(t.to_multiset().contains(v));
    assert forall|x: DirValue| s.to_multiset().insert(v).count(x) == t.to_multiset().count(
        x,
    ) by {
        if x == v {
            assert(s.to_multiset().count(v) == t.to_multiset().remove(v).count(v));
        } else {
            assert(s.to_multiset().count(x) == t.to_multiset().remove(v).count(x));
        }
    }
}

/// Inserts a value into a sorted vector, keeping it sorted.
pub fn insert_sorted(vs: &mut Vec<DirValue>, v: DirValue)
    requires
        vstd::relations::sorted_by(old(vs)@, dir_value_leq()),
    ensures
        vstd::relations::sorted_by(final(vs)@, dir_value_leq()),
        final(vs)@.to_multiset() == old(vs)@.to_multiset().insert(v),
        final(vs)@.len() == old(vs)@.len() + 1,
{
    let mut i: usize = 0;
    while i < vs.len() && !dir_value_le_exec(&v, &vs[i])
        invariant
            i <= vs@.len(),
            forall|k: int| 0 <= k < i ==> !dir_value_le(v, #[trigger] vs@[k]),
        decreases vs@.len() - i,
    {
        i = i + 1;
    }
    proof {
        lemma_dir_value_total_order();
        assert forall|k: int| 0 <= k < i implies dir_value_le(#[trigger] vs@[k], v) by {
            assert(!dir_value_le(v, vs@[k]));
        }
        lemma_insert_sorted(vs@, i as int, v);
        lemma_insert_to_multiset(vs@, i as int, v);
    }
    vs.insert(i, v);
}

/// Decides equality of two value sequences.
pub fn dir_value_vec_eq(a: &Vec<DirValue>, b: &Vec<DirValue>) -> (r: bool)
    ensures
        r == (a@ == b@),
{
    if a.len() != b.len() {
        return false;
    }
    let mut i: usize = 0;
    while i < a.len()
        invariant
            a@.len() == b@.len(),
            i <= a@.len(),
            forall|k: int| 0 <= k < i ==> a@[k] == b@[k],
        decreases a@.len() - i,
    {
        if a[i] != b[i] {
            return false;
        }
        i = i + 1;
    }
    proof {
        assert(a@ =~= b@);
    }
    true
}

} // verus!
