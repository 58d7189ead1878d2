//! The conjunctive analysis context: the stack of value assertions
//! currently pushed for evaluation, with optional metadata (a relative
//! weight annotation) per assertion.

use vstd::prelude::*;
use crate::values::DirValue;

verus! {

/// One pushed assertion: a directive value, with an optional relative
/// weight annotation.
#[derive(Clone, Copy, Debug)]
pub struct ContextValue {
    pub value: DirValue,
    pub weight: Option<u32>,
}

impl ContextValue {
    /// An assertion without metadata.
    pub fn assertion(value: DirValue) -> (r: ContextValue)
        ensures
            r.value == value,
            r.weight is None,
    {
        ContextValue { value, weight: None }
    }

    /// An assertion carrying a relative weight.
    pub fn weighted(value: DirValue, weight: u32) -> (r: ContextValue)
        ensures
            r.value == value,
            r.weight == Some(weight),
    {
        ContextValue { value, weight: Some(weight) }
    }
}

/// The directive values of a sequence of context values, in order.
pub open spec fn dir_values_of(s: Seq<ContextValue>) -> Seq<DirValue> {
    s.map_values(|cv: ContextValue| cv.value)
}

/// A conjunctive analysis context: an ordered sequence of assertions
/// with stack discipline.
pub struct Context {
    values: Vec<ContextValue>,
}

impl View for Context {
    type V = Seq<ContextValue>;

    closed spec fn view(&self) -> Seq<ContextValue> {
        self.values@
    }
}

impl Context {
    /// An empty context.
    pub fn new() -> (r: Context)
        ensures
            r@ == Seq::<ContextValue>::empty(),
    {
        let r = Context { values: Vec::new() };
        proof {
            assert(r@ =~= Seq::<ContextValue>::empty());
        }
        r
    }

    /// A context holding the given assertions, bottom first.
    pub fn from_values(values: Vec<ContextValue>) -> (r: Context)
        ensures
            r@ == values@,
    {
        Context { values }
    }

    /// The number of assertions currently pushed.
    pub fn len(&self) -> (n: usize)
        ensures
            n == self@.len(),
    {
        self.values.len()
    }

    /// The assertion at position `i`, bottom first.
    pub fn get(&self, i: usize) -> (r: ContextValue)
        requires
            i < self@.len(),
        ensures
            r == self@[i as int],
    {
        self.values[i]
    }

    /// Pushes one assertion on top of the context.
    pub fn push(&mut self, v: ContextValue)
        ensures
            final(self)@ == old(self)@.push(v),
    {
        self.values.push(v);
    }

    /// Pops the topmost assertion.
    pub fn pop(&mut self) -> (r: ContextValue)
        requires
            old(self)@.len() > 0,
        ensures
            final(self)@ == old(self)@.drop_last(),
            r == old(self)@.last(),
    {
        let r = self.values.pop().unwrap();
        proof {
            assert(self@ =~= old(self)@.drop_last());
        }
        r
    }

    /// The directive values currently asserted, bottom first.
    pub open spec fn asserted(&self) -> Seq<DirValue> {
        dir_values_of(self@)
    }
}

} // verus!
