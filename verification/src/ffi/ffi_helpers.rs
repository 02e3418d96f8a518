//! What the interface to other languages needs from the library.

use vstd::prelude::*;
use vstd::std_specs::convert::FromSpecImpl;

verus! {

/// Three values that are made together and handed out one by one: each of
/// them once, and never again.
pub struct FFITriple<T, TT, TTT> {
    first: Option<T>,
    second: Option<TT>,
    third: Option<TTT>,
}

impl<T, TT, TTT> FFITriple<T, TT, TTT> {
    /// The first value, while it has not been handed out.
    pub closed spec fn first(&self) -> Option<T> {
        self.first
    }

    /// The second value, while it has not been handed out.
    pub closed spec fn second(&self) -> Option<TT> {
        self.second
    }

    /// The third value, while it has not been handed out.
    pub closed spec fn third(&self) -> Option<TTT> {
        self.third
    }

    /// Hands out the first value, or `None` where it has been handed out
    /// before.
    pub fn take_first(&mut self) -> (taken: Option<T>)
        ensures
            taken == old(self).first(),
            final(self).first() is None,
            final(self).second() == old(self).second(),
            final(self).third() == old(self).third(),
    {
        self.first.take()
    }

    /// Hands out the second value, or `None` where it has been handed out
    /// before.
    pub fn take_second(&mut self) -> (taken: Option<TT>)
        ensures
            taken == old(self).second(),
            final(self).second() is None,
            final(self).first() == old(self).first(),
            final(self).third() == old(self).third(),
    {
        self.second.take()
    }

    /// Hands out the third value, or `None` where it has been handed out
    /// before.
    pub fn take_third(&mut self) -> (taken: Option<TTT>)
        ensures
            taken == old(self).third(),
            final(self).third() is None,
            final(self).first() == old(self).first(),
            final(self).second() == old(self).second(),
    {
        self.third.take()
    }
}

impl<T, TT, TTT> From<(T, TT, TTT)> for FFITriple<T, TT, TTT> {
    /// A triple that has handed out nothing yet.
    fn from(values: (T, TT, TTT)) -> (triple: Self)
        ensures
            triple.first() == Some(values.0),
            triple.second() == Some(values.1),
            triple.third() == Some(values.2),
    {
        let (a, b, c) = values;
        Self { first: Some(a), second: Some(b), third: Some(c) }
    }
}

impl<T, TT, TTT> FromSpecImpl<(T, TT, TTT)> for FFITriple<T, TT, TTT> {
    open spec fn obeys_from_spec() -> bool {
        true
    }

    closed spec fn from_spec(values: (T, TT, TTT)) -> Self {
        FFITriple { first: Some(values.0), second: Some(values.1), third: Some(values.2) }
    }
}

} // verus!
