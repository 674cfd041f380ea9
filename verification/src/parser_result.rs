//! The outcome of a single parse attempt: success carrying a value, or
//! failure carrying nothing.
use vstd::prelude::*;

verus! {

/// The result of applying a parser to an input: either `Success` with the
/// matched value, or `Failure` with no payload.
///
/// There is no third state, and `Failure` never carries a value. Equality is
/// structural: two `Success` values are equal exactly when their contents
/// are, and any two `Failure` values are equal.
#[derive(Debug, Clone, PartialEq, Eq, Hash)]
pub enum ParseResult<T> {
    Success(T),
    Failure,
}

impl<T> ParseResult<T> {
    /// Wraps a value in the `Success` state.
    pub fn success(v: T) -> (r: Self)
        ensures
            r == ParseResult::Success(v),
    {
        ParseResult::Success(v)
    }

    /// Returns the `Failure` state.
    pub fn failure() -> (r: Self)
        ensures
            r == ParseResult::<T>::Failure,
    {
        ParseResult::Failure
    }

    /// Transforms the carried value of a `Success` with `f`; a `Failure`
    /// passes through unchanged and `f` is never invoked on it.
    pub fn map<S, F: Fn(T) -> S>(self, f: F) -> (r: ParseResult<S>)
        requires
            self matches ParseResult::Success(v) ==> call_requires(f, (v,)),
        ensures
            self is Failure ==> r is Failure,
            self matches ParseResult::Success(v) ==> r matches ParseResult::Success(s)
                && call_ensures(f, (v,), s),
    {
        match self {
            ParseResult::Success(v) => ParseResult::Success(f(v)),
            ParseResult::Failure => ParseResult::Failure,
        }
    }

    /// Sequences a second, value-dependent decision after this one: a
    /// `Success` value is handed to `f`, whose own outcome is returned; a
    /// `Failure` passes through unchanged and `f` is never invoked on it.
    pub fn and_then<S, F: Fn(T) -> ParseResult<S>>(self, f: F) -> (r: ParseResult<S>)
        requires
            self matches ParseResult::Success(v) ==> call_requires(f, (v,)),
        ensures
            self is Failure ==> r is Failure,
            self matches ParseResult::Success(v) ==> call_ensures(f, (v,), r),
    {
        match self {
            ParseResult::Success(v) => f(v),
            ParseResult::Failure => ParseResult::Failure,
        }
    }
}

} // verus!
