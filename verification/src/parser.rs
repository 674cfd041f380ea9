//! The parser wrapper and its combinators.
//!
//! A [`Parser`] owns exactly one [`Compute`] value: a pure, repeatable
//! computation from an input view to a [`ParseResult`]. Combinators consume
//! a parser and wrap its computation in a new one; nothing runs until
//! [`Parser::parse`] is invoked.
use vstd::prelude::*;

use crate::parser_result::ParseResult;

verus! {

/// A single parse computation: given an input view, produce an outcome.
///
/// Any concrete type may implement this, which is how primitives beyond the
/// literal matcher are added. An implementation must be pure and repeatable:
/// its whole behaviour is the spec function [`Compute::outcome`], a function
/// of the input view alone, so running it twice on equal input views yields
/// equal outcomes.
pub trait Compute: Sized {
    /// The type of the value carried on success.
    type Val;

    /// Well-formedness of the computation: whatever it captured is total and
    /// deterministic, so the computation may be re-invoked arbitrarily.
    spec fn wf(&self) -> bool;

    /// The outcome this computation yields on a given input view.
    spec fn outcome(&self, input: Seq<char>) -> ParseResult<Self::Val>;

    /// The relation every run of this computation satisfies, beyond
    /// returning [`Compute::outcome`]: it ties the returned outcome to the
    /// possible results of whatever functions the computation captured, so
    /// that a caller can connect a success value to those functions' own
    /// contracts.
    spec fn admits(&self, input: Seq<char>, r: ParseResult<Self::Val>) -> bool;

    /// Runs the computation on an input.
    fn run(&self, input: &str) -> (r: ParseResult<Self::Val>)
        requires
            self.wf(),
        ensures
            r == self.outcome(input@),
            self.admits(input@, r),
    ;
}

/// A function value that may be applied to any argument.
pub open spec fn is_total<A, B, F: Fn(A) -> B>(f: F) -> bool {
    forall|v: A| #[trigger] call_requires(f, (v,))
}

/// A function value whose possible results on one argument are all equal,
/// making it a mathematical function of its argument.
pub open spec fn is_deterministic<A, B, F: Fn(A) -> B>(f: F) -> bool {
    forall|v: A, r1: B, r2: B|
        #![trigger call_ensures(f, (v,), r1), call_ensures(f, (v,), r2)]
        call_ensures(f, (v,), r1) && call_ensures(f, (v,), r2) ==> r1 == r2
}

/// The result of applying a deterministic function value to an argument.
pub open spec fn applied<A, B, F: Fn(A) -> B>(f: F, v: A) -> B {
    choose|r: B| call_ensures(f, (v,), r)
}

/// A parser of values of type `C::Val`: the sole owner of one pure
/// computation from an input view to an outcome.
pub struct Parser<C> {
    pub func: C,
}

/// The computation built by [`Parser::map`]: run the wrapped computation,
/// then transform a success value with the captured function.
pub struct Mapped<C, F> {
    pub inner: C,
    pub func: F,
}

impl<C: Compute, S, F: Fn(C::Val) -> S> Compute for Mapped<C, F> {
    type Val = S;

    open spec fn wf(&self) -> bool {
        self.inner.wf() && is_total(self.func) && is_deterministic(self.func)
    }

    open spec fn outcome(&self, input: Seq<char>) -> ParseResult<S> {
        match self.inner.outcome(input) {
            ParseResult::Success(v) => ParseResult::Success(applied(self.func, v)),
            ParseResult::Failure => ParseResult::Failure,
        }
    }

    open spec fn admits(&self, input: Seq<char>, r: ParseResult<S>) -> bool {
        self.inner.admits(input, self.inner.outcome(input)) && match self.inner.outcome(input) {
            ParseResult::Success(v) => r matches ParseResult::Success(fr) && call_ensures(
                self.func,
                (v,),
                fr,
            ),
            ParseResult::Failure => r is Failure,
        }
    }

    fn run(&self, input: &str) -> (r: ParseResult<S>) {
        match self.inner.run(input) {
            ParseResult::Success(v) => {
                let ghost gv = v;
                let fv = (self.func)(v);
                proof {
                    assert(call_ensures(self.func, (gv,), fv));
                    assert(applied(self.func, gv) == fv);
                }
                ParseResult::Success(fv)
            },
            ParseResult::Failure => ParseResult::Failure,
        }
    }
}

/// The computation built by [`Parser::and_then`]: run the wrapped
/// computation, then hand a success value to the captured function, whose
/// own outcome is the result.
pub struct Chained<C, F> {
    pub inner: C,
    pub func: F,
}

impl<C: Compute, S, F: Fn(C::Val) -> ParseResult<S>> Compute for Chained<C, F> {
    type Val = S;

    open spec fn wf(&self) -> bool {
        self.inner.wf() && is_total(self.func) && is_deterministic(self.func)
    }

    open spec fn outcome(&self, input: Seq<char>) -> ParseResult<S> {
        match self.inner.outcome(input) {
            ParseResult::Success(v) => applied(self.func, v),
            ParseResult::Failure => ParseResult::Failure,
        }
    }

    open spec fn admits(&self, input: Seq<char>, r: ParseResult<S>) -> bool {
        self.inner.admits(input, self.inner.outcome(input)) && match self.inner.outcome(input) {
            ParseResult::Success(v) => call_ensures(self.func, (v,), r),
            ParseResult::Failure => r is Failure,
        }
    }

    fn run(&self, input: &str) -> (r: ParseResult<S>) {
        match self.inner.run(input) {
            ParseResult::Success(v) => {
                let ghost gv = v;
                let fv = (self.func)(v);
                proof {
                    assert(call_ensures(self.func, (gv,), fv));
                    assert(applied(self.func, gv) == fv);
                }
                fv
            },
            ParseResult::Failure => ParseResult::Failure,
        }
    }
}

/// A function from string inputs that may be applied to any input.
pub open spec fn str_fn_total<T, F: Fn(&str) -> ParseResult<T>>(f: F) -> bool {
    forall|s: &str| #[trigger] call_requires(f, (s,))
}

/// A function from string inputs whose possible results depend on the
/// input's content alone, making it a mathematical function of the input
/// view: the purity a parser computation must have.
pub open spec fn str_fn_pure<T, F: Fn(&str) -> ParseResult<T>>(f: F) -> bool {
    forall|s1: &str, s2: &str, r1: ParseResult<T>, r2: ParseResult<T>|
        #![trigger call_ensures(f, (s1,), r1), call_ensures(f, (s2,), r2)]
        s1@ == s2@ && call_ensures(f, (s1,), r1) && call_ensures(f, (s2,), r2) ==> r1 == r2
}

/// Holds when `out` is a result the function `f` can yield on some input
/// whose view is `input`.
pub open spec fn some_input_yields<T, F: Fn(&str) -> ParseResult<T>>(
    f: F,
    input: Seq<char>,
    out: ParseResult<T>,
) -> bool {
    exists|s: &str| s@ == input && #[trigger] call_ensures(f, (s,), out)
}

/// The computation of a bare parser built directly from a function of the
/// input: how primitives other than the literal matcher are added.
pub struct FromFn<F> {
    pub func: F,
}

impl<T, F: Fn(&str) -> ParseResult<T>> Compute for FromFn<F> {
    type Val = T;

    open spec fn wf(&self) -> bool {
        str_fn_total(self.func) && str_fn_pure(self.func)
    }

    open spec fn outcome(&self, input: Seq<char>) -> ParseResult<T> {
        (choose|r: ParseResult<T>, s: &str|
            s@ == input && #[trigger] call_ensures(self.func, (s,), r)).0
    }

    open spec fn admits(&self, input: Seq<char>, r: ParseResult<T>) -> bool {
        some_input_yields(self.func, input, r)
    }

    fn run(&self, input: &str) -> (r: ParseResult<T>) {
        let r = (self.func)(input);
        proof {
            assert(call_ensures(self.func, (input,), r));
            assert(exists|r2: ParseResult<T>, s2: &str|
                s2@ == input@ && #[trigger] call_ensures(self.func, (s2,), r2));
            let (r2, s2) = choose|r2: ParseResult<T>, s2: &str|
                s2@ == input@ && #[trigger] call_ensures(self.func, (s2,), r2);
            assert(r2 == r);
        }
        r
    }
}

/// Builds a bare parser directly from a function of the input. For the
/// parser to be well-formed, the function must be callable on every input
/// and pure: its possible results depend on the input's content alone.
pub fn from_fn<T, F: Fn(&str) -> ParseResult<T>>(func: F) -> (r: Parser<FromFn<F>>)
    ensures
        r.func.func == func,
        r.wf() == (str_fn_total(func) && str_fn_pure(func)),
{
    Parser { func: FromFn { func } }
}

/// Every outcome a bare parser admits is one its function can yield on an
/// input with that view.
pub proof fn lemma_from_fn_admits<T, F: Fn(&str) -> ParseResult<T>>(
    p: Parser<FromFn<F>>,
    input: Seq<char>,
    out: ParseResult<T>,
)
    requires
        p.admits(input, out),
    ensures
        some_input_yields(p.func.func, input, out),
{
}

/// A pure function pins a bare parser's outcome: whatever the function can
/// yield on an input with the given view is the parser's outcome there.
pub proof fn lemma_from_fn_outcome<T, F: Fn(&str) -> ParseResult<T>>(
    p: Parser<FromFn<F>>,
    input: Seq<char>,
    s: &str,
    out: ParseResult<T>,
)
    requires
        str_fn_pure(p.func.func),
        s@ == input,
        call_ensures(p.func.func, (s,), out),
    ensures
        p.outcome(input) == out,
{
    assert(exists|r2: ParseResult<T>, s2: &str|
        s2@ == input && #[trigger] call_ensures(p.func.func, (s2,), r2));
    let (r2, s2) = choose|r2: ParseResult<T>, s2: &str|
        s2@ == input && #[trigger] call_ensures(p.func.func, (s2,), r2);
    assert(r2 == out);
}

impl<C: Compute> Parser<C> {
    /// The parser is well-formed: its computation may be re-invoked
    /// arbitrarily on any input.
    pub open spec fn wf(&self) -> bool {
        self.func.wf()
    }

    /// The outcome this parser yields on a given input view.
    pub open spec fn outcome(&self, input: Seq<char>) -> ParseResult<C::Val> {
        self.func.outcome(input)
    }

    /// The relation every parse satisfies, tying the returned outcome to
    /// the contracts of the functions the computation captured.
    pub open spec fn admits(&self, input: Seq<char>, r: ParseResult<C::Val>) -> bool {
        self.func.admits(input, r)
    }

    /// Applies the wrapped computation to `input` and returns its outcome.
    pub fn parse(&self, input: &str) -> (r: ParseResult<C::Val>)
        requires
            self.wf(),
        ensures
            r == self.outcome(input@),
            self.admits(input@, r),
    {
        self.func.run(input)
    }

    /// Wraps this parser in a new one that transforms a success value with
    /// `func`; a failure propagates unchanged and `func` is never invoked on
    /// it. Nothing runs until the new parser is invoked.
    pub fn map<S, F: Fn(C::Val) -> S>(self, func: F) -> (r: Parser<Mapped<C, F>>)
        ensures
            r.func.inner == self.func,
            r.func.func == func,
            r.wf() == (self.wf() && is_total(func) && is_deterministic(func)),
            forall|input: Seq<char>| #[trigger] r.outcome(input) == (match self.outcome(input) {
                ParseResult::Success(v) => ParseResult::Success(applied(func, v)),
                ParseResult::Failure => ParseResult::<S>::Failure,
            }),
            forall|input: Seq<char>, out: ParseResult<S>| #[trigger] r.admits(input, out) == (
            self.admits(input, self.outcome(input)) && match self.outcome(input) {
                ParseResult::Success(v) => out matches ParseResult::Success(fr) && call_ensures(
                    func,
                    (v,),
                    fr,
                ),
                ParseResult::Failure => out is Failure,
            }),
    {
        Parser { func: Mapped { inner: self.func, func } }
    }

    /// Wraps this parser in a new one that hands a success value to `func`
    /// and returns whatever outcome `func` produces; a failure propagates
    /// unchanged and `func` is never invoked on it. This is the sequencing
    /// combinator: the second decision may depend on the first's value.
    pub fn and_then<S, F: Fn(C::Val) -> ParseResult<S>>(self, func: F) -> (r: Parser<
        Chained<C, F>,
    >)
        ensures
            r.func.inner == self.func,
            r.func.func == func,
            r.wf() == (self.wf() && is_total(func) && is_deterministic(func)),
            forall|input: Seq<char>| #[trigger] r.outcome(input) == (match self.outcome(input) {
                ParseResult::Success(v) => applied(func, v),
                ParseResult::Failure => ParseResult::<S>::Failure,
            }),
            forall|input: Seq<char>, out: ParseResult<S>| #[trigger] r.admits(input, out) == (
            self.admits(input, self.outcome(input)) && match self.outcome(input) {
                ParseResult::Success(v) => call_ensures(func, (v,), out),
                ParseResult::Failure => out is Failure,
            }),
    {
        Parser { func: Chained { inner: self.func, func } }
    }
}

/// Law: on an input where the wrapped parser succeeds with value `v`, the
/// parser built by `map` succeeds with the captured function's result on
/// `v`.
pub proof fn lemma_map_success<C: Compute, S, F: Fn(C::Val) -> S>(
    p: Parser<C>,
    func: F,
    input: Seq<char>,
    v: C::Val,
    fv: S,
)
    requires
        is_deterministic(func),
        p.outcome(input) == ParseResult::Success(v),
        call_ensures(func, (v,), fv),
    ensures
        (Parser {
            func: Mapped { inner: p.func, func },
        }).outcome(input) == ParseResult::Success(fv),
{
    assert(applied(func, v) == fv);
}

/// Law: on an input where the wrapped parser fails, the parser built by
/// `map` fails too, and the captured function plays no part in the outcome.
pub proof fn lemma_map_failure<C: Compute, S, F: Fn(C::Val) -> S>(
    p: Parser<C>,
    func: F,
    input: Seq<char>,
)
    requires
        p.outcome(input) is Failure,
    ensures
        (Parser { func: Mapped { inner: p.func, func } }).outcome(input) is Failure,
{
}

/// Law: on an input where the wrapped parser succeeds with value `v`, the
/// parser built by `and_then` yields exactly the outcome the captured
/// function produces on `v`.
pub proof fn lemma_and_then_success<C: Compute, S, F: Fn(C::Val) -> ParseResult<S>>(
    p: Parser<C>,
    func: F,
    input: Seq<char>,
    v: C::Val,
    fv: ParseResult<S>,
)
    requires
        is_deterministic(func),
        p.outcome(input) == ParseResult::Success(v),
        call_ensures(func, (v,), fv),
    ensures
        (Parser { func: Chained { inner: p.func, func } }).outcome(input) == fv,
{
    assert(applied(func, v) == fv);
}

/// Law: on an input where the wrapped parser fails, the parser built by
/// `and_then` fails too, and the captured function plays no part in the
/// outcome.
pub proof fn lemma_and_then_failure<C: Compute, S, F: Fn(C::Val) -> ParseResult<S>>(
    p: Parser<C>,
    func: F,
    input: Seq<char>,
)
    requires
        p.outcome(input) is Failure,
    ensures
        (Parser { func: Chained { inner: p.func, func } }).outcome(input) is Failure,
{
}

/// Law (functor identity): mapping with the identity transform leaves the
/// outcome unchanged on every input. The hypotheses say exactly that the
/// captured function is observationally the identity: on each argument it
/// can return that argument, and nothing else.
pub proof fn lemma_map_identity<C: Compute, F: Fn(C::Val) -> C::Val>(
    p: Parser<C>,
    func: F,
    input: Seq<char>,
)
    requires
        forall|v: C::Val| #[trigger] call_ensures(func, (v,), v),
        is_deterministic(func),
    ensures
        (Parser { func: Mapped { inner: p.func, func } }).outcome(input) == p.outcome(input),
{
    let out = p.outcome(input);
    match out {
        ParseResult::Success(v) => {
            assert(call_ensures(func, (v,), v));
            assert(applied(func, v) == v);
        },
        ParseResult::Failure => {},
    }
}

/// Law (functor composition): mapping with `f` and then with `g` equals
/// mapping once with a function behaving as `g` after `f`. The hypotheses
/// say that `f`, `g` and `h` each can return exactly one result on each
/// argument, and that `h`'s result is `g`'s result on `f`'s.
pub proof fn lemma_map_composition<
    C: Compute,
    S1,
    S2,
    F: Fn(C::Val) -> S1,
    G: Fn(S1) -> S2,
    H: Fn(C::Val) -> S2,
>(p: Parser<C>, f: F, g: G, h: H, input: Seq<char>)
    requires
        is_deterministic(f),
        is_deterministic(g),
        is_deterministic(h),
        forall|v: C::Val| #[trigger] call_ensures(f, (v,), applied(f, v)),
        forall|w: S1| #[trigger] call_ensures(g, (w,), applied(g, w)),
        forall|v: C::Val| #[trigger] call_ensures(h, (v,), applied(g, applied(f, v))),
    ensures
        (Parser {
            func: Mapped { inner: Mapped { inner: p.func, func: f }, func: g },
        }).outcome(input) == (Parser {
            func: Mapped { inner: p.func, func: h },
        }).outcome(input),
{
    let out = p.outcome(input);
    match out {
        ParseResult::Success(v) => {
            assert(call_ensures(h, (v,), applied(g, applied(f, v))));
            assert(applied(h, v) == applied(g, applied(f, v)));
        },
        ParseResult::Failure => {},
    }
}

/// Law (associativity of sequencing): chaining with `f` and then with `g`
/// equals chaining once with a function behaving as "run `f`, then hand its
/// success value to `g`". The hypotheses say that `f`, `g` and `h` each can
/// return exactly one result on each argument, and that `h`'s result is the
/// sequencing of `f`'s and `g`'s.
pub proof fn lemma_and_then_associativity<
    C: Compute,
    S1,
    S2,
    F: Fn(C::Val) -> ParseResult<S1>,
    G: Fn(S1) -> ParseResult<S2>,
    H: Fn(C::Val) -> ParseResult<S2>,
>(p: Parser<C>, f: F, g: G, h: H, input: Seq<char>)
    requires
        is_deterministic(f),
        is_deterministic(g),
        is_deterministic(h),
        forall|v: C::Val| #[trigger] call_ensures(f, (v,), applied(f, v)),
        forall|w: S1| #[trigger] call_ensures(g, (w,), applied(g, w)),
        forall|v: C::Val, w: S1|
            applied(f, v) == ParseResult::Success(w) ==> #[trigger] call_ensures(
                h,
                (v,),
                applied(g, w),
            ),
        forall|v: C::Val|
            applied(f, v) is Failure ==> #[trigger] call_ensures(
                h,
                (v,),
                ParseResult::<S2>::Failure,
            ),
    ensures
        (Parser {
            func: Chained { inner: Chained { inner: p.func, func: f }, func: g },
        }).outcome(input) == (Parser { func: Chained { inner: p.func, func: h } }).outcome(input),
{
    let out = p.outcome(input);
    match out {
        ParseResult::Success(v) => {
            match applied(f, v) {
                ParseResult::Success(w) => {
                    assert(call_ensures(h, (v,), applied(g, w)));
                    assert(applied(h, v) == applied(g, w));
                },
                ParseResult::Failure => {
                    assert(call_ensures(h, (v,), ParseResult::<S2>::Failure));
                    assert(applied(h, v) == ParseResult::<S2>::Failure);
                },
            }
        },
        ParseResult::Failure => {},
    }
}

/// Law (monad right identity): sequencing with the success constructor
/// leaves the outcome unchanged on every input. The hypotheses say exactly
/// that the captured function behaves as `ParseResult::success`: on each
/// argument it can return the success of that argument, and nothing else.
pub proof fn lemma_and_then_right_identity<C: Compute, F: Fn(C::Val) -> ParseResult<C::Val>>(
    p: Parser<C>,
    func: F,
    input: Seq<char>,
)
    requires
        forall|v: C::Val| #[trigger] call_ensures(func, (v,), ParseResult::Success(v)),
        is_deterministic(func),
    ensures
        (Parser { func: Chained { inner: p.func, func } }).outcome(input) == p.outcome(input),
{
    let out = p.outcome(input);
    match out {
        ParseResult::Success(v) => {
            assert(call_ensures(func, (v,), ParseResult::Success(v)));
            assert(applied(func, v) == ParseResult::Success(v));
        },
        ParseResult::Failure => {},
    }
}

} // verus!
