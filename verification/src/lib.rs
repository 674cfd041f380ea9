//! A minimal parser-combinator core.
//!
//! A [`Parser`] wraps one pure computation from an input view to a
//! [`ParseResult`]; combinators build new parsers from existing ones, and
//! [`match_string`] is the one primitive constructor, matching a literal
//! prefix of the input.
use vstd::prelude::*;

pub mod parser;
pub mod parser_result;

verus! {

use vstd::string::StrSliceExecFns;

pub use crate::parser::Chained;
pub use crate::parser::Compute;
pub use crate::parser::from_fn;
pub use crate::parser::FromFn;
pub use crate::parser::Mapped;
pub use crate::parser::Parser;
pub use crate::parser_result::ParseResult;

/// The computation of the literal matcher: does the input view begin with
/// the captured pattern, character for character?
pub struct Literal {
    pub pattern: String,
}

impl Compute for Literal {
    type Val = String;

    open spec fn wf(&self) -> bool {
        true
    }

    open spec fn outcome(&self, input: Seq<char>) -> ParseResult<String> {
        if self.pattern@.is_prefix_of(input) {
            ParseResult::Success(self.pattern)
        } else {
            ParseResult::Failure
        }
    }

    open spec fn admits(&self, input: Seq<char>, r: ParseResult<String>) -> bool {
        r == self.outcome(input)
    }

    fn run(&self, input: &str) -> (r: ParseResult<String>) {
        let n: usize = self.pattern.as_str().unicode_len();
        let m: usize = input.unicode_len();
        if n > m {
            return ParseResult::Failure;
        }
        let mut i: usize = 0;
        while i < n
            invariant
                i <= n,
                n == self.pattern@.len(),
                m == input@.len(),
                n <= m,
                forall|j: int| 0 <= j < i ==> self.pattern@[j] == input@[j],
            decreases n - i,
        {
            if self.pattern.as_str().get_char(i) != input.get_char(i) {
                assert(!self.pattern@.is_prefix_of(input@)) by {
                    assert(self.pattern@[i as int] != input@.subrange(0, n as int)[i as int]);
                }
                return ParseResult::Failure;
            }
            i += 1;
        }
        assert(self.pattern@ =~= input@.subrange(0, n as int));
        ParseResult::Success(self.pattern.clone())
    }
}

/// Builds a parser that matches `pattern` as a literal prefix of the input:
/// it succeeds with a value content-equal to `pattern` exactly when the
/// input starts with `pattern`, and fails otherwise. The outcome does not
/// report how much of the input was examined: trailing input beyond the
/// pattern is ignored.
pub fn match_string(pattern: &str) -> (r: Parser<Literal>)
    ensures
        r.func.pattern@ == pattern@,
        r.wf(),
{
    Parser { func: Literal { pattern: pattern.to_owned() } }
}

/// Law: a literal-matching parser succeeds, with a value content-equal to
/// its pattern, exactly when the input view starts with the pattern; on
/// every other input it fails.
pub proof fn lemma_match_literal(p: Parser<Literal>, input: Seq<char>)
    ensures
        p.func.pattern@.is_prefix_of(input) <==> (p.outcome(input) matches ParseResult::Success(v)
            && v@ == p.func.pattern@),
        !p.func.pattern@.is_prefix_of(input) <==> p.outcome(input) is Failure,
{
}

} // verus!
