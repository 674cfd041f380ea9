use parser_combinator::match_string;
use parser_combinator::FromFn;
use parser_combinator::ParseResult;
use parser_combinator::Parser;

#[test]
fn test_match_string() {
    let p = match_string("+");
    assert_eq!(p.parse("s"), ParseResult::failure());
    assert_eq!(p.parse("+"), ParseResult::success("+".to_string()));
    assert_eq!(p.parse("="), ParseResult::failure());

    let p = match_string("abc");
    assert_eq!(p.parse("abe"), ParseResult::failure());
    assert_eq!(p.parse("abcd"), ParseResult::success("abc".to_string()));
    assert_eq!(p.parse("x"), ParseResult::failure());
}

#[test]
fn test_parse() {
    let p = Parser {
        func: FromFn {
            func: |s: &str| ParseResult::success(s.to_string()),
        },
    };
    let r = p.parse("a");
    assert_eq!(r, ParseResult::success("a".to_string()));
}

#[test]
fn test_parse_map() {
    let p = Parser {
        func: FromFn {
            func: |s: &str| ParseResult::success(s.to_string()),
        },
    };
    let p = p.map(|_| 10);
    let r = p.parse("a");
    assert_eq!(r, ParseResult::success(10));
}

#[test]
fn test_parse_and_then() {
    let p = Parser {
        func: FromFn {
            func: |s: &str| ParseResult::success(s.to_string()),
        },
    };
    let p = p.and_then(|_| ParseResult::success(15));
    let r = p.parse("a");
    assert_eq!(r, ParseResult::success(15));
}

#[test]
fn test_match_string_empty_pattern() {
    let p = match_string("");
    assert_eq!(p.parse(""), ParseResult::success(String::new()));
    assert_eq!(p.parse("x"), ParseResult::success(String::new()));
}

#[test]
fn test_match_string_pattern_longer_than_input() {
    let p = match_string("abc");
    assert_eq!(p.parse("ab"), ParseResult::failure());
    assert_eq!(p.parse(""), ParseResult::failure());
}

#[test]
fn test_match_string_multibyte() {
    let p = match_string("héllo");
    assert_eq!(p.parse("héllo there"), ParseResult::success("héllo".to_string()));
    assert_eq!(p.parse("hèllo there"), ParseResult::failure());
}

#[test]
fn test_map_success_value() {
    let p = match_string("10").map(|s: String| s.len());
    assert_eq!(p.parse("10x"), ParseResult::success(2));
}

#[test]
fn test_map_failure_skips_function() {
    let p = match_string("10").map(|_: String| -> usize { panic!("invoked on failure") });
    assert_eq!(p.parse("20"), ParseResult::failure());
}

#[test]
fn test_and_then_success_outcome() {
    let p = match_string("ab").and_then(|s: String| {
        if s.len() == 2 {
            ParseResult::success(s.len())
        } else {
            ParseResult::failure()
        }
    });
    assert_eq!(p.parse("abz"), ParseResult::success(2));
}

#[test]
fn test_and_then_can_fail_after_success() {
    let p = match_string("ab").and_then(|_: String| -> ParseResult<usize> { ParseResult::failure() });
    assert_eq!(p.parse("ab"), ParseResult::failure());
}

#[test]
fn test_and_then_failure_skips_function() {
    let p = match_string("ab")
        .and_then(|_: String| -> ParseResult<usize> { panic!("invoked on failure") });
    assert_eq!(p.parse("ba"), ParseResult::failure());
}

#[test]
fn test_map_identity_unchanged() {
    let inputs = ["ab", "abc", "b", ""];
    for input in inputs {
        let mapped = match_string("ab").map(|v: String| v);
        let plain = match_string("ab");
        assert_eq!(mapped.parse(input), plain.parse(input));
    }
}

#[test]
fn test_and_then_success_unchanged() {
    let inputs = ["ab", "abc", "b", ""];
    for input in inputs {
        let chained = match_string("ab").and_then(ParseResult::success);
        let plain = match_string("ab");
        assert_eq!(chained.parse(input), plain.parse(input));
    }
}

#[test]
fn test_result_success_failure() {
    assert_eq!(ParseResult::success(10), ParseResult::Success(10));
    assert_eq!(ParseResult::<u32>::failure(), ParseResult::<u32>::Failure);
}

#[test]
fn test_result_map() {
    let r = ParseResult::Success("abc");
    assert_eq!(r.map(|s| s.len()), ParseResult::success(3));
    let r = ParseResult::<&str>::Failure;
    assert_eq!(r.map(|_| -> usize { panic!("invoked on failure") }), ParseResult::failure());
}

#[test]
fn test_result_and_then() {
    let r = ParseResult::Success("abcd");
    assert_eq!(r.and_then(|s| ParseResult::Success(s.len())), ParseResult::success(4));
    let r = ParseResult::Success("abcd");
    assert_eq!(
        r.and_then(|_| -> ParseResult<usize> { ParseResult::Failure }),
        ParseResult::failure()
    );
    let r = ParseResult::<&str>::Failure;
    assert_eq!(
        r.and_then(|_| -> ParseResult<usize> { panic!("invoked on failure") }),
        ParseResult::failure()
    );
}

#[test]
fn test_parser_reusable() {
    let p = match_string("abc");
    assert_eq!(p.parse("abcd"), ParseResult::success("abc".to_string()));
    assert_eq!(p.parse("abcd"), ParseResult::success("abc".to_string()));
    assert_eq!(p.parse("zzz"), ParseResult::failure());
    assert_eq!(p.parse("abcd"), ParseResult::success("abc".to_string()));
}

#[test]
fn test_from_fn_parser() {
    let p = parser_combinator::from_fn(|s: &str| {
        if s.len() % 2 == 0 {
            ParseResult::success(s.len())
        } else {
            ParseResult::failure()
        }
    });
    assert_eq!(p.parse("ab"), ParseResult::success(2));
    assert_eq!(p.parse("abc"), ParseResult::failure());
}
