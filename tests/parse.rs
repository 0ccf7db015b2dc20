use autometrics::{
    fraction_of_percent, item_kind, parse_args, read_number, to_seconds, token_span, Alerts, Args,
    Dec, Delimiter, ErrorKind, ItemKind, LitKind, Outcome, ParseError, Spacing, TimeUnit, Token,
};
use rust_decimal::Decimal;
use std::str::FromStr;

fn ident(s: &str) -> Token {
    Token::Ident(s.to_string(), 0)
}

fn punct(c: char) -> Token {
    Token::Punct(c, Spacing::Alone, 0)
}

fn joint(c: char) -> Token {
    Token::Punct(c, Spacing::Joint, 0)
}

fn int_lit(digits: &str, suffix: &str) -> Token {
    Token::Literal { kind: LitKind::Int, digits: digits.to_string(), suffix: suffix.to_string(), span: 0 }
}

fn float_lit(digits: &str, suffix: &str) -> Token {
    Token::Literal { kind: LitKind::Float, digits: digits.to_string(), suffix: suffix.to_string(), span: 0 }
}

fn parens(content: Vec<Token>) -> Token {
    Token::Group(Delimiter::Parenthesis, content, 0)
}

fn dec(d: Dec) -> Decimal {
    Decimal::from_i128_with_scale(d.mantissa, d.scale)
}

fn text(s: &str) -> Decimal {
    Decimal::from_str(s).unwrap()
}

fn parse(tokens: Vec<Token>, alerts_enabled: bool) -> Result<Args, ErrorKind> {
    parse_args(tokens, alerts_enabled).map_err(|e: ParseError| e.kind)
}

fn at(t: Token, span: usize) -> Token {
    match t {
        Token::Ident(s, _) => Token::Ident(s, span),
        Token::Punct(c, sp, _) => Token::Punct(c, sp, span),
        Token::Literal { kind, digits, suffix, .. } => Token::Literal { kind, digits, suffix, span },
        Token::Group(d, content, _) => Token::Group(d, content, span),
    }
}

fn alerts_of(content: Vec<Token>) -> Result<Alerts, ErrorKind> {
    parse(vec![ident("alerts"), parens(content)], true).map(|a| a.alerts.unwrap())
}

fn latency_of(content: Vec<Token>) -> Result<Alerts, ErrorKind> {
    alerts_of(vec![ident("latency"), parens(content)])
}

#[test]
fn empty_arguments() {
    let args = parse(vec![], false).unwrap();
    assert_eq!(args, Args { track_concurrency: false, outcome: None, alerts: None });
}

#[test]
fn order_of_arguments_does_not_matter() {
    let a = parse(
        vec![ident("track_concurrency"), punct(','), ident("ok_if"), punct('='), ident("x")],
        false,
    );
    let b = parse(
        vec![ident("ok_if"), punct('='), ident("x"), punct(','), ident("track_concurrency")],
        false,
    );
    assert_eq!(a, b);
    let args = a.unwrap();
    assert!(args.track_concurrency);
    assert_eq!(args.outcome, Some(Outcome::OkIf(vec![ident("x")])));
}

#[test]
fn order_with_alerts_does_not_matter() {
    let alerts = || parens(vec![ident("success_rate"), punct('='), int_lit("99", ""), punct('%')]);
    let a = parse(
        vec![ident("error_if"), punct('='), ident("e"), punct(','), ident("alerts"), alerts()],
        true,
    );
    let b = parse(
        vec![ident("alerts"), alerts(), ident("error_if"), punct('='), ident("e")],
        true,
    );
    assert_eq!(a, b);
    assert!(a.is_ok());
}

#[test]
fn expression_runs_to_top_level_comma() {
    let call = Token::Group(Delimiter::Parenthesis, vec![ident("a"), punct(','), ident("b")], 0);
    let args = parse(
        vec![
            ident("error_if"),
            punct('='),
            ident("f"),
            call,
            punct(','),
            ident("track_concurrency"),
        ],
        false,
    )
    .unwrap();
    let expected = vec![
        ident("f"),
        Token::Group(Delimiter::Parenthesis, vec![ident("a"), punct(','), ident("b")], 0),
    ];
    assert_eq!(args.outcome, Some(Outcome::ErrorIf(expected)));
    assert!(args.track_concurrency);
}

#[test]
fn success_rate_is_exact_fraction() {
    let alerts = alerts_of(vec![ident("success_rate"), punct('='), float_lit("99.9", ""), punct('%')])
        .unwrap();
    assert_eq!(dec(alerts.success_rate.unwrap()), text("0.999"));
    assert!(alerts.latency.is_none());
}

#[test]
fn latency_in_milliseconds() {
    let alerts = latency_of(vec![int_lit("99", ""), punct('%'), punct('<'), int_lit("200", "ms")]).unwrap();
    let latency = alerts.latency.unwrap();
    assert_eq!(dec(latency.percentile), text("0.99"));
    assert_eq!(dec(latency.target_seconds), text("0.2"));
    assert!(alerts.success_rate.is_none());
}

#[test]
fn latency_in_seconds_with_less_or_equal() {
    let alerts = latency_of(vec![
        float_lit("99.9", ""),
        punct('%'),
        joint('<'),
        punct('='),
        int_lit("1", "s"),
    ])
    .unwrap();
    let latency = alerts.latency.unwrap();
    assert_eq!(dec(latency.percentile), text("0.999"));
    assert_eq!(dec(latency.target_seconds), text("1"));
}

#[test]
fn latency_with_equals() {
    let alerts = latency_of(vec![int_lit("95", ""), punct('%'), punct('='), float_lit("0.5", "s")]).unwrap();
    let latency = alerts.latency.unwrap();
    assert_eq!(dec(latency.percentile), text("0.95"));
    assert_eq!(dec(latency.target_seconds), text("0.5"));
}

#[test]
fn success_rate_and_latency_together() {
    let alerts = alerts_of(vec![
        ident("success_rate"),
        punct('='),
        float_lit("99.9", ""),
        punct('%'),
        punct(','),
        ident("latency"),
        parens(vec![int_lit("99", ""), punct('%'), punct('<'), int_lit("200", "ms")]),
    ])
    .unwrap();
    assert_eq!(dec(alerts.success_rate.unwrap()), text("0.999"));
    assert_eq!(dec(alerts.latency.unwrap().target_seconds), text("0.2"));
}

#[test]
fn ok_if_and_error_if_conflict() {
    let first = parse(
        vec![ident("ok_if"), punct('='), ident("a"), punct(','), ident("error_if"), punct('='), ident("b")],
        false,
    );
    assert_eq!(first, Err(ErrorKind::OkIfAndErrorIf));
    let second = parse(
        vec![ident("error_if"), punct('='), ident("b"), punct(','), ident("ok_if"), punct('='), ident("a")],
        false,
    );
    assert_eq!(second, Err(ErrorKind::OkIfAndErrorIf));
    assert_eq!(ErrorKind::OkIfAndErrorIf.message(), "cannot use both `ok_if` and `error_if`");
}

#[test]
fn duplicate_ok_if() {
    let r = parse(
        vec![ident("ok_if"), punct('='), ident("a"), punct(','), ident("ok_if"), punct('='), ident("b")],
        false,
    );
    assert_eq!(r, Err(ErrorKind::DuplicateOkIf));
    assert_eq!(ErrorKind::DuplicateOkIf.message(), "expected only a single `ok_if` argument");
}

#[test]
fn duplicate_error_if() {
    let r = parse(
        vec![ident("error_if"), punct('='), ident("a"), punct(','), ident("error_if"), punct('='), ident("b")],
        false,
    );
    assert_eq!(r, Err(ErrorKind::DuplicateErrorIf));
}

#[test]
fn latency_without_unit() {
    let r = latency_of(vec![int_lit("50", ""), punct('%'), punct('<'), int_lit("10", "")]);
    assert_eq!(r, Err(ErrorKind::ExpectedTimeUnit));
    assert_eq!(ErrorKind::ExpectedTimeUnit.message(), "expected unit of time (s or ms)");
}

#[test]
fn latency_with_unknown_unit() {
    let r = latency_of(vec![int_lit("50", ""), punct('%'), punct('<'), int_lit("10", "min")]);
    assert_eq!(r, Err(ErrorKind::ExpectedTimeUnit));
}

#[test]
fn latency_without_comparison() {
    let r = latency_of(vec![int_lit("50", ""), punct('%'), punct('>'), int_lit("10", "s")]);
    assert_eq!(r, Err(ErrorKind::ExpectedComparison));
}

#[test]
fn latency_without_percent() {
    let r = latency_of(vec![int_lit("50", ""), punct('<'), int_lit("10", "s")]);
    assert_eq!(r, Err(ErrorKind::ExpectedPercent));
}

#[test]
fn latency_with_trailing_token() {
    let r = latency_of(vec![int_lit("50", ""), punct('%'), punct('<'), int_lit("10", "s"), ident("x")]);
    assert_eq!(r, Err(ErrorKind::UnexpectedToken));
}

#[test]
fn latency_empty() {
    assert_eq!(latency_of(vec![]), Err(ErrorKind::ExpectedNumber));
}

#[test]
fn latency_missing_target() {
    let r = latency_of(vec![int_lit("50", ""), punct('%'), punct('<')]);
    assert_eq!(r, Err(ErrorKind::ExpectedNumber));
}

#[test]
fn latency_without_parentheses() {
    assert_eq!(alerts_of(vec![ident("latency")]), Err(ErrorKind::ExpectedParentheses));
}

#[test]
fn duplicate_alert_entries() {
    let rate = || vec![ident("success_rate"), punct('='), int_lit("99", ""), punct('%')];
    let mut twice = rate();
    twice.extend(rate());
    assert_eq!(alerts_of(twice), Err(ErrorKind::DuplicateSuccessRate));
    let latency = || {
        vec![ident("latency"), parens(vec![int_lit("99", ""), punct('%'), punct('<'), int_lit("1", "s")])]
    };
    let mut twice = latency();
    twice.extend(latency());
    assert_eq!(alerts_of(twice), Err(ErrorKind::DuplicateLatency));
}

#[test]
fn success_rate_errors() {
    assert_eq!(
        alerts_of(vec![ident("success_rate"), int_lit("99", ""), punct('%')]),
        Err(ErrorKind::ExpectedEquals)
    );
    assert_eq!(alerts_of(vec![ident("success_rate"), punct('=')]), Err(ErrorKind::ExpectedNumber));
    assert_eq!(
        alerts_of(vec![ident("success_rate"), punct('='), int_lit("99", "")]),
        Err(ErrorKind::ExpectedPercent)
    );
    assert_eq!(
        alerts_of(vec![ident("success_rate"), punct('='), ident("x"), punct('%')]),
        Err(ErrorKind::ExpectedNumber)
    );
}

#[test]
fn unknown_alert_entry() {
    assert_eq!(alerts_of(vec![ident("errors")]), Err(ErrorKind::ExpectedAlert));
}

#[test]
fn alerts_when_disabled() {
    let r = parse(vec![ident("alerts"), parens(vec![])], false);
    assert_eq!(r, Err(ErrorKind::AlertsDisabled));
    assert_eq!(ErrorKind::AlertsDisabled.message(), "feature \"alerts\" is required to use alerts");
}

#[test]
fn alerts_without_parentheses() {
    let r = parse(vec![ident("alerts"), ident("x")], true);
    assert_eq!(r, Err(ErrorKind::ExpectedParentheses));
    let r = parse(vec![ident("alerts"), Token::Group(Delimiter::Bracket, vec![], 0)], true);
    assert_eq!(r, Err(ErrorKind::ExpectedParentheses));
}

#[test]
fn empty_alerts() {
    let r = parse(vec![ident("alerts"), parens(vec![])], true).unwrap();
    assert_eq!(r.alerts, Some(Alerts { success_rate: None, latency: None }));
}

#[test]
fn unknown_argument() {
    assert_eq!(parse(vec![ident("foo")], true), Err(ErrorKind::ExpectedArgument));
    assert_eq!(parse(vec![int_lit("1", "")], true), Err(ErrorKind::ExpectedArgument));
}

#[test]
fn missing_equals_or_expression() {
    assert_eq!(parse(vec![ident("ok_if"), ident("x")], false), Err(ErrorKind::ExpectedEquals));
    assert_eq!(parse(vec![ident("ok_if")], false), Err(ErrorKind::ExpectedEquals));
    assert_eq!(
        parse(vec![ident("ok_if"), punct('='), punct(',')], false),
        Err(ErrorKind::ExpectedExpression)
    );
    assert_eq!(parse(vec![ident("error_if"), punct('=')], false), Err(ErrorKind::ExpectedExpression));
}

#[test]
fn commas_are_optional() {
    let r = parse(
        vec![punct(','), ident("track_concurrency"), punct(','), punct(',')],
        false,
    )
    .unwrap();
    assert!(r.track_concurrency);
    assert_eq!(r.outcome, None);
}

#[test]
fn invalid_number() {
    let r = read_number(&Token::Literal {
        kind: LitKind::Int,
        digits: "99999999999999999999999999999999999".to_string(),
        suffix: String::new(),
        span: 0,
    });
    assert_eq!(r.map_err(|e| e.kind), Err(ErrorKind::InvalidNumber));
}

#[test]
fn number_readings() {
    let (d, u) = read_number(&int_lit("200", "ms")).unwrap();
    assert_eq!(dec(d), text("200"));
    assert_eq!(u, Some(TimeUnit::Milliseconds));
    let (d, u) = read_number(&float_lit("1.5", "")).unwrap();
    assert_eq!(dec(d), text("1.5"));
    assert_eq!(u, None);
    let string_literal = Token::Literal {
        kind: LitKind::Other,
        digits: "1".to_string(),
        suffix: String::new(),
        span: 0,
    };
    assert_eq!(read_number(&string_literal).map_err(|e| e.kind), Err(ErrorKind::ExpectedNumber));
}

#[test]
fn percent_and_seconds() {
    let half = fraction_of_percent(Dec { mantissa: 50, scale: 0 }, None).unwrap();
    assert_eq!(dec(half), text("0.5"));
    let s = to_seconds(Dec { mantissa: 250, scale: 0 }, Some(TimeUnit::Milliseconds), None).unwrap();
    assert_eq!(dec(s), text("0.25"));
    let s = to_seconds(Dec { mantissa: 3, scale: 0 }, Some(TimeUnit::Seconds), None).unwrap();
    assert_eq!(dec(s), text("3"));
    assert_eq!(
        to_seconds(Dec { mantissa: 3, scale: 0 }, None, Some(7)),
        Err(ParseError { kind: ErrorKind::ExpectedTimeUnit, at: Some(7) })
    );
}

#[test]
fn item_kinds() {
    assert_eq!(item_kind(&vec![ident("impl"), ident("Foo")]), ItemKind::Impl);
    assert_eq!(item_kind(&vec![ident("fn"), ident("foo")]), ItemKind::Function);
    assert_eq!(item_kind(&vec![ident("pub"), ident("fn")]), ItemKind::Function);
    assert_eq!(item_kind(&vec![]), ItemKind::Function);
}

#[test]
fn errors_name_the_offending_token() {
    let r = parse_args(
        vec![
            at(ident("ok_if"), 1),
            at(punct('='), 2),
            at(ident("a"), 3),
            at(punct(','), 4),
            at(ident("error_if"), 5),
            at(punct('='), 6),
            at(ident("b"), 7),
        ],
        false,
    );
    assert_eq!(r, Err(ParseError { kind: ErrorKind::OkIfAndErrorIf, at: Some(5) }));
    let r = parse_args(vec![at(ident("bogus"), 9)], false);
    assert_eq!(r, Err(ParseError { kind: ErrorKind::ExpectedArgument, at: Some(9) }));
}

#[test]
fn errors_at_the_end_point_past_the_last_token() {
    let r = parse_args(vec![at(ident("ok_if"), 1)], false);
    assert_eq!(r, Err(ParseError { kind: ErrorKind::ExpectedEquals, at: None }));
    let group = Token::Group(
        Delimiter::Parenthesis,
        vec![at(int_lit("50", ""), 2), at(punct('%'), 3), at(punct('<'), 4)],
        8,
    );
    let content = vec![at(ident("latency"), 1), group];
    let r = parse_args(vec![ident("alerts"), Token::Group(Delimiter::Parenthesis, content, 9)], true);
    assert_eq!(r, Err(ParseError { kind: ErrorKind::ExpectedNumber, at: Some(8) }));
}

#[test]
fn missing_unit_is_reported_at_the_number() {
    let group = Token::Group(
        Delimiter::Parenthesis,
        vec![at(int_lit("50", ""), 2), at(punct('%'), 3), at(punct('<'), 4), at(int_lit("10", ""), 5)],
        8,
    );
    let content = vec![at(ident("latency"), 1), group];
    let r = parse_args(vec![ident("alerts"), Token::Group(Delimiter::Parenthesis, content, 9)], true);
    assert_eq!(r, Err(ParseError { kind: ErrorKind::ExpectedTimeUnit, at: Some(5) }));
    assert_eq!(token_span(&at(ident("x"), 4)), 4);
}

#[test]
fn commas_between_predicate_and_next_argument_are_optional() {
    let r = parse(
        vec![ident("ok_if"), punct('='), ident("a"), ident("error_if"), punct('='), ident("b")],
        false,
    );
    assert_eq!(r, Err(ErrorKind::OkIfAndErrorIf));
    let without = parse(vec![ident("ok_if"), punct('='), ident("a"), ident("track_concurrency")], false);
    let with = parse(
        vec![ident("ok_if"), punct('='), ident("a"), punct(','), ident("track_concurrency")],
        false,
    );
    assert_eq!(without, with);
    let args = without.unwrap();
    assert!(args.track_concurrency);
    assert_eq!(args.outcome, Some(Outcome::OkIf(vec![ident("a")])));
}

#[test]
fn expression_with_turbofish_keeps_its_commas() {
    let tokens = vec![
        ident("error_if"),
        punct('='),
        ident("f"),
        joint(':'),
        punct(':'),
        punct('<'),
        ident("A"),
        punct(','),
        ident("B"),
        punct('>'),
        parens(vec![]),
        punct(','),
        ident("track_concurrency"),
    ];
    let args = parse(tokens, false).unwrap();
    assert!(args.track_concurrency);
    let expected = vec![
        ident("f"),
        joint(':'),
        punct(':'),
        punct('<'),
        ident("A"),
        punct(','),
        ident("B"),
        punct('>'),
        parens(vec![]),
    ];
    assert_eq!(args.outcome, Some(Outcome::ErrorIf(expected)));
}

#[test]
fn method_call_expression() {
    let call = vec![
        ident("result"),
        punct('.'),
        ident("is_ok"),
        parens(vec![]),
    ];
    let mut tokens = vec![ident("ok_if"), punct('=')];
    tokens.extend(call);
    let args = parse(tokens, false).unwrap();
    let expected = vec![ident("result"), punct('.'), ident("is_ok"), parens(vec![])];
    assert_eq!(args.outcome, Some(Outcome::OkIf(expected)));
}

#[test]
fn not_an_expression() {
    let r = parse(vec![ident("ok_if"), punct('='), punct('%')], false);
    assert_eq!(r, Err(ErrorKind::ExpectedExpression));
}
