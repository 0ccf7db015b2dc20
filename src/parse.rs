//! The attribute's argument grammar.
//!
//! ```text
//! args     := (arg | ",")*
//! arg      := "track_concurrency" | "ok_if" "=" expr | "error_if" "=" expr
//!           | "alerts" "(" (alert | ",")* ")"
//! alert    := "success_rate" "=" number "%"
//!           | "latency" "(" number "%" ("<" | "<=" | "=") number ("s" | "ms") ")"
//! ```
//!
//! An expression runs as far as syn's expression parser reads it. Percentages
//! are kept as exact decimal fractions and latency targets in seconds.
use crate::decimal::{
    decimal_of, digits_value, divide, is_short_digits, quotient_of, read_decimal, Dec,
};
use crate::expr::{trees_after_expr, trees_after_expr_of};
use crate::token::{
    group_content, ident_is, is_paren_group, punct_is, span_of, text_is, text_of, token_is_ident,
    token_is_punct, token_span, write_text, Delimiter, LitKind, SpanId, Spacing, Token,
};
use vstd::prelude::*;
use vstd::string::*;

verus! {

/// Why an argument list was rejected.
#[derive(Clone, Copy, Debug, PartialEq, Eq, Structural)]
pub enum ErrorKind {
    /// Expected one of `track_concurrency`, `ok_if`, `error_if`, `alerts` or `,`.
    ExpectedArgument,
    /// Expected one of `success_rate`, `latency` or `,` inside `alerts(...)`.
    ExpectedAlert,
    ExpectedParentheses,
    ExpectedEquals,
    ExpectedPercent,
    /// Expected one of `<`, `<=` or `=`.
    ExpectedComparison,
    /// Expected an integer or floating-point literal, unsuffixed or with a
    /// unit of time.
    ExpectedNumber,
    ExpectedExpression,
    /// Tokens are left over inside `latency(...)`.
    UnexpectedToken,
    /// The number does not fit an exact decimal.
    InvalidNumber,
    DuplicateOkIf,
    DuplicateErrorIf,
    OkIfAndErrorIf,
    DuplicateSuccessRate,
    DuplicateLatency,
    /// `alerts` was used while alerts are switched off.
    AlertsDisabled,
    /// A latency target lacks the unit `s` or `ms`.
    ExpectedTimeUnit,
}

impl ErrorKind {
    pub open spec fn spec_message(self) -> Seq<char> {
        match self {
            ErrorKind::ExpectedArgument =>
                "expected one of: `track_concurrency`, `ok_if`, `error_if`, `alerts`, `,`"@,
            ErrorKind::ExpectedAlert => "expected one of: `success_rate`, `latency`, `,`"@,
            ErrorKind::ExpectedParentheses => "expected parentheses"@,
            ErrorKind::ExpectedEquals => "expected `=`"@,
            ErrorKind::ExpectedPercent => "expected `%`"@,
            ErrorKind::ExpectedComparison => "expected one of: `<=`, `<`, `=`"@,
            ErrorKind::ExpectedNumber => "expected integer literal or floating point literal"@,
            ErrorKind::ExpectedExpression => "expected an expression"@,
            ErrorKind::UnexpectedToken => "unexpected token"@,
            ErrorKind::InvalidNumber => "number does not fit an exact decimal"@,
            ErrorKind::DuplicateOkIf => "expected only a single `ok_if` argument"@,
            ErrorKind::DuplicateErrorIf => "expected only a single `error_if` argument"@,
            ErrorKind::OkIfAndErrorIf => "cannot use both `ok_if` and `error_if`"@,
            ErrorKind::DuplicateSuccessRate => "expected only a single `success_rate` argument"@,
            ErrorKind::DuplicateLatency => "expected only a single `latency` argument"@,
            ErrorKind::AlertsDisabled => "feature \"alerts\" is required to use alerts"@,
            ErrorKind::ExpectedTimeUnit => "expected unit of time (s or ms)"@,
        }
    }

    /// The error as a sentence for the author of the attribute.
    pub fn message(&self) -> (r: String)
        ensures
            r@ == self.spec_message(),
    {
        match self {
            ErrorKind::ExpectedArgument => String::from_str(
                "expected one of: `track_concurrency`, `ok_if`, `error_if`, `alerts`, `,`",
            ),
            ErrorKind::ExpectedAlert => String::from_str(
                "expected one of: `success_rate`, `latency`, `,`",
            ),
            ErrorKind::ExpectedParentheses => String::from_str("expected parentheses"),
            ErrorKind::ExpectedEquals => String::from_str("expected `=`"),
            ErrorKind::ExpectedPercent => String::from_str("expected `%`"),
            ErrorKind::ExpectedComparison => String::from_str("expected one of: `<=`, `<`, `=`"),
            ErrorKind::ExpectedNumber => String::from_str(
                "expected integer literal or floating point literal",
            ),
            ErrorKind::ExpectedExpression => String::from_str("expected an expression"),
            ErrorKind::UnexpectedToken => String::from_str("unexpected token"),
            ErrorKind::InvalidNumber => String::from_str("number does not fit an exact decimal"),
            ErrorKind::DuplicateOkIf => String::from_str("expected only a single `ok_if` argument"),
            ErrorKind::DuplicateErrorIf => String::from_str(
                "expected only a single `error_if` argument",
            ),
            ErrorKind::OkIfAndErrorIf => String::from_str("cannot use both `ok_if` and `error_if`"),
            ErrorKind::DuplicateSuccessRate => String::from_str(
                "expected only a single `success_rate` argument",
            ),
            ErrorKind::DuplicateLatency => String::from_str(
                "expected only a single `latency` argument",
            ),
            ErrorKind::AlertsDisabled => String::from_str(
                "feature \"alerts\" is required to use alerts",
            ),
            ErrorKind::ExpectedTimeUnit => String::from_str("expected unit of time (s or ms)"),
        }
    }
}

/// A rejection: what went wrong, and where; `at` is `None` at the end of
/// the arguments.
#[derive(Clone, Copy, Debug, PartialEq, Eq, Structural)]
pub struct ParseError {
    pub kind: ErrorKind,
    pub at: Option<SpanId>,
}

/// An error of `kind` at token `i` of `c`, or at `end` where `c` has no
/// token `i`.
pub open spec fn err_at(kind: ErrorKind, c: Seq<Token>, i: int, end: Option<SpanId>) -> ParseError {
    ParseError { kind, at: if 0 <= i < c.len() { Some(span_of(c[i])) } else { end } }
}

/// An error of `kind` at the token `t`.
pub open spec fn err_on(kind: ErrorKind, t: Token) -> ParseError {
    ParseError { kind, at: Some(span_of(t)) }
}

fn error_at(kind: ErrorKind, c: &Vec<Token>, i: usize, end: Option<SpanId>) -> (r: ParseError)
    ensures
        r == err_at(kind, c@, i as int, end),
{
    if i < c.len() {
        ParseError { kind, at: Some(token_span(&c[i])) }
    } else {
        ParseError { kind, at: end }
    }
}

/// The unit written after a number.
#[derive(Clone, Copy, Debug, PartialEq, Eq, Structural)]
pub enum TimeUnit {
    Seconds,
    Milliseconds,
    /// A suffix that names no unit of time.
    Unknown,
}

/// A latency objective: `percentile` of calls finish within `target_seconds`.
#[derive(Clone, Copy, Debug, PartialEq, Eq, Structural)]
pub struct Latency {
    pub target_seconds: Dec,
    pub percentile: Dec,
}

/// Alerting thresholds; fractions lie in `0..1` for percentages up to 100.
#[derive(Clone, Copy, Debug, PartialEq, Eq, Structural)]
pub struct Alerts {
    pub success_rate: Option<Dec>,
    pub latency: Option<Latency>,
}

impl Alerts {
    pub open spec fn empty() -> Alerts {
        Alerts { success_rate: None, latency: None }
    }
}

/// Which calls count as failures, as an expression's tokens.
#[derive(Debug, PartialEq, Eq)]
pub enum Outcome {
    /// The call succeeded when the expression holds.
    OkIf(Vec<Token>),
    /// The call failed when the expression holds.
    ErrorIf(Vec<Token>),
}

/// What an `Outcome` holds.
pub enum OutcomeModel {
    OkIf(Seq<Token>),
    ErrorIf(Seq<Token>),
}

impl View for Outcome {
    type V = OutcomeModel;

    open spec fn view(&self) -> OutcomeModel {
        match self {
            Outcome::OkIf(e) => OutcomeModel::OkIf(e@),
            Outcome::ErrorIf(e) => OutcomeModel::ErrorIf(e@),
        }
    }
}

/// The parsed arguments of one attribute.
#[derive(Debug, PartialEq, Eq)]
pub struct Args {
    pub track_concurrency: bool,
    pub outcome: Option<Outcome>,
    pub alerts: Option<Alerts>,
}

/// What `Args` holds.
pub struct ArgsModel {
    pub track_concurrency: bool,
    pub outcome: Option<OutcomeModel>,
    pub alerts: Option<Alerts>,
}

impl ArgsModel {
    pub open spec fn empty() -> ArgsModel {
        ArgsModel { track_concurrency: false, outcome: None, alerts: None }
    }
}

impl View for Args {
    type V = ArgsModel;

    open spec fn view(&self) -> ArgsModel {
        ArgsModel {
            track_concurrency: self.track_concurrency,
            outcome: match self.outcome {
                Some(o) => Some(o@),
                None => None,
            },
            alerts: self.alerts,
        }
    }
}

/// A parse result, with the arguments seen through their model.
pub open spec fn result_model(r: Result<Args, ParseError>) -> Result<ArgsModel, ParseError> {
    match r {
        Ok(a) => Ok(a@),
        Err(e) => Err(e),
    }
}

/// A numeric literal: its exact value and its unit.
pub open spec fn number_spec(t: Token) -> Result<(Dec, Option<TimeUnit>), ParseError> {
    match t {
        Token::Literal { kind, digits, suffix, .. } => {
            if kind == LitKind::Other {
                Err(err_on(ErrorKind::ExpectedNumber, t))
            } else {
                match decimal_of(digits@) {
                    None => Err(err_on(ErrorKind::InvalidNumber, t)),
                    Some(d) => if suffix@ == ""@ {
                        Ok((d, None))
                    } else if suffix@ == "ms"@ {
                        Ok((d, Some(TimeUnit::Milliseconds)))
                    } else if suffix@ == "s"@ {
                        Ok((d, Some(TimeUnit::Seconds)))
                    } else {
                        Ok((d, Some(TimeUnit::Unknown)))
                    },
                }
            }
        },
        _ => Err(err_on(ErrorKind::ExpectedNumber, t)),
    }
}

/// A percentage as a fraction: `d / 100`; a failure is reported at `at`.
pub open spec fn percent_spec(d: Dec, at: Option<SpanId>) -> Result<Dec, ParseError> {
    match quotient_of(d, Dec::whole(100)) {
        Some(q) => Ok(q),
        None => Err(ParseError { kind: ErrorKind::InvalidNumber, at }),
    }
}

/// A duration in seconds, where `s` or `ms` is required; a failure is
/// reported at `at`.
pub open spec fn seconds_spec(d: Dec, unit: Option<TimeUnit>, at: Option<SpanId>) -> Result<
    Dec,
    ParseError,
> {
    match unit {
        None | Some(TimeUnit::Unknown) => Err(ParseError { kind: ErrorKind::ExpectedTimeUnit, at }),
        Some(TimeUnit::Seconds) => Ok(d),
        Some(TimeUnit::Milliseconds) => match quotient_of(d, Dec::whole(1000)) {
            Some(q) => Ok(q),
            None => Err(ParseError { kind: ErrorKind::InvalidNumber, at }),
        },
    }
}

/// How many tokens the comparison at `i` takes: 2 for `<=`, 1 for `<` or
/// `=`, 0 where there is none.
pub open spec fn comparison_len(c: Seq<Token>, i: int) -> int {
    if i + 1 < c.len() && (c[i] matches Token::Punct('<', Spacing::Joint, _)) && punct_is(
        c[i + 1],
        '=',
    ) {
        2
    } else if 0 <= i < c.len() && (punct_is(c[i], '<') || punct_is(c[i], '=')) {
        1
    } else {
        0
    }
}

/// The contents `c` of `latency(...)`, whose closing is at `end`.
pub open spec fn latency_spec(c: Seq<Token>, end: Option<SpanId>) -> Result<Latency, ParseError> {
    if c.len() == 0 {
        Err(err_at(ErrorKind::ExpectedNumber, c, 0, end))
    } else {
        match number_spec(c[0]) {
            Err(e) => Err(e),
            Ok((p, _)) => match percent_spec(p, Some(span_of(c[0]))) {
                Err(e) => Err(e),
                Ok(percentile) => if c.len() < 2 || !punct_is(c[1], '%') {
                    Err(err_at(ErrorKind::ExpectedPercent, c, 1, end))
                } else {
                    let k = comparison_len(c, 2);
                    if k == 0 {
                        Err(err_at(ErrorKind::ExpectedComparison, c, 2, end))
                    } else if c.len() <= 2 + k {
                        Err(err_at(ErrorKind::ExpectedNumber, c, 2 + k, end))
                    } else {
                        match number_spec(c[2 + k]) {
                            Err(e) => Err(e),
                            Ok((v, u)) => match seconds_spec(v, u, Some(span_of(c[2 + k]))) {
                                Err(e) => Err(e),
                                Ok(t) => if c.len() > 3 + k {
                                    Err(err_at(ErrorKind::UnexpectedToken, c, 3 + k, end))
                                } else {
                                    Ok(Latency { target_seconds: t, percentile })
                                },
                            },
                        }
                    }
                },
            },
        }
    }
}

/// The contents `c` of `alerts(...)`, whose closing is at `end`, from
/// token `i` on, with `acc` read so far.
pub open spec fn alerts_from(c: Seq<Token>, i: int, acc: Alerts, end: Option<SpanId>) -> Result<
    Alerts,
    ParseError,
>
    decreases c.len() - i,
{
    if i < 0 || i >= c.len() {
        Ok(acc)
    } else if ident_is(c[i], "success_rate"@) {
        if acc.success_rate is Some {
            Err(err_at(ErrorKind::DuplicateSuccessRate, c, i, end))
        } else if i + 1 >= c.len() || !punct_is(c[i + 1], '=') {
            Err(err_at(ErrorKind::ExpectedEquals, c, i + 1, end))
        } else if i + 2 >= c.len() {
            Err(err_at(ErrorKind::ExpectedNumber, c, i + 2, end))
        } else {
            match number_spec(c[i + 2]) {
                Err(e) => Err(e),
                Ok((v, _)) => match percent_spec(v, Some(span_of(c[i + 2]))) {
                    Err(e) => Err(e),
                    Ok(rate) => if i + 3 >= c.len() || !punct_is(c[i + 3], '%') {
                        Err(err_at(ErrorKind::ExpectedPercent, c, i + 3, end))
                    } else {
                        alerts_from(c, i + 4, Alerts { success_rate: Some(rate), ..acc }, end)
                    },
                },
            }
        }
    } else if ident_is(c[i], "latency"@) {
        if acc.latency is Some {
            Err(err_at(ErrorKind::DuplicateLatency, c, i, end))
        } else if i + 1 >= c.len() || !is_paren_group(c[i + 1]) {
            Err(err_at(ErrorKind::ExpectedParentheses, c, i + 1, end))
        } else {
            match latency_spec(group_content(c[i + 1]), Some(span_of(c[i + 1]))) {
                Err(e) => Err(e),
                Ok(l) => alerts_from(c, i + 2, Alerts { latency: Some(l), ..acc }, end),
            }
        }
    } else if punct_is(c[i], ',') {
        alerts_from(c, i + 1, acc, end)
    } else {
        Err(err_at(ErrorKind::ExpectedAlert, c, i, end))
    }
}

/// Where the expression that starts at `i` ends, as syn reads it: before
/// the token trees that syn leaves after it; at `i` where syn reads none.
pub open spec fn expr_end(s: Seq<Token>, i: int) -> int {
    match trees_after_expr_of(text_of(s.subrange(i, s.len() as int))) {
        Some(rest) => s.len() - rest,
        None => i,
    }
}

/// The arguments from token `i` on, with `acc` read so far.
pub open spec fn args_from(s: Seq<Token>, i: int, acc: ArgsModel, alerts_enabled: bool) -> Result<
    ArgsModel,
    ParseError,
>
    decreases s.len() - i,
{
    if i < 0 || i >= s.len() {
        Ok(acc)
    } else if ident_is(s[i], "track_concurrency"@) {
        args_from(s, i + 1, ArgsModel { track_concurrency: true, ..acc }, alerts_enabled)
    } else if ident_is(s[i], "ok_if"@) || ident_is(s[i], "error_if"@) {
        let ok = ident_is(s[i], "ok_if"@);
        match acc.outcome {
            Some(OutcomeModel::OkIf(_)) => if ok {
                Err(err_at(ErrorKind::DuplicateOkIf, s, i, None))
            } else {
                Err(err_at(ErrorKind::OkIfAndErrorIf, s, i, None))
            },
            Some(OutcomeModel::ErrorIf(_)) => if ok {
                Err(err_at(ErrorKind::OkIfAndErrorIf, s, i, None))
            } else {
                Err(err_at(ErrorKind::DuplicateErrorIf, s, i, None))
            },
            None => if i + 1 >= s.len() || !punct_is(s[i + 1], '=') {
                Err(err_at(ErrorKind::ExpectedEquals, s, i + 1, None))
            } else {
                let e = expr_end(s, i + 2);
                if !(i + 2 < e <= s.len()) {
                    Err(err_at(ErrorKind::ExpectedExpression, s, i + 2, None))
                } else {
                    let expr = s.subrange(i + 2, e);
                    let outcome = if ok {
                        OutcomeModel::OkIf(expr)
                    } else {
                        OutcomeModel::ErrorIf(expr)
                    };
                    args_from(s, e, ArgsModel { outcome: Some(outcome), ..acc }, alerts_enabled)
                }
            },
        }
    } else if ident_is(s[i], "alerts"@) {
        if !alerts_enabled {
            Err(err_at(ErrorKind::AlertsDisabled, s, i, None))
        } else if i + 1 >= s.len() || !is_paren_group(s[i + 1]) {
            Err(err_at(ErrorKind::ExpectedParentheses, s, i + 1, None))
        } else {
            match alerts_from(group_content(s[i + 1]), 0, Alerts::empty(), Some(span_of(s[i + 1]))) {
                Err(e) => Err(e),
                Ok(a) => args_from(s, i + 2, ArgsModel { alerts: Some(a), ..acc }, alerts_enabled),
            }
        }
    } else if punct_is(s[i], ',') {
        args_from(s, i + 1, acc, alerts_enabled)
    } else {
        Err(err_at(ErrorKind::ExpectedArgument, s, i, None))
    }
}

/// What an argument list parses to; `alerts_enabled` says whether the
/// `alerts(...)` argument is available.
pub open spec fn parse_spec(s: Seq<Token>, alerts_enabled: bool) -> Result<ArgsModel, ParseError> {
    args_from(s, 0, ArgsModel::empty(), alerts_enabled)
}

fn is_joint_less(t: &Token) -> (r: bool)
    ensures
        r == (t matches Token::Punct('<', Spacing::Joint, _)),
{
    match t {
        Token::Punct(c, Spacing::Joint, _) => *c == '<',
        _ => false,
    }
}

/// Reads a numeric literal: its exact value and its unit.
pub fn read_number(t: &Token) -> (r: Result<(Dec, Option<TimeUnit>), ParseError>)
    ensures
        r == number_spec(*t),
        r matches Ok((d, _)) ==> d.wf(),
        t matches Token::Literal { kind, digits, .. } ==> (kind != LitKind::Other && is_short_digits(
            digits@,
        ) ==> decimal_of(
            digits@,
        ) == Some(Dec { mantissa: digits_value(digits@) as i128, scale: 0 })),
{
    match t {
        Token::Literal { kind, digits, suffix, span } => {
            let at = Some(*span);
            if *kind == LitKind::Other {
                return Err(ParseError { kind: ErrorKind::ExpectedNumber, at });
            }
            let d = match read_decimal(digits.as_str()) {
                Some(d) => d,
                None => return Err(ParseError { kind: ErrorKind::InvalidNumber, at }),
            };
            if text_is(suffix, "") {
                Ok((d, None))
            } else if text_is(suffix, "ms") {
                Ok((d, Some(TimeUnit::Milliseconds)))
            } else if text_is(suffix, "s") {
                Ok((d, Some(TimeUnit::Seconds)))
            } else {
                Ok((d, Some(TimeUnit::Unknown)))
            }
        },
        _ => Err(ParseError { kind: ErrorKind::ExpectedNumber, at: Some(token_span(t)) }),
    }
}

/// A percentage as an exact fraction: `d / 100`; a failure is reported at
/// `at`.
pub fn fraction_of_percent(d: Dec, at: Option<SpanId>) -> (r: Result<Dec, ParseError>)
    requires
        d.wf(),
    ensures
        r == percent_spec(d, at),
        r matches Ok(q) ==> q.wf(),
{
    match divide(d, Dec::from_u32(100)) {
        Some(q) => Ok(q),
        None => Err(ParseError { kind: ErrorKind::InvalidNumber, at }),
    }
}

/// A duration in seconds: `d` itself for `s`, `d / 1000` for `ms`; without
/// a unit, or with another one, it is rejected. A failure is reported at `at`.
pub fn to_seconds(d: Dec, unit: Option<TimeUnit>, at: Option<SpanId>) -> (r: Result<Dec, ParseError>)
    requires
        d.wf(),
    ensures
        r == seconds_spec(d, unit, at),
        r matches Ok(q) ==> q.wf(),
{
    match unit {
        None | Some(TimeUnit::Unknown) => Err(ParseError { kind: ErrorKind::ExpectedTimeUnit, at }),
        Some(TimeUnit::Seconds) => Ok(d),
        Some(TimeUnit::Milliseconds) => match divide(d, Dec::from_u32(1000)) {
            Some(q) => Ok(q),
            None => Err(ParseError { kind: ErrorKind::InvalidNumber, at }),
        },
    }
}

/// Reads the contents `c` of `latency(...)`, whose closing is at `end`:
/// `percent% < time`, where the comparison may also be `<=` or `=`, all
/// three meaning the same.
pub fn read_latency(c: &Vec<Token>, end: Option<SpanId>) -> (r: Result<Latency, ParseError>)
    ensures
        r == latency_spec(c@, end),
{
    let n = c.len();
    if n == 0 {
        return Err(error_at(ErrorKind::ExpectedNumber, c, 0, end));
    }
    let (p, _) = match read_number(&c[0]) {
        Ok(x) => x,
        Err(e) => return Err(e),
    };
    let percentile = match fraction_of_percent(p, Some(token_span(&c[0]))) {
        Ok(x) => x,
        Err(e) => return Err(e),
    };
    if n < 2 || !token_is_punct(&c[1], '%') {
        return Err(error_at(ErrorKind::ExpectedPercent, c, 1, end));
    }
    let k: usize = if n > 3 && is_joint_less(&c[2]) && token_is_punct(&c[3], '=') {
        2
    } else if n > 2 && (token_is_punct(&c[2], '<') || token_is_punct(&c[2], '=')) {
        1
    } else {
        0
    };
    assert(k == comparison_len(c@, 2));
    if k == 0 {
        return Err(error_at(ErrorKind::ExpectedComparison, c, 2, end));
    }
    if n <= 2 + k {
        return Err(error_at(ErrorKind::ExpectedNumber, c, 2 + k, end));
    }
    let (v, u) = match read_number(&c[2 + k]) {
        Ok(x) => x,
        Err(e) => return Err(e),
    };
    let target_seconds = match to_seconds(v, u, Some(token_span(&c[2 + k]))) {
        Ok(x) => x,
        Err(e) => return Err(e),
    };
    if n > 3 + k {
        return Err(error_at(ErrorKind::UnexpectedToken, c, 3 + k, end));
    }
    Ok(Latency { target_seconds, percentile })
}

/// Reads the contents `c` of `alerts(...)`, whose closing is at `end`:
/// `success_rate = percent%` and `latency(...)`, each at most once, in any
/// order, commas between them optional.
pub fn read_alerts(c: &Vec<Token>, end: Option<SpanId>) -> (r: Result<Alerts, ParseError>)
    ensures
        r == alerts_from(c@, 0, Alerts::empty(), end),
{
    let n = c.len();
    let mut acc = Alerts { success_rate: None, latency: None };
    let mut i: usize = 0;
    while i < n
        invariant
            n == c@.len(),
            i <= n,
            alerts_from(c@, 0, Alerts::empty(), end) == alerts_from(c@, i as int, acc, end),
        decreases n - i,
    {
        if token_is_ident(&c[i], "success_rate") {
            if acc.success_rate.is_some() {
                return Err(error_at(ErrorKind::DuplicateSuccessRate, c, i, end));
            }
            if i + 1 >= n || !token_is_punct(&c[i + 1], '=') {
                return Err(error_at(ErrorKind::ExpectedEquals, c, i + 1, end));
            }
            if i + 2 >= n {
                return Err(error_at(ErrorKind::ExpectedNumber, c, i + 2, end));
            }
            let (v, _) = match read_number(&c[i + 2]) {
                Ok(x) => x,
                Err(e) => return Err(e),
            };
            let rate = match fraction_of_percent(v, Some(token_span(&c[i + 2]))) {
                Ok(x) => x,
                Err(e) => return Err(e),
            };
            if i + 3 >= n || !token_is_punct(&c[i + 3], '%') {
                return Err(error_at(ErrorKind::ExpectedPercent, c, i + 3, end));
            }
            acc = Alerts { success_rate: Some(rate), latency: acc.latency };
            i = i + 4;
        } else if token_is_ident(&c[i], "latency") {
            if acc.latency.is_some() {
                return Err(error_at(ErrorKind::DuplicateLatency, c, i, end));
            }
            if i + 1 >= n {
                return Err(error_at(ErrorKind::ExpectedParentheses, c, i + 1, end));
            }
            match &c[i + 1] {
                Token::Group(Delimiter::Parenthesis, content, sp) => {
                    let l = match read_latency(content, Some(*sp)) {
                        Ok(x) => x,
                        Err(e) => return Err(e),
                    };
                    acc = Alerts { success_rate: acc.success_rate, latency: Some(l) };
                    i = i + 2;
                },
                _ => return Err(error_at(ErrorKind::ExpectedParentheses, c, i + 1, end)),
            }
        } else if token_is_punct(&c[i], ',') {
            i = i + 1;
        } else {
            return Err(error_at(ErrorKind::ExpectedAlert, c, i, end));
        }
    }
    Ok(acc)
}

/// The model of the arguments read so far, where a pending expression is
/// kept as the range `lo .. hi` of `s` and whether it is an `ok_if`.
pub open spec fn pending_model(
    s: Seq<Token>,
    track: bool,
    pending: Option<(bool, usize, usize)>,
    alerts: Option<Alerts>,
) -> ArgsModel {
    ArgsModel {
        track_concurrency: track,
        outcome: match pending {
            None => None,
            Some((ok, lo, hi)) => Some(
                if ok {
                    OutcomeModel::OkIf(s.subrange(lo as int, hi as int))
                } else {
                    OutcomeModel::ErrorIf(s.subrange(lo as int, hi as int))
                },
            ),
        },
        alerts,
    }
}

/// Parses an attribute's arguments. The arguments come in any order, with
/// optional commas between them; `ok_if` and `error_if` exclude each other
/// and each comes at most once. `alerts_enabled` says whether `alerts(...)`
/// is available; where it is not, its use is rejected. Parsing stops at the
/// first error.
pub fn parse_args(tokens: Vec<Token>, alerts_enabled: bool) -> (r: Result<Args, ParseError>)
    ensures
        result_model(r) == parse_spec(tokens@, alerts_enabled),
{
    let n = tokens.len();
    let ghost s = tokens@;
    let mut track = false;
    let mut pending: Option<(bool, usize, usize)> = None;
    let mut alerts: Option<Alerts> = None;
    let mut i: usize = 0;
    while i < n
        invariant
            n == s.len(),
            s == tokens@,
            i <= n,
            pending matches Some((_, lo, hi)) ==> lo <= hi <= n,
            parse_spec(s, alerts_enabled) == args_from(
                s,
                i as int,
                pending_model(s, track, pending, alerts),
                alerts_enabled,
            ),
        decreases n - i,
    {
        let t = &tokens[i];
        if token_is_ident(t, "track_concurrency") {
            track = true;
            i = i + 1;
        } else if token_is_ident(t, "ok_if") || token_is_ident(t, "error_if") {
            let ok = token_is_ident(t, "ok_if");
            match pending {
                Some((was_ok, _, _)) => {
                    let kind = if ok && was_ok {
                        ErrorKind::DuplicateOkIf
                    } else if !ok && !was_ok {
                        ErrorKind::DuplicateErrorIf
                    } else {
                        ErrorKind::OkIfAndErrorIf
                    };
                    return Err(error_at(kind, &tokens, i, None));
                },
                None => {},
            }
            if i + 1 >= n || !token_is_punct(&tokens[i + 1], '=') {
                return Err(error_at(ErrorKind::ExpectedEquals, &tokens, i + 1, None));
            }
            let mut text = String::new();
            write_text(&tokens, i + 2, n, &mut text);
            let j: usize = match trees_after_expr(text.as_str()) {
                Some(rest) => if rest < n - (i + 2) {
                    n - rest
                } else {
                    i + 2
                },
                None => i + 2,
            };
            if j <= i + 2 {
                return Err(error_at(ErrorKind::ExpectedExpression, &tokens, i + 2, None));
            }
            pending = Some((ok, i + 2, j));
            i = j;
        } else if token_is_ident(t, "alerts") {
            if !alerts_enabled {
                return Err(error_at(ErrorKind::AlertsDisabled, &tokens, i, None));
            }
            if i + 1 >= n {
                return Err(error_at(ErrorKind::ExpectedParentheses, &tokens, i + 1, None));
            }
            match &tokens[i + 1] {
                Token::Group(Delimiter::Parenthesis, content, sp) => {
                    let a = match read_alerts(content, Some(*sp)) {
                        Ok(x) => x,
                        Err(e) => return Err(e),
                    };
                    alerts = Some(a);
                    i = i + 2;
                },
                _ => return Err(error_at(ErrorKind::ExpectedParentheses, &tokens, i + 1, None)),
            }
        } else if token_is_punct(t, ',') {
            i = i + 1;
        } else {
            return Err(error_at(ErrorKind::ExpectedArgument, &tokens, i, None));
        }
    }
    let outcome = match pending {
        None => None,
        Some((ok, lo, hi)) => {
            let mut rest = tokens;
            rest.truncate(hi);
            let expr = rest.split_off(lo);
            assert(expr@ =~= s.subrange(lo as int, hi as int));
            if ok {
                Some(Outcome::OkIf(expr))
            } else {
                Some(Outcome::ErrorIf(expr))
            }
        },
    };
    let r = Args { track_concurrency: track, outcome, alerts };
    assert(r@ == pending_model(s, track, pending, alerts));
    Ok(r)
}

} // verus!
