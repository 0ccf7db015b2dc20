//! Laws of the argument grammar.
use crate::parse::{
    alerts_from, args_from, err_at, expr_end, parse_spec, Alerts, ArgsModel, ErrorKind, OutcomeModel,
    ParseError,
};
use crate::expr::trees_after_expr_of;
use crate::token::{group_content, ident_is, is_paren_group, punct_is, span_of, text_of, Token};
use vstd::prelude::*;

verus! {

/// `a` is one whole argument: `track_concurrency`, `ok_if = expr`,
/// `error_if = expr` or `alerts(...)`.
pub open spec fn is_single_argument(a: Seq<Token>) -> bool {
    ||| a.len() == 1 && ident_is(a[0], "track_concurrency"@)
    ||| a.len() >= 3 && (ident_is(a[0], "ok_if"@) || ident_is(a[0], "error_if"@)) && punct_is(
        a[1],
        '=',
    )
    ||| a.len() == 2 && ident_is(a[0], "alerts"@) && is_paren_group(a[1])
}

/// Where `a` is `ok_if = expr` or `error_if = expr`, syn reads `expr`
/// followed by `y` as `expr` alone, leaving `y`.
pub open spec fn expr_stops_before(a: Seq<Token>, y: Seq<Token>) -> bool {
    (ident_is(a[0], "ok_if"@) || ident_is(a[0], "error_if"@)) ==> (trees_after_expr_of(
        text_of(a.subrange(2, a.len() as int) + y),
    ) matches Some(rest) && rest == y.len())
}

/// The keyword that an argument starts with.
pub open spec fn keyword_of(a: Seq<Token>) -> Seq<char> {
    match a[0] {
        Token::Ident(s, _) => s@,
        _ => Seq::empty(),
    }
}

/// What one whole argument does to the arguments read before it.
spec fn apply_argument(a: Seq<Token>, acc: ArgsModel, en: bool) -> Result<ArgsModel, ParseError> {
    if ident_is(a[0], "track_concurrency"@) {
        Ok(ArgsModel { track_concurrency: true, ..acc })
    } else if ident_is(a[0], "ok_if"@) || ident_is(a[0], "error_if"@) {
        let ok = ident_is(a[0], "ok_if"@);
        match acc.outcome {
            Some(OutcomeModel::OkIf(_)) => if ok {
                Err(err_at(ErrorKind::DuplicateOkIf, a, 0, None))
            } else {
                Err(err_at(ErrorKind::OkIfAndErrorIf, a, 0, None))
            },
            Some(OutcomeModel::ErrorIf(_)) => if ok {
                Err(err_at(ErrorKind::OkIfAndErrorIf, a, 0, None))
            } else {
                Err(err_at(ErrorKind::DuplicateErrorIf, a, 0, None))
            },
            None => {
                let expr = a.subrange(2, a.len() as int);
                Ok(
                    ArgsModel {
                        outcome: Some(
                            if ok {
                                OutcomeModel::OkIf(expr)
                            } else {
                                OutcomeModel::ErrorIf(expr)
                            },
                        ),
                        ..acc
                    },
                )
            },
        }
    } else if !en {
        Err(err_at(ErrorKind::AlertsDisabled, a, 0, None))
    } else {
        match alerts_from(group_content(a[1]), 0, Alerts::empty(), Some(span_of(a[1]))) {
            Err(e) => Err(e),
            Ok(al) => Ok(ArgsModel { alerts: Some(al), ..acc }),
        }
    }
}

spec fn then_parse(
    r: Result<ArgsModel, ParseError>,
    y: Seq<Token>,
    en: bool,
) -> Result<ArgsModel, ParseError> {
    match r {
        Err(e) => Err(e),
        Ok(acc) => args_from(y, 0, acc, en),
    }
}

/// Parsing from inside `y` does not depend on what stands before it.
proof fn lemma_args_shift(p: Seq<Token>, y: Seq<Token>, j: int, acc: ArgsModel, en: bool)
    requires
        0 <= j,
    ensures
        args_from(p + y, p.len() + j, acc, en) == args_from(y, j, acc, en),
    decreases y.len() - j,
{
    let s = p + y;
    let i = p.len() + j;
    if j < y.len() {
        assert(s[i] == y[j]);
        if j + 1 < y.len() {
            assert(s[i + 1] == y[j + 1]);
        }
        if ident_is(y[j], "track_concurrency"@) {
            lemma_args_shift(p, y, j + 1, ArgsModel { track_concurrency: true, ..acc }, en);
        } else if ident_is(y[j], "ok_if"@) || ident_is(y[j], "error_if"@) {
            if j + 2 <= y.len() {
                assert(s.subrange(i + 2, s.len() as int) =~= y.subrange(j + 2, y.len() as int));
                let e = expr_end(y, j + 2);
                assert(expr_end(s, i + 2) == p.len() + e);
                let expr = y.subrange(j + 2, e);
                let ok = ident_is(y[j], "ok_if"@);
                let outcome = if ok {
                    OutcomeModel::OkIf(expr)
                } else {
                    OutcomeModel::ErrorIf(expr)
                };
                if j + 2 < e <= y.len() {
                    assert(s.subrange(i + 2, p.len() + e) =~= y.subrange(j + 2, e));
                    lemma_args_shift(p, y, e, ArgsModel { outcome: Some(outcome), ..acc }, en);
                }
            }
        } else if ident_is(y[j], "alerts"@) {
            if j + 1 < y.len() {
                match alerts_from(group_content(y[j + 1]), 0, Alerts::empty(), Some(span_of(y[j + 1]))) {
                    Ok(al) => lemma_args_shift(p, y, j + 2, ArgsModel { alerts: Some(al), ..acc }, en),
                    Err(_) => {},
                }
            }
        } else if punct_is(y[j], ',') {
            lemma_args_shift(p, y, j + 1, acc, en);
        }
    }
}

proof fn reveal_keywords()
    ensures
        "track_concurrency"@.len() == 17,
        "ok_if"@.len() == 5,
        "error_if"@.len() == 8,
        "alerts"@.len() == 6,
{
    reveal_strlit("track_concurrency");
    reveal_strlit("ok_if");
    reveal_strlit("error_if");
    reveal_strlit("alerts");
}

/// One whole argument, followed by a comma or by nothing, acts on its own.
proof fn lemma_step(a: Seq<Token>, y: Seq<Token>, acc: ArgsModel, en: bool)
    requires
        is_single_argument(a),
        expr_stops_before(a, y),
    ensures
        args_from(a + y, 0, acc, en) == then_parse(apply_argument(a, acc, en), y, en),
{
    reveal_keywords();
    let s = a + y;
    assert(s[0] == a[0]);
    if a.len() > 1 {
        assert(s[1] == a[1]);
    }
    if ident_is(a[0], "track_concurrency"@) {
        lemma_args_shift(a, y, 0, ArgsModel { track_concurrency: true, ..acc }, en);
    } else if ident_is(a[0], "ok_if"@) || ident_is(a[0], "error_if"@) {
        assert(s.subrange(2, s.len() as int) =~= a.subrange(2, a.len() as int) + y);
        assert(expr_end(s, 2) == a.len());
        assert(s.subrange(2, a.len() as int) =~= a.subrange(2, a.len() as int));
        let expr = a.subrange(2, a.len() as int);
        let ok = ident_is(a[0], "ok_if"@);
        let outcome = if ok {
            OutcomeModel::OkIf(expr)
        } else {
            OutcomeModel::ErrorIf(expr)
        };
        let acc2 = ArgsModel { outcome: Some(outcome), ..acc };
        lemma_args_shift(a, y, 0, acc2, en);

    } else {
        match alerts_from(group_content(a[1]), 0, Alerts::empty(), Some(span_of(a[1]))) {
            Ok(al) => lemma_args_shift(a, y, 0, ArgsModel { alerts: Some(al), ..acc }, en),
            Err(_) => {},
        }
    }
}

proof fn lemma_pair(a: Seq<Token>, b: Seq<Token>, sep: Token, en: bool)
    requires
        is_single_argument(a),
        is_single_argument(b),
        expr_stops_before(a, seq![sep] + b),
        expr_stops_before(b, Seq::empty()),
        punct_is(sep, ','),
    ensures
        parse_spec(a + seq![sep] + b, en) == then_parse(
            apply_argument(a, ArgsModel::empty(), en),
            b,
            en,
        ) && (apply_argument(a, ArgsModel::empty(), en) matches Ok(acc) ==> args_from(
            b,
            0,
            acc,
            en,
        ) == then_parse(apply_argument(b, acc, en), Seq::empty(), en)),
{
    let y = seq![sep] + b;
    assert(a + seq![sep] + b =~= a + y);
    lemma_step(a, y, ArgsModel::empty(), en);
    match apply_argument(a, ArgsModel::empty(), en) {
        Ok(acc) => {
            assert(y[0] == sep);
            lemma_args_shift(seq![sep], b, 0, acc, en);
            assert(b + Seq::<Token>::empty() =~= b);
            lemma_step(b, Seq::empty(), acc, en);
        },
        Err(_) => {},
    }
}

/// The arguments `args` written one after another, `sep` between each two.
pub open spec fn joined(args: Seq<Seq<Token>>, sep: Token) -> Seq<Token>
    decreases args.len(),
{
    if args.len() == 0 {
        Seq::empty()
    } else if args.len() == 1 {
        args[0]
    } else {
        args[0] + seq![sep] + joined(args.drop_first(), sep)
    }
}

/// Where `a` is `ok_if = expr` or `error_if = expr`, syn ends `expr` before
/// a following comma, whatever comes after it, and at the end of the input.
pub open spec fn expr_stops_at_separator(a: Seq<Token>) -> bool {
    forall|y: Seq<Token>|
        (y.len() == 0 || punct_is(y[0], ',')) ==> #[trigger] expr_stops_before(a, y)
}

/// The list `args` with the arguments at `k` and `k + 1` exchanged.
pub open spec fn swap_adjacent(args: Seq<Seq<Token>>, k: int) -> Seq<Seq<Token>> {
    args.update(k, args[k + 1]).update(k + 1, args[k])
}

proof fn lemma_two(a: Seq<Token>, b: Seq<Token>, sep: Token, post: Seq<Token>, acc: ArgsModel, en: bool)
    requires
        is_single_argument(a),
        is_single_argument(b),
        expr_stops_at_separator(a),
        expr_stops_at_separator(b),
        punct_is(sep, ','),
        post.len() == 0 || punct_is(post[0], ','),
    ensures
        args_from(a + seq![sep] + b + post, 0, acc, en) == match apply_argument(a, acc, en) {
            Err(e) => Err(e),
            Ok(x) => then_parse(apply_argument(b, x, en), post, en),
        },
{
    let y = seq![sep] + b + post;
    assert(a + seq![sep] + b + post =~= a + y);
    assert(expr_stops_before(a, y));
    lemma_step(a, y, acc, en);
    match apply_argument(a, acc, en) {
        Ok(x) => {
            assert(y[0] == sep);
            assert(y =~= seq![sep] + (b + post));
            lemma_args_shift(seq![sep], b + post, 0, x, en);
            assert(expr_stops_before(b, post));
            lemma_step(b, post, x, en);
        },
        Err(_) => {},
    }
}

proof fn lemma_commute(a: Seq<Token>, b: Seq<Token>, acc: ArgsModel, en: bool)
    requires
        is_single_argument(a),
        is_single_argument(b),
        keyword_of(a) != keyword_of(b),
        apply_argument(a, acc, en) matches Ok(x) && apply_argument(b, x, en) is Ok,
    ensures
        apply_argument(b, acc, en) matches Ok(y) && apply_argument(a, y, en) == apply_argument(
            b,
            apply_argument(a, acc, en)->Ok_0,
            en,
        ),
{
    reveal_keywords();
}

/// What follows the first two arguments of a list.
spec fn after_two(args: Seq<Seq<Token>>, sep: Token) -> Seq<Token> {
    if args.len() == 2 {
        Seq::empty()
    } else {
        seq![sep] + joined(args.subrange(2, args.len() as int), sep)
    }
}

proof fn lemma_joined_two(args: Seq<Seq<Token>>, sep: Token)
    requires
        2 <= args.len(),
    ensures
        joined(args, sep) == args[0] + seq![sep] + args[1] + after_two(args, sep),
{
    let rest = args.drop_first();
    assert(rest[0] == args[1]);
    if args.len() == 2 {
        assert(joined(rest, sep) == args[1]);
        assert(joined(args, sep) =~= args[0] + seq![sep] + args[1] + after_two(args, sep));
    } else {
        assert(rest.drop_first() =~= args.subrange(2, args.len() as int));
        assert(joined(rest, sep) == args[1] + seq![sep] + joined(rest.drop_first(), sep));
        assert(joined(args, sep) =~= args[0] + seq![sep] + args[1] + after_two(args, sep));
    }
}

#[verifier::rlimit(50)]
proof fn lemma_swap_head(args: Seq<Seq<Token>>, sep: Token, acc: ArgsModel, en: bool)
    requires
        2 <= args.len(),
        is_single_argument(args[0]),
        is_single_argument(args[1]),
        expr_stops_at_separator(args[0]),
        expr_stops_at_separator(args[1]),
        keyword_of(args[0]) != keyword_of(args[1]),
        punct_is(sep, ','),
        args_from(joined(args, sep), 0, acc, en) is Ok,
    ensures
        args_from(joined(swap_adjacent(args, 0), sep), 0, acc, en) == args_from(
            joined(args, sep),
            0,
            acc,
            en,
        ),
{
    let sw = swap_adjacent(args, 0);
    let a = args[0];
    let b = args[1];
    let post = after_two(args, sep);
    lemma_joined_two(args, sep);
    lemma_joined_two(sw, sep);
    assert(sw.subrange(2, sw.len() as int) =~= args.subrange(2, args.len() as int));
    assert(after_two(sw, sep) == post);
    assert(post.len() == 0 || post[0] == sep);
    lemma_two(a, b, sep, post, acc, en);
    lemma_two(b, a, sep, post, acc, en);
    if let Ok(x) = apply_argument(a, acc, en) {
        if apply_argument(b, x, en) is Ok {
            lemma_commute(a, b, acc, en);
        }
    }
}

#[verifier::rlimit(50)]
proof fn lemma_swap_from(args: Seq<Seq<Token>>, sep: Token, k: int, acc: ArgsModel, en: bool)
    requires
        0 <= k < args.len() - 1,
        forall|m: int| 0 <= m < args.len() ==> #[trigger] is_single_argument(args[m]),
        forall|m: int| 0 <= m < args.len() ==> #[trigger] expr_stops_at_separator(args[m]),
        forall|m: int, n: int|
            0 <= m < n < args.len() ==> keyword_of(#[trigger] args[m]) != keyword_of(
                #[trigger] args[n],
            ),
        punct_is(sep, ','),
        args_from(joined(args, sep), 0, acc, en) is Ok,
    ensures
        args_from(joined(swap_adjacent(args, k), sep), 0, acc, en) == args_from(
            joined(args, sep),
            0,
            acc,
            en,
        ),
    decreases k,
{
    if k == 0 {
        assert(is_single_argument(args[0]) && is_single_argument(args[1]));
        assert(expr_stops_at_separator(args[0]) && expr_stops_at_separator(args[1]));
        assert(keyword_of(args[0]) != keyword_of(args[1]));
        lemma_swap_head(args, sep, acc, en);
    } else {
        let sw = swap_adjacent(args, k);
        let rest = args.drop_first();
        let rest_sw = swap_adjacent(rest, k - 1);
        let a = args[0];
        assert(is_single_argument(a) && expr_stops_at_separator(a));
        let tail = seq![sep] + joined(rest, sep);
        let tail2 = seq![sep] + joined(rest_sw, sep);
        assert(sw.drop_first() =~= rest_sw);
        assert(sw[0] == a);
        assert(joined(args, sep) =~= a + tail);
        assert(joined(sw, sep) =~= a + tail2);
        assert(expr_stops_before(a, tail));
        assert(expr_stops_before(a, tail2));
        lemma_step(a, tail, acc, en);
        lemma_step(a, tail2, acc, en);
        if let Ok(x) = apply_argument(a, acc, en) {
            assert(tail[0] == sep && tail2[0] == sep);
            lemma_args_shift(seq![sep], joined(rest, sep), 0, x, en);
            lemma_args_shift(seq![sep], joined(rest_sw, sep), 0, x, en);
            assert forall|m: int| 0 <= m < rest.len() implies #[trigger] is_single_argument(
                rest[m],
            ) && expr_stops_at_separator(rest[m]) by {
                assert(rest[m] == args[m + 1]);
            }
            assert forall|m: int, n: int| 0 <= m < n < rest.len() implies keyword_of(
                #[trigger] rest[m],
            ) != keyword_of(#[trigger] rest[n]) by {
                assert(rest[m] == args[m + 1]);
                assert(rest[n] == args[n + 1]);
            }
            lemma_swap_from(rest, sep, k - 1, x, en);
        }
    }
}

/// Whole arguments with different keywords may come in any order: where a
/// list of them parses, exchanging two neighbours gives the same
/// arguments, and every reordering is a chain of such exchanges. Each
/// expression is taken to end, as syn ends it, at the comma after it.
pub proof fn lemma_argument_order(args: Seq<Seq<Token>>, sep: Token, k: int, alerts_enabled: bool)
    requires
        0 <= k < args.len() - 1,
        forall|m: int| 0 <= m < args.len() ==> #[trigger] is_single_argument(args[m]),
        forall|m: int| 0 <= m < args.len() ==> #[trigger] expr_stops_at_separator(args[m]),
        forall|m: int, n: int|
            0 <= m < n < args.len() ==> keyword_of(#[trigger] args[m]) != keyword_of(
                #[trigger] args[n],
            ),
        punct_is(sep, ','),
        parse_spec(joined(args, sep), alerts_enabled) is Ok,
    ensures
        parse_spec(joined(swap_adjacent(args, k), sep), alerts_enabled) == parse_spec(
            joined(args, sep),
            alerts_enabled,
        ),
{
    lemma_swap_from(args, sep, k, ArgsModel::empty(), alerts_enabled);
}

/// `ok_if` and `error_if` exclude each other: either order is rejected, at
/// the second of the two.
pub proof fn lemma_ok_if_excludes_error_if(a: Seq<Token>, b: Seq<Token>, sep: Token, alerts_enabled: bool)
    requires
        is_single_argument(a),
        is_single_argument(b),
        ident_is(a[0], "ok_if"@),
        ident_is(b[0], "error_if"@),
        expr_stops_before(a, seq![sep] + b),
        expr_stops_before(b, Seq::empty()),
        expr_stops_before(b, seq![sep] + a),
        expr_stops_before(a, Seq::empty()),
        punct_is(sep, ','),
    ensures
        parse_spec(a + seq![sep] + b, alerts_enabled) == Err::<ArgsModel, ParseError>(
            err_at(ErrorKind::OkIfAndErrorIf, b, 0, None),
        ),
        parse_spec(b + seq![sep] + a, alerts_enabled) == Err::<ArgsModel, ParseError>(
            err_at(ErrorKind::OkIfAndErrorIf, a, 0, None),
        ),
{
    reveal_keywords();
    lemma_pair(a, b, sep, alerts_enabled);
    lemma_pair(b, a, sep, alerts_enabled);
}

/// A second `ok_if` is rejected, as is a second `error_if`, at the second.
pub proof fn lemma_single_predicate(a: Seq<Token>, b: Seq<Token>, sep: Token, alerts_enabled: bool)
    requires
        is_single_argument(a),
        is_single_argument(b),
        ident_is(a[0], "ok_if"@) || ident_is(a[0], "error_if"@),
        keyword_of(a) == keyword_of(b),
        expr_stops_before(a, seq![sep] + b),
        expr_stops_before(b, Seq::empty()),
        punct_is(sep, ','),
    ensures
        parse_spec(a + seq![sep] + b, alerts_enabled) == Err::<ArgsModel, ParseError>(
            err_at(
                if ident_is(a[0], "ok_if"@) {
                    ErrorKind::DuplicateOkIf
                } else {
                    ErrorKind::DuplicateErrorIf
                },
                b,
                0,
                None,
            ),
        ),
{
    reveal_keywords();
    lemma_pair(a, b, sep, alerts_enabled);
}

} // verus!
