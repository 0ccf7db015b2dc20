//! A token tree: the attribute's arguments as the compiler hands them over.
use vstd::prelude::*;
use vstd::string::*;

verus! {

/// How a group of tokens is enclosed.
#[derive(Clone, Copy, Debug, PartialEq, Eq, Structural)]
pub enum Delimiter {
    Parenthesis,
    Brace,
    Bracket,
    Invisible,
}

/// Whether a punctuation character is joined to the next one (`<` in `<=`).
#[derive(Clone, Copy, Debug, PartialEq, Eq, Structural)]
pub enum Spacing {
    Alone,
    Joint,
}

/// The form of a literal.
#[derive(Clone, Copy, Debug, PartialEq, Eq, Structural)]
pub enum LitKind {
    Int,
    Float,
    Other,
}

/// Names a place in the source; whoever builds the tokens assigns them.
pub type SpanId = usize;

/// One token tree, with the place where it was written.
#[derive(Debug, PartialEq, Eq)]
pub enum Token {
    /// An identifier or keyword.
    Ident(String, SpanId),
    /// One punctuation character.
    Punct(char, Spacing, SpanId),
    /// A literal: for numbers, `digits` holds the value in base 10 without
    /// separators and `suffix` what follows it (`ms` in `200ms`).
    Literal { kind: LitKind, digits: String, suffix: String, span: SpanId },
    /// Tokens between delimiters; the place is that of the whole group.
    Group(Delimiter, Vec<Token>, SpanId),
}

/// Where a token was written.
pub open spec fn span_of(t: Token) -> SpanId {
    match t {
        Token::Ident(_, sp) => sp,
        Token::Punct(_, _, sp) => sp,
        Token::Literal { span, .. } => span,
        Token::Group(_, _, sp) => sp,
    }
}

/// Where a token was written.
pub fn token_span(t: &Token) -> (r: SpanId)
    ensures
        r == span_of(*t),
{
    match t {
        Token::Ident(_, sp) => *sp,
        Token::Punct(_, _, sp) => *sp,
        Token::Literal { span, .. } => *span,
        Token::Group(_, _, sp) => *sp,
    }
}

/// The token is the identifier `word`.
pub open spec fn ident_is(t: Token, word: Seq<char>) -> bool {
    t matches Token::Ident(s, _) && s@ == word
}

/// The token is the punctuation character `c`.
pub open spec fn punct_is(t: Token, c: char) -> bool {
    t matches Token::Punct(ch, _, _) && ch == c
}

/// The token is a parenthesized group.
pub open spec fn is_paren_group(t: Token) -> bool {
    t matches Token::Group(d, _, _) && d == Delimiter::Parenthesis
}

/// The tokens inside a group.
pub open spec fn group_content(t: Token) -> Seq<Token> {
    match t {
        Token::Group(_, content, _) => content@,
        _ => Seq::empty(),
    }
}

pub(crate) fn text_is(s: &String, word: &str) -> (r: bool)
    ensures
        r == (s@ == word@),
{
    let w = String::from_str(word);
    s.eq(&w)
}

pub(crate) fn token_is_ident(t: &Token, word: &str) -> (r: bool)
    ensures
        r == ident_is(*t, word@),
{
    match t {
        Token::Ident(s, _) => text_is(s, word),
        _ => false,
    }
}

pub(crate) fn token_is_punct(t: &Token, c: char) -> (r: bool)
    ensures
        r == punct_is(*t, c),
{
    match t {
        Token::Punct(ch, _, _) => *ch == c,
        _ => false,
    }
}

/// The opening and closing characters of a delimiter.
pub open spec fn open_text(d: Delimiter) -> Seq<char> {
    match d {
        Delimiter::Parenthesis => seq!['('],
        Delimiter::Brace => seq!['{'],
        Delimiter::Bracket => seq!['['],
        Delimiter::Invisible => Seq::empty(),
    }
}

pub open spec fn close_text(d: Delimiter) -> Seq<char> {
    match d {
        Delimiter::Parenthesis => seq![')'],
        Delimiter::Brace => seq!['}'],
        Delimiter::Bracket => seq![']'],
        Delimiter::Invisible => Seq::empty(),
    }
}

/// The source text of a token that is not a group: identifiers and
/// literals end with a space, and a punctuation character with one unless
/// it is joined to the next.
pub open spec fn leaf_text(t: Token) -> Seq<char> {
    match t {
        Token::Ident(s, _) => s@.push(' '),
        Token::Punct(c, sp, _) => if sp == Spacing::Joint {
            seq![c]
        } else {
            seq![c, ' ']
        },
        Token::Literal { digits, suffix, .. } => (digits@ + suffix@).push(' '),
        Token::Group(_, _, _) => Seq::empty(),
    }
}

#[via_fn]
proof fn text_of_decreases(s: Seq<Token>) {
    if s.len() > 0 {
        assert(decreases_to!(s => s.subrange(0, s.len() - 1)));
        if let Token::Group(_, content, _) = s[s.len() - 1] {
            vstd::std_specs::vec::axiom_vec_decreases_to_view(content);
            assert(decreases_to!(s => s[s.len() - 1]));
            assert(decreases_to!(s => content@));
        }
    }
}

/// Source text that reads back as the tokens `s`.
pub open spec fn text_of(s: Seq<Token>) -> Seq<char>
    decreases s,
    via text_of_decreases
{
    if s.len() == 0 {
        Seq::empty()
    } else {
        let t = s[s.len() - 1];
        text_of(s.subrange(0, s.len() - 1)) + match t {
            Token::Group(d, content, _) => open_text(d) + text_of(content@) + close_text(d).push(' '),
            _ => leaf_text(t),
        }
    }
}

/// Relies on `String::push`: the character is appended.
#[verifier::external_body]
fn push_char(out: &mut String, c: char)
    ensures
        final(out)@ == old(out)@.push(c),
{
    out.push(c)
}

fn push_str(out: &mut String, s: &str)
    ensures
        final(out)@ == old(out)@ + s@,
{
    out.append(s)
}

fn push_delimiter(out: &mut String, d: Delimiter, opening: bool)
    ensures
        final(out)@ == old(out)@ + if opening { open_text(d) } else { close_text(d) },
{
    let c = match d {
        Delimiter::Parenthesis => if opening { '(' } else { ')' },
        Delimiter::Brace => if opening { '{' } else { '}' },
        Delimiter::Bracket => if opening { '[' } else { ']' },
        Delimiter::Invisible => {
            assert(old(out)@ + open_text(d) =~= old(out)@);
            assert(old(out)@ + close_text(d) =~= old(out)@);
            return;
        },
    };
    push_char(out, c);
    assert(old(out)@.push(c) =~= old(out)@ + if opening { open_text(d) } else { close_text(d) });
}

/// Appends the source text of the tokens `lo .. hi` of `ts`.
pub fn write_text(ts: &Vec<Token>, lo: usize, hi: usize, out: &mut String)
    requires
        lo <= hi <= ts@.len(),
    ensures
        final(out)@ == old(out)@ + text_of(ts@.subrange(lo as int, hi as int)),
    decreases ts,
{
    let mut i: usize = lo;
    assert(ts@.subrange(lo as int, lo as int).len() == 0);
    assert(old(out)@ + text_of(ts@.subrange(lo as int, lo as int)) =~= old(out)@);
    while i < hi
        invariant
            lo <= i <= hi <= ts@.len(),
            out@ == old(out)@ + text_of(ts@.subrange(lo as int, i as int)),
        decreases hi - i,
    {
        let ghost before = out@;
        let ghost sub = ts@.subrange(lo as int, i as int + 1);
        assert(sub.subrange(0, sub.len() - 1) =~= ts@.subrange(lo as int, i as int));
        assert(sub[sub.len() - 1] == ts@[i as int]);
        match &ts[i] {
            Token::Ident(s, _) => {
                push_str(out, s.as_str());
                push_char(out, ' ');
            },
            Token::Punct(c, sp, _) => {
                push_char(out, *c);
                if *sp == Spacing::Alone {
                    push_char(out, ' ');
                }
            },
            Token::Literal { digits, suffix, .. } => {
                push_str(out, digits.as_str());
                push_str(out, suffix.as_str());
                push_char(out, ' ');
            },
            Token::Group(d, content, _) => {
                proof {
                    vstd::std_specs::vec::axiom_vec_index_decreases(*ts, i as int);
                }
                push_delimiter(out, *d, true);
                write_text(content, 0, content.len(), out);
                push_delimiter(out, *d, false);
                push_char(out, ' ');
                assert(content@.subrange(0, content@.len() as int) =~= content@);
            },
        }
        assert(out@ =~= old(out)@ + text_of(sub));
        i = i + 1;
    }
}

/// What an instrumented item is.
#[derive(Clone, Copy, Debug, PartialEq, Eq, Structural)]
pub enum ItemKind {
    /// A single function.
    Function,
    /// An impl block, each of whose methods is instrumented.
    Impl,
}

/// Tells an impl block, which starts with the keyword `impl`, from a function.
pub fn item_kind(tokens: &Vec<Token>) -> (r: ItemKind)
    ensures
        r == (if tokens@.len() > 0 && ident_is(tokens@[0], "impl"@) {
            ItemKind::Impl
        } else {
            ItemKind::Function
        }),
{
    if tokens.len() > 0 && token_is_ident(&tokens[0], "impl") {
        ItemKind::Impl
    } else {
        ItemKind::Function
    }
}

} // verus!
