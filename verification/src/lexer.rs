//! Lexical analysis: a single left-to-right scan over the source bytes with
//! one byte of lookahead, producing an ordered sequence of spanned tokens.
//!
//! Every token's `text` is exactly the source slice at its span, token spans
//! are in increasing order and never overlap, and the stream always ends with
//! one end-of-file token. Lexing never fails: on malformed input it records a
//! diagnostic and continues scanning past the offending bytes.

use vstd::prelude::*;

use crate::report::{Report, ReportKind};
use crate::span::Span;
use crate::util::{copy_range, u64_to_string};

verus! {

/// The closed set of token kinds.
#[derive(Debug, Clone, Copy, PartialEq, Eq, Structural)]
pub enum TokenKind {
    Identifier,

    KWFn,
    KWExport,
    KWRet,
    KWStruct,
    KWEnum,
    KWImpl,
    KWType,
    KWExtern,
    KWLet,

    FloatLiteral,

    BinaryIntLiteral,
    OctalIntLiteral,
    DecimalIntLiteral,
    HexadecimalIntLiteral,

    StringLiteral,
    CharLiteral,

    Tilde,
    Bang,
    At,
    Pound,
    Dollar,
    Percent,
    Caret,
    CaretCaret,
    Ampersand,
    AmpersandAmpersand,
    Star,
    LParen,
    RParen,
    Minus,
    Underscore,
    Equals,
    Plus,
    LBracket,
    RBracket,
    LBrace,
    RBrace,
    Pipe,
    PipePipe,
    Semicolon,
    Colon,
    Comma,
    Dot,
    Slash,
    Question,
    ArrowLeft,
    ArrowRight,
    FatArrowRight,
    GreaterThan,
    GreaterThanEquals,
    LessThan,
    LessThanEquals,
    MinusMinus,
    NotEquals,
    PlusPlus,
    ShiftLeft,
    ShiftRight,
    Apostrophe,

    EOF,
}

/// One spanned token; immutable once created.
#[derive(Debug, Clone)]
pub struct Token {
    pub kind: TokenKind,
    pub span: Span,
    pub text: Vec<u8>,
}

/// The token's text is exactly the source slice at its span.
pub open spec fn token_wf(t: Token, src: Seq<u8>) -> bool {
    &&& t.span.start <= t.span.end <= src.len()
    &&& t.text@ == src.subrange(t.span.start as int, t.span.end as int)
}

/// A kind produced by classifying a maximal identifier run.
pub open spec fn is_word_kind(k: TokenKind) -> bool {
    k == TokenKind::Identifier || k == TokenKind::KWFn || k == TokenKind::KWExport || k
        == TokenKind::KWRet || k == TokenKind::KWStruct || k == TokenKind::KWEnum || k
        == TokenKind::KWImpl || k == TokenKind::KWType || k == TokenKind::KWExtern || k
        == TokenKind::KWLet
}

/// The token's kind agrees with its text: a word token is classified by the
/// keyword table over exactly its text, and a decimal literal holds nothing
/// but decimal digits and underscores.
pub open spec fn token_classified(t: Token) -> bool {
    &&& is_word_kind(t.kind) ==> t.kind == spec_keyword_kind(t.text@)
    &&& t.kind == TokenKind::DecimalIntLiteral ==> forall|i: int|
        0 <= i < t.text@.len() ==> is_base_digit(#[trigger] t.text@[i], 10) || t.text@[i] == 0x5f
}

/// A well-formed token stream over `src`: every token matches its span, the
/// spans are ordered and disjoint, every token but the last covers at least
/// one byte, and exactly the last token is end-of-file.
pub open spec fn tokens_wf(tokens: Seq<Token>, src: Seq<u8>) -> bool {
    &&& tokens.len() >= 1
    &&& tokens.last().kind == TokenKind::EOF
    &&& forall|i: int| 0 <= i < tokens.len() ==> token_wf(#[trigger] tokens[i], src)
    &&& forall|i: int| 0 <= i < tokens.len() - 1 ==> (#[trigger] tokens[i].kind) != TokenKind::EOF
    &&& forall|i: int| 0 <= i < tokens.len() - 1 ==> (#[trigger] tokens[i].span).start < tokens[i].span.end
    &&& forall|i: int| 0 <= i < tokens.len() - 1 ==> (#[trigger] tokens[i].span).end <= tokens[i + 1].span.start
    &&& forall|i: int| 0 <= i < tokens.len() ==> token_classified(#[trigger] tokens[i])
}

/// What the parser needs of a token stream, independent of the source it
/// came from: it ends in exactly one end-of-file token, and its spans are
/// well formed and ordered.
pub open spec fn stream_wf(tokens: Seq<Token>) -> bool {
    &&& tokens.len() >= 1
    &&& tokens.last().kind == TokenKind::EOF
    &&& forall|i: int| 0 <= i < tokens.len() - 1 ==> (#[trigger] tokens[i].kind) != TokenKind::EOF
    &&& forall|i: int| 0 <= i < tokens.len() ==> (#[trigger] tokens[i].span).start <= tokens[i].span.end
    &&& forall|i: int| 0 <= i < tokens.len() - 1 ==> (#[trigger] tokens[i].span).end <= tokens[i + 1].span.start
}

/// A token stream that is well formed over its source is well formed on its
/// own.
pub proof fn lemma_tokens_wf_stream(tokens: Seq<Token>, src: Seq<u8>)
    requires
        tokens_wf(tokens, src),
    ensures
        stream_wf(tokens),
{
    assert forall|i: int| 0 <= i < tokens.len() implies (#[trigger] tokens[i].span).start
        <= tokens[i].span.end by {
        assert(token_wf(tokens[i], src));
    }
}

/// The scanner's invariant while tokens are still being produced: everything
/// pushed so far matches its span, is ordered, is not end-of-file, and lies
/// entirely before the scan position.
pub open spec fn lexing_inv(tokens: Seq<Token>, src: Seq<u8>, pos: nat) -> bool {
    &&& forall|i: int| 0 <= i < tokens.len() ==> token_wf(#[trigger] tokens[i], src)
    &&& forall|i: int| 0 <= i < tokens.len() ==> (#[trigger] tokens[i].kind) != TokenKind::EOF
    &&& forall|i: int| 0 <= i < tokens.len() ==> (#[trigger] tokens[i].span).start < tokens[i].span.end
    &&& forall|i: int| 0 <= i < tokens.len() - 1 ==> (#[trigger] tokens[i].span).end <= tokens[i + 1].span.start
    &&& forall|i: int| 0 <= i < tokens.len() ==> token_classified(#[trigger] tokens[i])
    &&& tokens.len() > 0 ==> tokens.last().span.end <= pos
}

/// ASCII whitespace.
pub open spec fn is_ws(b: u8) -> bool {
    b == 0x20 || b == 0x09 || b == 0x0a || b == 0x0b || b == 0x0c || b == 0x0d
}

/// ASCII letter.
pub open spec fn is_alpha(b: u8) -> bool {
    (0x41 <= b <= 0x5a) || (0x61 <= b <= 0x7a)
}

/// ASCII decimal digit.
pub open spec fn is_digit(b: u8) -> bool {
    0x30 <= b <= 0x39
}

/// ASCII letter or digit.
pub open spec fn is_alnum(b: u8) -> bool {
    is_alpha(b) || is_digit(b)
}

/// A byte that may continue an identifier.
pub open spec fn is_ident_cont(b: u8) -> bool {
    is_alnum(b) || b == 0x5f
}

/// The numeric value of a digit byte, case-insensitive; 255 if none.
pub open spec fn digit_val(b: u8) -> u8 {
    if 0x30 <= b <= 0x39 {
        (b - 0x30) as u8
    } else if 0x61 <= b <= 0x66 {
        (b - 0x57) as u8
    } else if 0x41 <= b <= 0x46 {
        (b - 0x37) as u8
    } else {
        255
    }
}

/// Whether `b` is a valid digit in the given base.
pub open spec fn is_base_digit(b: u8, base: u8) -> bool {
    digit_val(b) < base
}

/// The keyword table: which maximal identifier runs are keywords.
pub open spec fn spec_keyword_kind(t: Seq<u8>) -> TokenKind {
    if t.len() == 2 && t[0] == 0x66u8 && t[1] == 0x6eu8 {
        TokenKind::KWFn  // fn
    } else if t.len() == 6 && t[0] == 0x65u8 && t[1] == 0x78u8 && t[2] == 0x70u8 && t[3]
        == 0x6fu8 && t[4] == 0x72u8 && t[5] == 0x74u8 {
        TokenKind::KWExport  // export
    } else if t.len() == 3 && t[0] == 0x72u8 && t[1] == 0x65u8 && t[2] == 0x74u8 {
        TokenKind::KWRet  // ret
    } else if t.len() == 6 && t[0] == 0x73u8 && t[1] == 0x74u8 && t[2] == 0x72u8 && t[3]
        == 0x75u8 && t[4] == 0x63u8 && t[5] == 0x74u8 {
        TokenKind::KWStruct  // struct
    } else if t.len() == 4 && t[0] == 0x65u8 && t[1] == 0x6eu8 && t[2] == 0x75u8 && t[3]
        == 0x6du8 {
        TokenKind::KWEnum  // enum
    } else if t.len() == 4 && t[0] == 0x69u8 && t[1] == 0x6du8 && t[2] == 0x70u8 && t[3]
        == 0x6cu8 {
        TokenKind::KWImpl  // impl
    } else if t.len() == 4 && t[0] == 0x74u8 && t[1] == 0x79u8 && t[2] == 0x70u8 && t[3]
        == 0x65u8 {
        TokenKind::KWType  // type
    } else if t.len() == 6 && t[0] == 0x65u8 && t[1] == 0x78u8 && t[2] == 0x74u8 && t[3]
        == 0x65u8 && t[4] == 0x72u8 && t[5] == 0x6eu8 {
        TokenKind::KWExtern  // extern
    } else if t.len() == 3 && t[0] == 0x6cu8 && t[1] == 0x65u8 && t[2] == 0x74u8 {
        TokenKind::KWLet  // let
    } else {
        TokenKind::Identifier
    }
}

/// A source text that is one maximal identifier run: a letter first, then
/// letters, digits or underscores to the end.
pub open spec fn word_src(s: Seq<u8>) -> bool {
    s.len() > 0 && is_alpha(s[0]) && (forall|i: int| 0 <= i < s.len() ==> is_ident_cont(#[trigger] s[i]))
}

/// A source text that is one unbroken run of decimal digits.
pub open spec fn digits_src(s: Seq<u8>) -> bool {
    s.len() > 0 && (forall|i: int| 0 <= i < s.len() ==> is_digit(#[trigger] s[i]))
}

/// From `pos`, the text is a decimal run, one dot, then digits to the end.
pub open spec fn float_tail_at(s: Seq<u8>, pos: int) -> bool {
    exists|d: int|
        pos < d < s.len() && #[trigger] s[d] == 0x2e && (forall|i: int|
            pos <= i < d ==> is_digit(#[trigger] s[i])) && (forall|i: int|
            d < i < s.len() ==> is_digit(#[trigger] s[i]))
}

/// A source text that is one float literal.
pub open spec fn float_src(s: Seq<u8>) -> bool {
    s.len() > 0 && is_digit(s[0]) && float_tail_at(s, 0)
}

/// A source text that is exactly one punctuation token.
pub open spec fn punct_src(s: Seq<u8>) -> bool {
    s.len() > 0 && (spec_punct_at(s, 0) matches Some(h) && h.1 == s.len())
}

fn is_ws_b(b: u8) -> (r: bool)
    ensures
        r == is_ws(b),
{
    b == 0x20 || b == 0x09 || b == 0x0a || b == 0x0b || b == 0x0c || b == 0x0d
}

fn is_alpha_b(b: u8) -> (r: bool)
    ensures
        r == is_alpha(b),
{
    (0x41 <= b && b <= 0x5a) || (0x61 <= b && b <= 0x7a)
}

fn is_digit_b(b: u8) -> (r: bool)
    ensures
        r == is_digit(b),
{
    0x30 <= b && b <= 0x39
}

fn is_alnum_b(b: u8) -> (r: bool)
    ensures
        r == is_alnum(b),
{
    is_alpha_b(b) || is_digit_b(b)
}

fn is_ident_cont_b(b: u8) -> (r: bool)
    ensures
        r == is_ident_cont(b),
{
    is_alnum_b(b) || b == 0x5f
}

fn is_base_digit_b(b: u8, base: u8) -> (r: bool)
    ensures
        r == is_base_digit(b, base),
{
    let v: u8 = if 0x30 <= b && b <= 0x39 {
        b - 0x30
    } else if 0x61 <= b && b <= 0x66 {
        b - 0x57
    } else if 0x41 <= b && b <= 0x46 {
        b - 0x37
    } else {
        255
    };
    v < base
}

/// Classifies a maximal identifier run against the fixed keyword table.
fn keyword_kind(text: &[u8]) -> (k: TokenKind)
    ensures
        k == spec_keyword_kind(text@),
{
    let n = text.len();
    if n == 2 && text[0] == 0x66 && text[1] == 0x6e {
        TokenKind::KWFn
    } else if n == 6 && text[0] == 0x65 && text[1] == 0x78 && text[2] == 0x70 && text[3] == 0x6f
        && text[4] == 0x72 && text[5] == 0x74 {
        TokenKind::KWExport
    } else if n == 3 && text[0] == 0x72 && text[1] == 0x65 && text[2] == 0x74 {
        TokenKind::KWRet
    } else if n == 6 && text[0] == 0x73 && text[1] == 0x74 && text[2] == 0x72 && text[3] == 0x75
        && text[4] == 0x63 && text[5] == 0x74 {
        TokenKind::KWStruct
    } else if n == 4 && text[0] == 0x65 && text[1] == 0x6e && text[2] == 0x75 && text[3] == 0x6d {
        TokenKind::KWEnum
    } else if n == 4 && text[0] == 0x69 && text[1] == 0x6d && text[2] == 0x70 && text[3] == 0x6c {
        TokenKind::KWImpl
    } else if n == 4 && text[0] == 0x74 && text[1] == 0x79 && text[2] == 0x70 && text[3] == 0x65 {
        TokenKind::KWType
    } else if n == 6 && text[0] == 0x65 && text[1] == 0x78 && text[2] == 0x74 && text[3] == 0x65
        && text[4] == 0x72 && text[5] == 0x6e {
        TokenKind::KWExtern
    } else if n == 3 && text[0] == 0x6c && text[1] == 0x65 && text[2] == 0x74 {
        TokenKind::KWLet
    } else {
        TokenKind::Identifier
    }
}

/// The end of the maximal identifier run beginning at `start`.
fn scan_ident_end(src: &[u8], start: usize) -> (end: usize)
    requires
        start < src@.len(),
        is_alpha(src@[start as int]),
    ensures
        start < end <= src@.len(),
        forall|i: int| start <= i < end ==> is_ident_cont(#[trigger] src@[i]),
        end < src@.len() ==> !is_ident_cont(src@[end as int]),
{
    let n = src.len();
    let mut end = start + 1;
    while end < n && is_ident_cont_b(src[end])
        invariant
            n == src@.len(),
            start < end <= n,
            forall|i: int| start <= i < end ==> is_ident_cont(#[trigger] src@[i]),
        decreases n - end,
    {
        end = end + 1;
    }
    end
}

/// Scans a run of digits (or `_`) of the given base starting at `pos`.
/// Returns the end of the run and whether it was valid; an alphanumeric byte
/// outside the base's alphabet is invalid and is returned as the end.
fn scan_digits(src: &[u8], pos: usize, base: u8) -> (r: (usize, bool))
    requires
        pos <= src@.len(),
    ensures
        pos <= r.0 <= src@.len(),
        r.1 ==> forall|i: int|
            pos <= i < r.0 ==> (is_base_digit(#[trigger] src@[i], base) || src@[i] == 0x5f),
        r.1 ==> (r.0 == src@.len() || !is_alnum(src@[r.0 as int])),
        !r.1 ==> r.0 < src@.len() && is_alnum(src@[r.0 as int]) && !is_base_digit(
            src@[r.0 as int],
            base,
        ),
{
    let n = src.len();
    let mut i = pos;
    while i < n
        invariant
            n == src@.len(),
            pos <= i <= n,
            forall|j: int| pos <= j < i ==> (is_base_digit(#[trigger] src@[j], base) || src@[j] == 0x5f),
        decreases n - i,
    {
        let b = src[i];
        if is_base_digit_b(b, base) || b == 0x5f {
            i = i + 1;
        } else if is_alnum_b(b) {
            return (i, false);
        } else {
            return (i, true);
        }
    }
    (i, true)
}

/// The punctuation table at position `pos`: the token kind and byte length
/// the scanner yields there, two-byte operators taking priority over their
/// one-byte prefix; `None` for a byte outside the table.
pub open spec fn spec_punct_at(s: Seq<u8>, pos: int) -> Option<(TokenKind, int)> {
    let b = s[pos];
    let two = pos + 1 < s.len();
    if b == 0x2e {
        Some((TokenKind::Dot, 1))
    } else if b == 0x7e {
        if two && s[pos + 1] == 0x3d {
            Some((TokenKind::NotEquals, 2))
        } else {
            Some((TokenKind::Tilde, 1))
        }
    } else if b == 0x21 {
        Some((TokenKind::Bang, 1))
    } else if b == 0x40 {
        Some((TokenKind::At, 1))
    } else if b == 0x23 {
        Some((TokenKind::Pound, 1))
    } else if b == 0x24 {
        Some((TokenKind::Dollar, 1))
    } else if b == 0x25 {
        Some((TokenKind::Percent, 1))
    } else if b == 0x5e {
        if two && s[pos + 1] == 0x5e {
            Some((TokenKind::CaretCaret, 2))
        } else {
            Some((TokenKind::Caret, 1))
        }
    } else if b == 0x26 {
        if two && s[pos + 1] == 0x26 {
            Some((TokenKind::AmpersandAmpersand, 2))
        } else {
            Some((TokenKind::Ampersand, 1))
        }
    } else if b == 0x2a {
        Some((TokenKind::Star, 1))
    } else if b == 0x28 {
        Some((TokenKind::LParen, 1))
    } else if b == 0x29 {
        Some((TokenKind::RParen, 1))
    } else if b == 0x2d {
        if two && s[pos + 1] == 0x3e {
            Some((TokenKind::ArrowRight, 2))
        } else if two && s[pos + 1] == 0x2d {
            Some((TokenKind::MinusMinus, 2))
        } else {
            Some((TokenKind::Minus, 1))
        }
    } else if b == 0x5f {
        Some((TokenKind::Underscore, 1))
    } else if b == 0x2b {
        if two && s[pos + 1] == 0x2b {
            Some((TokenKind::PlusPlus, 2))
        } else {
            Some((TokenKind::Plus, 1))
        }
    } else if b == 0x5b {
        Some((TokenKind::LBracket, 1))
    } else if b == 0x5d {
        Some((TokenKind::RBracket, 1))
    } else if b == 0x7b {
        Some((TokenKind::LBrace, 1))
    } else if b == 0x7d {
        Some((TokenKind::RBrace, 1))
    } else if b == 0x7c {
        if two && s[pos + 1] == 0x7c {
            Some((TokenKind::PipePipe, 2))
        } else {
            Some((TokenKind::Pipe, 1))
        }
    } else if b == 0x3b {
        Some((TokenKind::Semicolon, 1))
    } else if b == 0x3a {
        Some((TokenKind::Colon, 1))
    } else if b == 0x2c {
        Some((TokenKind::Comma, 1))
    } else if b == 0x3d {
        if two && s[pos + 1] == 0x3e {
            Some((TokenKind::FatArrowRight, 2))
        } else {
            Some((TokenKind::Equals, 1))
        }
    } else if b == 0x3c {
        if two && s[pos + 1] == 0x3d {
            Some((TokenKind::LessThanEquals, 2))
        } else if two && s[pos + 1] == 0x2d {
            Some((TokenKind::ArrowLeft, 2))
        } else if two && s[pos + 1] == 0x3c {
            Some((TokenKind::ShiftLeft, 2))
        } else {
            Some((TokenKind::LessThan, 1))
        }
    } else if b == 0x3e {
        if two && s[pos + 1] == 0x3d {
            Some((TokenKind::GreaterThanEquals, 2))
        } else if two && s[pos + 1] == 0x3e {
            Some((TokenKind::ShiftRight, 2))
        } else {
            Some((TokenKind::GreaterThan, 1))
        }
    } else if b == 0x3f {
        Some((TokenKind::Question, 1))
    } else if b == 0x2f {
        Some((TokenKind::Slash, 1))
    } else {
        None
    }
}

/// Pushes one token covering `src[s..e]`.
fn push_tok(tokens: &mut Vec<Token>, src: &[u8], kind: TokenKind, s: usize, e: usize)
    requires
        s < e <= src@.len(),
        kind != TokenKind::EOF,
    ensures
        final(tokens)@.len() == old(tokens)@.len() + 1,
        forall|i: int| 0 <= i < old(tokens)@.len() ==> (#[trigger] final(tokens)@[i]) == old(tokens)@[i],
        final(tokens)@.last().kind == kind,
        final(tokens)@.last().span == (Span { start: s, end: e }),
        token_wf(final(tokens)@.last(), src@),
{
    let text = copy_range(src, s, e);
    tokens.push(Token { kind, span: Span { start: s, end: e }, text });
}

/// Pushing one well-formed token that starts at or after the scan position
/// keeps the scanner's invariant for any position at or past the token's end.
proof fn lemma_lexing_inv_push(
    old_t: Seq<Token>,
    new_t: Seq<Token>,
    src: Seq<u8>,
    pos: nat,
    r: nat,
)
    requires
        lexing_inv(old_t, src, pos),
        new_t.len() == old_t.len() + 1,
        forall|i: int| 0 <= i < old_t.len() ==> (#[trigger] new_t[i]) == old_t[i],
        token_wf(new_t.last(), src),
        token_classified(new_t.last()),
        new_t.last().kind != TokenKind::EOF,
        new_t.last().span.start < new_t.last().span.end,
        pos <= new_t.last().span.start,
        new_t.last().span.end <= r,
    ensures
        lexing_inv(new_t, src, r),
{
    let m = old_t.len() as int;
    assert forall|i: int| 0 <= i < new_t.len() implies token_wf(#[trigger] new_t[i], src) by {
        if i < m {
            assert(new_t[i] == old_t[i]);
        } else {
            assert(new_t[i] == new_t.last());
        }
    }
    assert forall|i: int| 0 <= i < new_t.len() implies (#[trigger] new_t[i].kind)
        != TokenKind::EOF by {
        if i < m {
            assert(new_t[i] == old_t[i]);
        } else {
            assert(new_t[i] == new_t.last());
        }
    }
    assert forall|i: int| 0 <= i < new_t.len() implies (#[trigger] new_t[i].span).start
        < new_t[i].span.end by {
        if i < m {
            assert(new_t[i] == old_t[i]);
        } else {
            assert(new_t[i] == new_t.last());
        }
    }
    assert forall|i: int| 0 <= i < new_t.len() implies token_classified(#[trigger] new_t[i]) by {
        if i < m {
            assert(new_t[i] == old_t[i]);
        } else {
            assert(new_t[i] == new_t.last());
        }
    }
    assert forall|i: int| 0 <= i < new_t.len() - 1 implies (#[trigger] new_t[i].span).end
        <= new_t[i + 1].span.start by {
        if i < m - 1 {
            assert(new_t[i] == old_t[i]);
            assert(new_t[i + 1] == old_t[i + 1]);
        } else {
            assert(new_t[i] == old_t[m - 1]);
            assert(old_t[m - 1] == old_t.last());
            assert(new_t[i + 1] == new_t.last());
        }
    }
}

/// What scanning a string body from `i` finds: `(1, p)` a closing quote,
/// with `p` one past it; `(2, p)` a bare newline at `p` before any quote;
/// `(0, len)` the end of the input. A backslash consumes exactly the next
/// byte.
pub open spec fn scan_str(s: Seq<u8>, i: int) -> (int, int)
    decreases s.len() - i,
{
    if i >= s.len() {
        (0int, s.len() as int)
    } else if s[i] == 0x22 {
        (1int, i + 1)
    } else if s[i] == 0x0a {
        (2int, i)
    } else if s[i] == 0x5c {
        if i + 1 < s.len() {
            scan_str(s, i + 2)
        } else {
            (0int, s.len() as int)
        }
    } else {
        scan_str(s, i + 1)
    }
}

/// Scans one string literal whose opening quote stands at `pos`: exactly as
/// the specification scan from the byte after the quote says — a closed
/// literal becomes one token spanning the quotes; a bare newline or the end
/// of input yields one unterminated-literal diagnostic and no token, and no
/// emitted token reaches past the newline.
fn lex_string(tokens: &mut Vec<Token>, reports: &mut Vec<Report>, src: &[u8], pos: usize) -> (r:
    usize)
    requires
        pos < src@.len(),
        src@[pos as int] == 0x22,
        lexing_inv(old(tokens)@, src@, pos as nat),
    ensures
        pos < r <= src@.len(),
        lexing_inv(final(tokens)@, src@, r as nat),
        scan_str(src@, pos + 1).0 == 1 ==> (r == scan_str(src@, pos + 1).1 && final(reports)@
            == old(reports)@ && final(tokens)@.len() == old(tokens)@.len() + 1 && final(tokens)@.last().kind == TokenKind::StringLiteral && final(tokens)@.last().span.start == pos
            && final(tokens)@.last().span.end == scan_str(src@, pos + 1).1),
        scan_str(src@, pos + 1).0 == 2 ==> (r == scan_str(src@, pos + 1).1 && final(tokens)@
            == old(tokens)@ && final(reports)@.len() == old(reports)@.len() + 1 && final(reports)@.last().kind == ReportKind::UnterminatedLiteral),
        scan_str(src@, pos + 1).0 == 0 ==> (r == src@.len() && final(tokens)@ == old(tokens)@
            && final(reports)@.len() == old(reports)@.len() + 1 && final(reports)@.last().kind
            == ReportKind::UnterminatedLiteral),
{
    let n = src.len();
    let s = pos;
    let mut i = pos + 1;
    let mut state: u8 = 0;  // 0 ran out of input, 1 closed, 2 newline
    while i < n
        invariant_except_break
            state == 0,
            scan_str(src@, pos + 1) == scan_str(src@, i as int),
        invariant
            n == src@.len(),
            s < i <= n,
            pos == s,
        ensures
            s < i <= n,
            state == 0 || state == 1 || state == 2,
            state == 0 ==> i == n && scan_str(src@, pos + 1).0 == 0,
            state == 1 ==> s + 2 <= i <= n && scan_str(src@, pos + 1) == (1int, i as int),
            state == 2 ==> i < n && scan_str(src@, pos + 1) == (2int, i as int),
        decreases n - i,
    {
        let c = src[i];
        if c == 0x22 {
            i = i + 1;
            state = 1;
            break;
        } else if c == 0x0a {
            state = 2;
            break;
        } else if c == 0x5c {
            if i + 1 < n {
                i = i + 2;
            } else {
                i = n;
            }
        } else {
            i = i + 1;
        }
    }
    if state == 1 {
        push_tok(tokens, src, TokenKind::StringLiteral, s, i);
        proof {
            lemma_lexing_inv_push(old(tokens)@, tokens@, src@, pos as nat, i as nat);
        }
        i
    } else if state == 2 {
        reports.push(ReportKind::UnterminatedLiteral.untitled().span(Span { start: s, end: i }));
        i
    } else {
        reports.push(ReportKind::UnterminatedLiteral.untitled().span(Span { start: s, end: n }));
        n
    }
}

/// Scans one char literal whose opening quote stands at `pos`: exactly one
/// byte, or one escaped byte, between the quotes.
fn lex_char(tokens: &mut Vec<Token>, reports: &mut Vec<Report>, src: &[u8], pos: usize) -> (r:
    usize)
    requires
        pos < src@.len(),
        src@[pos as int] == 0x27,
        lexing_inv(old(tokens)@, src@, pos as nat),
    ensures
        pos < r <= src@.len(),
        lexing_inv(final(tokens)@, src@, r as nat),
{
    let n = src.len();
    let s = pos;
    if pos + 1 >= n {
        reports.push(ReportKind::UnterminatedLiteral.untitled().span(Span { start: s, end: n }));
        n
    } else if src[pos + 1] == 0x27 {
        reports.push(
            ReportKind::EmptyLiteral.untitled().span(Span { start: s, end: s + 2 }),
        );
        pos + 2
    } else if src[pos + 1] == 0x0a {
        reports.push(
            ReportKind::UnterminatedLiteral.untitled().span(Span { start: s, end: s + 1 }),
        );
        pos + 1
    } else if src[pos + 1] == 0x5c {
        if pos + 2 < n && pos + 3 < n && src[pos + 3] == 0x27 {
            push_tok(tokens, src, TokenKind::CharLiteral, s, pos + 4);
            proof {
                lemma_lexing_inv_push(old(tokens)@, tokens@, src@, pos as nat, (pos + 4) as nat);
            }
            pos + 4
        } else {
            reports.push(
                ReportKind::UnterminatedLiteral.untitled().span(
                    Span { start: s, end: pos + 2 },
                ).help(String::from_str("Remove the escape character")),
            );
            pos + 2
        }
    } else {
        if pos + 2 < n && src[pos + 2] == 0x27 {
            push_tok(tokens, src, TokenKind::CharLiteral, s, pos + 3);
            proof {
                lemma_lexing_inv_push(old(tokens)@, tokens@, src@, pos as nat, (pos + 3) as nat);
            }
            pos + 3
        } else {
            reports.push(
                ReportKind::UnterminatedLiteral.untitled().span(Span { start: s, end: pos + 2 }),
            );
            pos + 2
        }
    }
}

/// Skips one nesting block comment whose `/*` stands at `pos`; unterminated
/// nesting is reported once with the residual depth.
fn lex_block_comment(reports: &mut Vec<Report>, src: &[u8], pos: usize) -> (r: usize)
    requires
        pos + 1 < src@.len(),
        src@[pos as int] == 0x2f,
        src@[pos as int + 1] == 0x2a,
    ensures
        pos + 2 <= r <= src@.len(),
{
    let n = src.len();
    let s = pos;
    let mut i = pos + 2;
    let mut depth: usize = 1;
    while i < n && depth > 0
        invariant
            n == src@.len(),
            s + 2 <= i <= n,
            2 * depth <= i - s + 2,
        decreases n - i,
    {
        if src[i] == 0x2a && i + 1 < n && src[i + 1] == 0x2f {
            depth = depth - 1;
            i = i + 2;
        } else if src[i] == 0x2f && i + 1 < n && src[i + 1] == 0x2a {
            depth = depth + 1;
            i = i + 2;
        } else {
            i = i + 1;
        }
    }
    if depth > 0 {
        let title = u64_to_string(depth as u64).concat(" comments never terminated");
        reports.push(
            ReportKind::UnterminatedMultilineComment.title(title).span(Span { start: s, end: n }),
        );
    }
    if i > n {
        n
    } else {
        i
    }
}

/// Scans one numeric literal beginning at `pos`: a leading `0` then `b`/`o`/
/// `x` selects base 2/8/16, otherwise base 10 with at most one fraction part;
/// an alphanumeric byte outside the base's alphabet, or a second consecutive
/// dot, is reported and the literal is dropped.
fn lex_number(tokens: &mut Vec<Token>, reports: &mut Vec<Report>, src: &[u8], pos: usize) -> (r:
    usize)
    requires
        pos < src@.len(),
        is_digit(src@[pos as int]),
        lexing_inv(old(tokens)@, src@, pos as nat),
    ensures
        pos < r <= src@.len(),
        lexing_inv(final(tokens)@, src@, r as nat),
        (forall|i: int| pos <= i < src@.len() ==> is_digit(#[trigger] src@[i])) ==> (r
            == src@.len() && final(reports)@ == old(reports)@ && final(tokens)@.len() == old(tokens)@.len() + 1 && final(tokens)@.last().kind == TokenKind::DecimalIntLiteral && final(tokens)@.last().span.start == pos && final(tokens)@.last().span.end == src@.len()),
        float_tail_at(src@, pos as int) ==> (r == src@.len() && final(reports)@ == old(reports)@
            && final(tokens)@.len() == old(tokens)@.len() + 1 && final(tokens)@.last().kind
            == TokenKind::FloatLiteral && final(tokens)@.last().span.start == pos && final(tokens)@.last().span.end == src@.len()),
{
    let n = src.len();
    proof {
        if float_tail_at(src@, pos as int) {
            let d = choose|d: int|
                pos < d < src@.len() && #[trigger] src@[d] == 0x2e && (forall|i: int|
                    pos <= i < d ==> is_digit(#[trigger] src@[i])) && (forall|i: int|
                    d < i < src@.len() ==> is_digit(#[trigger] src@[i]));
            assert(src@[d] == 0x2e);
        }
    }
    if src[pos] == 0x30 && pos + 1 < n && (src[pos + 1] == 0x62 || src[pos + 1] == 0x6f || src[pos
        + 1] == 0x78) {
        let (kind, base): (TokenKind, u8) = if src[pos + 1] == 0x62 {
            (TokenKind::BinaryIntLiteral, 2)
        } else if src[pos + 1] == 0x6f {
            (TokenKind::OctalIntLiteral, 8)
        } else {
            (TokenKind::HexadecimalIntLiteral, 16)
        };
        let (end, ok) = scan_digits(src, pos + 2, base);
        if ok {
            push_tok(tokens, src, kind, pos, end);
            proof {
                lemma_lexing_inv_push(old(tokens)@, tokens@, src@, pos as nat, end as nat);
            }
            end
        } else {
            let title = String::from_str("Invalid Integer Literal");
            let label = String::from_str("not a digit of base ").concat(
                u64_to_string(base as u64).as_str(),
            );
            reports.push(
                ReportKind::SyntaxError.title(title).span(Span { start: end, end: end + 1 }).label(
                    label,
                ),
            );
            end + 1
        }
    } else {
        let (end, ok) = scan_digits(src, pos, 10);
        if !ok {
            let title = String::from_str("Invalid Integer Literal");
            let label = String::from_str("not a digit of base 10");
            reports.push(
                ReportKind::SyntaxError.title(title).span(Span { start: end, end: end + 1 }).label(
                    label,
                ),
            );
            end + 1
        } else if end < n && src[end] == 0x2e {
            let (fend, fok) = scan_digits(src, end + 1, 10);
            if !fok {
                let title = String::from_str("Invalid Integer Literal");
                let label = String::from_str("not a digit of base 10");
                reports.push(
                    ReportKind::SyntaxError.title(title).span(
                        Span { start: fend, end: fend + 1 },
                    ).label(label),
                );
                fend + 1
            } else if fend < n && src[fend] == 0x2e {
                // a second consecutive dot cannot continue a float
                let title = String::from_str("Invalid Float Literal");
                reports.push(
                    ReportKind::SyntaxError.title(title).span(Span { start: pos, end: fend + 1 }),
                );
                fend + 1
            } else {
                push_tok(tokens, src, TokenKind::FloatLiteral, pos, fend);
                proof {
                    lemma_lexing_inv_push(old(tokens)@, tokens@, src@, pos as nat, fend as nat);
                }
                fend
            }
        } else {
            push_tok(tokens, src, TokenKind::DecimalIntLiteral, pos, end);
            proof {
                lemma_lexing_inv_push(old(tokens)@, tokens@, src@, pos as nat, end as nat);
            }
            end
        }
    }
}

/// Maps the punctuation byte at `pos` to its token, two-byte operators taking
/// priority over their one-byte prefix; an unrecognized byte is reported as
/// unexpected and skipped.
fn lex_punct(tokens: &mut Vec<Token>, reports: &mut Vec<Report>, src: &[u8], pos: usize) -> (r:
    usize)
    requires
        pos < src@.len(),
        lexing_inv(old(tokens)@, src@, pos as nat),
    ensures
        pos < r <= src@.len(),
        lexing_inv(final(tokens)@, src@, r as nat),
        match spec_punct_at(src@, pos as int) {
            Some(hit) => {
                &&& r == pos + hit.1
                &&& final(reports)@ == old(reports)@
                &&& final(tokens)@.len() == old(tokens)@.len() + 1
                &&& final(tokens)@.last().kind == hit.0
                &&& final(tokens)@.last().span.start == pos
                &&& final(tokens)@.last().span.end == pos + hit.1
            },
            None => {
                &&& r == pos + 1
                &&& final(tokens)@ == old(tokens)@
                &&& final(reports)@.len() == old(reports)@.len() + 1
            },
        },
{
    let n = src.len();
    let b = src[pos];
    let two: u8 = if pos + 1 < n {
        src[pos + 1]
    } else {
        0
    };
    let second = pos + 1 < n;
    let hit: Option<(TokenKind, usize)> = match b {
        0x2e => Some((TokenKind::Dot, 1)),
        0x7e => if second && two == 0x3d {
            Some((TokenKind::NotEquals, 2))
        } else {
            Some((TokenKind::Tilde, 1))
        },
        0x21 => Some((TokenKind::Bang, 1)),
        0x40 => Some((TokenKind::At, 1)),
        0x23 => Some((TokenKind::Pound, 1)),
        0x24 => Some((TokenKind::Dollar, 1)),
        0x25 => Some((TokenKind::Percent, 1)),
        0x5e => if second && two == 0x5e {
            Some((TokenKind::CaretCaret, 2))
        } else {
            Some((TokenKind::Caret, 1))
        },
        0x26 => if second && two == 0x26 {
            Some((TokenKind::AmpersandAmpersand, 2))
        } else {
            Some((TokenKind::Ampersand, 1))
        },
        0x2a => Some((TokenKind::Star, 1)),
        0x28 => Some((TokenKind::LParen, 1)),
        0x29 => Some((TokenKind::RParen, 1)),
        0x2d => if second && two == 0x3e {
            Some((TokenKind::ArrowRight, 2))
        } else if second && two == 0x2d {
            Some((TokenKind::MinusMinus, 2))
        } else {
            Some((TokenKind::Minus, 1))
        },
        0x5f => Some((TokenKind::Underscore, 1)),
        0x2b => if second && two == 0x2b {
            Some((TokenKind::PlusPlus, 2))
        } else {
            Some((TokenKind::Plus, 1))
        },
        0x5b => Some((TokenKind::LBracket, 1)),
        0x5d => Some((TokenKind::RBracket, 1)),
        0x7b => Some((TokenKind::LBrace, 1)),
        0x7d => Some((TokenKind::RBrace, 1)),
        0x7c => if second && two == 0x7c {
            Some((TokenKind::PipePipe, 2))
        } else {
            Some((TokenKind::Pipe, 1))
        },
        0x3b => Some((TokenKind::Semicolon, 1)),
        0x3a => Some((TokenKind::Colon, 1)),
        0x2c => Some((TokenKind::Comma, 1)),
        0x3d => if second && two == 0x3e {
            Some((TokenKind::FatArrowRight, 2))
        } else {
            Some((TokenKind::Equals, 1))
        },
        0x3c => if second && two == 0x3d {
            Some((TokenKind::LessThanEquals, 2))
        } else if second && two == 0x2d {
            Some((TokenKind::ArrowLeft, 2))
        } else if second && two == 0x3c {
            Some((TokenKind::ShiftLeft, 2))
        } else {
            Some((TokenKind::LessThan, 1))
        },
        0x3e => if second && two == 0x3d {
            Some((TokenKind::GreaterThanEquals, 2))
        } else if second && two == 0x3e {
            Some((TokenKind::ShiftRight, 2))
        } else {
            Some((TokenKind::GreaterThan, 1))
        },
        0x3f => Some((TokenKind::Question, 1)),
        0x2f => Some((TokenKind::Slash, 1)),
        _ => None,
    };
    match hit {
        Some((kind, l)) => {
            push_tok(tokens, src, kind, pos, pos + l);
            proof {
                lemma_lexing_inv_push(old(tokens)@, tokens@, src@, pos as nat, (pos + l) as nat);
            }
            pos + l
        },
        None => {
            reports.push(
                ReportKind::UnexpectedCharacter.untitled().span(Span { start: pos, end: pos + 1 }),
            );
            pos + 1
        },
    }
}

/// The lexer: one scan over the source, one token stream out.
pub struct Lexer {
    tokens: Vec<Token>,
    reports: Vec<Report>,
}

impl Lexer {
    /// Tokenizes the whole source. Always returns a well-formed stream ending
    /// in one end-of-file token whose span is empty at the end of the source;
    /// all diagnostics found on the way are returned beside it.
    pub fn tokenize(contents: &[u8]) -> (r: (Vec<Token>, Vec<Report>))
        ensures
            tokens_wf(r.0@, contents@),
            stream_wf(r.0@),
            r.0@.last().span == (Span {
                start: contents@.len() as usize,
                end: contents@.len() as usize,
            }),
            contents@.len() == 0 ==> (r.0@.len() == 1 && r.1@.len() == 0),
            word_src(contents@) ==> (r.0@.len() == 2 && r.1@.len() == 0 && r.0@[0].kind
                == spec_keyword_kind(contents@) && r.0@[0].span.start == 0 && r.0@[0].span.end
                == contents@.len()),
            punct_src(contents@) ==> (r.0@.len() == 2 && r.1@.len() == 0 && (spec_punct_at(
                contents@,
                0,
            ) matches Some(h) && r.0@[0].kind == h.0) && r.0@[0].span.start == 0
                && r.0@[0].span.end == contents@.len()),
            digits_src(contents@) ==> (r.0@.len() == 2 && r.1@.len() == 0 && r.0@[0].kind
                == TokenKind::DecimalIntLiteral && r.0@[0].span.start == 0 && r.0@[0].span.end
                == contents@.len()),
            float_src(contents@) ==> (r.0@.len() == 2 && r.1@.len() == 0 && r.0@[0].kind
                == TokenKind::FloatLiteral && r.0@[0].span.start == 0 && r.0@[0].span.end
                == contents@.len()),
    {
        let mut lex = Lexer { tokens: Vec::new(), reports: Vec::new() };
        let len = contents.len();
        let mut pos: usize = 0;

        while pos < len
            invariant
                len == contents@.len(),
                pos <= len,
                lexing_inv(lex.tokens@, contents@, pos as nat),
                len == 0 ==> (lex.tokens@.len() == 0 && lex.reports@.len() == 0),
                word_src(contents@) ==> ((pos == 0 && lex.tokens@.len() == 0
                    && lex.reports@.len() == 0) || (pos == len && lex.reports@.len() == 0
                    && lex.tokens@.len() == 1 && lex.tokens@[0].kind == spec_keyword_kind(
                    contents@,
                ) && lex.tokens@[0].span.start == 0 && lex.tokens@[0].span.end == len)),
                punct_src(contents@) ==> ((pos == 0 && lex.tokens@.len() == 0
                    && lex.reports@.len() == 0) || (pos == len && lex.reports@.len() == 0
                    && lex.tokens@.len() == 1 && (spec_punct_at(contents@, 0) matches Some(h)
                    && lex.tokens@[0].kind == h.0) && lex.tokens@[0].span.start == 0
                    && lex.tokens@[0].span.end == len)),
                digits_src(contents@) ==> ((pos == 0 && lex.tokens@.len() == 0
                    && lex.reports@.len() == 0) || (pos == len && lex.reports@.len() == 0
                    && lex.tokens@.len() == 1 && lex.tokens@[0].kind
                    == TokenKind::DecimalIntLiteral && lex.tokens@[0].span.start == 0
                    && lex.tokens@[0].span.end == len)),
                float_src(contents@) ==> ((pos == 0 && lex.tokens@.len() == 0
                    && lex.reports@.len() == 0) || (pos == len && lex.reports@.len() == 0
                    && lex.tokens@.len() == 1 && lex.tokens@[0].kind == TokenKind::FloatLiteral
                    && lex.tokens@[0].span.start == 0 && lex.tokens@[0].span.end == len)),
            decreases len - pos,
        {
            let b = contents[pos];
            proof {
                if punct_src(contents@) && pos == 0 {
                    // a punctuation byte starts no word, number, literal,
                    // comment or whitespace
                    assert(!is_ws(b) && !is_alpha(b) && !is_digit(b) && b != 0x22 && b != 0x27);
                }
            }
            if is_ws_b(b) {
                pos = pos + 1;
            } else if b == 0x2f && pos + 1 < len && contents[pos + 1] == 0x2f {
                // line comment: runs to the end of the line
                let mut i = pos + 2;
                while i < len
                    invariant
                        len == contents@.len(),
                        pos + 2 <= i <= len,
                    decreases len - i,
                {
                    if contents[i] == 0x0a {
                        i = i + 1;
                        break;
                    }
                    i = i + 1;
                }
                pos = i;
            } else if b == 0x2f && pos + 1 < len && contents[pos + 1] == 0x2a {
                pos = lex_block_comment(&mut lex.reports, contents, pos);
            } else if is_alpha_b(b) {
                // maximal identifier run, classified against the keyword table
                let end = scan_ident_end(contents, pos);
                let word = vstd::slice::slice_subrange(contents, pos, end);
                let kind = keyword_kind(word);
                let ghost pre = lex.tokens@;
                push_tok(&mut lex.tokens, contents, kind, pos, end);
                proof {
                    lemma_lexing_inv_push(pre, lex.tokens@, contents@, pos as nat, end as nat);
                    if word_src(contents@) && pos == 0 {
                        // the run is maximal, so it reaches the end of the
                        // source and carries the whole text
                        assert(end == len);
                        assert(word@ =~= contents@);
                    }
                }
                pos = end;
            } else if is_digit_b(b) {
                pos = lex_number(&mut lex.tokens, &mut lex.reports, contents, pos);
            } else if b == 0x22 {
                pos = lex_string(&mut lex.tokens, &mut lex.reports, contents, pos);
            } else if b == 0x27 {
                pos = lex_char(&mut lex.tokens, &mut lex.reports, contents, pos);
            } else {
                pos = lex_punct(&mut lex.tokens, &mut lex.reports, contents, pos);
            }
        }

        lex.tokens.push(
            Token { kind: TokenKind::EOF, span: Span { start: len, end: len }, text: Vec::new() },
        );
        proof {
            assert(lex.tokens@.last().text@ =~= contents@.subrange(len as int, len as int));
            lemma_tokens_wf_stream(lex.tokens@, contents@);
        }
        (lex.tokens, lex.reports)
    }
}

/// The concatenation of the tokens' stored texts.
pub open spec fn concat_token_texts(tokens: Seq<Token>) -> Seq<u8>
    decreases tokens.len(),
{
    if tokens.len() == 0 {
        Seq::empty()
    } else {
        concat_token_texts(tokens.drop_last()) + tokens.last().text@
    }
}

/// The concatenation of the source slices at the tokens' spans.
pub open spec fn concat_span_slices(tokens: Seq<Token>, src: Seq<u8>) -> Seq<u8>
    decreases tokens.len(),
{
    if tokens.len() == 0 {
        Seq::empty()
    } else {
        concat_span_slices(tokens.drop_last(), src) + src.subrange(
            tokens.last().span.start as int,
            tokens.last().span.end as int,
        )
    }
}

/// Total coverage: for any well-formed token stream over a source,
/// concatenating each token's stored text is byte-for-byte the same as
/// concatenating the source slices recomputed from the tokens' spans — the
/// token stream carries the source exactly, apart from the bytes the lexer
/// skipped (whitespace, comments, and bytes it reported).
pub proof fn lemma_lexer_total_coverage(tokens: Seq<Token>, src: Seq<u8>)
    requires
        forall|i: int| 0 <= i < tokens.len() ==> token_wf(#[trigger] tokens[i], src),
    ensures
        concat_token_texts(tokens) == concat_span_slices(tokens, src),
    decreases tokens.len(),
{
    if tokens.len() > 0 {
        lemma_lexer_total_coverage(tokens.drop_last(), src);
        assert(token_wf(tokens.last(), src));
        assert(concat_token_texts(tokens) =~= concat_span_slices(tokens, src));
    } else {
        assert(concat_token_texts(tokens) =~= concat_span_slices(tokens, src));
    }
}

} // verus!
