//! Recursive-descent parsing with one token of lookahead and top-level error
//! recovery: one malformed declaration never prevents later ones from being
//! parsed.
//!
//! Top-level declarations are exactly function definitions or declarations,
//! optionally preceded by `export`/`extern`/`pub` attribute keywords. A
//! function header is `fn name(arg: type, ...)` followed by one of: `;` (a
//! declaration with no body), `{` block `}`, `:` then a statement (a
//! single-statement body), or `:` then a return type and one of the same
//! three body forms again.

use vstd::prelude::*;

use crate::ast::{is_expr, is_stmt, Attrs, Node, Type};
use crate::lexer::{is_digit, stream_wf, Token, TokenKind};
use crate::report::{Report, ReportKind};
use crate::span::{Sp, Span};
use crate::util::clone_bytes;

verus! {

/// The escape table for string literals: a letter or punctuation code after
/// a backslash maps to a control character; any byte outside the table
/// stands for itself.
pub open spec fn escape_byte(b: u8) -> u8 {
    if b == 0x30 || b == 0x40 {
        0x00  // '0' or '@'
    } else if 0x41 <= b <= 0x5a {
        (b - 0x40) as u8  // 'A' .. 'Z'
    } else if b == 0x61 {
        0x07  // 'a'
    } else if b == 0x62 {
        0x08  // 'b'
    } else if b == 0x74 {
        0x09  // 't'
    } else if b == 0x6e {
        0x0a  // 'n'
    } else if b == 0x76 {
        0x0b  // 'v'
    } else if b == 0x66 {
        0x0c  // 'f'
    } else if b == 0x72 {
        0x0d  // 'r'
    } else if b == 0x65 || b == 0x5b {
        0x1b  // 'e' or '['
    } else if b == 0x2f {
        0x1c  // '/'
    } else if b == 0x5d {
        0x1d  // ']'
    } else if b == 0x5e {
        0x1e  // '^'
    } else if b == 0x5f {
        0x1f  // '_'
    } else if b == 0x3f {
        0x7f  // '?'
    } else {
        b
    }
}

/// Decoding a string literal body: a backslash maps the byte after it
/// through the escape table, consuming exactly that byte; a trailing
/// backslash is dropped.
pub open spec fn decode_escapes(s: Seq<u8>) -> Seq<u8>
    decreases s.len(),
{
    if s.len() == 0 {
        Seq::empty()
    } else if s[0] == 0x5c {
        if s.len() >= 2 {
            seq![escape_byte(s[1])] + decode_escapes(s.skip(2))
        } else {
            Seq::empty()
        }
    } else {
        seq![s[0]] + decode_escapes(s.skip(1))
    }
}

/// The body of a string literal token: the bytes between its quotes.
pub open spec fn strlit_body(t: Seq<u8>) -> Seq<u8> {
    if t.len() >= 2 {
        t.subrange(1, t.len() - 1)
    } else {
        Seq::empty()
    }
}

/// The text `void`.
pub open spec fn is_void_text(t: Seq<u8>) -> bool {
    t.len() == 4 && t[0] == 0x76u8 && t[1] == 0x6fu8 && t[2] == 0x69u8 && t[3] == 0x64u8
}

/// The text `never`.
pub open spec fn is_never_text(t: Seq<u8>) -> bool {
    t.len() == 5 && t[0] == 0x6eu8 && t[1] == 0x65u8 && t[2] == 0x76u8 && t[3] == 0x65u8 && t[4]
        == 0x72u8
}

/// The text `usize`.
pub open spec fn is_usize_text(t: Seq<u8>) -> bool {
    t.len() == 5 && t[0] == 0x75u8 && t[1] == 0x73u8 && t[2] == 0x69u8 && t[3] == 0x7au8 && t[4]
        == 0x65u8
}

/// The text `isize`.
pub open spec fn is_isize_text(t: Seq<u8>) -> bool {
    t.len() == 5 && t[0] == 0x69u8 && t[1] == 0x73u8 && t[2] == 0x69u8 && t[3] == 0x7au8 && t[4]
        == 0x65u8
}

/// The text `opt`.
pub open spec fn is_opt_text(t: Seq<u8>) -> bool {
    t.len() == 3 && t[0] == 0x6fu8 && t[1] == 0x70u8 && t[2] == 0x74u8
}

/// The text `mut`.
pub open spec fn is_mut_text(t: Seq<u8>) -> bool {
    t.len() == 3 && t[0] == 0x6du8 && t[1] == 0x75u8 && t[2] == 0x74u8
}

/// A sized primitive family name: one of the four family letters, then one
/// or more decimal digits whose value fits a width.
pub open spec fn sized_family_text(t: Seq<u8>) -> bool {
    &&& t.len() >= 2
    &&& (t[0] == 0x75u8 || t[0] == 0x69u8 || t[0] == 0x62u8 || t[0] == 0x66u8)
    &&& all_digits(t.skip(1))
    &&& dec_value(t.skip(1)) <= u32::MAX
}

/// A bare nominal reference: a name outside the four sized families and the
/// named types.
pub open spec fn nominal_text(t: Seq<u8>) -> bool {
    &&& t.len() > 0
    &&& t[0] != 0x75u8 && t[0] != 0x69u8 && t[0] != 0x62u8 && t[0] != 0x66u8
    &&& !is_void_text(t) && !is_never_text(t)
}

/// The numeric value of a decimal digit string, most significant first.
pub open spec fn dec_value(s: Seq<u8>) -> int
    decreases s.len(),
{
    if s.len() == 0 {
        0
    } else {
        dec_value(s.drop_last()) * 10 + (s.last() - 0x30)
    }
}

/// Whether every byte is a decimal digit.
pub open spec fn all_digits(s: Seq<u8>) -> bool {
    forall|i: int| 0 <= i < s.len() ==> is_digit(#[trigger] s[i])
}

/// The value of a digit string is never negative.
proof fn lemma_dec_value_nonneg(s: Seq<u8>)
    requires
        all_digits(s),
    ensures
        dec_value(s) >= 0,
    decreases s.len(),
{
    if s.len() > 0 {
        assert(all_digits(s.drop_last())) by {
            assert(forall|i: int| 0 <= i < s.len() - 1 ==> s.drop_last()[i] == s[i]);
        }
        lemma_dec_value_nonneg(s.drop_last());
        assert(is_digit(s[s.len() - 1]));
    }
}

/// Extending a digit string on the right never lowers its value.
proof fn lemma_dec_value_prefix(s: Seq<u8>, i: int)
    requires
        all_digits(s),
        0 <= i <= s.len(),
    ensures
        dec_value(s.subrange(0, i)) <= dec_value(s),
    decreases s.len() - i,
{
    if i < s.len() {
        lemma_dec_value_prefix(s, i + 1);
        let p = s.subrange(0, i + 1);
        assert(p.drop_last() =~= s.subrange(0, i));
        assert(all_digits(p)) by {
            assert(forall|j: int| 0 <= j < p.len() ==> p[j] == s[j]);
        }
        assert(all_digits(s.subrange(0, i))) by {
            assert(forall|j: int| 0 <= j < i ==> s.subrange(0, i)[j] == s[j]);
        }
        lemma_dec_value_nonneg(s.subrange(0, i));
        assert(is_digit(p.last()));
        assert(dec_value(p) == dec_value(s.subrange(0, i)) * 10 + (p.last() - 0x30));
        assert(dec_value(s.subrange(0, i)) * 10 >= dec_value(s.subrange(0, i))) by (nonlinear_arith)
            requires dec_value(s.subrange(0, i)) >= 0;
    } else {
        assert(s.subrange(0, i) =~= s);
    }
}

/// Parses an unsigned decimal number. Returns its value exactly when the
/// bytes are one or more decimal digits and the value fits; otherwise
/// nothing.
pub fn parse_u64_bytes(s: &[u8]) -> (r: Option<u64>)
    ensures
        r is Some <==> (s@.len() > 0 && all_digits(s@) && dec_value(s@) <= u64::MAX),
        r matches Some(v) ==> v == dec_value(s@),
{
    let n = s.len();
    if n == 0 {
        return None;
    }
    let mut val: u64 = 0;
    let mut i: usize = 0;
    while i < n
        invariant
            n == s@.len(),
            0 <= i <= n,
            all_digits(s@.subrange(0, i as int)),
            val == dec_value(s@.subrange(0, i as int)),
        decreases n - i,
    {
        let b = s[i];
        proof {
            assert(s@.subrange(0, i + 1).drop_last() =~= s@.subrange(0, i as int));
            assert(s@.subrange(0, i + 1).last() == s@[i as int]);
        }
        if !(0x30 <= b && b <= 0x39) {
            proof {
                assert(!is_digit(s@[i as int]));
            }
            return None;
        }
        let d = (b - 0x30) as u64;
        if val > 1844674407370955161 || (val == 1844674407370955161 && d > 5) {
            proof {
                assert(all_digits(s@.subrange(0, i + 1)));
                assert(dec_value(s@.subrange(0, i + 1)) == val * 10 + d);
                assert(dec_value(s@.subrange(0, i + 1)) > u64::MAX);
                if all_digits(s@) {
                    lemma_dec_value_prefix(s@, i + 1);
                }
            }
            return None;
        }
        val = val * 10 + d;
        i = i + 1;
    }
    proof {
        assert(s@.subrange(0, n as int) =~= s@);
    }
    Some(val)
}

fn escape_byte_x(b: u8) -> (r: u8)
    ensures
        r == escape_byte(b),
{
    if b == 0x30 || b == 0x40 {
        0x00
    } else if 0x41 <= b && b <= 0x5a {
        b - 0x40
    } else if b == 0x61 {
        0x07
    } else if b == 0x62 {
        0x08
    } else if b == 0x74 {
        0x09
    } else if b == 0x6e {
        0x0a
    } else if b == 0x76 {
        0x0b
    } else if b == 0x66 {
        0x0c
    } else if b == 0x72 {
        0x0d
    } else if b == 0x65 || b == 0x5b {
        0x1b
    } else if b == 0x2f {
        0x1c
    } else if b == 0x5d {
        0x1d
    } else if b == 0x5e {
        0x1e
    } else if b == 0x5f {
        0x1f
    } else if b == 0x3f {
        0x7f
    } else {
        b
    }
}

/// Decodes the escapes of a string literal body.
fn decode_escapes_x(content: &[u8]) -> (out: Vec<u8>)
    ensures
        out@ == decode_escapes(content@),
{
    let n = content.len();
    let mut out: Vec<u8> = Vec::new();
    let mut i: usize = 0;
    proof {
        assert(content@.skip(0) =~= content@);
        assert(out@ + decode_escapes(content@) =~= decode_escapes(content@));
    }
    while i < n
        invariant
            n == content@.len(),
            i <= n,
            decode_escapes(content@) == out@ + decode_escapes(content@.skip(i as int)),
        decreases n - i,
    {
        let ghost rest = content@.skip(i as int);
        proof {
            assert(rest.len() == n - i);
            assert(rest[0] == content@[i as int]);
        }
        let b = content[i];
        if b == 0x5c {
            if i + 1 < n {
                proof {
                    assert(rest[1] == content@[i as int + 1]);
                    assert(rest.skip(2) =~= content@.skip(i as int + 2));
                }
                out.push(escape_byte_x(content[i + 1]));
                proof {
                    assert(decode_escapes(content@) =~= out@ + decode_escapes(
                        content@.skip(i as int + 2),
                    ));
                }
                i = i + 2;
            } else {
                proof {
                    assert(decode_escapes(rest) =~= Seq::<u8>::empty());
                    assert(content@.skip(i as int + 1) =~= Seq::<u8>::empty());
                    assert(decode_escapes(content@) =~= out@ + decode_escapes(
                        content@.skip(i as int + 1),
                    ));
                }
                i = i + 1;
            }
        } else {
            out.push(b);
            proof {
                assert(rest.skip(1) =~= content@.skip(i as int + 1));
                assert(decode_escapes(content@) =~= out@ + decode_escapes(
                    content@.skip(i as int + 1),
                ));
            }
            i = i + 1;
        }
    }
    proof {
        assert(content@.skip(n as int) =~= Seq::<u8>::empty());
        assert(out@ =~= decode_escapes(content@));
    }
    out
}

/// The smaller of two spans' starts to the larger of their ends.
fn join_spans(a: Span, b: Span) -> (r: Span)
    requires
        a.wf(),
        b.wf(),
    ensures
        r.wf(),
        r.start == if a.start <= b.start { a.start } else { b.start },
        r.end == if a.end >= b.end { a.end } else { b.end },
{
    Span {
        start: if a.start <= b.start { a.start } else { b.start },
        end: if a.end >= b.end { a.end } else { b.end },
    }
}

/// The token shape of a minimal declaration: `fn name();`.
pub open spec fn simple_decl_at(t: Seq<Token>, i: int) -> bool {
    &&& i + 5 <= t.len()
    &&& t[i].kind == TokenKind::KWFn
    &&& t[i + 1].kind == TokenKind::Identifier
    &&& t[i + 2].kind == TokenKind::LParen
    &&& t[i + 3].kind == TokenKind::RParen
    &&& t[i + 4].kind == TokenKind::Semicolon
}

/// The token shape of a minimal binding statement:
/// `let name: family = literal;` with a sized primitive type and a decimal
/// literal that fits.
pub open spec fn simple_let_at(t: Seq<Token>, i: int) -> bool {
    &&& i + 7 <= t.len()
    &&& t[i].kind == TokenKind::KWLet
    &&& t[i + 1].kind == TokenKind::Identifier
    &&& t[i + 2].kind == TokenKind::Colon
    &&& t[i + 3].kind == TokenKind::Identifier
    &&& sized_family_text(t[i + 3].text@)
    &&& t[i + 4].kind == TokenKind::Equals
    &&& t[i + 5].kind == TokenKind::DecimalIntLiteral
    &&& t[i + 5].text@.len() > 0
    &&& all_digits(t[i + 5].text@)
    &&& dec_value(t[i + 5].text@) <= u64::MAX
    &&& t[i + 6].kind == TokenKind::Semicolon
}

/// Whether a token can begin a statement.
pub open spec fn spec_stmt_start(k: TokenKind) -> bool {
    k == TokenKind::KWRet || k == TokenKind::KWLet || k == TokenKind::Dollar || k
        == TokenKind::StringLiteral || k == TokenKind::DecimalIntLiteral
}

fn stmt_start(k: TokenKind) -> (r: bool)
    ensures
        r == spec_stmt_start(k),
{
    match k {
        TokenKind::KWRet | TokenKind::KWLet | TokenKind::Dollar | TokenKind::StringLiteral
            | TokenKind::DecimalIntLiteral => true,
        _ => false,
    }
}

/// The parser: a token cursor over a well-formed stream.
pub struct Parser {
    tokens: Vec<Token>,
    index: usize,
}

impl Parser {
    /// The cursor stands on a token of a well-formed stream.
    pub closed spec fn wf(self) -> bool {
        &&& stream_wf(self.tokens@)
        &&& self.index < self.tokens@.len()
    }

    /// How many tokens are left from the cursor on.
    pub closed spec fn remaining(self) -> int {
        self.tokens@.len() - self.index
    }

    /// The token under the cursor.
    pub closed spec fn cur(self) -> Token {
        self.tokens@[self.index as int]
    }

    fn current_kind(&self) -> (k: TokenKind)
        requires
            self.wf(),
        ensures
            k == self.cur().kind,
    {
        self.tokens[self.index].kind
    }

    fn current(&self) -> (t: &Token)
        requires
            self.wf(),
        ensures
            *t == self.cur(),
            t.span.wf(),
    {
        proof {
            assert(self.tokens@[self.index as int].span.start <= self.tokens@[self.index
                as int].span.end);
        }
        &self.tokens[self.index]
    }

    /// The span of the token before the cursor (of the first token when the
    /// cursor has not moved yet): where the previous construct ended.
    fn prev_span(&self) -> (s: Span)
        requires
            self.wf(),
        ensures
            s.wf(),
    {
        proof {
            if self.index > 0 {
                assert(self.tokens@[self.index as int - 1].span.start <= self.tokens@[self.index
                    as int - 1].span.end);
            } else {
                assert(self.tokens@[0].span.start <= self.tokens@[0].span.end);
            }
        }
        if self.index > 0 {
            self.tokens[self.index - 1].span
        } else {
            self.tokens[0].span
        }
    }

    /// Moves the cursor one token forward; never past the end-of-file token.
    fn advance(&mut self)
        requires
            old(self).wf(),
            old(self).cur().kind != TokenKind::EOF,
        ensures
            final(self).wf(),
            final(self).tokens@ == old(self).tokens@,
            final(self).index == old(self).index + 1,
    {
        let n = self.tokens.len();
        proof {
            assert(self.tokens@.last() == self.tokens@[n - 1]);
            // the cursor is not on the last token, which is end-of-file
            assert(self.index < n - 1);
        }
        self.index = self.index + 1;
    }

    /// Parses the whole stream into the ordered sequence of top-level
    /// declarations, which are all functions. On a parse error the
    /// diagnostic is recorded, the stream is fast-forwarded past the next
    /// `;` or `}` from which a declaration (or the end of input) follows,
    /// and top-level parsing resumes: one malformed declaration never
    /// prevents later ones from being parsed.
    #[verifier::rlimit(60)]
    pub fn parse(tokens: Vec<Token>, filename: &str) -> (r: (Vec<Sp<Node>>, Vec<Report>))
        requires
            stream_wf(tokens@),
        ensures
            forall|i: int| 0 <= i < r.0@.len() ==> (#[trigger] r.0@[i]).elem is Func,
            tokens@.len() == 1 ==> r.0@.len() == 0 && r.1@.len() == 0,
            tokens@.len() > 1 ==> r.0@.len() + r.1@.len() >= 1,
            forall|i: int|
                0 <= i < r.1@.len() ==> ((#[trigger] r.1@[i]).file matches Some(f) && f@
                    == filename@),
            (tokens@.len() == 6 && simple_decl_at(tokens@, 0)) ==> (r.1@.len() == 0 && r.0@.len()
                == 1 && (r.0@[0].elem matches Node::Func { name, args, ret, body, .. }
                && name.elem@ == tokens@[1].text@ && args@.len() == 0 && ret is None
                && body@.len() == 0)),
    {
        let mut ast: Vec<Sp<Node>> = Vec::new();
        let mut reports: Vec<Report> = Vec::new();
        let mut parser = Parser { tokens, index: 0 };
        let ghost toks = parser.tokens@;

        proof {
            assert(parser.tokens@.last() == parser.tokens@[parser.tokens@.len() - 1]);
        }
        while parser.current_kind() != TokenKind::EOF
            invariant
                parser.wf(),
                parser.tokens@ == toks,
                forall|i: int| 0 <= i < ast@.len() ==> (#[trigger] ast@[i]).elem is Func,
                parser.index > 0 ==> ast@.len() + reports@.len() >= 1,
                parser.index == 0 ==> ast@.len() + reports@.len() == 0,
                forall|i: int|
                    0 <= i < reports@.len() ==> ((#[trigger] reports@[i]).file matches Some(f)
                        && f@ == filename@),
                (toks.len() == 6 && simple_decl_at(toks, 0)) ==> ((parser.index == 0
                    && ast@.len() == 0 && reports@.len() == 0) || (parser.index == 5
                    && reports@.len() == 0 && ast@.len() == 1 && (ast@[0].elem matches Node::Func {
                    name,
                    args,
                    ret,
                    body,
                    ..
                } && name.elem@ == toks[1].text@ && args@.len() == 0 && ret is None
                    && body@.len() == 0))),
            decreases parser.remaining(),
        {
            let r = parser.parse_global();
            match r {
                Ok(global) => {
                    ast.push(global);
                },
                Err(report) => {
                    let ghost pre_reports = reports@;
                    reports.push(report.file(String::from_str(filename)));
                    proof {
                        assert forall|i: int|
                            0 <= i < reports@.len() implies ((#[trigger] reports@[i]).file
                            matches Some(f) && f@ == filename@) by {
                            if i < pre_reports.len() {
                                assert(reports@[i] == pre_reports[i]);
                            } else {
                                assert(reports@[i] == reports@.last());
                            }
                        }
                    }
                    // fast-forward to a statement/block terminator after
                    // which a declaration or the end of input follows
                    let ghost toks0 = parser.tokens@;
                    let ghost idx0 = parser.index;
                    loop
                        invariant
                            parser.wf(),
                            parser.tokens@ == toks0,
                            parser.index >= idx0,
                        ensures
                            parser.wf(),
                            parser.tokens@ == toks0,
                            parser.index >= idx0,
                        decreases parser.remaining(),
                    {
                        let k = parser.current_kind();
                        if k == TokenKind::EOF {
                            break;
                        }
                        if k == TokenKind::Semicolon || k == TokenKind::RBrace {
                            parser.advance();
                            let k2 = parser.current_kind();
                            if k2 == TokenKind::KWFn || k2 == TokenKind::KWExtern || k2
                                == TokenKind::KWExport || k2 == TokenKind::EOF {
                                break;
                            }
                        } else {
                            parser.advance();
                        }
                    }
                },
            }
        }

        (ast, reports)
    }

    /// Parses one top-level declaration: a function, optionally wrapped by
    /// attribute keywords.
    fn parse_global(&mut self) -> (r: Result<Sp<Node>, Report>)
        requires
            old(self).wf(),
            old(self).cur().kind != TokenKind::EOF,
        ensures
            final(self).wf(),
            final(self).tokens@ == old(self).tokens@,
            final(self).index > old(self).index,
            r matches Ok(n) ==> n.elem is Func,
            r matches Ok(n) ==> n.span.wf(),
            (old(self).cur().kind != TokenKind::KWFn && old(self).cur().kind != TokenKind::KWExtern
                && old(self).cur().kind != TokenKind::KWExport) ==> r is Err,
            (old(self).cur().kind == TokenKind::KWExtern && r is Ok) ==> (r matches Ok(n)
                && n.elem matches Node::Func { attrs, .. } && attrs@.len() >= 1
                && attrs@.last().elem == Attrs::Extern),
            (old(self).cur().kind == TokenKind::KWExport && r is Ok) ==> (r matches Ok(n)
                && n.elem matches Node::Func { attrs, .. } && attrs@.len() >= 1
                && attrs@.last().elem == Attrs::Export),
            simple_decl_at(old(self).tokens@, old(self).index as int) ==> (r matches Ok(n)
                && final(self).index == old(self).index + 5 && (n.elem matches Node::Func {
                name,
                args,
                ret,
                body,
                ..
            } && name.elem@ == old(self).tokens@[old(self).index + 1].text@ && args@.len() == 0
                && ret is None && body@.len() == 0)),
        decreases old(self).remaining(),
    {
        let kind0 = self.current_kind();
        match kind0 {
            TokenKind::KWFn => self.parse_func(),
            TokenKind::KWExtern | TokenKind::KWExport => {
                let attr_span = self.current().span;
                self.advance();
                if self.current_kind() == TokenKind::EOF {
                    return ReportKind::UnexpectedEOF.untitled().span(attr_span).as_err();
                }
                let inner = self.parse_global();
                match inner {
                    Ok(node) => {
                        let node_span = node.span;
                        match node.elem {
                            Node::Func { name, mut attrs, args, ret, body } => {
                                let attr = if kind0 == TokenKind::KWExtern {
                                    Attrs::Extern
                                } else {
                                    Attrs::Export
                                };
                                attrs.push(Sp { span: attr_span, elem: attr });
                                Ok(
                                    Sp {
                                        span: join_spans(attr_span, node_span),
                                        elem: Node::Func { name, attrs, args, ret, body },
                                    },
                                )
                            },
                            _ => {
                                ReportKind::UnexpectedToken.title(
                                    String::from_str("Expected a function declaration"),
                                ).span(attr_span).as_err()
                            },
                        }
                    },
                    Err(e) => Err(e),
                }
            },
            _ => {
                let sp = self.current().span;
                self.advance();
                ReportKind::UnexpectedToken.title(String::from_str("Expected a declaration")).span(
                    sp,
                ).as_err()
            },
        }
    }

    /// Parses one function from its `fn` keyword on.
    fn parse_func(&mut self) -> (r: Result<Sp<Node>, Report>)
        requires
            old(self).wf(),
            old(self).cur().kind == TokenKind::KWFn,
        ensures
            final(self).wf(),
            final(self).tokens@ == old(self).tokens@,
            final(self).index > old(self).index,
            r matches Ok(n) ==> n.elem is Func,
            r matches Ok(n) ==> n.span.wf(),
            r matches Ok(n) ==> (n.elem matches Node::Func { attrs, .. } && attrs@.len() == 0),
            r matches Ok(n) ==> (n.elem matches Node::Func { name, .. } && name.elem@ == old(self).tokens@[old(self).index + 1].text@),
            simple_decl_at(old(self).tokens@, old(self).index as int) ==> (r matches Ok(n)
                && final(self).index == old(self).index + 5 && (n.elem matches Node::Func {
                args,
                ret,
                body,
                ..
            } && args@.len() == 0 && ret is None && body@.len() == 0)),
        decreases old(self).remaining(),
    {
        let fn_span = self.current().span;
        self.advance();

        if self.current_kind() != TokenKind::Identifier {
            return ReportKind::UnexpectedToken.title(String::from_str("Expected identifier")).span(
                self.current().span,
            ).as_err();
        }
        let name_span = self.current().span;
        let name_text = clone_bytes(&self.current().text);
        self.advance();

        if self.current_kind() != TokenKind::LParen {
            return ReportKind::UnexpectedToken.title(String::from_str("Expected '('")).span(
                self.current().span,
            ).as_err();
        }

        let mut args: Vec<(Sp<Vec<u8>>, Sp<Type>)> = Vec::new();
        loop
            invariant_except_break
                simple_decl_at(old(self).tokens@, old(self).index as int) ==> (self.index == old(self).index + 2 && args@.len() == 0),
            invariant
                self.wf(),
                self.tokens@ == old(self).tokens@,
                self.index > old(self).index,
                self.cur().kind != TokenKind::EOF,
            ensures
                self.wf(),
                self.tokens@ == old(self).tokens@,
                self.index > old(self).index,
                self.cur().kind == TokenKind::RParen,
                simple_decl_at(old(self).tokens@, old(self).index as int) ==> (self.index == old(self).index + 3 && args@.len() == 0),
            decreases self.remaining(),
        {
            // consume the opening parenthesis or the separator
            self.advance();
            match self.current_kind() {
                TokenKind::RParen => {
                    break;
                },
                TokenKind::Identifier => {
                    let arg_span = self.current().span;
                    let arg_text = clone_bytes(&self.current().text);
                    self.advance();
                    if self.current_kind() != TokenKind::Colon {
                        return ReportKind::UnexpectedToken.title(
                            String::from_str("Expected ':'"),
                        ).span(self.current().span).as_err();
                    }
                    self.advance();
                    let ty = match self.parse_type() {
                        Ok(t) => t,
                        Err(e) => {
                            return Err(e);
                        },
                    };
                    args.push((Sp { span: arg_span, elem: arg_text }, ty));
                    if self.current_kind() == TokenKind::RParen {
                        break;
                    }
                    if self.current_kind() == TokenKind::EOF {
                        return ReportKind::UnexpectedEOF.title(String::from_str("Expected ')'"))
                            .span(self.prev_span()).as_err();
                    }
                },
                TokenKind::EOF => {
                    return ReportKind::UnexpectedEOF.title(String::from_str("Expected ')'")).span(
                        self.prev_span(),
                    ).as_err();
                },
                _ => {
                    return ReportKind::UnexpectedToken.title(
                        String::from_str("Expected identifier"),
                    ).span(self.current().span).as_err();
                },
            }
        }
        self.advance();  // past ')'

        // `;` no body; `{` block; `:` a statement, or a return type and a
        // body delimiter again
        let (body, ret): (Vec<Sp<Node>>, Option<Sp<Type>>) = match self.current_kind() {
            TokenKind::Semicolon => {
                self.advance();
                (Vec::new(), None)
            },
            TokenKind::LBrace => {
                self.advance();
                let body = match self.parse_block() {
                    Ok(b) => b,
                    Err(e) => {
                        return Err(e);
                    },
                };
                (body, None)
            },
            TokenKind::Colon => {
                self.advance();
                if stmt_start(self.current_kind()) {
                    let stmt = match self.parse_stmt() {
                        Ok(s) => s,
                        Err(e) => {
                            return Err(e);
                        },
                    };
                    let mut body = Vec::new();
                    body.push(stmt);
                    (body, None)
                } else {
                    let ty = match self.parse_type() {
                        Ok(t) => t,
                        Err(e) => {
                            return Err(e);
                        },
                    };
                    let body = match self.parse_func_body_delim() {
                        Ok(b) => b,
                        Err(e) => {
                            return Err(e);
                        },
                    };
                    (body, Some(ty))
                }
            },
            _ => {
                let ty = match self.parse_type() {
                    Ok(t) => t,
                    Err(e) => {
                        return Err(e);
                    },
                };
                let body = match self.parse_func_body_delim() {
                    Ok(b) => b,
                    Err(e) => {
                        return Err(e);
                    },
                };
                (body, Some(ty))
            },
        };

        Ok(
            Sp {
                span: join_spans(fn_span, self.prev_span()),
                elem: Node::Func {
                    name: Sp { span: name_span, elem: name_text },
                    attrs: Vec::new(),
                    args,
                    ret,
                    body,
                },
            },
        )
    }

    /// Parses the body delimiter that follows a function's return type:
    /// `;` no body, `{` block, or `:` a single statement.
    fn parse_func_body_delim(&mut self) -> (r: Result<Vec<Sp<Node>>, Report>)
        requires
            old(self).wf(),
        ensures
            final(self).wf(),
            final(self).tokens@ == old(self).tokens@,
            final(self).index >= old(self).index,
        decreases old(self).remaining(),
    {
        match self.current_kind() {
            TokenKind::Semicolon => {
                self.advance();
                Ok(Vec::new())
            },
            TokenKind::LBrace => {
                self.advance();
                self.parse_block()
            },
            TokenKind::Colon => {
                self.advance();
                let stmt = match self.parse_stmt() {
                    Ok(s) => s,
                    Err(e) => {
                        return Err(e);
                    },
                };
                let mut body = Vec::new();
                body.push(stmt);
                Ok(body)
            },
            _ => {
                ReportKind::UnexpectedToken.title(String::from_str("Expected '{', ';', or ':'"))
                    .span(self.current().span).as_err()
            },
        }
    }

    /// Parses statements up to the matching close brace, which is consumed.
    fn parse_block(&mut self) -> (r: Result<Vec<Sp<Node>>, Report>)
        requires
            old(self).wf(),
        ensures
            final(self).wf(),
            final(self).tokens@ == old(self).tokens@,
            final(self).index >= old(self).index,
            r matches Ok(b) ==> forall|i: int| 0 <= i < b@.len() ==> is_stmt(
                (#[trigger] b@[i]).elem,
            ),
            r is Ok ==> (final(self).index > old(self).index && final(self).tokens@[final(self).index - 1].kind == TokenKind::RBrace),
            old(self).cur().kind == TokenKind::EOF ==> (r matches Err(er) && er.kind
                == ReportKind::UnexpectedEOF),
        decreases old(self).remaining(),
    {
        let mut body: Vec<Sp<Node>> = Vec::new();
        loop
            invariant
                self.wf(),
                self.tokens@ == old(self).tokens@,
                self.index >= old(self).index,
                forall|i: int| 0 <= i < body@.len() ==> is_stmt((#[trigger] body@[i]).elem),
            ensures
                self.wf(),
                self.tokens@ == old(self).tokens@,
                self.index > old(self).index,
                self.tokens@[self.index - 1].kind == TokenKind::RBrace,
                forall|i: int| 0 <= i < body@.len() ==> is_stmt((#[trigger] body@[i]).elem),
            decreases self.remaining(),
        {
            match self.current_kind() {
                TokenKind::RBrace => {
                    self.advance();
                    break;
                },
                TokenKind::EOF => {
                    return ReportKind::UnexpectedEOF.title(String::from_str("Expected '}'")).span(
                        self.prev_span(),
                    ).as_err();
                },
                _ => {
                    let stmt = match self.parse_stmt() {
                        Ok(s) => s,
                        Err(e) => {
                            return Err(e);
                        },
                    };
                    body.push(stmt);
                },
            }
        }
        Ok(body)
    }

    /// Parses one statement: `let name: type = expr;`, `ret [expr];`, or a
    /// bare expression statement, each ended by `;`.
    fn parse_stmt(&mut self) -> (r: Result<Sp<Node>, Report>)
        requires
            old(self).wf(),
        ensures
            final(self).wf(),
            final(self).tokens@ == old(self).tokens@,
            final(self).index >= old(self).index,
            r is Ok ==> final(self).index > old(self).index,
            r matches Ok(n) ==> is_stmt(n.elem),
            (old(self).cur().kind == TokenKind::KWRet && old(self).tokens@[old(self).index
                + 1].kind == TokenKind::Semicolon) ==> (r matches Ok(n) && n.elem matches
                Node::Ret(None) && final(self).index == old(self).index + 2),
            r is Ok ==> final(self).tokens@[final(self).index - 1].kind == TokenKind::Semicolon,
            simple_let_at(old(self).tokens@, old(self).index as int) ==> (r matches Ok(n)
                && final(self).index == old(self).index + 7 && (n.elem matches Node::Assign {
                name,
                value,
                ..
            } && name.elem@ == old(self).tokens@[old(self).index + 1].text@ && (value.elem matches
                Node::UIntLit(v) && v == dec_value(old(self).tokens@[old(self).index
                + 5].text@)))),
            !spec_stmt_start(old(self).cur().kind) ==> r is Err,
        decreases old(self).remaining(),
    {
        let start_span = self.current().span;
        let node: Sp<Node> = match self.current_kind() {
            TokenKind::KWLet => {
                self.advance();
                if self.current_kind() != TokenKind::Identifier {
                    return ReportKind::UnexpectedToken.title(
                        String::from_str("Expected identifier"),
                    ).span(self.current().span).as_err();
                }
                let name_span = self.current().span;
                let name_text = clone_bytes(&self.current().text);
                self.advance();
                if self.current_kind() != TokenKind::Colon {
                    return ReportKind::UnexpectedToken.title(String::from_str("Expected ':'"))
                        .span(self.current().span).as_err();
                }
                self.advance();
                let ty = match self.parse_type() {
                    Ok(t) => t,
                    Err(e) => {
                        return Err(e);
                    },
                };
                if self.current_kind() != TokenKind::Equals {
                    return ReportKind::UnexpectedToken.title(String::from_str("Expected '='"))
                        .span(self.current().span).as_err();
                }
                self.advance();
                let value = match self.parse_expr() {
                    Ok(v) => v,
                    Err(e) => {
                        return Err(e);
                    },
                };
                Sp {
                    span: join_spans(start_span, self.prev_span()),
                    elem: Node::Assign {
                        name: Sp { span: name_span, elem: name_text },
                        ty,
                        value: Box::new(value),
                    },
                }
            },
            TokenKind::KWRet => {
                self.advance();
                if self.current_kind() == TokenKind::Semicolon {
                    Sp { span: join_spans(start_span, self.prev_span()), elem: Node::Ret(None) }
                } else {
                    let value = match self.parse_expr() {
                        Ok(v) => v,
                        Err(e) => {
                            return Err(e);
                        },
                    };
                    Sp {
                        span: join_spans(start_span, self.prev_span()),
                        elem: Node::Ret(Some(Box::new(value))),
                    }
                }
            },
            _ => {
                match self.parse_expr() {
                    Ok(v) => v,
                    Err(e) => {
                        return Err(e);
                    },
                }
            },
        };
        if self.current_kind() != TokenKind::Semicolon {
            return ReportKind::UnexpectedToken.title(String::from_str("Expected ';'")).span(
                self.current().span,
            ).as_err();
        }
        self.advance();
        Ok(node)
    }

    /// Parses one expression: a `$name(args...)` or `$name arg` call form, a
    /// string literal (escapes decoded through the escape table), or a
    /// decimal integer literal.
    fn parse_expr(&mut self) -> (r: Result<Sp<Node>, Report>)
        requires
            old(self).wf(),
        ensures
            final(self).wf(),
            final(self).tokens@ == old(self).tokens@,
            final(self).index >= old(self).index,
            r is Ok ==> final(self).index > old(self).index,
            r matches Ok(n) ==> is_expr(n.elem),
            old(self).cur().kind == TokenKind::DecimalIntLiteral ==> (final(self).index == old(self).index + 1 && (r is Ok <==> (old(self).cur().text@.len() > 0 && all_digits(
                old(self).cur().text@,
            ) && dec_value(old(self).cur().text@) <= u64::MAX)) && (r matches Ok(n) ==> (n.elem
                matches Node::UIntLit(v) && v == dec_value(old(self).cur().text@)))),
            old(self).cur().kind == TokenKind::StringLiteral ==> (r matches Ok(n) && final(self).index == old(self).index + 1 && (n.elem matches Node::StrLit(s) && s@
                == decode_escapes(strlit_body(old(self).cur().text@)))),
            (old(self).cur().kind != TokenKind::Dollar && old(self).cur().kind
                != TokenKind::StringLiteral && old(self).cur().kind
                != TokenKind::DecimalIntLiteral) ==> (r is Err && *final(self) == *old(self)),
            old(self).cur().kind == TokenKind::Dollar ==> (old(self).tokens@[old(self).index
                + 1].kind != TokenKind::Identifier ==> r is Err),
            old(self).cur().kind == TokenKind::Dollar ==> (r matches Ok(n) ==> (n.elem matches
                Node::FuncCall { name, .. } && name.elem@ == old(self).tokens@[old(self).index
                + 1].text@)),
        decreases old(self).remaining(),
    {
        let start_span = self.current().span;
        match self.current_kind() {
            TokenKind::Dollar => {
                self.advance();
                if self.current_kind() != TokenKind::Identifier {
                    return ReportKind::UnexpectedToken.title(
                        String::from_str("Expected identifier"),
                    ).span(self.current().span).as_err();
                }
                let name_span = self.current().span;
                let name_text = clone_bytes(&self.current().text);
                self.advance();
                let args: Vec<Sp<Node>> = if self.current_kind() == TokenKind::LParen {
                    self.advance();
                    let mut args: Vec<Sp<Node>> = Vec::new();
                    loop
                        invariant
                            self.wf(),
                            self.tokens@ == old(self).tokens@,
                            self.index > old(self).index,
                            old(self).cur().kind == TokenKind::Dollar,
                        ensures
                            self.wf(),
                            self.tokens@ == old(self).tokens@,
                            self.index > old(self).index,
                        decreases self.remaining(),
                    {
                        match self.current_kind() {
                            TokenKind::RParen => {
                                self.advance();
                                break;
                            },
                            TokenKind::Comma => {
                                self.advance();
                            },
                            TokenKind::EOF => {
                                return ReportKind::UnexpectedEOF.title(
                                    String::from_str("Expected ')'"),
                                ).span(self.prev_span()).as_err();
                            },
                            _ => {
                                let arg = match self.parse_expr() {
                                    Ok(a) => a,
                                    Err(e) => {
                                        return Err(e);
                                    },
                                };
                                args.push(arg);
                            },
                        }
                    }
                    args
                } else {
                    // the unparenthesized call form takes exactly one
                    // following expression as its sole argument
                    let arg = match self.parse_expr() {
                        Ok(a) => a,
                        Err(e) => {
                            return Err(e);
                        },
                    };
                    let mut args = Vec::new();
                    args.push(arg);
                    args
                };
                Ok(
                    Sp {
                        span: join_spans(start_span, self.prev_span()),
                        elem: Node::FuncCall {
                            name: Sp { span: name_span, elem: name_text },
                            args,
                        },
                    },
                )
            },
            TokenKind::StringLiteral => {
                // the token text carries the quotes; the body between them
                // is decoded
                let t = self.current();
                let tlen = t.text.len();
                let decoded: Vec<u8> = if tlen >= 2 {
                    let body = vstd::slice::slice_subrange(t.text.as_slice(), 1, tlen - 1);
                    decode_escapes_x(body)
                } else {
                    Vec::new()
                };
                self.advance();
                Ok(Sp { span: start_span, elem: Node::StrLit(decoded) })
            },
            TokenKind::DecimalIntLiteral => {
                let t = self.current();
                let parsed = parse_u64_bytes(t.text.as_slice());
                self.advance();
                match parsed {
                    Some(v) => Ok(Sp { span: start_span, elem: Node::UIntLit(v) }),
                    None => {
                        ReportKind::InvalidNumber.title(
                            String::from_str("Invalid integer literal"),
                        ).span(start_span).as_err()
                    },
                }
            },
            _ => {
                ReportKind::UnexpectedToken.title(String::from_str("Expected expression")).span(
                    start_span,
                ).as_err()
            },
        }
    }

    /// Parses one type: `* type`, `[type]`, a sized primitive family
    /// (`u<N>`/`i<N>`/`b<N>`/`f<N>`), `usize`, `isize`, `void`, `never`,
    /// `opt type`, `mut type`, or a bare nominal identifier.
    fn parse_type(&mut self) -> (r: Result<Sp<Type>, Report>)
        requires
            old(self).wf(),
        ensures
            final(self).wf(),
            final(self).tokens@ == old(self).tokens@,
            final(self).index >= old(self).index,
            r is Ok ==> final(self).index > old(self).index,
            (old(self).cur().kind != TokenKind::Star && old(self).cur().kind
                != TokenKind::LBracket && old(self).cur().kind != TokenKind::Identifier) ==> (r
                is Err && *final(self) == *old(self)),
            old(self).cur().kind == TokenKind::Star ==> (r matches Ok(t) ==> t.elem is Ptr),
            old(self).cur().kind == TokenKind::LBracket ==> (r matches Ok(t) ==> t.elem is Arr),
            old(self).cur().kind == TokenKind::Identifier ==> {
                &&& sized_family_text(old(self).cur().text@) ==> (r matches Ok(t) && final(self).index == old(self).index + 1 && (match t.elem {
                    Type::U(w) => old(self).cur().text@[0] == 0x75 && w == dec_value(
                        old(self).cur().text@.skip(1),
                    ),
                    Type::I(w) => old(self).cur().text@[0] == 0x69 && w == dec_value(
                        old(self).cur().text@.skip(1),
                    ),
                    Type::B(w) => old(self).cur().text@[0] == 0x62 && w == dec_value(
                        old(self).cur().text@.skip(1),
                    ),
                    Type::F(w) => old(self).cur().text@[0] == 0x66 && w == dec_value(
                        old(self).cur().text@.skip(1),
                    ),
                    _ => false,
                }))
                &&& (nominal_text(old(self).cur().text@) && !is_opt_text(old(self).cur().text@)
                    && !is_mut_text(old(self).cur().text@)) ==> (r matches Ok(t) && final(self).index == old(self).index + 1 && (t.elem matches Type::Ident(nn) && nn@ == old(self).cur().text@))
                &&& is_void_text(old(self).cur().text@) ==> (r matches Ok(t) && t.elem is Void
                    && final(self).index == old(self).index + 1)
                &&& is_never_text(old(self).cur().text@) ==> (r matches Ok(t) && t.elem is Never
                    && final(self).index == old(self).index + 1)
                &&& is_usize_text(old(self).cur().text@) ==> (r matches Ok(t) && t.elem is Usize
                    && final(self).index == old(self).index + 1)
                &&& is_isize_text(old(self).cur().text@) ==> (r matches Ok(t) && t.elem is Isize
                    && final(self).index == old(self).index + 1)
            },
        decreases old(self).remaining(),
    {
        let tok_span = self.current().span;
        match self.current_kind() {
            TokenKind::Star => {
                self.advance();
                let inner = match self.parse_type() {
                    Ok(t) => t,
                    Err(e) => {
                        return Err(e);
                    },
                };
                Ok(Sp { span: tok_span, elem: Type::Ptr(Box::new(inner)) })
            },
            TokenKind::LBracket => {
                self.advance();
                let inner = match self.parse_type() {
                    Ok(t) => t,
                    Err(e) => {
                        return Err(e);
                    },
                };
                // an optional `:` then a decimal size fixes the array length
                let size: Option<u64> = if self.current_kind() == TokenKind::Colon {
                    self.advance();
                    if self.current_kind() != TokenKind::DecimalIntLiteral {
                        return ReportKind::UnexpectedToken.title(
                            String::from_str("Expected array size"),
                        ).span(self.current().span).as_err();
                    }
                    let parsed = parse_u64_bytes(self.current().text.as_slice());
                    let size_span = self.current().span;
                    self.advance();
                    match parsed {
                        Some(n) => Some(n),
                        None => {
                            return ReportKind::InvalidNumber.title(
                                String::from_str("Invalid array size"),
                            ).span(size_span).as_err();
                        },
                    }
                } else {
                    None
                };
                if self.current_kind() != TokenKind::RBracket {
                    return ReportKind::UnexpectedToken.title(String::from_str("Expected ']'"))
                        .span(self.current().span).as_err();
                }
                self.advance();
                Ok(
                    Sp {
                        span: join_spans(tok_span, self.prev_span()),
                        elem: Type::Arr(Box::new(inner), size),
                    },
                )
            },
            TokenKind::Identifier => {
                let text = clone_bytes(&self.current().text);
                self.advance();
                let n = text.len();
                if n == 3 && text[0] == 0x6f && text[1] == 0x70 && text[2] == 0x74 {
                    // opt type
                    let inner = match self.parse_type() {
                        Ok(t) => t,
                        Err(e) => {
                            return Err(e);
                        },
                    };
                    Ok(Sp { span: tok_span, elem: Type::Opt(Box::new(inner)) })
                } else if n == 3 && text[0] == 0x6d && text[1] == 0x75 && text[2] == 0x74 {
                    // mut type
                    let inner = match self.parse_type() {
                        Ok(t) => t,
                        Err(e) => {
                            return Err(e);
                        },
                    };
                    Ok(Sp { span: tok_span, elem: Type::Mut(Box::new(inner)) })
                } else {
                    classify_type_ident(text, tok_span)
                }
            },
            _ => {
                ReportKind::UnexpectedToken.title(String::from_str("Expected type")).span(tok_span)
                    .as_err()
            },
        }
    }
}

/// Classifies one type identifier that is not `opt` or `mut`: a named type,
/// a sized primitive family, or a bare nominal reference.
fn classify_type_ident(text: Vec<u8>, tok_span: Span) -> (r: Result<Sp<Type>, Report>)
    ensures
        is_void_text(text@) ==> (r matches Ok(t) && t.elem is Void),
        is_never_text(text@) ==> (r matches Ok(t) && t.elem is Never),
        is_usize_text(text@) ==> (r matches Ok(t) && t.elem is Usize),
        is_isize_text(text@) ==> (r matches Ok(t) && t.elem is Isize),
        sized_family_text(text@) ==> (r matches Ok(t) && (match t.elem {
            Type::U(w) => text@[0] == 0x75 && w == dec_value(text@.skip(1)),
            Type::I(w) => text@[0] == 0x69 && w == dec_value(text@.skip(1)),
            Type::B(w) => text@[0] == 0x62 && w == dec_value(text@.skip(1)),
            Type::F(w) => text@[0] == 0x66 && w == dec_value(text@.skip(1)),
            _ => false,
        })),
        nominal_text(text@) ==> (r matches Ok(t) && (t.elem matches Type::Ident(n) && n@
            == text@)),
{
    {
        let n = text.len();
        // the named types come first so that they are not mistaken for a
        // sized primitive family or a nominal reference
        if n == 4 && text[0] == 0x76 && text[1] == 0x6f && text[2] == 0x69 && text[3] == 0x64 {
            return Ok(Sp { span: tok_span, elem: Type::Void });  // void
        }
        if n == 5 && text[0] == 0x6e && text[1] == 0x65 && text[2] == 0x76 && text[3] == 0x65
            && text[4] == 0x72 {
            return Ok(Sp { span: tok_span, elem: Type::Never });  // never
        }
        if n == 5 && text[0] == 0x75 && text[1] == 0x73 && text[2] == 0x69 && text[3] == 0x7a
            && text[4] == 0x65 {
            return Ok(Sp { span: tok_span, elem: Type::Usize });  // usize
        }
        if n == 5 && text[0] == 0x69 && text[1] == 0x73 && text[2] == 0x69 && text[3] == 0x7a
            && text[4] == 0x65 {
            return Ok(Sp { span: tok_span, elem: Type::Isize });  // isize
        }
        if n >= 1 && (text[0] == 0x75 || text[0] == 0x69 || text[0] == 0x62 || text[0] == 0x66) {
            // a sized primitive family: the letter prefix is stripped and
            // the trailing digits give the width
            let digits = vstd::slice::slice_subrange(text.as_slice(), 1, n);
            proof {
                assert(digits@ =~= text@.skip(1));
            }
            let width = match parse_u64_bytes(digits) {
                Some(v) if v <= 0xffff_ffff => v as u32,
                _ => {
                    // suggest the matching family's smallest width
                    let example = if text[0] == 0x75 {
                        "try 'u8'"
                    } else if text[0] == 0x69 {
                        "try 'i8'"
                    } else if text[0] == 0x62 {
                        "try 'b8'"
                    } else {
                        "try 'f8'"
                    };
                    return ReportKind::InvalidNumber.title(
                        String::from_str("Invalid integer in primitive type"),
                    ).label(String::from_str(example)).span(tok_span).as_err();
                },
            };
            let ty = if text[0] == 0x75 {
                Type::U(width)
            } else if text[0] == 0x69 {
                Type::I(width)
            } else if text[0] == 0x62 {
                Type::B(width)
            } else {
                Type::F(width)
            };
            return Ok(Sp { span: tok_span, elem: ty });
        }
        Ok(Sp { span: tok_span, elem: Type::Ident(text) })
    }
}

} // verus!
