use sharc::lexer::{Lexer, TokenKind};
use sharc::report::ReportKind;

fn kinds(src: &[u8]) -> Vec<TokenKind> {
    let (tokens, _) = Lexer::tokenize(src);
    tokens.iter().map(|t| t.kind).collect()
}

#[test]
fn lexes_simple_function() {
    let (tokens, reports) = Lexer::tokenize(b"fn main(): void { ret; }");
    assert_eq!(reports.len(), 0);
    let ks: Vec<TokenKind> = tokens.iter().map(|t| t.kind).collect();
    assert_eq!(
        ks,
        vec![
            TokenKind::KWFn,
            TokenKind::Identifier,
            TokenKind::LParen,
            TokenKind::RParen,
            TokenKind::Colon,
            TokenKind::Identifier,
            TokenKind::LBrace,
            TokenKind::KWRet,
            TokenKind::Semicolon,
            TokenKind::RBrace,
            TokenKind::EOF,
        ]
    );
    assert_eq!(tokens[1].text, b"main".to_vec());
    assert_eq!(tokens[5].text, b"void".to_vec());
    assert_eq!(tokens[10].text, b"".to_vec());
}

#[test]
fn total_coverage_reconstructs_source() {
    // concatenating each token's text, recomputed from its span, gives the
    // source minus the skipped whitespace and comments
    let src: &[u8] = b"fn  x /* gap */ ( ) // tail\n{ }";
    let (tokens, reports) = Lexer::tokenize(src);
    assert_eq!(reports.len(), 0);
    let mut recomputed = Vec::new();
    let mut stored = Vec::new();
    for t in &tokens {
        recomputed.extend_from_slice(&src[t.span.start..t.span.end]);
        stored.extend_from_slice(&t.text);
    }
    assert_eq!(recomputed, stored);
    assert_eq!(stored, b"fnx(){}".to_vec());
}

#[test]
fn spans_are_ordered_and_disjoint() {
    let src: &[u8] = b"fn f(a: u8): void { ret; }";
    let (tokens, _) = Lexer::tokenize(src);
    for w in tokens.windows(2) {
        assert!(w[0].span.end <= w[1].span.start);
    }
    for t in &tokens {
        assert!(t.span.start <= t.span.end && t.span.end <= src.len());
        assert_eq!(t.text, src[t.span.start..t.span.end].to_vec());
    }
}

#[test]
fn string_with_bare_newline_reports_once() {
    // a literal newline inside unescaped quotes: exactly one diagnostic,
    // and no token runs past the line boundary
    let src: &[u8] = b"\"abc\ndef;";
    let newline = 4usize;
    let (tokens, reports) = Lexer::tokenize(src);
    assert_eq!(reports.len(), 1);
    assert_eq!(reports[0].kind, ReportKind::UnterminatedLiteral);
    assert!(tokens.iter().all(|t| t.kind != TokenKind::StringLiteral));
    for t in &tokens {
        assert!(t.span.end <= newline || t.span.start > newline);
    }
}

#[test]
fn string_literal_token_carries_quotes() {
    let (tokens, reports) = Lexer::tokenize(b"\"hi\\n\"");
    assert_eq!(reports.len(), 0);
    assert_eq!(tokens[0].kind, TokenKind::StringLiteral);
    assert_eq!(tokens[0].text, b"\"hi\\n\"".to_vec());
}

#[test]
fn unterminated_string_at_end_of_input() {
    let (tokens, reports) = Lexer::tokenize(b"\"abc");
    assert_eq!(reports.len(), 1);
    assert_eq!(reports[0].kind, ReportKind::UnterminatedLiteral);
    assert_eq!(tokens.len(), 1); // only the end-of-file token
}

#[test]
fn nested_comments_terminate() {
    let (tokens, reports) = Lexer::tokenize(b"/* a /* b */ c */ret");
    assert_eq!(reports.len(), 0);
    assert_eq!(tokens[0].kind, TokenKind::KWRet);
}

#[test]
fn unterminated_comment_reports_residual_depth() {
    let (_, reports) = Lexer::tokenize(b"/* /* never closed");
    assert_eq!(reports.len(), 1);
    assert_eq!(reports[0].kind, ReportKind::UnterminatedMultilineComment);
    assert_eq!(
        reports[0].title.as_deref(),
        Some("2 comments never terminated")
    );
}

#[test]
fn base_prefixes_select_their_base() {
    assert_eq!(
        kinds(b"0b10 0o17 0x1f 42 3.5"),
        vec![
            TokenKind::BinaryIntLiteral,
            TokenKind::OctalIntLiteral,
            TokenKind::HexadecimalIntLiteral,
            TokenKind::DecimalIntLiteral,
            TokenKind::FloatLiteral,
            TokenKind::EOF,
        ]
    );
}

#[test]
fn numeric_literal_spans_include_the_prefix() {
    let (tokens, _) = Lexer::tokenize(b"0x1f");
    assert_eq!(tokens[0].text, b"0x1f".to_vec());
}

#[test]
fn invalid_digit_for_base_is_reported() {
    let (_, reports) = Lexer::tokenize(b"0b102");
    assert_eq!(reports.len(), 1);
    assert_eq!(reports[0].kind, ReportKind::SyntaxError);
    assert_eq!(reports[0].title.as_deref(), Some("Invalid Integer Literal"));
}

#[test]
fn second_consecutive_dot_is_a_syntax_error() {
    let (_, reports) = Lexer::tokenize(b"1.2.");
    assert_eq!(reports.len(), 1);
    assert_eq!(reports[0].kind, ReportKind::SyntaxError);
    assert_eq!(reports[0].title.as_deref(), Some("Invalid Float Literal"));
}

#[test]
fn two_byte_operators_take_priority() {
    assert_eq!(
        kinds(b"-> -- <= << >= >> ~= ^^ && || => <-"),
        vec![
            TokenKind::ArrowRight,
            TokenKind::MinusMinus,
            TokenKind::LessThanEquals,
            TokenKind::ShiftLeft,
            TokenKind::GreaterThanEquals,
            TokenKind::ShiftRight,
            TokenKind::NotEquals,
            TokenKind::CaretCaret,
            TokenKind::AmpersandAmpersand,
            TokenKind::PipePipe,
            TokenKind::FatArrowRight,
            TokenKind::ArrowLeft,
            TokenKind::EOF,
        ]
    );
}

#[test]
fn keywords_classify_against_the_table() {
    assert_eq!(
        kinds(b"fn export ret struct enum impl type extern let other"),
        vec![
            TokenKind::KWFn,
            TokenKind::KWExport,
            TokenKind::KWRet,
            TokenKind::KWStruct,
            TokenKind::KWEnum,
            TokenKind::KWImpl,
            TokenKind::KWType,
            TokenKind::KWExtern,
            TokenKind::KWLet,
            TokenKind::Identifier,
            TokenKind::EOF,
        ]
    );
}

#[test]
fn char_literals() {
    let (tokens, reports) = Lexer::tokenize(b"'a' '\\n'");
    assert_eq!(reports.len(), 0);
    assert_eq!(tokens[0].kind, TokenKind::CharLiteral);
    assert_eq!(tokens[0].text, b"'a'".to_vec());
    assert_eq!(tokens[1].kind, TokenKind::CharLiteral);
    assert_eq!(tokens[1].text, b"'\\n'".to_vec());
}

#[test]
fn empty_char_literal_is_reported() {
    let (_, reports) = Lexer::tokenize(b"''");
    assert_eq!(reports.len(), 1);
    assert_eq!(reports[0].kind, ReportKind::EmptyLiteral);
}

#[test]
fn multi_byte_char_literal_is_reported() {
    let (_, reports) = Lexer::tokenize(b"'ab'");
    assert!(reports
        .iter()
        .any(|r| r.kind == ReportKind::UnterminatedLiteral));
}

#[test]
fn unexpected_byte_is_reported_and_skipped() {
    let (tokens, reports) = Lexer::tokenize(b"`ret");
    assert_eq!(reports.len(), 1);
    assert_eq!(reports[0].kind, ReportKind::UnexpectedCharacter);
    assert_eq!(tokens[0].kind, TokenKind::KWRet);
}

#[test]
fn stream_always_ends_with_one_eof() {
    for src in [&b""[..], b" ", b"fn", b"\"x"] {
        let (tokens, _) = Lexer::tokenize(src);
        assert!(tokens.len() >= 1);
        assert_eq!(tokens.last().unwrap().kind, TokenKind::EOF);
        assert!(tokens[..tokens.len() - 1]
            .iter()
            .all(|t| t.kind != TokenKind::EOF));
    }
}
