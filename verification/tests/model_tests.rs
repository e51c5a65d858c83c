use sharc::report::{error_count, Report, ReportKind};
use sharc::span::{Sp, Span, Spannable};
use sharc::token::{Location, Token, TokenKind};
use sharc::util::{bytes_eq, clone_bytes, copy_range, lcg, u64_to_string};

#[test]
fn span_construction() {
    let s = Span::new(3);
    assert_eq!(s.start, 3);
    assert_eq!(s.end, 3);
    let s = Span::new(3).end(7);
    assert_eq!((s.start, s.end), (3, 7));
    let s = Span::new(3).len(4);
    assert_eq!((s.start, s.end), (3, 7));
}

#[test]
fn span_extend_takes_the_outer_bounds() {
    let a = Span::new(2).end(5);
    let b = Span::new(4).end(9);
    let joined = a.extend(&b);
    assert_eq!((joined.start, joined.end), (2, 9));
}

#[test]
fn any_value_can_be_spanned() {
    let sp: Sp<u32> = 17u32.span(Span::new(1).end(2));
    assert_eq!(sp.elem, 17);
    assert_eq!((sp.span.start, sp.span.end), (1, 2));
}

#[test]
fn report_builders_compose() {
    let r = ReportKind::SyntaxError
        .title("bad input".to_string())
        .span(Span::new(4).end(6))
        .label("here".to_string())
        .help("try less".to_string())
        .note("noted".to_string())
        .file("x.shd".to_string());
    assert_eq!(r.kind, ReportKind::SyntaxError);
    assert_eq!(r.title.as_deref(), Some("bad input"));
    assert_eq!(r.span.map(|s| (s.start, s.end)), Some((4, 6)));
    assert_eq!(r.label.as_deref(), Some("here"));
    assert_eq!(
        r.footers,
        vec!["HELP: try less".to_string(), "NOTE: noted".to_string()]
    );
    assert_eq!(r.file.as_deref(), Some("x.shd"));
}

#[test]
fn first_span_wins() {
    let r = ReportKind::SyntaxError
        .untitled()
        .span(Span::new(1).end(2))
        .span(Span::new(8).end(9));
    assert_eq!(r.span.map(|s| (s.start, s.end)), Some((1, 2)));
}

#[test]
fn as_err_wraps_the_report() {
    let r: Result<(), Report> = ReportKind::IOError.untitled().as_err();
    assert!(matches!(r, Err(e) if e.kind == ReportKind::IOError));
}

#[test]
fn severity_ordering() {
    assert_eq!(ReportKind::SyntaxError.severity(), 3);
    assert_eq!(ReportKind::Undefined.severity(), 3);
    assert_eq!(ReportKind::ArgumentParserError.severity(), 4);
}

#[test]
fn error_count_counts_error_or_worse() {
    let reports = vec![
        ReportKind::SyntaxError.untitled(),
        ReportKind::ArgumentParserError.untitled(),
    ];
    assert_eq!(error_count(&reports), 2);
    assert_eq!(error_count(&Vec::new()), 0);
}

#[test]
fn decimal_rendering_is_exact() {
    assert_eq!(u64_to_string(0), "0");
    assert_eq!(u64_to_string(9), "9");
    assert_eq!(u64_to_string(10), "10");
    assert_eq!(u64_to_string(1234567890), "1234567890");
    assert_eq!(u64_to_string(u64::MAX), "18446744073709551615");
}

#[test]
fn lcg_steps_exactly() {
    let mut seed = 1u64;
    lcg(&mut seed);
    assert_eq!(seed, (1_664_525u64 * 1 + 1_013_904_223) % (1u64 << 32));
    let mut seed = 0u64;
    lcg(&mut seed);
    assert_eq!(seed, 1_013_904_223);
}

#[test]
fn byte_helpers() {
    assert!(bytes_eq(b"abc", b"abc"));
    assert!(!bytes_eq(b"abc", b"abd"));
    assert!(!bytes_eq(b"abc", b"ab"));
    assert_eq!(clone_bytes(&b"xyz".to_vec()), b"xyz".to_vec());
    assert_eq!(copy_range(b"hello", 1, 4), b"ell".to_vec());
}

fn here() -> Location {
    Location {
        filename: "a.shd".to_string(),
        line: 1,
        column_offset: 0,
    }
}

#[test]
fn located_token_constructors() {
    let t = Token::new(TokenKind::Plus, here(), b"+".to_vec());
    assert_eq!(t.kind, TokenKind::Plus);
    assert_eq!(t.flag, 0);
    let t = Token::new_simple(TokenKind::Comma, here());
    assert_eq!(t.text.len(), 0);
    let t = Token::new_eof(here());
    assert_eq!(t.kind, TokenKind::EOF);
}

#[test]
fn from_string_classifies_keywords() {
    assert_eq!(
        Token::from_string(here(), b"ret".to_vec()).kind,
        TokenKind::Ret
    );
    assert_eq!(
        Token::from_string(here(), b"jmp".to_vec()).kind,
        TokenKind::Jmp
    );
    assert_eq!(
        Token::from_string(here(), b"other".to_vec()).kind,
        TokenKind::Identifier
    );
}

#[test]
fn flag_bits_pack_and_unpack() {
    let mut t = Token::new_simple(TokenKind::Register, here());
    t.set_register_size(5);
    assert_eq!(t.register_size(), 5);
    t.set_flag_bit(7, true);
    assert_eq!(t.register_size(), 5, "upper bits leave the size alone");
    assert_eq!(t.flag, 0x85);
    t.set_flag_bit(7, false);
    assert_eq!(t.flag, 5);
    t.set_register_size(2);
    assert_eq!(t.register_size(), 2);
}

#[test]
fn newline_marker_reads_the_top_bit() {
    let marked = Token {
        kind: TokenKind::Newline,
        location: here(),
        text: Vec::new(),
        flag: 0x80,
    };
    assert!(marked.newline_before());
    let plain = Token::new_simple(TokenKind::Newline, here());
    assert!(!plain.newline_before());
}

#[test]
fn footer_kinds_carry_their_prefixes() {
    let r = ReportKind::SyntaxError
        .untitled()
        .help("a".to_string())
        .info("b".to_string())
        .note("c".to_string())
        .footer("d".to_string());
    assert_eq!(
        r.footers,
        vec![
            "HELP: a".to_string(),
            "INFO: b".to_string(),
            "NOTE: c".to_string(),
            "d".to_string(),
        ]
    );
}
